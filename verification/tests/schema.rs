use indexer_core::error::{ApiError, CompileError};
use indexer_core::lexer::{lex, Token};
use indexer_core::manager::SchemaManager;
use indexer_core::schema::{FieldDef, Schema, TypeDef};

fn field(name: &str, kind: &str, required: bool) -> FieldDef {
    FieldDef { name: name.to_string(), kind: kind.to_string(), required }
}

fn name(text: &str) -> Token {
    Token::Name(text.to_string())
}

#[test]
fn lexer_splits_names_and_marks() {
    assert_eq!(
        lex("type A_1{a:Int!}"),
        Ok(vec![
            name("type"),
            name("A_1"),
            Token::LeftBrace,
            name("a"),
            Token::Colon,
            name("Int"),
            Token::Bang,
            Token::RightBrace,
        ])
    );
    assert_eq!(lex(" \t\r\n,,"), Ok(Vec::new()));
    assert_eq!(lex(""), Ok(Vec::new()));
    assert_eq!(lex("a,b c\nd"), Ok(vec![name("a"), name("b"), name("c"), name("d")]));
}

#[test]
fn lexer_reports_the_first_character_it_cannot_place() {
    assert_eq!(lex("ab 1c"), Err(CompileError::InvalidCharacter(3)));
    assert_eq!(lex("a@b"), Err(CompileError::InvalidCharacter(1)));
    assert_eq!(lex("é"), Err(CompileError::InvalidCharacter(0)));
    assert_eq!(lex("aé#"), Err(CompileError::InvalidCharacter(1)));
    assert_eq!(lex("a1 _b2"), Ok(vec![name("a1"), name("_b2")]));
}

#[test]
fn schema_compiles_to_its_types_and_fields() {
    let schema = Schema::compile("demo", "type Ping { id: ID! value: Int! }").unwrap();
    assert_eq!(
        schema,
        Schema {
            namespace: "demo".to_string(),
            types: vec![TypeDef {
                name: "Ping".to_string(),
                fields: vec![field("id", "ID", true), field("value", "Int", true)],
            }],
        }
    );
}

#[test]
fn schema_takes_commas_line_breaks_and_empty_types() {
    let schema = Schema::compile("ns", "type A {\n  a: Int,\n  b: B!\n}\ntype B { }").unwrap();
    assert_eq!(
        schema.types,
        vec![
            TypeDef {
                name: "A".to_string(),
                fields: vec![field("a", "Int", false), field("b", "B", true)],
            },
            TypeDef { name: "B".to_string(), fields: Vec::new() },
        ]
    );
    assert_eq!(Schema::compile("ns", "").unwrap().types, Vec::new());
}

#[test]
fn schema_lookup_finds_types_and_fields_by_name() {
    let schema = Schema::compile("ns", "type A { a: Int b: B! } type B { c: ID }").unwrap();
    assert_eq!(schema.type_named("B").unwrap().name, "B");
    assert!(schema.type_named("C").is_none());
    let a = schema.type_named("A").unwrap();
    assert_eq!(a.field("b"), Some(&field("b", "B", true)));
    assert_eq!(a.field("c"), None);
    assert_eq!(schema.duplicate(), schema);
}

#[test]
fn schema_with_a_directive_does_not_compile() {
    assert_eq!(
        Schema::compile("demo", "type Ping @entity { id: ID! }"),
        Err(CompileError::InvalidCharacter(10))
    );
}

#[test]
fn schema_syntax_errors_name_the_offending_token() {
    let cases: Vec<(&str, usize)> = vec![
        ("Ping { id: ID }", 0),
        ("type", 1),
        ("type { }", 1),
        ("type Ping id: ID }", 2),
        ("type Ping", 2),
        ("type Ping {", 3),
        ("type Ping { ! }", 3),
        ("type Ping { id ID }", 4),
        ("type Ping { id: }", 5),
        ("type Ping { id: ID", 6),
        ("type Ping { id: ID! ", 7),
        ("type Ping { id: ID!! }", 7),
        ("type Ping { id: ID } }", 7),
    ];
    for (text, at) in cases {
        assert_eq!(Schema::compile("demo", text), Err(CompileError::Syntax(at)), "{}", text);
    }
}

#[test]
fn schema_with_a_type_declared_twice_does_not_compile() {
    assert_eq!(
        Schema::compile("demo", "type A { a: Int } type B { b: Int } type A { c: Int }"),
        Err(CompileError::DuplicateType("A".to_string()))
    );
}

#[test]
fn schema_with_a_field_declared_twice_does_not_compile() {
    assert_eq!(
        Schema::compile("demo", "type A { a: Int b: Int a: String }"),
        Err(CompileError::DuplicateField("A".to_string(), "a".to_string()))
    );
    // The first type that is wrong decides.
    assert_eq!(
        Schema::compile("demo", "type A { a: Int a: Int } type A { }"),
        Err(CompileError::DuplicateField("A".to_string(), "a".to_string()))
    );
}

#[test]
fn manager_loads_what_was_installed() {
    let mut manager = SchemaManager::new();
    assert_eq!(manager.load_schema("demo"), Err(ApiError::NotFound("demo".to_string())));
    assert_eq!(manager.new_schema("demo", "type Ping { id: ID! }"), Ok(()));
    assert_eq!(manager.new_schema("other", "type Pong { id: ID! }"), Ok(()));
    assert_eq!(
        manager.load_schema("demo"),
        Ok(Schema::compile("demo", "type Ping { id: ID! }").unwrap())
    );
    assert_eq!(
        manager.load_schema("other"),
        Ok(Schema::compile("other", "type Pong { id: ID! }").unwrap())
    );
    assert_eq!(manager.load_schema("Demo"), Err(ApiError::NotFound("Demo".to_string())));
}

#[test]
fn manager_replaces_a_schema_whole() {
    let mut manager = SchemaManager::new();
    manager.new_schema("demo", "type Ping { id: ID! } type Pong { id: ID! }").unwrap();
    manager.new_schema("other", "type Pong { id: ID! }").unwrap();
    manager.new_schema("demo", "type Pung { id: ID! }").unwrap();
    assert_eq!(
        manager.load_schema("demo"),
        Ok(Schema::compile("demo", "type Pung { id: ID! }").unwrap())
    );
    assert_eq!(
        manager.load_schema("other"),
        Ok(Schema::compile("other", "type Pong { id: ID! }").unwrap())
    );
}

#[test]
fn manager_never_installs_a_schema_that_does_not_compile() {
    let mut manager = SchemaManager::new();
    manager.new_schema("demo", "type Ping { id: ID! }").unwrap();
    assert_eq!(
        manager.new_schema("demo", "type Ping { id: ID! } type Ping { id: ID! }"),
        Err(ApiError::Compile(CompileError::DuplicateType("Ping".to_string())))
    );
    assert_eq!(
        manager.new_schema("fresh", "type {"),
        Err(ApiError::Compile(CompileError::Syntax(1)))
    );
    assert_eq!(
        manager.load_schema("demo"),
        Ok(Schema::compile("demo", "type Ping { id: ID! }").unwrap())
    );
    assert_eq!(manager.load_schema("fresh"), Err(ApiError::NotFound("fresh".to_string())));
}
