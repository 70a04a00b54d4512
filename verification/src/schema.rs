//! Compiled schemas: the types of one namespace, each with its fields.
//!
//! A schema text is a run of definitions `type Name { field: Type ... }`; a
//! `!` behind a field's type marks the field as required. A type stands for a
//! table of its name in the namespace, a field for a column of its name. A
//! field whose type the schema declares refers to a row of that type; any
//! other type name is a scalar.

use vstd::prelude::*;
use vstd::string::*;
use crate::error::{CompileError, CompileFault};
use crate::lexer::{lex, lex_text, lexemes, Lexeme, Token};
use crate::text::{copy_text, text_eq};

verus! {

/// One field of a type.
#[derive(Clone, Debug, PartialEq, Eq)]
pub struct FieldDef {
    pub name: String,
    pub kind: String,
    pub required: bool,
}

/// The mathematical value of a [`FieldDef`].
pub ghost struct FieldSpec {
    pub name: Seq<char>,
    pub kind: Seq<char>,
    pub required: bool,
}

impl View for FieldDef {
    type V = FieldSpec;

    open spec fn view(&self) -> FieldSpec {
        FieldSpec { name: self.name@, kind: self.kind@, required: self.required }
    }
}

/// The mathematical values of a list of fields, in order.
pub open spec fn field_specs(fields: Seq<FieldDef>) -> Seq<FieldSpec> {
    fields.map_values(|field: FieldDef| field@)
}

/// One type of a schema.
#[derive(Clone, Debug, PartialEq, Eq)]
pub struct TypeDef {
    pub name: String,
    pub fields: Vec<FieldDef>,
}

/// The mathematical value of a [`TypeDef`].
pub ghost struct TypeSpec {
    pub name: Seq<char>,
    pub fields: Seq<FieldSpec>,
}

impl View for TypeDef {
    type V = TypeSpec;

    open spec fn view(&self) -> TypeSpec {
        TypeSpec { name: self.name@, fields: field_specs(self.fields@) }
    }
}

/// The mathematical values of a list of types, in order.
pub open spec fn type_specs(types: Seq<TypeDef>) -> Seq<TypeSpec> {
    types.map_values(|def: TypeDef| def@)
}

/// The compiled schema of one namespace.
#[derive(Clone, Debug, PartialEq, Eq)]
pub struct Schema {
    pub namespace: String,
    pub types: Vec<TypeDef>,
}

/// The mathematical value of a [`Schema`].
pub ghost struct SchemaSpec {
    pub namespace: Seq<char>,
    pub types: Seq<TypeSpec>,
}

impl View for Schema {
    type V = SchemaSpec;

    open spec fn view(&self) -> SchemaSpec {
        SchemaSpec { namespace: self.namespace@, types: type_specs(self.types@) }
    }
}

/// The first field, from `from` on, of the given name.
pub open spec fn find_field(fields: Seq<FieldSpec>, name: Seq<char>, from: int) -> Option<
    FieldSpec,
>
    decreases fields.len() - from,
{
    if from < 0 || from >= fields.len() {
        None
    } else if fields[from].name == name {
        Some(fields[from])
    } else {
        find_field(fields, name, from + 1)
    }
}

/// The first type, from `from` on, of the given name.
pub open spec fn find_type(types: Seq<TypeSpec>, name: Seq<char>, from: int) -> Option<TypeSpec>
    decreases types.len() - from,
{
    if from < 0 || from >= types.len() {
        None
    } else if types[from].name == name {
        Some(types[from])
    } else {
        find_type(types, name, from + 1)
    }
}

impl TypeSpec {
    /// Whether the type has a field of the given name.
    pub open spec fn has_field(self, name: Seq<char>) -> bool {
        exists|at: int| 0 <= at < self.fields.len() && (#[trigger] self.fields[at]).name == name
    }

    /// The type's first field of the given name.
    pub open spec fn field(self, name: Seq<char>) -> Option<FieldSpec> {
        find_field(self.fields, name, 0)
    }
}

/// A field is found exactly where one of the name exists, and what is found
/// has the name.
pub proof fn lemma_find_field(fields: Seq<FieldSpec>, name: Seq<char>, from: int)
    requires
        0 <= from,
    ensures
        find_field(fields, name, from) is Some <==> exists|at: int|
            from <= at < fields.len() && (#[trigger] fields[at]).name == name,
        find_field(fields, name, from) matches Some(field) ==> field.name == name,
    decreases fields.len() - from,
{
    if from < fields.len() {
        lemma_find_field(fields, name, from + 1);
        if fields[from].name != name {
            if exists|at: int| from <= at < fields.len() && (#[trigger] fields[at]).name == name {
                let at = choose|at: int|
                    from <= at < fields.len() && (#[trigger] fields[at]).name == name;
                assert(from + 1 <= at);
            }
        }
    }
}

/// A type is found exactly where one of the name exists, and what is found
/// has the name.
pub proof fn lemma_find_type(types: Seq<TypeSpec>, name: Seq<char>, from: int)
    requires
        0 <= from,
    ensures
        find_type(types, name, from) is Some <==> exists|at: int|
            from <= at < types.len() && (#[trigger] types[at]).name == name,
        find_type(types, name, from) matches Some(def) ==> def.name == name && exists|at: int|
            from <= at < types.len() && #[trigger] types[at] == def,
    decreases types.len() - from,
{
    if from < types.len() {
        lemma_find_type(types, name, from + 1);
        if types[from].name != name {
            if exists|at: int| from <= at < types.len() && (#[trigger] types[at]).name == name {
                let at = choose|at: int|
                    from <= at < types.len() && (#[trigger] types[at]).name == name;
                assert(from + 1 <= at);
            }
        }
    }
}

impl SchemaSpec {
    /// The schema's first type of the given name.
    pub open spec fn type_named(self, name: Seq<char>) -> Option<TypeSpec> {
        find_type(self.types, name, 0)
    }

    /// Whether the schema declares a type of the given name.
    pub open spec fn has_type(self, name: Seq<char>) -> bool {
        exists|at: int| 0 <= at < self.types.len() && (#[trigger] self.types[at]).name == name
    }

    /// Whether no two types share a name, and in no type two fields.
    pub open spec fn distinct(self) -> bool {
        &&& forall|i: int, j: int|
            0 <= i < j < self.types.len() ==> (#[trigger] self.types[i]).name != (
            #[trigger] self.types[j]).name
        &&& forall|t: int, i: int, j: int|
            0 <= t < self.types.len() && 0 <= i < j < self.types[t].fields.len() ==> (
            #[trigger] self.types[t].fields[i]).name != (#[trigger] self.types[t].fields[j]).name
    }
}

/// `done`, followed by the fields that are still to come, unless they fail.
pub open spec fn then_fields(
    done: Seq<FieldSpec>,
    used: nat,
    rest: Result<(Seq<FieldSpec>, nat), CompileFault>,
) -> Result<(Seq<FieldSpec>, nat), CompileFault> {
    match rest {
        Ok((rest, more)) => Ok((done + rest, used + more)),
        Err(fault) => Err(fault),
    }
}

/// The fields that the tokens from `from` on declare, up to the `}` that
/// closes them, and the number of tokens that this takes, the `}` included.
pub open spec fn parse_fields(tokens: Seq<Lexeme>, from: int) -> Result<
    (Seq<FieldSpec>, nat),
    CompileFault,
>
    decreases tokens.len() - from,
{
    if from < 0 || from >= tokens.len() {
        Err(CompileFault::Syntax(tokens.len()))
    } else if tokens[from] == Lexeme::RightBrace {
        Ok((Seq::empty(), 1))
    } else if !(tokens[from] is Name) {
        Err(CompileFault::Syntax(from as nat))
    } else if from + 1 >= tokens.len() || tokens[from + 1] != Lexeme::Colon {
        Err(CompileFault::Syntax((from + 1) as nat))
    } else if from + 2 >= tokens.len() || !(tokens[from + 2] is Name) {
        Err(CompileFault::Syntax((from + 2) as nat))
    } else {
        let required = from + 3 < tokens.len() && tokens[from + 3] == Lexeme::Bang;
        let used: nat = if required {
            4
        } else {
            3
        };
        let field = FieldSpec {
            name: tokens[from]->Name_0,
            kind: tokens[from + 2]->Name_0,
            required,
        };
        then_fields(seq![field], used, parse_fields(tokens, from + used))
    }
}

/// A list of fields ends within the tokens.
pub proof fn lemma_fields_end(tokens: Seq<Lexeme>, from: int)
    requires
        0 <= from <= tokens.len(),
    ensures
        parse_fields(tokens, from) matches Ok((_, used)) ==> 0 < used && from + used
            <= tokens.len(),
    decreases tokens.len() - from,
{
    if let Ok((_, _)) = parse_fields(tokens, from) {
        if tokens[from] != Lexeme::RightBrace {
            let required = from + 3 < tokens.len() && tokens[from + 3] == Lexeme::Bang;
            let used: nat = if required {
                4
            } else {
                3
            };
            lemma_fields_end(tokens, from + used);
        }
    }
}

/// `done`, followed by the types that are still to come, unless they fail.
pub open spec fn then_types(
    done: Seq<TypeSpec>,
    rest: Result<Seq<TypeSpec>, CompileFault>,
) -> Result<Seq<TypeSpec>, CompileFault> {
    match rest {
        Ok(rest) => Ok(done + rest),
        Err(fault) => Err(fault),
    }
}

/// The types that the tokens from `from` on declare. The first token that
/// cannot stand where it does fails the whole text, with its index.
pub open spec fn parse_types(tokens: Seq<Lexeme>, from: int) -> Result<Seq<TypeSpec>, CompileFault>
    decreases tokens.len() - from,
{
    if from < 0 || from >= tokens.len() {
        Ok(Seq::empty())
    } else if tokens[from] != Lexeme::Name("type"@) {
        Err(CompileFault::Syntax(from as nat))
    } else if from + 1 >= tokens.len() || !(tokens[from + 1] is Name) {
        Err(CompileFault::Syntax((from + 1) as nat))
    } else if from + 2 >= tokens.len() || tokens[from + 2] != Lexeme::LeftBrace {
        Err(CompileFault::Syntax((from + 2) as nat))
    } else {
        match parse_fields(tokens, from + 3) {
            Err(fault) => Err(fault),
            Ok((fields, used)) => {
                proof {
                    lemma_fields_end(tokens, from + 3);
                }
                then_types(
                    seq![TypeSpec { name: tokens[from + 1]->Name_0, fields }],
                    parse_types(tokens, from + 3 + used),
                )
            },
        }
    }
}

/// Whether the name at `at` stands earlier in the list too.
pub open spec fn repeats(names: Seq<Seq<char>>, at: int) -> bool {
    exists|earlier: int| 0 <= earlier < at && #[trigger] names[earlier] == names[at]
}

/// The first name, from `from` on, that stands earlier in the list too.
pub open spec fn first_repeat(names: Seq<Seq<char>>, from: int) -> Option<Seq<char>>
    decreases names.len() - from,
{
    if from < 0 || from >= names.len() {
        None
    } else if repeats(names, from) {
        Some(names[from])
    } else {
        first_repeat(names, from + 1)
    }
}

/// The names of a list of fields, in order.
pub open spec fn names_of_fields(fields: Seq<FieldSpec>) -> Seq<Seq<char>> {
    fields.map_values(|field: FieldSpec| field.name)
}

/// The names of a list of types, in order.
pub open spec fn names_of_types(types: Seq<TypeSpec>) -> Seq<Seq<char>> {
    types.map_values(|def: TypeSpec| def.name)
}

/// What is wrong with the first type, from `from` on, that repeats the name
/// of an earlier type or holds two fields of one name.
pub open spec fn first_clash(types: Seq<TypeSpec>, from: int) -> Option<CompileFault>
    decreases types.len() - from,
{
    if from < 0 || from >= types.len() {
        None
    } else if repeats(names_of_types(types), from) {
        Some(CompileFault::DuplicateType(types[from].name))
    } else {
        match first_repeat(names_of_fields(types[from].fields), 0) {
            Some(field) => Some(CompileFault::DuplicateField(types[from].name, field)),
            None => first_clash(types, from + 1),
        }
    }
}

/// The schema that a text declares for a namespace, or why it declares none.
pub open spec fn schema_of_text(namespace: Seq<char>, text: Seq<char>) -> Result<
    SchemaSpec,
    CompileFault,
> {
    match lex_text(text) {
        Err(fault) => Err(fault),
        Ok(tokens) => match parse_types(tokens, 0) {
            Err(fault) => Err(fault),
            Ok(types) => match first_clash(types, 0) {
                Some(fault) => Err(fault),
                None => Ok(SchemaSpec { namespace, types }),
            },
        },
    }
}

/// Where no name repeats from `from` on, no two names from there on are equal
/// to each other or to an earlier one.
proof fn lemma_no_repeat(names: Seq<Seq<char>>, from: int)
    requires
        0 <= from,
        first_repeat(names, from) is None,
    ensures
        forall|i: int, j: int|
            0 <= i < j < names.len() && from <= j ==> #[trigger] names[i] != #[trigger] names[j],
    decreases names.len() - from,
{
    if from < names.len() {
        lemma_no_repeat(names, from + 1);
        assert forall|i: int, j: int| 0 <= i < j < names.len() && from <= j implies #[trigger] names[i]
            != #[trigger] names[j] by {
            if j == from && names[i] == names[j] {
                assert(repeats(names, from));
            }
        }
    }
}

/// Where no type clashes from `from` on, no type from there on shares its
/// name with another before it, and none holds two fields of one name.
proof fn lemma_no_clash(types: Seq<TypeSpec>, from: int)
    requires
        0 <= from,
        first_clash(types, from) is None,
    ensures
        forall|i: int, j: int|
            0 <= i < j < types.len() && from <= j ==> (#[trigger] types[i]).name != (
            #[trigger] types[j]).name,
        forall|t: int, i: int, j: int|
            from <= t < types.len() && 0 <= i < j < types[t].fields.len() ==> (
            #[trigger] types[t].fields[i]).name != (#[trigger] types[t].fields[j]).name,
    decreases types.len() - from,
{
    if from < types.len() {
        lemma_no_clash(types, from + 1);
        lemma_no_repeat(names_of_fields(types[from].fields), 0);
        assert forall|i: int, j: int| 0 <= i < j < types.len() && from <= j implies (
        #[trigger] types[i]).name != (#[trigger] types[j]).name by {
            if j == from && types[i].name == types[j].name {
                assert(names_of_types(types)[i] == names_of_types(types)[from]);
                assert(repeats(names_of_types(types), from));
            }
        }
        assert forall|t: int, i: int, j: int|
            from <= t < types.len() && 0 <= i < j < types[t].fields.len() implies (
        #[trigger] types[t].fields[i]).name != (#[trigger] types[t].fields[j]).name by {
            if t == from {
                let names = names_of_fields(types[from].fields);
                assert(names[i] != names[j]);
            }
        }
    }
}

/// In a schema that compiled, no two types share a name, and in no type two
/// fields; the schema is that of the namespace it was compiled for.
pub proof fn lemma_compiled_schema_is_distinct(namespace: Seq<char>, text: Seq<char>)
    ensures
        schema_of_text(namespace, text) matches Ok(schema) ==> schema.distinct()
            && schema.namespace == namespace,
{
    if let Ok(schema) = schema_of_text(namespace, text) {
        lemma_no_clash(schema.types, 0);
    }
}

impl FieldDef {
    /// A copy of the field.
    pub fn duplicate(&self) -> (copy: FieldDef)
        ensures
            copy@ == self@,
    {
        FieldDef {
            name: copy_text(&self.name),
            kind: copy_text(&self.kind),
            required: self.required,
        }
    }
}

impl TypeDef {
    /// A copy of the type.
    pub fn duplicate(&self) -> (copy: TypeDef)
        ensures
            copy@ == self@,
    {
        let mut fields: Vec<FieldDef> = Vec::new();
        let mut i: usize = 0;
        while i < self.fields.len()
            invariant
                i <= self.fields.len(),
                fields.len() == i,
                forall|k: int| 0 <= k < i ==> fields@[k]@ == self.fields@[k]@,
            decreases self.fields.len() - i,
        {
            fields.push(self.fields[i].duplicate());
            i += 1;
        }
        assert(field_specs(fields@) =~= field_specs(self.fields@));
        TypeDef { name: copy_text(&self.name), fields }
    }

    /// The first field of the given name.
    pub fn field(&self, name: &str) -> (found: Option<&FieldDef>)
        ensures
            match self@.field(name@) {
                Some(field) => found matches Some(f) && f@ == field,
                None => found is None,
            },
    {
        let mut i: usize = 0;
        while i < self.fields.len()
            invariant
                i <= self.fields.len(),
                self@.field(name@) == find_field(self@.fields, name@, i as int),
            decreases self.fields.len() - i,
        {
            if text_eq(self.fields[i].name.as_str(), name) {
                return Some(&self.fields[i]);
            }
            i += 1;
        }
        None
    }
}

impl Schema {
    /// The first type of the given name.
    pub fn type_named(&self, name: &str) -> (found: Option<&TypeDef>)
        ensures
            match self@.type_named(name@) {
                Some(def) => found matches Some(d) && d@ == def,
                None => found is None,
            },
    {
        let mut i: usize = 0;
        while i < self.types.len()
            invariant
                i <= self.types.len(),
                self@.type_named(name@) == find_type(self@.types, name@, i as int),
            decreases self.types.len() - i,
        {
            if text_eq(self.types[i].name.as_str(), name) {
                return Some(&self.types[i]);
            }
            i += 1;
        }
        None
    }

    /// A copy of the schema.
    pub fn duplicate(&self) -> (copy: Schema)
        ensures
            copy@ == self@,
    {
        let mut types: Vec<TypeDef> = Vec::new();
        let mut i: usize = 0;
        while i < self.types.len()
            invariant
                i <= self.types.len(),
                types.len() == i,
                forall|k: int| 0 <= k < i ==> types@[k]@ == self.types@[k]@,
            decreases self.types.len() - i,
        {
            types.push(self.types[i].duplicate());
            i += 1;
        }
        assert(type_specs(types@) =~= type_specs(self.types@));
        Schema { namespace: copy_text(&self.namespace), types }
    }

    /// Compiles the schema that `text` declares for `namespace`.
    pub fn compile(namespace: &str, text: &str) -> (out: Result<Schema, CompileError>)
        ensures
            match schema_of_text(namespace@, text@) {
                Ok(expected) => out matches Ok(schema) && schema@ == expected,
                Err(fault) => out matches Err(e) && e@ == fault,
            },
    {
        let tokens = match lex(text) {
            Ok(tokens) => tokens,
            Err(e) => {
                return Err(e);
            },
        };
        let types = match parse_type_list(&tokens) {
            Ok(types) => types,
            Err(e) => {
                return Err(e);
            },
        };
        match find_clash(&types) {
            Some(e) => Err(e),
            None => Ok(Schema { namespace: String::from_str(namespace), types }),
        }
    }
}

/// Reads the fields of one type, up to the `}` that closes them.
fn parse_field_list(tokens: &Vec<Token>, from: usize) -> (out: Result<
    (Vec<FieldDef>, usize),
    CompileError,
>)
    requires
        from <= tokens.len(),
    ensures
        match parse_fields(lexemes(tokens@), from as int) {
            Ok((expected, used)) => out matches Ok((fields, next)) && field_specs(fields@)
                == expected && next == from + used && next <= tokens.len(),
            Err(fault) => out matches Err(e) && e@ == fault,
        },
{
    let ghost all = lexemes(tokens@);
    let mut fields: Vec<FieldDef> = Vec::new();
    let mut i: usize = from;
    proof {
        match parse_fields(all, from as int) {
            Ok((rest, _)) => {
                assert(field_specs(fields@) + rest =~= rest);
            },
            Err(_) => {},
        }
    }
    loop
        invariant
            from <= i <= tokens.len(),
            all == lexemes(tokens@),
            parse_fields(all, from as int) == then_fields(
                field_specs(fields@),
                (i - from) as nat,
                parse_fields(all, i as int),
            ),
        decreases tokens.len() - i,
    {
        if i >= tokens.len() {
            return Err(CompileError::Syntax(tokens.len()));
        }
        assert(all[i as int] == tokens@[i as int]@);
        if tokens[i].is_right_brace() {
            assert(field_specs(fields@) + Seq::<FieldSpec>::empty() =~= field_specs(fields@));
            return Ok((fields, i + 1));
        }
        let name = match tokens[i].name() {
            Some(name) => copy_text(name),
            None => {
                return Err(CompileError::Syntax(i));
            },
        };
        if i + 1 >= tokens.len() {
            return Err(CompileError::Syntax(i + 1));
        }
        assert(all[i + 1] == tokens@[i + 1]@);
        if !tokens[i + 1].is_colon() {
            return Err(CompileError::Syntax(i + 1));
        }
        if i + 2 >= tokens.len() {
            return Err(CompileError::Syntax(i + 2));
        }
        assert(all[i + 2] == tokens@[i + 2]@);
        let kind = match tokens[i + 2].name() {
            Some(name) => copy_text(name),
            None => {
                return Err(CompileError::Syntax(i + 2));
            },
        };
        let mut required = false;
        if i + 3 < tokens.len() {
            assert(all[i + 3] == tokens@[i + 3]@);
            required = tokens[i + 3].is_bang();
        }
        let used: usize = if required {
            4
        } else {
            3
        };
        let field = FieldDef { name, kind, required };
        proof {
            let done = field_specs(fields@);
            let one = seq![field@];
            assert(field_specs(fields@.push(field)) =~= done + one);
            match parse_fields(all, i + used) {
                Ok((rest, _)) => {
                    assert((done + one) + rest =~= done + (one + rest));
                },
                Err(_) => {},
            }
        }
        fields.push(field);
        i = i + used;
    }
}

/// Reads the types that the tokens declare.
fn parse_type_list(tokens: &Vec<Token>) -> (out: Result<Vec<TypeDef>, CompileError>)
    ensures
        match parse_types(lexemes(tokens@), 0) {
            Ok(expected) => out matches Ok(types) && type_specs(types@) == expected,
            Err(fault) => out matches Err(e) && e@ == fault,
        },
{
    let ghost all = lexemes(tokens@);
    let mut types: Vec<TypeDef> = Vec::new();
    let mut i: usize = 0;
    proof {
        match parse_types(all, 0) {
            Ok(rest) => {
                assert(type_specs(types@) + rest =~= rest);
            },
            Err(_) => {},
        }
    }
    while i < tokens.len()
        invariant
            i <= tokens.len(),
            all == lexemes(tokens@),
            parse_types(all, 0) == then_types(type_specs(types@), parse_types(all, i as int)),
        decreases tokens.len() - i,
    {
        assert(all[i as int] == tokens@[i as int]@);
        let opens = match tokens[i].name() {
            Some(word) => text_eq(word.as_str(), "type"),
            None => false,
        };
        if !opens {
            return Err(CompileError::Syntax(i));
        }
        if i + 1 >= tokens.len() {
            return Err(CompileError::Syntax(i + 1));
        }
        assert(all[i + 1] == tokens@[i + 1]@);
        let name = match tokens[i + 1].name() {
            Some(name) => copy_text(name),
            None => {
                return Err(CompileError::Syntax(i + 1));
            },
        };
        if i + 2 >= tokens.len() {
            return Err(CompileError::Syntax(i + 2));
        }
        assert(all[i + 2] == tokens@[i + 2]@);
        if !tokens[i + 2].is_left_brace() {
            return Err(CompileError::Syntax(i + 2));
        }
        let (fields, next) = match parse_field_list(tokens, i + 3) {
            Ok(parsed) => parsed,
            Err(e) => {
                return Err(e);
            },
        };
        let def = TypeDef { name, fields };
        proof {
            let done = type_specs(types@);
            let one = seq![def@];
            assert(type_specs(types@.push(def)) =~= done + one);
            match parse_types(all, next as int) {
                Ok(rest) => {
                    assert((done + one) + rest =~= done + (one + rest));
                },
                Err(_) => {},
            }
        }
        types.push(def);
        i = next;
    }
    assert(type_specs(types@) + Seq::<TypeSpec>::empty() =~= type_specs(types@));
    Ok(types)
}

/// Whether the field at `at` has the name of an earlier field.
fn field_repeats(fields: &Vec<FieldDef>, at: usize) -> (found: bool)
    requires
        at < fields.len(),
    ensures
        found == repeats(names_of_fields(field_specs(fields@)), at as int),
{
    let ghost names = names_of_fields(field_specs(fields@));
    let mut k: usize = 0;
    while k < at
        invariant
            k <= at < fields.len(),
            names == names_of_fields(field_specs(fields@)),
            forall|e: int| 0 <= e < k ==> #[trigger] names[e] != names[at as int],
        decreases at - k,
    {
        if text_eq(fields[k].name.as_str(), fields[at].name.as_str()) {
            assert(names[k as int] == names[at as int]);
            return true;
        }
        k += 1;
    }
    false
}

/// Whether the type at `at` has the name of an earlier type.
fn type_repeats(types: &Vec<TypeDef>, at: usize) -> (found: bool)
    requires
        at < types.len(),
    ensures
        found == repeats(names_of_types(type_specs(types@)), at as int),
{
    let ghost names = names_of_types(type_specs(types@));
    let mut k: usize = 0;
    while k < at
        invariant
            k <= at < types.len(),
            names == names_of_types(type_specs(types@)),
            forall|e: int| 0 <= e < k ==> #[trigger] names[e] != names[at as int],
        decreases at - k,
    {
        if text_eq(types[k].name.as_str(), types[at].name.as_str()) {
            assert(names[k as int] == names[at as int]);
            return true;
        }
        k += 1;
    }
    false
}

/// The first field name that stands earlier in the list too.
fn find_repeated_field(fields: &Vec<FieldDef>) -> (found: Option<String>)
    ensures
        match first_repeat(names_of_fields(field_specs(fields@)), 0) {
            Some(name) => found matches Some(n) && n@ == name,
            None => found is None,
        },
{
    let ghost names = names_of_fields(field_specs(fields@));
    let mut i: usize = 0;
    while i < fields.len()
        invariant
            i <= fields.len(),
            names == names_of_fields(field_specs(fields@)),
            first_repeat(names, 0) == first_repeat(names, i as int),
        decreases fields.len() - i,
    {
        if field_repeats(fields, i) {
            return Some(copy_text(&fields[i].name));
        }
        i += 1;
    }
    None
}

/// What is wrong with the first type that clashes, if one does.
fn find_clash(types: &Vec<TypeDef>) -> (found: Option<CompileError>)
    ensures
        match first_clash(type_specs(types@), 0) {
            Some(fault) => found matches Some(e) && e@ == fault,
            None => found is None,
        },
{
    let ghost all = type_specs(types@);
    let mut i: usize = 0;
    while i < types.len()
        invariant
            i <= types.len(),
            all == type_specs(types@),
            first_clash(all, 0) == first_clash(all, i as int),
        decreases types.len() - i,
    {
        if type_repeats(types, i) {
            return Some(CompileError::DuplicateType(copy_text(&types[i].name)));
        }
        match find_repeated_field(&types[i].fields) {
            Some(field) => {
                return Some(CompileError::DuplicateField(copy_text(&types[i].name), field));
            },
            None => {},
        }
        i += 1;
    }
    None
}

} // verus!
