//! The query compiler: a GraphQL selection, checked against a schema, becomes
//! one SQL statement for each type that it selects at its root.
//!
//! A query is a selection set in braces, which the word `query` and a name
//! may precede. At the root it names types; inside a type it names fields,
//! and a field that refers to another type may carry a selection set of its
//! own. The statement for a root answers with one JSON object per row, shaped
//! as the selection is.

use vstd::prelude::*;
use vstd::string::*;
use crate::error::{ApiError, ApiFault, CompileError, CompileFault};
use crate::lexer::{lex, lex_text, lexemes, Lexeme, Token};
use crate::manager::SchemaManager;
use crate::schema::{Schema, SchemaSpec, TypeDef, TypeSpec};
use crate::text::{copy_text, text_eq};

verus! {

/// A request to run a query. `params` is reserved and not read.
#[derive(Clone, Debug, PartialEq, Eq)]
pub struct Query {
    pub query: String,
    pub params: String,
}

/// One selected name and what is selected inside it.
#[derive(Debug)]
pub struct Selection {
    pub name: String,
    pub fields: Vec<Selection>,
}

/// The mathematical value of a [`Selection`].
pub ghost struct SelectionSpec {
    pub name: Seq<char>,
    pub fields: Seq<SelectionSpec>,
}

/// The mathematical value of a selection.
pub open spec fn selection_spec(selection: Selection) -> SelectionSpec
    decreases selection,
{
    SelectionSpec {
        name: selection.name@,
        fields: Seq::new(
            selection.fields.len() as nat,
            |i: int|
                if 0 <= i < selection.fields.len() {
                    selection_spec(selection.fields[i])
                } else {
                    arbitrary()
                },
        ),
    }
}

impl View for Selection {
    type V = SelectionSpec;

    open spec fn view(&self) -> SelectionSpec {
        selection_spec(*self)
    }
}

/// The mathematical values of a list of selections, in order.
pub open spec fn selection_specs(list: Seq<Selection>) -> Seq<SelectionSpec> {
    list.map_values(|selection: Selection| selection@)
}

/// The value of a selection holds the values of its fields.
pub proof fn lemma_selection_fields(selection: Selection)
    ensures
        selection@.name == selection.name@,
        selection@.fields == selection_specs(selection.fields@),
{
    assert(selection@.fields =~= selection_specs(selection.fields@));
}

/// `done`, followed by the selections that are still to come, unless they fail.
pub open spec fn then_selections(
    done: Seq<SelectionSpec>,
    used: nat,
    rest: Result<(Seq<SelectionSpec>, nat), CompileFault>,
) -> Result<(Seq<SelectionSpec>, nat), CompileFault> {
    match rest {
        Ok((rest, more)) => Ok((done + rest, used + more)),
        Err(fault) => Err(fault),
    }
}

/// The selections that the tokens from `from` on hold, up to the `}` that
/// closes them, and the number of tokens that this takes, the `}` included.
/// A selection set inside a field must not be empty.
pub open spec fn parse_selections(tokens: Seq<Lexeme>, from: int) -> Result<
    (Seq<SelectionSpec>, nat),
    CompileFault,
>
    decreases
            (if from < tokens.len() {
                tokens.len() - from
            } else {
                0
            }),
{
    if from < 0 || from >= tokens.len() {
        Err(CompileFault::Syntax(tokens.len()))
    } else if tokens[from] == Lexeme::RightBrace {
        Ok((Seq::empty(), 1))
    } else if !(tokens[from] is Name) {
        Err(CompileFault::Syntax(from as nat))
    } else if from + 1 < tokens.len() && tokens[from + 1] == Lexeme::LeftBrace {
        match parse_selections(tokens, from + 2) {
            Err(fault) => Err(fault),
            Ok((inner, used)) => if inner.len() == 0 {
                Err(CompileFault::Syntax((from + 2) as nat))
            } else {
                then_selections(
                    seq![SelectionSpec { name: tokens[from]->Name_0, fields: inner }],
                    2 + used,
                    parse_selections(tokens, from + 2 + used),
                )
            },
        }
    } else {
        then_selections(
            seq![SelectionSpec { name: tokens[from]->Name_0, fields: Seq::empty() }],
            1,
            parse_selections(tokens, from + 1),
        )
    }
}

/// Where a query's selection set opens: behind the word `query` and the name
/// that may follow it.
pub open spec fn query_start(tokens: Seq<Lexeme>) -> int {
    if tokens.len() > 0 && tokens[0] == Lexeme::Name("query"@) {
        if tokens.len() > 1 && tokens[1] is Name {
            2
        } else {
            1
        }
    } else {
        0
    }
}

/// The selections at the root of a query. The query is one selection set,
/// not empty, and nothing follows it.
pub open spec fn parse_roots(tokens: Seq<Lexeme>) -> Result<Seq<SelectionSpec>, CompileFault> {
    let start = query_start(tokens);
    if start >= tokens.len() || tokens[start] != Lexeme::LeftBrace {
        Err(CompileFault::Syntax(start as nat))
    } else {
        match parse_selections(tokens, start + 1) {
            Err(fault) => Err(fault),
            Ok((roots, used)) => if roots.len() == 0 {
                Err(CompileFault::Syntax((start + 1) as nat))
            } else if start + 1 + used < tokens.len() {
                Err(CompileFault::Syntax((start + 1 + used) as nat))
            } else {
                Ok(roots)
            },
        }
    }
}

/// A table of the namespace under the name by which a statement refers to it.
pub open spec fn table_sql(namespace: Seq<char>, table: Seq<char>, alias: Seq<char>) -> Seq<char> {
    namespace + "."@ + table + " AS "@ + alias
}

/// A column of the table that a statement knows as `alias`.
pub open spec fn column_sql(alias: Seq<char>, column: Seq<char>) -> Seq<char> {
    alias + "."@ + column
}

/// The name by which a statement knows the table that the field `field` of
/// the table known as `alias` refers to.
pub open spec fn alias_sql(alias: Seq<char>, field: Seq<char>) -> Seq<char> {
    alias + "_"@ + field
}

/// The object that the field `field` of the table known as `alias` refers
/// to: the row of `target` whose `id` the field holds, shaped by `pairs`.
pub open spec fn nested_sql(
    pairs: Seq<char>,
    namespace: Seq<char>,
    target: Seq<char>,
    alias: Seq<char>,
    field: Seq<char>,
) -> Seq<char> {
    "(SELECT json_build_object("@ + pairs + ") FROM "@ + table_sql(
        namespace,
        target,
        alias_sql(alias, field),
    ) + " WHERE "@ + column_sql(alias_sql(alias, field), "id"@) + " = "@ + column_sql(alias, field)
        + ")"@
}

/// One key of a JSON object with its value.
pub open spec fn pair_sql(key: Seq<char>, value: Seq<char>) -> Seq<char> {
    "'"@ + key + "', "@ + value
}

/// The whole statement for one root: an array of one object per row.
pub open spec fn select_sql(pairs: Seq<char>, namespace: Seq<char>, table: Seq<char>) -> Seq<
    char,
> {
    "SELECT json_agg(json_build_object("@ + pairs + ")) FROM "@ + table_sql(
        namespace,
        table,
        table,
    )
}

/// The value that the selection `wanted` takes from a row of `owner`, known
/// as `alias`. The field must exist. Without a selection set of its own it is
/// the column; with one, the field's type must be a type of the schema, and
/// the value is the object that the field refers to.
pub open spec fn value_sql(
    schema: SchemaSpec,
    owner: TypeSpec,
    alias: Seq<char>,
    wanted: SelectionSpec,
) -> Result<Seq<char>, CompileFault>
    decreases wanted, 0nat,
{
    match owner.field(wanted.name) {
        None => Err(CompileFault::UnknownField(owner.name, wanted.name)),
        Some(field) => if wanted.fields.len() == 0 {
            Ok(column_sql(alias, wanted.name))
        } else {
            match schema.type_named(field.kind) {
                None => Err(CompileFault::NotAnObject(owner.name, wanted.name)),
                Some(target) => match pairs_sql(
                    schema,
                    target,
                    alias_sql(alias, wanted.name),
                    wanted.fields,
                ) {
                    Err(fault) => Err(fault),
                    Ok(pairs) => Ok(
                        nested_sql(pairs, schema.namespace, target.name, alias, wanted.name),
                    ),
                },
            }
        },
    }
}

/// The keys and values of the object that `fields` select from a row of
/// `owner`, known as `alias`, in the order of the selection. The first
/// selection that cannot be met, in the order of the text, fails the whole.
pub open spec fn pairs_sql(
    schema: SchemaSpec,
    owner: TypeSpec,
    alias: Seq<char>,
    fields: Seq<SelectionSpec>,
) -> Result<Seq<char>, CompileFault>
    decreases fields, 1nat,
{
    if fields.len() == 0 {
        Ok(Seq::empty())
    } else {
        match pairs_sql(schema, owner, alias, fields.drop_last()) {
            Err(fault) => Err(fault),
            Ok(before) => match value_sql(schema, owner, alias, fields.last()) {
                Err(fault) => Err(fault),
                Ok(value) => if fields.len() == 1 {
                    Ok(pair_sql(fields.last().name, value))
                } else {
                    Ok(before + ", "@ + pair_sql(fields.last().name, value))
                },
            },
        }
    }
}

/// The statement for one root selection. The root must name a type of the
/// schema and say which of its fields it wants.
pub open spec fn statement_sql(schema: SchemaSpec, root: SelectionSpec) -> Result<
    Seq<char>,
    CompileFault,
> {
    match schema.type_named(root.name) {
        None => Err(CompileFault::UnknownType(root.name)),
        Some(owner) => if root.fields.len() == 0 {
            Err(CompileFault::MissingSelection(root.name))
        } else {
            match pairs_sql(schema, owner, owner.name, root.fields) {
                Err(fault) => Err(fault),
                Ok(pairs) => Ok(select_sql(pairs, schema.namespace, owner.name)),
            }
        },
    }
}

/// The statements for the roots of a query, in their order.
pub open spec fn statements_sql(schema: SchemaSpec, roots: Seq<SelectionSpec>) -> Result<
    Seq<Seq<char>>,
    CompileFault,
>
    decreases roots.len(),
{
    if roots.len() == 0 {
        Ok(Seq::empty())
    } else {
        match statements_sql(schema, roots.drop_last()) {
            Err(fault) => Err(fault),
            Ok(before) => match statement_sql(schema, roots.last()) {
                Err(fault) => Err(fault),
                Ok(statement) => Ok(before.push(statement)),
            },
        }
    }
}

/// The statements that a query text compiles to against a schema.
pub open spec fn compile_query(schema: SchemaSpec, text: Seq<char>) -> Result<
    Seq<Seq<char>>,
    CompileFault,
> {
    match lex_text(text) {
        Err(fault) => Err(fault),
        Ok(tokens) => match parse_roots(tokens) {
            Err(fault) => Err(fault),
            Ok(roots) => statements_sql(schema, roots),
        },
    }
}

/// The statements as one batch: each but the last is followed by a
/// semicolon and a line break.
pub open spec fn batch_sql(statements: Seq<Seq<char>>) -> Seq<char>
    decreases statements.len(),
{
    if statements.len() == 0 {
        Seq::empty()
    } else if statements.len() == 1 {
        statements[0]
    } else {
        batch_sql(statements.drop_last()) + ";\n"@ + statements.last()
    }
}

/// Whether the selection `fields`, made from a row of `owner`, asks the type
/// `asked` for the field `field`: at its own level, or inside a field that
/// refers to another type of the schema, at any depth.
pub open spec fn asks(
    schema: SchemaSpec,
    owner: TypeSpec,
    fields: Seq<SelectionSpec>,
    asked: TypeSpec,
    field: Seq<char>,
) -> bool
    decreases fields,
{
    exists|i: int|
        0 <= i < fields.len() && ((owner == asked && (#[trigger] fields[i]).name == field) || (
        fields[i].fields.len() > 0 && owner.field(fields[i].name) is Some && schema.type_named(
            owner.field(fields[i].name)->0.kind,
        ) is Some && asks(
            schema,
            schema.type_named(owner.field(fields[i].name)->0.kind)->0,
            fields[i].fields,
            asked,
            field,
        )))
}

/// Whether a query with these roots asks the type `asked` for the field
/// `field`.
pub open spec fn query_asks(
    schema: SchemaSpec,
    roots: Seq<SelectionSpec>,
    asked: TypeSpec,
    field: Seq<char>,
) -> bool {
    exists|r: int|
        0 <= r < roots.len() && schema.type_named((#[trigger] roots[r]).name) is Some && asks(
            schema,
            schema.type_named(roots[r].name)->0,
            roots[r].fields,
            asked,
            field,
        )
}

/// A selection asks only its own type and types that the schema declares.
pub proof fn lemma_asked_type_is_declared(
    schema: SchemaSpec,
    owner: TypeSpec,
    fields: Seq<SelectionSpec>,
    asked: TypeSpec,
    field: Seq<char>,
)
    requires
        asks(schema, owner, fields, asked, field),
    ensures
        asked == owner || schema.types.contains(asked),
    decreases fields,
{
    let i = choose|i: int|
        0 <= i < fields.len() && ((owner == asked && (#[trigger] fields[i]).name == field) || (
        fields[i].fields.len() > 0 && owner.field(fields[i].name) is Some && schema.type_named(
            owner.field(fields[i].name)->0.kind,
        ) is Some && asks(
            schema,
            schema.type_named(owner.field(fields[i].name)->0.kind)->0,
            fields[i].fields,
            asked,
            field,
        )));
    if !(owner == asked && fields[i].name == field) {
        let kind = owner.field(fields[i].name)->0.kind;
        let target = schema.type_named(kind)->0;
        crate::schema::lemma_find_type(schema.types, kind, 0);
        lemma_asked_type_is_declared(schema, target, fields[i].fields, asked, field);
    }
}

/// A selection that asks a type for a field which the type lacks does not
/// translate.
pub proof fn lemma_absent_field_fails(
    schema: SchemaSpec,
    owner: TypeSpec,
    alias: Seq<char>,
    fields: Seq<SelectionSpec>,
    asked: TypeSpec,
    field: Seq<char>,
)
    requires
        asks(schema, owner, fields, asked, field),
        !asked.has_field(field),
    ensures
        pairs_sql(schema, owner, alias, fields) is Err,
    decreases fields,
{
    let i = choose|i: int|
        0 <= i < fields.len() && ((owner == asked && (#[trigger] fields[i]).name == field) || (
        fields[i].fields.len() > 0 && owner.field(fields[i].name) is Some && schema.type_named(
            owner.field(fields[i].name)->0.kind,
        ) is Some && asks(
            schema,
            schema.type_named(owner.field(fields[i].name)->0.kind)->0,
            fields[i].fields,
            asked,
            field,
        )));
    let wanted = fields[i];
    if owner == asked && wanted.name == field {
        crate::schema::lemma_find_field(owner.fields, field, 0);
    } else {
        let target = schema.type_named(owner.field(wanted.name)->0.kind)->0;
        lemma_absent_field_fails(
            schema,
            target,
            alias_sql(alias, wanted.name),
            wanted.fields,
            asked,
            field,
        );
    }
    assert(value_sql(schema, owner, alias, wanted) is Err);
    assert(fields.take(i + 1).drop_last() =~= fields.take(i));
    assert(fields.take(i + 1).last() == wanted);
    lemma_pairs_fail(schema, owner, alias, fields, i + 1);
}

/// Where a selection fails to translate for want of a field, it asks the
/// type that the failure names for the field that it names, and that type
/// lacks the field.
pub proof fn lemma_failure_names_absent_field(
    schema: SchemaSpec,
    owner: TypeSpec,
    alias: Seq<char>,
    fields: Seq<SelectionSpec>,
    type_label: Seq<char>,
    field: Seq<char>,
)
    requires
        pairs_sql(schema, owner, alias, fields) == Err::<Seq<char>, CompileFault>(
            CompileFault::UnknownField(type_label, field),
        ),
    ensures
        exists|asked: TypeSpec|
            #![auto]
            asks(schema, owner, fields, asked, field) && asked.name == type_label
                && !asked.has_field(field),
    decreases fields,
{
    if fields.len() > 0 {
        let last = fields.len() - 1;
        let wanted = fields[last];
        if pairs_sql(schema, owner, alias, fields.drop_last()) is Err {
            lemma_failure_names_absent_field(
                schema,
                owner,
                alias,
                fields.drop_last(),
                type_label,
                field,
            );
            let asked = choose|asked: TypeSpec|
                #![auto]
                asks(schema, owner, fields.drop_last(), asked, field) && asked.name == type_label
                    && !asked.has_field(field);
            lemma_asks_more(schema, owner, fields.drop_last(), fields, asked, field);
            assert(asks(schema, owner, fields, asked, field) && asked.name == type_label
                && !asked.has_field(field));
        } else if owner.field(wanted.name) is None {
            assert(value_sql(schema, owner, alias, fields.last()) == Err::<
                Seq<char>,
                CompileFault,
            >(CompileFault::UnknownField(owner.name, wanted.name)));
            crate::schema::lemma_find_field(owner.fields, wanted.name, 0);
            assert(asks(schema, owner, fields, owner, field) && owner.name == type_label
                && !owner.has_field(field));
        } else {
            let target = schema.type_named(owner.field(wanted.name)->0.kind)->0;
            assert(value_sql(schema, owner, alias, fields.last()) == Err::<
                Seq<char>,
                CompileFault,
            >(CompileFault::UnknownField(type_label, field)));
            lemma_failure_names_absent_field(
                schema,
                target,
                alias_sql(alias, wanted.name),
                wanted.fields,
                type_label,
                field,
            );
            let asked = choose|asked: TypeSpec|
                #![auto]
                asks(schema, target, wanted.fields, asked, field) && asked.name == type_label
                    && !asked.has_field(field);
            assert(asks(schema, owner, fields, asked, field) && asked.name == type_label
                && !asked.has_field(field));
        }
    }
}

/// What the first selections of a list ask, the whole list asks.
proof fn lemma_asks_more(
    schema: SchemaSpec,
    owner: TypeSpec,
    fewer: Seq<SelectionSpec>,
    fields: Seq<SelectionSpec>,
    asked: TypeSpec,
    field: Seq<char>,
)
    requires
        asks(schema, owner, fewer, asked, field),
        fewer.len() <= fields.len(),
        fewer == fields.take(fewer.len() as int),
    ensures
        asks(schema, owner, fields, asked, field),
{
    let i = choose|i: int|
        0 <= i < fewer.len() && ((owner == asked && (#[trigger] fewer[i]).name == field) || (
        fewer[i].fields.len() > 0 && owner.field(fewer[i].name) is Some && schema.type_named(
            owner.field(fewer[i].name)->0.kind,
        ) is Some && asks(
            schema,
            schema.type_named(owner.field(fewer[i].name)->0.kind)->0,
            fewer[i].fields,
            asked,
            field,
        )));
    assert(fields[i] == fewer[i]);
}

/// A query that asks a type for a field which the type lacks does not
/// compile: no statement comes of it.
pub proof fn lemma_unknown_field_is_rejected(
    schema: SchemaSpec,
    roots: Seq<SelectionSpec>,
    asked: TypeSpec,
    field: Seq<char>,
)
    requires
        query_asks(schema, roots, asked, field),
        !asked.has_field(field),
    ensures
        statements_sql(schema, roots) is Err,
{
    let r = choose|r: int|
        0 <= r < roots.len() && schema.type_named((#[trigger] roots[r]).name) is Some && asks(
            schema,
            schema.type_named(roots[r].name)->0,
            roots[r].fields,
            asked,
            field,
        );
    let owner = schema.type_named(roots[r].name)->0;
    lemma_absent_field_fails(schema, owner, owner.name, roots[r].fields, asked, field);
    assert(statement_sql(schema, roots[r]) is Err);
    assert(roots.take(r + 1).drop_last() =~= roots.take(r));
    assert(roots.take(r + 1).last() == roots[r]);
    lemma_statements_fail(schema, roots, r + 1);
}

/// Where a query fails to compile for want of a field, it asks the type that
/// the failure names for the field that it names, and that type, which is one
/// of the schema, lacks the field.
pub proof fn lemma_rejection_names_absent_field(
    schema: SchemaSpec,
    roots: Seq<SelectionSpec>,
    type_label: Seq<char>,
    field: Seq<char>,
)
    requires
        statements_sql(schema, roots) == Err::<Seq<Seq<char>>, CompileFault>(
            CompileFault::UnknownField(type_label, field),
        ),
    ensures
        exists|asked: TypeSpec|
            #![auto]
            query_asks(schema, roots, asked, field) && asked.name == type_label
                && !asked.has_field(field) && schema.types.contains(asked),
    decreases roots.len(),
{
    if roots.len() > 0 {
        let last = roots.len() - 1;
        if statements_sql(schema, roots.drop_last()) is Err {
            lemma_rejection_names_absent_field(schema, roots.drop_last(), type_label, field);
            let asked = choose|asked: TypeSpec|
                #![auto]
                query_asks(schema, roots.drop_last(), asked, field) && asked.name == type_label
                    && !asked.has_field(field) && schema.types.contains(asked);
            let r = choose|r: int|
                0 <= r < roots.drop_last().len() && schema.type_named(
                    (#[trigger] roots.drop_last()[r]).name,
                ) is Some && asks(
                    schema,
                    schema.type_named(roots.drop_last()[r].name)->0,
                    roots.drop_last()[r].fields,
                    asked,
                    field,
                );
            assert(roots[r] == roots.drop_last()[r]);
            assert(query_asks(schema, roots, asked, field) && asked.name == type_label
                && !asked.has_field(field) && schema.types.contains(asked));
        } else {
            let owner = schema.type_named(roots[last].name)->0;
            lemma_failure_names_absent_field(
                schema,
                owner,
                owner.name,
                roots[last].fields,
                type_label,
                field,
            );
            let asked = choose|asked: TypeSpec|
                #![auto]
                asks(schema, owner, roots[last].fields, asked, field) && asked.name == type_label
                    && !asked.has_field(field);
            crate::schema::lemma_find_type(schema.types, roots[last].name, 0);
            lemma_asked_type_is_declared(schema, owner, roots[last].fields, asked, field);
            assert(query_asks(schema, roots, asked, field) && asked.name == type_label
                && !asked.has_field(field) && schema.types.contains(asked));
        }
    }
}

/// The mathematical values of a list of texts, in order.
pub open spec fn texts(list: Seq<String>) -> Seq<Seq<char>> {
    list.map_values(|text: String| text@)
}

/// Reads the selections of one selection set, up to the `}` that closes it.
fn parse_selection_list(tokens: &Vec<Token>, from: usize) -> (out: Result<
    (Vec<Selection>, usize),
    CompileError,
>)
    requires
        from <= tokens.len(),
    ensures
        match parse_selections(lexemes(tokens@), from as int) {
            Ok((expected, used)) => out matches Ok((list, next)) && selection_specs(list@)
                == expected && next == from + used && from < next <= tokens.len(),
            Err(fault) => out matches Err(e) && e@ == fault,
        },
    decreases tokens.len() - from,
{
    let ghost all = lexemes(tokens@);
    let mut list: Vec<Selection> = Vec::new();
    let mut i: usize = from;
    proof {
        match parse_selections(all, from as int) {
            Ok((rest, _)) => {
                assert(selection_specs(list@) + rest =~= rest);
            },
            Err(_) => {},
        }
    }
    loop
        invariant
            from <= i <= tokens.len(),
            all == lexemes(tokens@),
            parse_selections(all, from as int) == then_selections(
                selection_specs(list@),
                (i - from) as nat,
                parse_selections(all, i as int),
            ),
        decreases tokens.len() - i,
    {
        if i >= tokens.len() {
            return Err(CompileError::Syntax(tokens.len()));
        }
        assert(all[i as int] == tokens@[i as int]@);
        if tokens[i].is_right_brace() {
            assert(selection_specs(list@) + Seq::<SelectionSpec>::empty() =~= selection_specs(
                list@,
            ));
            return Ok((list, i + 1));
        }
        let name = match tokens[i].name() {
            Some(name) => copy_text(name),
            None => {
                return Err(CompileError::Syntax(i));
            },
        };
        let mut nested = false;
        if i + 1 < tokens.len() {
            assert(all[i + 1] == tokens@[i + 1]@);
            nested = tokens[i + 1].is_left_brace();
        }
        let ghost done = selection_specs(list@);
        if nested {
            let (inner, next) = match parse_selection_list(tokens, i + 2) {
                Ok(parsed) => parsed,
                Err(e) => {
                    return Err(e);
                },
            };
            if inner.len() == 0 {
                return Err(CompileError::Syntax(i + 2));
            }
            let selection = Selection { name, fields: inner };
            proof {
                lemma_selection_fields(selection);
                let one = seq![selection@];
                assert(selection_specs(list@.push(selection)) =~= done + one);
                match parse_selections(all, next as int) {
                    Ok((rest, _)) => {
                        assert((done + one) + rest =~= done + (one + rest));
                    },
                    Err(_) => {},
                }
            }
            list.push(selection);
            i = next;
        } else {
            let selection = Selection { name, fields: Vec::new() };
            proof {
                lemma_selection_fields(selection);
                assert(selection@.fields =~= Seq::<SelectionSpec>::empty());
                let one = seq![selection@];
                assert(selection_specs(list@.push(selection)) =~= done + one);
                match parse_selections(all, i + 1) {
                    Ok((rest, _)) => {
                        assert((done + one) + rest =~= done + (one + rest));
                    },
                    Err(_) => {},
                }
            }
            list.push(selection);
            i = i + 1;
        }
    }
}

/// Reads the selections at the root of a query from its tokens.
pub fn parse_query(tokens: &Vec<Token>) -> (out: Result<Vec<Selection>, CompileError>)
    ensures
        match parse_roots(lexemes(tokens@)) {
            Ok(expected) => out matches Ok(roots) && selection_specs(roots@) == expected,
            Err(fault) => out matches Err(e) && e@ == fault,
        },
{
    let ghost all = lexemes(tokens@);
    let mut start: usize = 0;
    if tokens.len() > 0 {
        assert(all[0] == tokens@[0]@);
        let named = match tokens[0].name() {
            Some(word) => text_eq(word.as_str(), "query"),
            None => false,
        };
        if named {
            start = 1;
            if tokens.len() > 1 {
                assert(all[1] == tokens@[1]@);
                if tokens[1].name().is_some() {
                    start = 2;
                }
            }
        }
    }
    if start >= tokens.len() {
        return Err(CompileError::Syntax(start));
    }
    assert(all[start as int] == tokens@[start as int]@);
    if !tokens[start].is_left_brace() {
        return Err(CompileError::Syntax(start));
    }
    let (roots, next) = match parse_selection_list(tokens, start + 1) {
        Ok(parsed) => parsed,
        Err(e) => {
            return Err(e);
        },
    };
    if roots.len() == 0 {
        return Err(CompileError::Syntax(start + 1));
    }
    if next < tokens.len() {
        return Err(CompileError::Syntax(next));
    }
    Ok(roots)
}

fn table_text(namespace: &str, table: &str, alias: &str) -> (sql: String)
    ensures
        sql@ == table_sql(namespace@, table@, alias@),
{
    let mut sql = String::from_str(namespace);
    sql.append(".");
    sql.append(table);
    sql.append(" AS ");
    sql.append(alias);
    sql
}

fn column_text(alias: &str, column: &str) -> (sql: String)
    ensures
        sql@ == column_sql(alias@, column@),
{
    let mut sql = String::from_str(alias);
    sql.append(".");
    sql.append(column);
    sql
}

fn alias_text(alias: &str, field: &str) -> (sql: String)
    ensures
        sql@ == alias_sql(alias@, field@),
{
    let mut sql = String::from_str(alias);
    sql.append("_");
    sql.append(field);
    sql
}

fn nested_text(pairs: &str, namespace: &str, target: &str, alias: &str, field: &str) -> (sql:
    String)
    ensures
        sql@ == nested_sql(pairs@, namespace@, target@, alias@, field@),
{
    let inner = alias_text(alias, field);
    let mut sql = String::from_str("(SELECT json_build_object(");
    sql.append(pairs);
    sql.append(") FROM ");
    sql.append(table_text(namespace, target, inner.as_str()).as_str());
    sql.append(" WHERE ");
    sql.append(column_text(inner.as_str(), "id").as_str());
    sql.append(" = ");
    sql.append(column_text(alias, field).as_str());
    sql.append(")");
    sql
}

fn pair_text(key: &str, value: &str) -> (sql: String)
    ensures
        sql@ == pair_sql(key@, value@),
{
    let mut sql = String::from_str("'");
    sql.append(key);
    sql.append("', ");
    sql.append(value);
    sql
}

fn select_text(pairs: &str, namespace: &str, table: &str) -> (sql: String)
    ensures
        sql@ == select_sql(pairs@, namespace@, table@),
{
    let mut sql = String::from_str("SELECT json_agg(json_build_object(");
    sql.append(pairs);
    sql.append(")) FROM ");
    sql.append(table_text(namespace, table, table).as_str());
    sql
}

/// Writes the value that one selection takes from a row.
fn value_text(schema: &Schema, owner: &TypeDef, alias: &str, wanted: &Selection) -> (out: Result<
    String,
    CompileError,
>)
    ensures
        match value_sql(schema@, owner@, alias@, wanted@) {
            Ok(sql) => out matches Ok(s) && s@ == sql,
            Err(fault) => out matches Err(e) && e@ == fault,
        },
    decreases wanted, 0nat,
{
    proof {
        lemma_selection_fields(*wanted);
    }
    let field = match owner.field(wanted.name.as_str()) {
        Some(field) => field,
        None => {
            return Err(
                CompileError::UnknownField(copy_text(&owner.name), copy_text(&wanted.name)),
            );
        },
    };
    if wanted.fields.len() == 0 {
        return Ok(column_text(alias, wanted.name.as_str()));
    }
    let target = match schema.type_named(field.kind.as_str()) {
        Some(target) => target,
        None => {
            return Err(
                CompileError::NotAnObject(copy_text(&owner.name), copy_text(&wanted.name)),
            );
        },
    };
    let inner = alias_text(alias, wanted.name.as_str());
    match pairs_text(schema, target, inner.as_str(), &wanted.fields) {
        Ok(pairs) => Ok(
            nested_text(
                pairs.as_str(),
                schema.namespace.as_str(),
                target.name.as_str(),
                alias,
                wanted.name.as_str(),
            ),
        ),
        Err(e) => Err(e),
    }
}

/// Writes the keys and values of the object that `fields` select.
fn pairs_text(schema: &Schema, owner: &TypeDef, alias: &str, fields: &Vec<Selection>) -> (out:
    Result<String, CompileError>)
    ensures
        match pairs_sql(schema@, owner@, alias@, selection_specs(fields@)) {
            Ok(sql) => out matches Ok(s) && s@ == sql,
            Err(fault) => out matches Err(e) && e@ == fault,
        },
    decreases fields, 1nat,
{
    let ghost all = selection_specs(fields@);
    let mut sql = String::new();
    let mut i: usize = 0;
    assert(all.take(0) =~= Seq::<SelectionSpec>::empty());
    while i < fields.len()
        invariant
            i <= fields.len(),
            all == selection_specs(fields@),
            pairs_sql(schema@, owner@, alias@, all.take(i as int)) == Ok::<
                Seq<char>,
                CompileFault,
            >(sql@),
        decreases fields.len() - i,
    {
        proof {
            assert(all.take(i + 1).drop_last() =~= all.take(i as int));
            assert(all.take(i + 1).last() == fields@[i as int]@);
        }
        let value = match value_text(schema, owner, alias, &fields[i]) {
            Ok(value) => value,
            Err(e) => {
                proof {
                    lemma_pairs_fail(schema@, owner@, alias@, all, i + 1);
                }
                return Err(e);
            },
        };
        if i > 0 {
            sql.append(", ");
        }
        sql.append(pair_text(fields[i].name.as_str(), value.as_str()).as_str());
        i += 1;
    }
    assert(all.take(i as int) =~= all);
    Ok(sql)
}

/// Once a selection has failed, the selections behind it change nothing.
pub proof fn lemma_pairs_fail(
    schema: SchemaSpec,
    owner: TypeSpec,
    alias: Seq<char>,
    fields: Seq<SelectionSpec>,
    upto: int,
)
    requires
        0 <= upto <= fields.len(),
        pairs_sql(schema, owner, alias, fields.take(upto)) is Err,
    ensures
        pairs_sql(schema, owner, alias, fields) == pairs_sql(
            schema,
            owner,
            alias,
            fields.take(upto),
        ),
    decreases fields.len() - upto,
{
    if upto == fields.len() {
        assert(fields.take(upto) =~= fields);
    } else {
        assert(fields.take(upto + 1).drop_last() =~= fields.take(upto));
        lemma_pairs_fail(schema, owner, alias, fields, upto + 1);
    }
}

/// Once a root has failed, the roots behind it change nothing.
pub proof fn lemma_statements_fail(schema: SchemaSpec, roots: Seq<SelectionSpec>, upto: int)
    requires
        0 <= upto <= roots.len(),
        statements_sql(schema, roots.take(upto)) is Err,
    ensures
        statements_sql(schema, roots) == statements_sql(schema, roots.take(upto)),
    decreases roots.len() - upto,
{
    if upto == roots.len() {
        assert(roots.take(upto) =~= roots);
    } else {
        assert(roots.take(upto + 1).drop_last() =~= roots.take(upto));
        lemma_statements_fail(schema, roots, upto + 1);
    }
}

/// Writes the statement for one root.
fn statement_text(schema: &Schema, root: &Selection) -> (out: Result<String, CompileError>)
    ensures
        match statement_sql(schema@, root@) {
            Ok(sql) => out matches Ok(s) && s@ == sql,
            Err(fault) => out matches Err(e) && e@ == fault,
        },
{
    proof {
        lemma_selection_fields(*root);
    }
    let owner = match schema.type_named(root.name.as_str()) {
        Some(owner) => owner,
        None => {
            return Err(CompileError::UnknownType(copy_text(&root.name)));
        },
    };
    if root.fields.len() == 0 {
        return Err(CompileError::MissingSelection(copy_text(&root.name)));
    }
    match pairs_text(schema, owner, owner.name.as_str(), &root.fields) {
        Ok(pairs) => Ok(
            select_text(pairs.as_str(), schema.namespace.as_str(), owner.name.as_str()),
        ),
        Err(e) => Err(e),
    }
}

/// Translates the roots of a query into their statements.
pub fn translate(schema: &Schema, roots: &Vec<Selection>) -> (out: Result<
    Vec<String>,
    CompileError,
>)
    ensures
        match statements_sql(schema@, selection_specs(roots@)) {
            Ok(expected) => out matches Ok(statements) && texts(statements@) == expected,
            Err(fault) => out matches Err(e) && e@ == fault,
        },
{
    let ghost all = selection_specs(roots@);
    let mut statements: Vec<String> = Vec::new();
    let mut i: usize = 0;
    assert(all.take(0) =~= Seq::<SelectionSpec>::empty());
    assert(texts(statements@) =~= Seq::<Seq<char>>::empty());
    while i < roots.len()
        invariant
            i <= roots.len(),
            all == selection_specs(roots@),
            statements_sql(schema@, all.take(i as int)) == Ok::<Seq<Seq<char>>, CompileFault>(
                texts(statements@),
            ),
        decreases roots.len() - i,
    {
        proof {
            assert(all.take(i + 1).drop_last() =~= all.take(i as int));
            assert(all.take(i + 1).last() == roots@[i as int]@);
        }
        let statement = match statement_text(schema, &roots[i]) {
            Ok(statement) => statement,
            Err(e) => {
                proof {
                    lemma_statements_fail(schema@, all, i + 1);
                }
                return Err(e);
            },
        };
        assert(texts(statements@.push(statement)) =~= texts(statements@).push(statement@));
        statements.push(statement);
        i += 1;
    }
    assert(all.take(i as int) =~= all);
    Ok(statements)
}

/// Compiles a query text against a schema into its statements, in the order
/// of the query's roots. Nothing is run.
pub fn compile(schema: &Schema, query_text: &str) -> (out: Result<Vec<String>, CompileError>)
    ensures
        match compile_query(schema@, query_text@) {
            Ok(expected) => out matches Ok(statements) && texts(statements@) == expected,
            Err(fault) => out matches Err(e) && e@ == fault,
        },
{
    let tokens = match lex(query_text) {
        Ok(tokens) => tokens,
        Err(e) => {
            return Err(e);
        },
    };
    let roots = match parse_query(&tokens) {
        Ok(roots) => roots,
        Err(e) => {
            return Err(e);
        },
    };
    translate(schema, &roots)
}

/// Joins statements into one batch.
pub fn join_statements(statements: &Vec<String>) -> (batch: String)
    ensures
        batch@ == batch_sql(texts(statements@)),
{
    let ghost all = texts(statements@);
    let mut batch = String::new();
    let mut i: usize = 0;
    assert(all.take(0) =~= Seq::<Seq<char>>::empty());
    while i < statements.len()
        invariant
            i <= statements.len(),
            all == texts(statements@),
            batch@ == batch_sql(all.take(i as int)),
        decreases statements.len() - i,
    {
        proof {
            assert(all.take(i + 1).drop_last() =~= all.take(i as int));
            assert(all.take(i + 1).last() == statements@[i as int]@);
            if i == 0 {
                assert(batch@ + statements@[0]@ =~= statements@[0]@);
            }
        }
        if i > 0 {
            batch.append(";\n");
        }
        batch.append(statements[i].as_str());
        i += 1;
    }
    assert(all.take(i as int) =~= all);
    batch
}

/// Compiles a query against the schema of its graph and returns the batch
/// of statements that answers it, for the caller to run on one connection.
/// A query that does not compile fails with the compiler's reason.
pub fn run_query(query: Query, schema: Schema) -> (out: Result<String, ApiError>)
    ensures
        match compile_query(schema@, query.query@) {
            Ok(statements) => out matches Ok(batch) && batch@ == batch_sql(statements),
            Err(fault) => out matches Err(e) && e@ == ApiFault::Compile(fault),
        },
{
    match compile(&schema, query.query.as_str()) {
        Ok(statements) => Ok(join_statements(&statements)),
        Err(e) => Err(ApiError::Compile(e)),
    }
}

/// The text that tells a caller that a graph is unknown.
pub open spec fn graph_not_found(name: Seq<char>) -> Seq<char> {
    "The graph '"@ + name + "' was not found."@
}

/// Answers a query against the graph `name`: loads the graph's schema and
/// compiles the query against it. Where no schema was ever installed for the
/// graph the call fails with `NotFound` and a text that names the graph.
pub fn query_graph(manager: &SchemaManager, name: &str, query: Query) -> (out: Result<
    String,
    ApiError,
>)
    requires
        manager.wf(),
    ensures
        match manager@.get(name@) {
            None => out matches Err(e) && e@ == ApiFault::NotFound(graph_not_found(name@)),
            Some(schema) => match compile_query(schema, query.query@) {
                Ok(statements) => out matches Ok(batch) && batch@ == batch_sql(statements),
                Err(fault) => out matches Err(e) && e@ == ApiFault::Compile(fault),
            },
        },
{
    match manager.load_schema(name) {
        Ok(schema) => run_query(query, schema),
        Err(_) => {
            let mut message = String::from_str("The graph '");
            message.append(name);
            message.append("' was not found.");
            Err(ApiError::NotFound(message))
        },
    }
}

/// What the caller of a query gets once the batch was run: the store's
/// answer as it came, or `Execution` with the store's complaint.
pub fn query_response(ran: Result<String, String>) -> (out: Result<String, ApiError>)
    ensures
        match ran {
            Ok(answer) => out matches Ok(body) && body@ == answer@,
            Err(complaint) => out matches Err(e) && e@ == ApiFault::Execution(complaint@),
        },
{
    match ran {
        Ok(answer) => Ok(answer),
        Err(complaint) => Err(ApiError::Execution(complaint)),
    }
}

} // verus!
