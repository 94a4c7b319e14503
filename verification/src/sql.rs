//! Statement text for PostgreSQL, rendered by the `sea_query` builder.
//!
//! The functions of this module that call the builder are believed, not
//! proved. The text with placeholders is stated in full. The text with
//! the values written out as literals depends on the builder's quoting
//! and is given a name, so that the rest of the library can say exactly
//! which statement it asked for.

use sea_query::{Alias, Expr, PostgresQueryBuilder, Query, QueryStatementWriter};
use vstd::prelude::*;

verus! {

/// `name` with every double quote in it written twice.
pub open spec fn double_quotes_doubled(name: Seq<char>) -> Seq<char>
    decreases name.len(),
{
    if name.len() == 0 {
        Seq::empty()
    } else if name.last() == '"' {
        double_quotes_doubled(name.drop_last()).push('"').push('"')
    } else {
        double_quotes_doubled(name.drop_last()).push(name.last())
    }
}

/// An identifier as the builder writes it for PostgreSQL: between
/// double quotes, with every double quote inside written twice.
pub open spec fn quoted_identifier(name: Seq<char>) -> Seq<char> {
    seq!['"'] + double_quotes_doubled(name) + seq!['"']
}

/// Text of an `INSERT` of one row into three columns of `table`, the
/// values bound as `$1`, `$2` and `$3`.
pub open spec fn insert_statement(
    table: Seq<char>,
    first: Seq<char>,
    second: Seq<char>,
    third: Seq<char>,
) -> Seq<char> {
    "INSERT INTO "@ + quoted_identifier(table) + " ("@ + quoted_identifier(first) + ", "@
        + quoted_identifier(second) + ", "@ + quoted_identifier(third)
        + ") VALUES ($1, $2, $3)"@
}

/// What `sea_query` writes for an `INSERT` of the row
/// `(number, text, last)` into three columns of `table`, the values
/// written out as literals.
pub uninterp spec fn insert_literal(
    table: Seq<char>,
    first: Seq<char>,
    second: Seq<char>,
    third: Seq<char>,
    number: int,
    text: Seq<char>,
    last: int,
) -> Seq<char>;

/// Text of an `UPDATE` of `table` that sets `column` to `$1` on the rows
/// where `number_column` is `$2` and `text_column` is `$3`.
pub open spec fn update_statement(
    table: Seq<char>,
    column: Seq<char>,
    number_column: Seq<char>,
    text_column: Seq<char>,
) -> Seq<char> {
    "UPDATE "@ + quoted_identifier(table) + " SET "@ + quoted_identifier(column)
        + " = $1 WHERE "@ + quoted_identifier(number_column) + " = $2 AND "@
        + quoted_identifier(text_column) + " = $3"@
}

/// What `sea_query` writes for an `UPDATE` of `table` that sets `column`
/// to `value` on the rows where `number_column` is `number` and
/// `text_column` is `text`, the values written out as literals.
pub uninterp spec fn update_literal(
    table: Seq<char>,
    column: Seq<char>,
    value: Seq<char>,
    number_column: Seq<char>,
    number: int,
    text_column: Seq<char>,
    text: Seq<char>,
) -> Seq<char>;

/// `InsertStatement::build` of `sea_query` with the Postgres builder,
/// on one row of three values. The builder writes the keywords, each
/// identifier between double quotes, and each value as a numbered
/// placeholder; the values themselves it hands back separately, so
/// the text depends on the table and the columns alone.
#[verifier::external_body]
pub(crate) fn render_insert_statement(
    table: &str,
    first: &str,
    second: &str,
    third: &str,
    number: i32,
    text: &str,
    last: i32,
) -> (sql: String)
    ensures
        sql@ == insert_statement(table@, first@, second@, third@),
{
    Query::insert()
        .into_table(Alias::new(table))
        .columns([Alias::new(first), Alias::new(second), Alias::new(third)])
        .values_panic([number.into(), text.into(), last.into()])
        .build(PostgresQueryBuilder)
        .0
}

/// `InsertStatement::to_string` of `sea_query` with the Postgres
/// builder, on one row of three values: the same statement with the
/// values written out as quoted literals.
#[verifier::external_body]
pub(crate) fn render_insert_literal(
    table: &str,
    first: &str,
    second: &str,
    third: &str,
    number: i32,
    text: &str,
    last: i32,
) -> (sql: String)
    ensures
        sql@ == insert_literal(
            table@,
            first@,
            second@,
            third@,
            number as int,
            text@,
            last as int,
        ),
{
    Query::insert()
        .into_table(Alias::new(table))
        .columns([Alias::new(first), Alias::new(second), Alias::new(third)])
        .values_panic([number.into(), text.into(), last.into()])
        .to_string(PostgresQueryBuilder)
}

/// `UpdateStatement::build` of `sea_query` with the Postgres builder,
/// on one assignment and a key of two equalities. The builder writes
/// the keywords, each identifier between double quotes, and each value
/// as a numbered placeholder, so the text depends on the table and the
/// columns alone.
#[verifier::external_body]
pub(crate) fn render_update_statement(
    table: &str,
    column: &str,
    value: &str,
    number_column: &str,
    number: i32,
    text_column: &str,
    text: &str,
) -> (sql: String)
    ensures
        sql@ == update_statement(table@, column@, number_column@, text_column@),
{
    Query::update()
        .table(Alias::new(table))
        .values([(Alias::new(column), value.into())])
        .and_where(Expr::col(Alias::new(number_column)).eq(number))
        .and_where(Expr::col(Alias::new(text_column)).eq(text))
        .build(PostgresQueryBuilder)
        .0
}

/// `UpdateStatement::to_string` of `sea_query` with the Postgres
/// builder, on one assignment and a key of two equalities: the same
/// statement with the values written out as quoted literals.
#[verifier::external_body]
pub(crate) fn render_update_literal(
    table: &str,
    column: &str,
    value: &str,
    number_column: &str,
    number: i32,
    text_column: &str,
    text: &str,
) -> (sql: String)
    ensures
        sql@ == update_literal(
            table@,
            column@,
            value@,
            number_column@,
            number as int,
            text_column@,
            text@,
        ),
{
    Query::update()
        .table(Alias::new(table))
        .values([(Alias::new(column), value.into())])
        .and_where(Expr::col(Alias::new(number_column)).eq(number))
        .and_where(Expr::col(Alias::new(text_column)).eq(text))
        .to_string(PostgresQueryBuilder)
}

/// A name without a double quote in it is written between double
/// quotes as it is.
pub proof fn lemma_plain_identifier(name: Seq<char>)
    requires
        forall|i: int| 0 <= i < name.len() ==> name[i] != '"',
    ensures
        quoted_identifier(name) == seq!['"'] + name + seq!['"'],
    decreases name.len(),
{
    lemma_plain_name(name);
}

proof fn lemma_plain_name(name: Seq<char>)
    requires
        forall|i: int| 0 <= i < name.len() ==> name[i] != '"',
    ensures
        double_quotes_doubled(name) == name,
    decreases name.len(),
{
    if name.len() > 0 {
        lemma_plain_name(name.drop_last());
        assert(name.drop_last().push(name.last()) =~= name);
    } else {
        assert(double_quotes_doubled(name) =~= name);
    }
}

} // verus!
