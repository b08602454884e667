//! Parser for a single SQL data-definition statement:
//! `CREATE TABLE <name> { <column> <type>, ... }`.
//!
//! The grammar engine ([`SQLParser`]) recognizes the statement and produces a
//! parse tree; the tree reducer ([`parse_create_table`]) turns the tree into a
//! validated [`CreateTable`] value. [`parse_sql`] composes the two: it is a
//! pure function of the query text, it never panics, and every rejected input
//! is reported as [`SqlParseError::InvalidData`].

use vstd::prelude::*;

mod ast;
mod grammar;
mod lemmas;
mod reducer;

pub use ast::ColumnInfo;
pub use ast::ColumnInfoOption;
pub use ast::CreateTable;
pub use ast::CreateTableOption;
pub use ast::Parsed;
pub use ast::SqlParseError;
pub use ast::SqlType;
pub use ast::StatementView;
pub use grammar::ParseTree;
pub use grammar::Rule;
pub use grammar::SQLParser;
pub use grammar::TreeNode;
pub use lemmas::lemma_order_preservation;
pub use lemmas::lemma_parse_identifiers;
pub use lemmas::lemma_reduce_tree_of;
pub use lemmas::lemma_whitespace_append;
pub use lemmas::lemma_whitespace_insensitivity;
pub use lemmas::lemma_whitespace_prepend;
pub use lemmas::lemma_whitespace_widen;
pub use reducer::parse_create_table;
pub use reducer::unwrap_column_info;

verus! {

/// What [`parse_sql`] promises of its result for a query text: success with
/// the denoted statement exactly when the text matches the grammar, and the
/// one `InvalidData` error exactly when it does not.
pub open spec fn parse_sql_post(q: Seq<char>, r: Result<Parsed, SqlParseError>) -> bool {
    match r {
        Ok(p) => match p {
            Parsed::CreateTable(ct) => grammar::spec_parse(q) == Some(ct@),
        },
        Err(e) => grammar::spec_parse(q) is None && e == SqlParseError::InvalidData,
    }
}

/// Parsing is deterministic: any two outcomes that [`parse_sql`] may return
/// for the same query text agree on success against failure, and a failure is
/// always the very same error. Re-parsing a malformed input can never yield a
/// different error kind.
pub proof fn lemma_failure_idempotent(
    q: Seq<char>,
    r1: Result<Parsed, SqlParseError>,
    r2: Result<Parsed, SqlParseError>,
)
    requires
        parse_sql_post(q, r1),
        parse_sql_post(q, r2),
    ensures
        r1 is Err <==> r2 is Err,
        r1 is Err ==> r1 == r2,
{
}

/// This function takes a SQL query as input and returns a parsed result: the
/// statement the text denotes, or `InvalidData` exactly when the text does
/// not denote one. The result is a function of the query text alone, so
/// parsing the same input — well-formed or malformed — always yields the
/// same outcome.
pub fn parse_sql(query: &str) -> (r: Result<Parsed, SqlParseError>)
    ensures
        parse_sql_post(query@, r),
{
    let tree = match SQLParser::parse(query) {
        Ok(t) => t,
        Err(e) => {
            return Err(e);
        },
    };
    proof {
        lemmas::lemma_parse_nonempty(query@);
        lemmas::lemma_reduce_tree_of(grammar::spec_parse(query@)->Some_0);
    }
    match parse_create_table(&tree) {
        Ok(ct) => Ok(Parsed::CreateTable(ct)),
        Err(_) => {
            // a tree the grammar engine emitted always reduces, so this arm
            // is provably unreachable; it still reports an error rather than
            // trusting that the two components stay consistent
            proof {
                assert(false);
            }
            Err(SqlParseError::InvalidData)
        },
    }
}

} // verus!
