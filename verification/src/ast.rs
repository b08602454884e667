//! Shared data model: column types, column and table structures, the parsed
//! statement union, and the error type.

use vstd::prelude::*;

verus! {

/// SQL data types.
#[derive(Debug, Clone, Copy, PartialEq, Eq, Structural)]
pub enum SqlType {
    /// Integer type
    Int,
    /// Text type
    Text,
    /// Boolean type
    Bool,
}

/// Error type of the parser.
///
/// Every rejected input — a text that does not match the statement grammar as
/// well as a parse tree that lacks a required field — is reported through the
/// single `InvalidData` kind, so callers see one uniform, non-panicking
/// failure taxonomy.
#[derive(Debug, Clone, Copy, PartialEq, Eq, Structural)]
pub enum SqlParseError {
    /// Invalid data
    InvalidData,
}

/// The character sequence of the `INT` type keyword.
pub open spec fn int_keyword() -> Seq<char> {
    seq!['I', 'N', 'T']
}

/// The character sequence of the `TEXT` type keyword.
pub open spec fn text_keyword() -> Seq<char> {
    seq!['T', 'E', 'X', 'T']
}

/// The character sequence of the `BOOL` type keyword.
pub open spec fn bool_keyword() -> Seq<char> {
    seq!['B', 'O', 'O', 'L']
}

/// The column type denoted by a type token, if any: exactly the three
/// case-sensitive keywords are recognized.
pub open spec fn sql_type_of(s: Seq<char>) -> Option<SqlType> {
    if s == int_keyword() {
        Some(SqlType::Int)
    } else if s == text_keyword() {
        Some(SqlType::Text)
    } else if s == bool_keyword() {
        Some(SqlType::Bool)
    } else {
        None
    }
}

/// The exact source text of a column type keyword.
pub open spec fn sql_type_text(t: SqlType) -> Seq<char> {
    match t {
        SqlType::Int => int_keyword(),
        SqlType::Text => text_keyword(),
        SqlType::Bool => bool_keyword(),
    }
}

/// Compares two string slices character by character.
pub(crate) fn str_eq(a: &str, b: &str) -> (r: bool)
    ensures
        r == (a@ == b@),
{
    let n = a.unicode_len();
    let m = b.unicode_len();
    if n != m {
        return false;
    }
    let mut i: usize = 0;
    while i < n
        invariant
            n == a@.len(),
            n == b@.len(),
            i <= n,
            forall|k: int| 0 <= k < i ==> a@[k] == b@[k],
        decreases n - i,
    {
        if a.get_char(i) != b.get_char(i) {
            return false;
        }
        i = i + 1;
    }
    proof {
        assert(a@ =~= b@);
    }
    true
}

impl SqlType {
    /// Parses a type token: exactly `INT`, `TEXT` or `BOOL` succeed.
    pub fn from_str(s: &str) -> (r: Result<SqlType, SqlParseError>)
        ensures
            match r {
                Ok(t) => sql_type_of(s@) == Some(t),
                Err(e) => sql_type_of(s@) is None && e == SqlParseError::InvalidData,
            },
    {
        proof {
            reveal_strlit("INT");
            reveal_strlit("TEXT");
            reveal_strlit("BOOL");
            assert("INT"@ =~= int_keyword());
            assert("TEXT"@ =~= text_keyword());
            assert("BOOL"@ =~= bool_keyword());
        }
        if str_eq(s, "INT") {
            Ok(SqlType::Int)
        } else if str_eq(s, "TEXT") {
            Ok(SqlType::Text)
        } else if str_eq(s, "BOOL") {
            Ok(SqlType::Bool)
        } else {
            Err(SqlParseError::InvalidData)
        }
    }
}

/// FromStr implementation for SqlType, delegating to the verified
/// [`SqlType::from_str`].
impl core::str::FromStr for SqlType {
    type Err = SqlParseError;

    fn from_str(s: &str) -> Result<SqlType, SqlParseError> {
        SqlType::from_str(s)
    }
}

/// Represents information about a database column.
#[derive(Debug, PartialEq)]
pub struct ColumnInfo {
    /// Column name
    pub column_name: String,
    /// Column type
    pub column_type: SqlType,
}

impl View for ColumnInfo {
    type V = (Seq<char>, SqlType);

    open spec fn view(&self) -> (Seq<char>, SqlType) {
        (self.column_name@, self.column_type)
    }
}

/// A variant of [`ColumnInfo`] with options for column name and column type,
/// used while a column pair is being accumulated.
#[derive(Debug, PartialEq)]
pub struct ColumnInfoOption {
    pub column_name: Option<String>,
    pub column_type: Option<SqlType>,
}

/// Represents the structure of a SQL `CREATE TABLE` statement.
#[derive(Debug, PartialEq)]
pub struct CreateTable {
    /// Table name
    pub table_name: String,
    /// Columns info
    pub column_info: Vec<ColumnInfo>,
}

/// The mathematical content of a `CREATE TABLE` statement: the table name and
/// the (name, type) column pairs in source order.
#[verifier::ext_equal]
pub struct StatementView {
    pub table_name: Seq<char>,
    pub columns: Seq<(Seq<char>, SqlType)>,
}

impl View for CreateTable {
    type V = StatementView;

    open spec fn view(&self) -> StatementView {
        StatementView {
            table_name: self.table_name@,
            columns: self.column_info@.map_values(|c: ColumnInfo| c@),
        }
    }
}

/// A variant of [`CreateTable`] with options for table name and column
/// definitions, used as the reducer's accumulator.
#[derive(Debug, PartialEq)]
pub struct CreateTableOption {
    pub table_name: Option<String>,
    pub column_info: Vec<Option<ColumnInfoOption>>,
}

/// Represents parsed SQL statements.
#[derive(Debug, PartialEq)]
pub enum Parsed {
    CreateTable(CreateTable),
}

} // verus!
