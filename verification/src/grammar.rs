//! Grammar engine: recognizes the statement
//! `CREATE TABLE <name> { <column> <type>, ... }` and produces a parse tree.
//!
//! Recognition happens in two steps. A tokenizer splits the text into
//! identifier and punctuation tokens (whitespace separates tokens and carries
//! no meaning of its own; a character outside the grammar's alphabet rejects
//! the input). A matcher then holds the token sequence against the statement
//! shape, with the three type keywords checked as part of the grammar, and
//! emits a parse tree whose nodes keep the exact matched substrings in source
//! order. A trailing comma after the last column is permitted.

use vstd::prelude::*;

use crate::ast::sql_type_of;
use crate::ast::sql_type_text;
use crate::ast::str_eq;
use crate::ast::SqlParseError;
use crate::ast::SqlType;
use crate::ast::StatementView;

verus! {

/// The whitespace characters of the grammar: space, tab, newline, carriage
/// return.
pub open spec fn is_whitespace_char(c: char) -> bool {
    c == ' ' || c == '\t' || c == '\n' || c == '\r'
}

/// ASCII letters.
pub open spec fn is_letter_char(c: char) -> bool {
    (97 <= c as u32 && c as u32 <= 122) || (65 <= c as u32 && c as u32 <= 90)
}

/// ASCII digits.
pub open spec fn is_digit_char(c: char) -> bool {
    48 <= c as u32 && c as u32 <= 57
}

/// Characters that may begin an identifier: letters and the underscore.
pub open spec fn is_ident_start_char(c: char) -> bool {
    is_letter_char(c) || c == '_'
}

/// Characters that may continue an identifier: letters, digits, underscore.
pub open spec fn is_ident_char(c: char) -> bool {
    is_ident_start_char(c) || is_digit_char(c)
}

fn is_whitespace_char_exec(c: char) -> (b: bool)
    ensures
        b == is_whitespace_char(c),
{
    c == ' ' || c == '\t' || c == '\n' || c == '\r'
}

fn is_ident_start_char_exec(c: char) -> (b: bool)
    ensures
        b == is_ident_start_char(c),
{
    let u = c as u32;
    (97 <= u && u <= 122) || (65 <= u && u <= 90) || c == '_'
}

fn is_ident_char_exec(c: char) -> (b: bool)
    ensures
        b == is_ident_char(c),
{
    let u = c as u32;
    is_ident_start_char_exec(c) || (48 <= u && u <= 57)
}

/// A token at the specification level: an identifier's character sequence, or
/// one of the three punctuation marks.
#[verifier::ext_equal]
pub enum Tok {
    Ident(Seq<char>),
    LBrace,
    RBrace,
    Comma,
}

/// A token as the tokenizer materializes it.
pub(crate) enum Token {
    Ident(String),
    LBrace,
    RBrace,
    Comma,
}

impl View for Token {
    type V = Tok;

    closed spec fn view(&self) -> Tok {
        match self {
            Token::Ident(s) => Tok::Ident(s@),
            Token::LBrace => Tok::LBrace,
            Token::RBrace => Tok::RBrace,
            Token::Comma => Tok::Comma,
        }
    }
}

pub(crate) open spec fn toks_view(ts: Seq<Token>) -> Seq<Tok> {
    ts.map_values(|t: Token| t@)
}

/// A well-formed identifier: non-empty, no leading digit, and built of
/// letters, digits and underscores only.
pub open spec fn is_identifier(s: Seq<char>) -> bool {
    s.len() >= 1 && is_ident_start_char(s[0]) && forall|k: int|
        0 <= k < s.len() ==> is_ident_char(s[k])
}

/// Length of the longest identifier-character prefix of `s`.
pub open spec fn ident_len(s: Seq<char>) -> nat
    decreases s.len(),
{
    if s.len() == 0 || !is_ident_char(s[0]) {
        0
    } else {
        ident_len(s.skip(1)) + 1
    }
}

pub proof fn lemma_ident_len_bounds(s: Seq<char>)
    ensures
        ident_len(s) <= s.len(),
        s.len() > 0 && is_ident_char(s[0]) ==> 1 <= ident_len(s),
    decreases s.len(),
{
    if s.len() == 0 || !is_ident_char(s[0]) {
    } else {
        lemma_ident_len_bounds(s.skip(1));
    }
}

/// Prepends a token to a tokenization outcome.
pub open spec fn cons_tok(t: Tok, rest: Option<Seq<Tok>>) -> Option<Seq<Tok>> {
    match rest {
        Some(ts) => Some(seq![t] + ts),
        None => None,
    }
}

/// The token sequence of a text, or `None` if some character belongs to no
/// token: tokens are maximal identifier runs and the marks `{`, `}` and `,`,
/// and whitespace between tokens is skipped.
pub open spec fn spec_tokens(s: Seq<char>) -> Option<Seq<Tok>>
    decreases s.len()
        via spec_tokens_decreases
{
    if s.len() == 0 {
        Some(Seq::empty())
    } else if is_whitespace_char(s[0]) {
        spec_tokens(s.skip(1))
    } else if s[0] == '{' {
        cons_tok(Tok::LBrace, spec_tokens(s.skip(1)))
    } else if s[0] == '}' {
        cons_tok(Tok::RBrace, spec_tokens(s.skip(1)))
    } else if s[0] == ',' {
        cons_tok(Tok::Comma, spec_tokens(s.skip(1)))
    } else if is_ident_start_char(s[0]) {
        cons_tok(
            Tok::Ident(s.take(ident_len(s) as int)),
            spec_tokens(s.skip(ident_len(s) as int)),
        )
    } else {
        None
    }
}

#[via_fn]
proof fn spec_tokens_decreases(s: Seq<char>) {
    lemma_ident_len_bounds(s);
}

/// While the tokenizer stands at position `i` with tokens `done` already
/// produced, the tokenization of the whole text is `done` followed by the
/// tokenization of the rest, and fails exactly if the rest fails.
pub(crate) open spec fn tokenize_inv(s: Seq<char>, i: int, done: Seq<Tok>) -> bool {
    match spec_tokens(s.skip(i)) {
        Some(rest) => spec_tokens(s) == Some(done + rest),
        None => spec_tokens(s) is None,
    }
}

proof fn lemma_step_whitespace(s: Seq<char>, i: int)
    requires
        0 <= i < s.len(),
        is_whitespace_char(s[i]),
    ensures
        spec_tokens(s.skip(i)) == spec_tokens(s.skip(i + 1)),
{
    let t = s.skip(i);
    assert(t[0] == s[i]);
    assert(t.skip(1) =~= s.skip(i + 1));
}

proof fn lemma_step_punct(s: Seq<char>, i: int, tk: Tok)
    requires
        0 <= i < s.len(),
        s[i] == '{' && tk == Tok::LBrace || s[i] == '}' && tk == Tok::RBrace || s[i] == ','
            && tk == Tok::Comma,
    ensures
        spec_tokens(s.skip(i)) == cons_tok(tk, spec_tokens(s.skip(i + 1))),
{
    let t = s.skip(i);
    assert(t[0] == s[i]);
    assert(t.skip(1) =~= s.skip(i + 1));
}

proof fn lemma_ident_len_of_run(s: Seq<char>, i: int, j: int)
    requires
        0 <= i <= j <= s.len(),
        forall|k: int| i <= k < j ==> is_ident_char(s[k]),
        j == s.len() || !is_ident_char(s[j]),
    ensures
        ident_len(s.skip(i)) == j - i,
    decreases j - i,
{
    let t = s.skip(i);
    if i == j {
        if t.len() > 0 {
            assert(t[0] == s[i]);
        }
    } else {
        assert(t[0] == s[i]);
        assert(t.skip(1) =~= s.skip(i + 1));
        lemma_ident_len_of_run(s, i + 1, j);
    }
}

proof fn lemma_step_ident(s: Seq<char>, i: int, j: int)
    requires
        0 <= i < j <= s.len(),
        is_ident_start_char(s[i]),
        forall|k: int| i <= k < j ==> is_ident_char(s[k]),
        j == s.len() || !is_ident_char(s[j]),
    ensures
        spec_tokens(s.skip(i)) == cons_tok(
            Tok::Ident(s.subrange(i, j)),
            spec_tokens(s.skip(j)),
        ),
{
    let t = s.skip(i);
    assert(t[0] == s[i]);
    assert(!is_whitespace_char(t[0]) && t[0] != '{' && t[0] != '}' && t[0] != ',');
    lemma_ident_len_of_run(s, i, j);
    assert(ident_len(t) == j - i);
    assert(t.take(j - i) =~= s.subrange(i, j));
    assert(t.skip(j - i) =~= s.skip(j));
}

proof fn lemma_step_error(s: Seq<char>, i: int)
    requires
        0 <= i < s.len(),
        !is_whitespace_char(s[i]),
        s[i] != '{',
        s[i] != '}',
        s[i] != ',',
        !is_ident_start_char(s[i]),
    ensures
        spec_tokens(s.skip(i)) is None,
{
    let t = s.skip(i);
    assert(t[0] == s[i]);
}

/// Splits the text into tokens; rejects any character outside the grammar's
/// alphabet.
pub(crate) fn tokenize(s: &str) -> (r: Result<Vec<Token>, SqlParseError>)
    ensures
        match r {
            Ok(toks) => spec_tokens(s@) == Some(toks_view(toks@)),
            Err(e) => spec_tokens(s@) is None && e == SqlParseError::InvalidData,
        },
{
    let n = s.unicode_len();
    let mut toks: Vec<Token> = Vec::new();
    let mut i: usize = 0;
    proof {
        assert(s@.skip(0) =~= s@);
        assert(toks_view(toks@) =~= Seq::<Tok>::empty());
        match spec_tokens(s@) {
            Some(rest) => {
                assert(toks_view(toks@) + rest =~= rest);
            },
            None => {
            },
        }
    }
    while i < n
        invariant
            n == s@.len(),
            i <= n,
            tokenize_inv(s@, i as int, toks_view(toks@)),
        decreases n - i,
    {
        let c = s.get_char(i);
        let ghost done = toks_view(toks@);
        if is_whitespace_char_exec(c) {
            proof {
                lemma_step_whitespace(s@, i as int);
            }
            i = i + 1;
        } else if c == '{' || c == '}' || c == ',' {
            let tok = if c == '{' {
                Token::LBrace
            } else if c == '}' {
                Token::RBrace
            } else {
                Token::Comma
            };
            let ghost tk = tok@;
            toks.push(tok);
            proof {
                lemma_step_punct(s@, i as int, tk);
                lemma_extend_inv(s@, i as int, (i + 1) as int, done, tk);
                assert(toks_view(toks@) =~= done.push(tk));
                assert(done.push(tk) =~= done + seq![tk]);
            }
            i = i + 1;
        } else if is_ident_start_char_exec(c) {
            let start = i;
            let mut j = i + 1;
            while j < n && is_ident_char_exec(s.get_char(j))
                invariant
                    n == s@.len(),
                    start < j <= n,
                    forall|k: int| start < k < j ==> is_ident_char(s@[k]),
                decreases n - j,
            {
                j = j + 1;
            }
            let text = s.substring_char(start, j);
            let owned = String::from_str(text);
            let ghost tk = Tok::Ident(owned@);
            toks.push(Token::Ident(owned));
            proof {
                assert(is_ident_char(s@[start as int]));
                lemma_step_ident(s@, start as int, j as int);
                assert(tk == Tok::Ident(s@.subrange(start as int, j as int)));
                lemma_extend_inv(s@, start as int, j as int, done, tk);
                assert(toks_view(toks@) =~= done.push(tk));
                assert(done.push(tk) =~= done + seq![tk]);
            }
            i = j;
        } else {
            proof {
                lemma_step_error(s@, i as int);
            }
            return Err(SqlParseError::InvalidData);
        }
    }
    proof {
        assert(s@.skip(n as int) =~= Seq::<char>::empty());
        if spec_tokens(s@.skip(n as int)) is Some {
            assert(toks_view(toks@) + Seq::<Tok>::empty() =~= toks_view(toks@));
        }
    }
    Ok(toks)
}

/// The character sequence of the `CREATE` keyword.
pub open spec fn create_keyword() -> Seq<char> {
    seq!['C', 'R', 'E', 'A', 'T', 'E']
}

/// The character sequence of the `TABLE` keyword.
pub open spec fn table_keyword() -> Seq<char> {
    seq!['T', 'A', 'B', 'L', 'E']
}

/// Prepends a column to a column-list outcome.
pub open spec fn cons_col(
    c: (Seq<char>, SqlType),
    rest: Option<Seq<(Seq<char>, SqlType)>>,
) -> Option<Seq<(Seq<char>, SqlType)>> {
    match rest {
        Some(cs) => Some(seq![c] + cs),
        None => None,
    }
}

/// The column list denoted by the tokens that follow the opening brace, up to
/// the end of the input: one or more `name type` clauses separated by commas,
/// an optional trailing comma, and the closing brace as the very last token.
/// The type token must be one of the three recognized keywords: an unknown
/// type is a grammar failure, so no invalid type can ever reach the reducer.
pub open spec fn spec_columns(ts: Seq<Tok>) -> Option<Seq<(Seq<char>, SqlType)>>
    decreases ts.len(),
{
    if ts.len() >= 3 && ts[0] is Ident && ts[1] is Ident && sql_type_of(ts[1]->Ident_0) is Some {
        let col = (ts[0]->Ident_0, sql_type_of(ts[1]->Ident_0)->Some_0);
        if ts.len() == 3 && ts[2] == Tok::RBrace {
            Some(seq![col])
        } else if ts[2] == Tok::Comma {
            if ts.len() == 4 && ts[3] == Tok::RBrace {
                Some(seq![col])
            } else {
                cons_col(col, spec_columns(ts.skip(3)))
            }
        } else {
            None
        }
    } else {
        None
    }
}

/// The statement denoted by a token sequence, if it has the shape
/// `CREATE TABLE <name> { <columns> }` with nothing after the closing brace.
pub open spec fn spec_match(ts: Seq<Tok>) -> Option<StatementView> {
    if ts.len() >= 4 && ts[0] == Tok::Ident(create_keyword()) && ts[1] == Tok::Ident(
        table_keyword(),
    ) && ts[2] is Ident && ts[3] == Tok::LBrace {
        match spec_columns(ts.skip(4)) {
            Some(cols) => Some(StatementView { table_name: ts[2]->Ident_0, columns: cols }),
            None => None,
        }
    } else {
        None
    }
}

/// The statement denoted by a text, if any: the composition of tokenization
/// and the token grammar. This is the specification that the whole parser is
/// verified against.
pub open spec fn spec_parse(s: Seq<char>) -> Option<StatementView> {
    match spec_tokens(s) {
        Some(ts) => spec_match(ts),
        None => None,
    }
}

/// Grammar rules that tag the nodes of a parse tree.
#[derive(Debug, Clone, Copy, PartialEq, Eq, Structural)]
pub enum Rule {
    TableName,
    ColumnName,
    ColumnType,
}

/// One node of a parse tree: a rule tag and the exact matched substring.
#[derive(Debug, PartialEq)]
pub struct TreeNode {
    pub rule: Rule,
    pub text: String,
}

impl View for TreeNode {
    type V = (Rule, Seq<char>);

    open spec fn view(&self) -> (Rule, Seq<char>) {
        (self.rule, self.text@)
    }
}

/// The parse tree of a recognized statement: its rule-tagged nodes in
/// document order, already flattened for the reducer.
#[derive(Debug, PartialEq)]
pub struct ParseTree {
    pub nodes: Vec<TreeNode>,
}

impl View for ParseTree {
    type V = Seq<(Rule, Seq<char>)>;

    open spec fn view(&self) -> Seq<(Rule, Seq<char>)> {
        self.nodes@.map_values(|nd: TreeNode| nd@)
    }
}

/// The tree nodes that a column list contributes: a `ColumnName` and a
/// `ColumnType` node for each column, in source order.
pub open spec fn cols_nodes(cols: Seq<(Seq<char>, SqlType)>) -> Seq<(Rule, Seq<char>)> {
    Seq::new(
        2 * cols.len(),
        |i: int|
            if i % 2 == 0 {
                (Rule::ColumnName, cols[i / 2].0)
            } else {
                (Rule::ColumnType, sql_type_text(cols[i / 2].1))
            },
    )
}

/// The parse tree of a statement: the table name node followed by the column
/// nodes in source order.
pub open spec fn tree_of(st: StatementView) -> Seq<(Rule, Seq<char>)> {
    seq![(Rule::TableName, st.table_name)] + cols_nodes(st.columns)
}

proof fn lemma_cols_nodes_push(cols: Seq<(Seq<char>, SqlType)>, c: (Seq<char>, SqlType))
    ensures
        cols_nodes(cols.push(c)) =~= cols_nodes(cols) + seq![
            (Rule::ColumnName, c.0),
            (Rule::ColumnType, sql_type_text(c.1)),
        ],
{
}

/// While the matcher stands at token position `k` with columns `done` already
/// recognized, the column list after the opening brace is `done` followed by
/// whatever the remaining tokens denote, and fails exactly if they fail.
pub(crate) open spec fn columns_inv(
    ts: Seq<Tok>,
    k: int,
    done: Seq<(Seq<char>, SqlType)>,
) -> bool {
    match spec_columns(ts.skip(k)) {
        Some(rest) => spec_columns(ts.skip(4)) == Some(done + rest),
        None => spec_columns(ts.skip(4)) is None,
    }
}

proof fn lemma_extend_columns(
    ts: Seq<Tok>,
    k: int,
    k2: int,
    done: Seq<(Seq<char>, SqlType)>,
    col: (Seq<char>, SqlType),
)
    requires
        4 <= k <= k2 <= ts.len(),
        columns_inv(ts, k, done),
        spec_columns(ts.skip(k)) == cons_col(col, spec_columns(ts.skip(k2))),
    ensures
        columns_inv(ts, k2, done.push(col)),
{
    match spec_columns(ts.skip(k2)) {
        Some(rest) => {
            assert(spec_columns(ts.skip(k)) == Some(seq![col] + rest));
            assert(done + (seq![col] + rest) =~= done.push(col) + rest);
        },
        None => {
        },
    }
}

/// Matches the token sequence against the statement shape and builds the
/// parse tree.
fn match_tokens(toks: &Vec<Token>) -> (r: Result<ParseTree, SqlParseError>)
    ensures
        match r {
            Ok(tree) => spec_match(toks_view(toks@)) is Some && tree@ == tree_of(
                spec_match(toks_view(toks@))->Some_0,
            ),
            Err(e) => spec_match(toks_view(toks@)) is None && e == SqlParseError::InvalidData,
        },
{
    let ghost ts = toks_view(toks@);
    let n = toks.len();
    proof {
        reveal_strlit("CREATE");
        reveal_strlit("TABLE");
        assert("CREATE"@ =~= create_keyword());
        assert("TABLE"@ =~= table_keyword());
        assert(ts.len() == n);
    }
    if n < 4 {
        return Err(SqlParseError::InvalidData);
    }
    let create_ok = match &toks[0] {
        Token::Ident(s) => str_eq(s.as_str(), "CREATE"),
        _ => false,
    };
    if !create_ok {
        proof {
            assert(ts[0] != Tok::Ident(create_keyword()));
        }
        return Err(SqlParseError::InvalidData);
    }
    let table_ok = match &toks[1] {
        Token::Ident(s) => str_eq(s.as_str(), "TABLE"),
        _ => false,
    };
    if !table_ok {
        proof {
            assert(ts[1] != Tok::Ident(table_keyword()));
        }
        return Err(SqlParseError::InvalidData);
    }
    let tname: &String = match &toks[2] {
        Token::Ident(s) => s,
        _ => {
            proof {
                assert(!(ts[2] is Ident));
            }
            return Err(SqlParseError::InvalidData);
        },
    };
    let lbrace_ok = match &toks[3] {
        Token::LBrace => true,
        _ => false,
    };
    if !lbrace_ok {
        proof {
            assert(ts[3] != Tok::LBrace);
        }
        return Err(SqlParseError::InvalidData);
    }
    let ghost name = ts[2]->Ident_0;
    let mut nodes: Vec<TreeNode> = Vec::new();
    nodes.push(TreeNode { rule: Rule::TableName, text: tname.clone() });
    let ghost mut done: Seq<(Seq<char>, SqlType)> = Seq::empty();
    let mut k: usize = 4;
    proof {
        assert(cols_nodes(done) =~= Seq::<(Rule, Seq<char>)>::empty());
        assert(nodes@.map_values(|nd: TreeNode| nd@) =~= seq![(Rule::TableName, name)]
            + cols_nodes(done));
        match spec_columns(ts.skip(4)) {
            Some(rest) => {
                assert(done + rest =~= rest);
            },
            None => {
            },
        }
    }
    loop
        invariant
            ts == toks_view(toks@),
            n == toks.len(),
            ts.len() == n,
            4 <= k <= n,
            ts[0] == Tok::Ident(create_keyword()),
            ts[1] == Tok::Ident(table_keyword()),
            ts[2] is Ident,
            name == ts[2]->Ident_0,
            ts[3] == Tok::LBrace,
            nodes@.map_values(|nd: TreeNode| nd@) == seq![(Rule::TableName, name)] + cols_nodes(
                done,
            ),
            columns_inv(ts, k as int, done),
        decreases n - k,
    {
        let ghost u = ts.skip(k as int);
        proof {
            assert(u.len() == n - k);
        }
        if n - k < 2 {
            proof {
                assert(spec_columns(u) is None);
            }
            return Err(SqlParseError::InvalidData);
        }
        let cname: &String = match &toks[k] {
            Token::Ident(s) => s,
            _ => {
                proof {
                    assert(u[0] == ts[k as int]);
                    assert(spec_columns(u) is None);
                }
                return Err(SqlParseError::InvalidData);
            },
        };
        let tytext: &String = match &toks[k + 1] {
            Token::Ident(s) => s,
            _ => {
                proof {
                    assert(u[1] == ts[k + 1]);
                    assert(spec_columns(u) is None);
                }
                return Err(SqlParseError::InvalidData);
            },
        };
        proof {
            assert(u[0] == ts[k as int]);
            assert(u[1] == ts[k + 1]);
        }
        let ty = match SqlType::from_str(tytext.as_str()) {
            Ok(t) => t,
            Err(_) => {
                proof {
                    assert(sql_type_of(u[1]->Ident_0) is None);
                    assert(spec_columns(u) is None);
                }
                return Err(SqlParseError::InvalidData);
            },
        };
        let ghost col = (cname@, ty);
        let ghost done_pre = done;
        nodes.push(TreeNode { rule: Rule::ColumnName, text: cname.clone() });
        nodes.push(TreeNode { rule: Rule::ColumnType, text: tytext.clone() });
        proof {
            done = done.push(col);
            assert(tytext@ == sql_type_text(ty));
            lemma_cols_nodes_push(done_pre, col);
            let pair = seq![(Rule::ColumnName, col.0), (Rule::ColumnType, sql_type_text(col.1))];
            assert(cols_nodes(done) == cols_nodes(done_pre) + pair);
            assert(nodes@.map_values(|nd: TreeNode| nd@) =~= (seq![(Rule::TableName, name)]
                + cols_nodes(done_pre)) + pair);
            assert((seq![(Rule::TableName, name)] + cols_nodes(done_pre)) + pair =~= seq![
                (Rule::TableName, name),
            ] + (cols_nodes(done_pre) + pair));
            assert(nodes@.map_values(|nd: TreeNode| nd@) =~= seq![(Rule::TableName, name)]
                + cols_nodes(done));
        }
        if n - k == 2 {
            proof {
                assert(spec_columns(u) is None);
                assert(columns_inv(ts, k as int, done_pre));
            }
            return Err(SqlParseError::InvalidData);
        }
        let k2 = k + 2;
        let ghost st = StatementView { table_name: name, columns: done };
        match &toks[k2] {
            Token::RBrace => {
                if n - k2 == 1 {
                    proof {
                        assert(u[2] == ts[k2 as int]);
                        assert(u.len() == 3);
                        assert(spec_columns(u) == Some(seq![col]));
                        assert(done_pre + seq![col] =~= done);
                        assert(spec_columns(ts.skip(4)) == Some(done));
                        assert(spec_match(ts) == Some(st));
                        assert(tree_of(st) == seq![(Rule::TableName, name)] + cols_nodes(done));
                    }
                    return Ok(ParseTree { nodes });
                } else {
                    proof {
                        assert(u[2] == ts[k2 as int]);
                        assert(spec_columns(u) is None);
                        assert(columns_inv(ts, k as int, done_pre));
                    }
                    return Err(SqlParseError::InvalidData);
                }
            },
            Token::Comma => {
                proof {
                    assert(u[2] == ts[k2 as int]);
                }
                if n - k2 == 2 {
                    let trailing_rb = match &toks[k2 + 1] {
                        Token::RBrace => true,
                        _ => false,
                    };
                    if trailing_rb {
                        proof {
                            assert(u[3] == ts[k2 + 1]);
                            assert(u.len() == 4);
                            assert(spec_columns(u) == Some(seq![col]));
                            assert(done_pre + seq![col] =~= done);
                            assert(spec_columns(ts.skip(4)) == Some(done));
                            assert(spec_match(ts) == Some(st));
                            assert(tree_of(st) == seq![(Rule::TableName, name)] + cols_nodes(
                                done,
                            ));
                        }
                        return Ok(ParseTree { nodes });
                    }
                }
                proof {
                    assert(u.skip(3) =~= ts.skip(k2 + 1));
                    if u.len() == 4 && u[3] == Tok::RBrace {
                        assert(u[3] == ts[k2 + 1]);
                        assert(false);
                    }
                    assert(spec_columns(u) == cons_col(col, spec_columns(ts.skip(k2 + 1))));
                    lemma_extend_columns(ts, k as int, k2 + 1, done_pre, col);
                }
                k = k2 + 1;
            },
            _ => {
                proof {
                    assert(u[2] == ts[k2 as int]);
                    assert(spec_columns(u) is None);
                    assert(columns_inv(ts, k as int, done_pre));
                }
                return Err(SqlParseError::InvalidData);
            },
        }
    }
}

/// SQL parser struct: the grammar engine. [`SQLParser::parse`] recognizes the
/// statement text and produces its parse tree.
pub struct SQLParser;

impl SQLParser {
    /// Recognizes a `CREATE TABLE` statement: on success the parse tree of
    /// the denoted statement, on any text outside the grammar an error.
    pub fn parse(query: &str) -> (r: Result<ParseTree, SqlParseError>)
        ensures
            match r {
                Ok(tree) => spec_parse(query@) is Some && tree@ == tree_of(
                    spec_parse(query@)->Some_0,
                ),
                Err(e) => spec_parse(query@) is None && e == SqlParseError::InvalidData,
            },
    {
        let toks = match tokenize(query) {
            Ok(t) => t,
            Err(e) => {
                return Err(e);
            },
        };
        match_tokens(&toks)
    }
}

/// Extends the tokenizer invariant across one produced token: if the rest
/// starting at `i` tokenizes to `tk` followed by the rest at `j`, the
/// invariant moves from `(i, done)` to `(j, done + [tk])`.
proof fn lemma_extend_inv(s: Seq<char>, i: int, j: int, done: Seq<Tok>, tk: Tok)
    requires
        0 <= i <= j <= s.len(),
        tokenize_inv(s, i, done),
        spec_tokens(s.skip(i)) == cons_tok(tk, spec_tokens(s.skip(j))),
    ensures
        tokenize_inv(s, j, done + seq![tk]),
{
    match spec_tokens(s.skip(j)) {
        Some(rest) => {
            assert(spec_tokens(s.skip(i)) == Some(seq![tk] + rest));
            assert(done + (seq![tk] + rest) =~= (done + seq![tk]) + rest);
        },
        None => {
        },
    }
}

} // verus!
