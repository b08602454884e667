//! General facts about the grammar and the reducer: the type keywords are
//! read back exactly, whitespace carries no meaning, column order is
//! preserved, and every tree the grammar engine emits reduces to the
//! statement it denotes.

use vstd::prelude::*;

use crate::ast::bool_keyword;
use crate::ast::int_keyword;
use crate::ast::sql_type_of;
use crate::ast::sql_type_text;
use crate::ast::text_keyword;
use crate::ast::SqlType;
use crate::ast::StatementView;
use crate::grammar::cols_nodes;
use crate::grammar::ident_len;
use crate::grammar::is_ident_char;
use crate::grammar::is_ident_start_char;
use crate::grammar::is_identifier;
use crate::grammar::is_whitespace_char;
use crate::grammar::lemma_ident_len_bounds;
use crate::grammar::spec_columns;
use crate::grammar::spec_match;
use crate::grammar::spec_parse;
use crate::grammar::spec_tokens;
use crate::grammar::tree_of;
use crate::grammar::Rule;
use crate::grammar::Tok;
use crate::reducer::reduce_walk;
use crate::reducer::spec_reduce;

verus! {

/// The source text of every column type keyword is recognized as exactly
/// that type.
pub proof fn lemma_type_text_roundtrip(t: SqlType)
    ensures
        sql_type_of(sql_type_text(t)) == Some(t),
{
    assert(int_keyword()[0] == 'I');
    assert(text_keyword()[0] == 'T');
    assert(bool_keyword()[0] == 'B');
    assert(text_keyword() != int_keyword());
    assert(bool_keyword() != int_keyword());
    assert(bool_keyword() != text_keyword());
}

/// A recognized column list holds at least one column.
pub proof fn lemma_columns_nonempty(ts: Seq<Tok>)
    requires
        spec_columns(ts) is Some,
    ensures
        spec_columns(ts)->Some_0.len() >= 1,
{
}

proof fn lemma_reduce_cols(st: StatementView, i: int)
    requires
        1 <= st.columns.len(),
        0 <= i <= st.columns.len(),
    ensures
        reduce_walk(
            cols_nodes(st.columns).skip(2 * i),
            Some(st.table_name),
            None,
            st.columns.take(i),
        ) == Some(st),
    decreases st.columns.len() - i,
{
    let nodes = cols_nodes(st.columns);
    let w = nodes.skip(2 * i);
    if i == st.columns.len() {
        assert(w =~= Seq::<(Rule, Seq<char>)>::empty());
        assert(st.columns.take(i) =~= st.columns);
        assert(StatementView { table_name: st.table_name, columns: st.columns } =~= st);
    } else {
        let c = st.columns[i];
        assert(w[0] == nodes[2 * i]);
        assert(nodes[2 * i] == (Rule::ColumnName, c.0));
        assert(w[1] == nodes[2 * i + 1]);
        assert(nodes[2 * i + 1] == (Rule::ColumnType, sql_type_text(c.1)));
        lemma_type_text_roundtrip(c.1);
        assert(w.skip(1) =~= nodes.skip(2 * i + 1));
        assert(nodes.skip(2 * i + 1)[0] == nodes[2 * i + 1]);
        assert(nodes.skip(2 * i + 1).skip(1) =~= nodes.skip(2 * (i + 1)));
        assert(st.columns.take(i).push((c.0, c.1)) =~= st.columns.take(i + 1));
        lemma_reduce_cols(st, i + 1);
        assert(reduce_walk(w, Some(st.table_name), None, st.columns.take(i)) == reduce_walk(
            nodes.skip(2 * i + 1),
            Some(st.table_name),
            Some(c.0),
            st.columns.take(i),
        ));
        assert(reduce_walk(nodes.skip(2 * i + 1), Some(st.table_name), Some(c.0), st.columns.take(i))
            == reduce_walk(
            nodes.skip(2 * (i + 1)),
            Some(st.table_name),
            None,
            st.columns.take(i + 1),
        ));
    }
}

/// Round trip between the grammar engine and the reducer: the parse tree of
/// any statement with at least one column reduces back to exactly that
/// statement. In particular every tree the engine emits reduces
/// successfully, so a grammar match can never strand the reducer.
pub proof fn lemma_reduce_tree_of(st: StatementView)
    requires
        1 <= st.columns.len(),
    ensures
        spec_reduce(tree_of(st)) == Some(st),
{
    let nodes = tree_of(st);
    assert(nodes[0] == (Rule::TableName, st.table_name));
    assert(nodes.skip(1) =~= cols_nodes(st.columns));
    assert(cols_nodes(st.columns).skip(0) =~= cols_nodes(st.columns));
    assert(st.columns.take(0) =~= Seq::<(Seq<char>, SqlType)>::empty());
    lemma_reduce_cols(st, 0);
    assert(spec_reduce(nodes) == reduce_walk(
        nodes.skip(1),
        Some(st.table_name),
        None,
        Seq::empty(),
    ));
}

/// Whitespace insensitivity: the parse result depends on the token sequence
/// alone, so any two texts that tokenize alike — the same statement laid out
/// with different spaces, tabs and newlines between its tokens — denote the
/// identical structured result, or fail alike.
pub proof fn lemma_whitespace_insensitivity(s: Seq<char>, t: Seq<char>)
    requires
        spec_tokens(s) == spec_tokens(t),
    ensures
        spec_parse(s) == spec_parse(t),
{
}

/// Leading whitespace never changes the token sequence.
pub proof fn lemma_whitespace_prepend(c: char, s: Seq<char>)
    requires
        is_whitespace_char(c),
    ensures
        spec_tokens(seq![c] + s) == spec_tokens(s),
{
    let t = seq![c] + s;
    assert(t[0] == c);
    assert(t.skip(1) =~= s);
}

proof fn lemma_ident_len_append_non_ident(s: Seq<char>, c: char)
    requires
        !is_ident_char(c),
    ensures
        ident_len(s + seq![c]) == ident_len(s),
    decreases s.len(),
{
    let t = s + seq![c];
    if s.len() == 0 {
        assert(t =~= seq![c]);
        assert(t[0] == c);
    } else if !is_ident_char(s[0]) {
        assert(t[0] == s[0]);
    } else {
        assert(t[0] == s[0]);
        assert(t.skip(1) =~= s.skip(1) + seq![c]);
        lemma_ident_len_append_non_ident(s.skip(1), c);
    }
}

/// Trailing whitespace never changes the token sequence.
pub proof fn lemma_whitespace_append(s: Seq<char>, c: char)
    requires
        is_whitespace_char(c),
    ensures
        spec_tokens(s + seq![c]) == spec_tokens(s),
    decreases s.len(),
{
    let t = s + seq![c];
    if s.len() == 0 {
        assert(t =~= seq![c]);
        assert(t[0] == c);
        assert(t.skip(1) =~= Seq::<char>::empty());
        assert(spec_tokens(t.skip(1)) == Some(Seq::<Tok>::empty()));
        assert(spec_tokens(s) == Some(Seq::<Tok>::empty()));
        assert(spec_tokens(t) == spec_tokens(s));
    } else {
        assert(t[0] == s[0]);
        if is_whitespace_char(s[0]) || s[0] == '{' || s[0] == '}' || s[0] == ',' {
            assert(t.skip(1) =~= s.skip(1) + seq![c]);
            lemma_whitespace_append(s.skip(1), c);
            assert(spec_tokens(t) == spec_tokens(s));
        } else if is_ident_start_char(s[0]) {
            lemma_ident_len_append_non_ident(s, c);
            lemma_ident_len_bounds(s);
            let l = ident_len(s) as int;
            assert(ident_len(t) == l);
            assert(1 <= l <= s.len());
            assert(t.take(l) =~= s.take(l));
            assert(t.skip(l) =~= s.skip(l) + seq![c]);
            lemma_whitespace_append(s.skip(l), c);
            assert(spec_tokens(t) == spec_tokens(s));
        } else {
            assert(spec_tokens(t) == spec_tokens(s));
        }
    }
}

proof fn lemma_ident_len_concat(x: Seq<char>, y: Seq<char>)
    ensures
        ident_len(x + y) == if ident_len(x) < x.len() {
            ident_len(x) as int
        } else {
            x.len() + ident_len(y) as int
        },
    decreases x.len(),
{
    let t = x + y;
    lemma_ident_len_bounds(x);
    if x.len() == 0 {
        assert(t =~= y);
    } else if !is_ident_char(x[0]) {
        assert(t[0] == x[0]);
    } else {
        assert(t[0] == x[0]);
        assert(t.skip(1) =~= x.skip(1) + y);
        lemma_ident_len_concat(x.skip(1), y);
        lemma_ident_len_bounds(x.skip(1));
    }
}

proof fn lemma_ident_len_run(s: Seq<char>)
    ensures
        forall|k: int| 0 <= k < ident_len(s) ==> is_ident_char(s[k]),
    decreases s.len(),
{
    if s.len() == 0 || !is_ident_char(s[0]) {
    } else {
        lemma_ident_len_run(s.skip(1));
        lemma_ident_len_bounds(s);
        lemma_ident_len_bounds(s.skip(1));
        assert forall|k: int| 0 <= k < ident_len(s) implies is_ident_char(s[k]) by {
            if k > 0 {
                assert(s.skip(1)[k - 1] == s[k]);
            }
        }
    }
}

/// Inserting one more whitespace character directly before or after a
/// whitespace character that the text already holds — that is, widening the
/// gap between two tokens — never changes the token sequence, and so never
/// changes the parse.
pub proof fn lemma_whitespace_widen(a: Seq<char>, b: Seq<char>, c: char)
    requires
        is_whitespace_char(c),
        a.len() == 0 || (a.len() > 0 && is_whitespace_char(a.last())) || (b.len() > 0
            && is_whitespace_char(b.first())),
    ensures
        spec_tokens(a + seq![c] + b) == spec_tokens(a + b),
    decreases a.len(),
{
    let t = a + seq![c] + b;
    let u = a + b;
    if a.len() == 0 {
        assert(t =~= seq![c] + b);
        assert(u =~= b);
        lemma_whitespace_prepend(c, b);
    } else {
        assert(t[0] == a[0]);
        assert(u[0] == a[0]);
        if is_whitespace_char(a[0]) || a[0] == '{' || a[0] == '}' || a[0] == ',' {
            assert(t.skip(1) =~= a.skip(1) + seq![c] + b);
            assert(u.skip(1) =~= a.skip(1) + b);
            if a.len() > 1 {
                assert(a.skip(1).last() == a.last());
            }
            lemma_whitespace_widen(a.skip(1), b, c);
        } else if is_ident_start_char(a[0]) {
            lemma_ident_len_bounds(a);
            let la = ident_len(a) as int;
            lemma_ident_len_concat(a, seq![c] + b);
            assert(a + (seq![c] + b) =~= t);
            lemma_ident_len_concat(a, b);
            assert(a + b =~= u);
            if la < a.len() {
                // the identifier run ends inside `a`
                assert(ident_len(t) == la);
                assert(ident_len(u) == la);
                assert(t.take(la) =~= a.take(la));
                assert(u.take(la) =~= a.take(la));
                assert(t.skip(la) =~= a.skip(la) + seq![c] + b);
                assert(u.skip(la) =~= a.skip(la) + b);
                assert(a.skip(la).len() > 0);
                assert(a.skip(la).last() == a.last());
                lemma_whitespace_widen(a.skip(la), b, c);
            } else {
                // all of `a` is one identifier run, so `b` must begin with
                // whitespace, and the run ends at the boundary either way
                assert(la == a.len());
                lemma_ident_len_run(a);
                assert(is_ident_char(a.last()));
                assert(!is_whitespace_char(a.last()));
                assert(b.len() > 0 && is_whitespace_char(b.first()));
                assert(!is_ident_char(c));
                assert(ident_len(seq![c] + b) == 0) by {
                    assert((seq![c] + b)[0] == c);
                }
                assert(ident_len(b) == 0);
                assert(ident_len(t) == la);
                assert(ident_len(u) == la);
                assert(t.take(la) =~= a);
                assert(u.take(la) =~= a);
                assert(t.skip(la) =~= seq![c] + b);
                assert(u.skip(la) =~= b);
                lemma_whitespace_prepend(c, b);
            }
        } else {
            // neither side tokenizes past this character
        }
    }
}

/// The raw texts of the `i`-th `name type` clause of a token sequence,
/// counting clauses from the front in source order.
pub open spec fn nth_clause(ts: Seq<Tok>, i: int) -> (Seq<char>, Seq<char>)
    decreases i,
{
    if i <= 0 {
        (ts[0]->Ident_0, ts[1]->Ident_0)
    } else {
        nth_clause(ts.skip(3), i - 1)
    }
}

/// Order preservation: for every well-formed column list, the `i`-th column
/// of the result is exactly the `i`-th clause of the source, for all `i` —
/// its name is the clause's first token and its type is denoted by the
/// clause's second token.
pub proof fn lemma_order_preservation(ts: Seq<Tok>, i: int)
    requires
        spec_columns(ts) is Some,
        0 <= i < spec_columns(ts)->Some_0.len(),
    ensures
        spec_columns(ts)->Some_0[i].0 == nth_clause(ts, i).0,
        sql_type_of(nth_clause(ts, i).1) == Some(spec_columns(ts)->Some_0[i].1),
    decreases i,
{
    let cs = spec_columns(ts)->Some_0;
    let col = (ts[0]->Ident_0, sql_type_of(ts[1]->Ident_0)->Some_0);
    if ts.len() == 3 && ts[2] == Tok::RBrace {
        assert(cs == seq![col]);
        assert(i == 0);
    } else if ts[2] == Tok::Comma && ts.len() == 4 && ts[3] == Tok::RBrace {
        assert(cs == seq![col]);
        assert(i == 0);
    } else {
        assert(ts[2] == Tok::Comma);
        let rest = spec_columns(ts.skip(3));
        assert(rest is Some);
        assert(cs == seq![col] + rest->Some_0);
        if i == 0 {
            assert(cs[0] == col);
        } else {
            lemma_order_preservation(ts.skip(3), i - 1);
            assert(cs[i] == rest->Some_0[i - 1]);
        }
    }
}

proof fn lemma_tokens_identifiers(s: Seq<char>)
    requires
        spec_tokens(s) is Some,
    ensures
        forall|j: int|
            0 <= j < spec_tokens(s)->Some_0.len() && spec_tokens(s)->Some_0[j] is Ident
                ==> is_identifier(#[trigger] spec_tokens(s)->Some_0[j]->Ident_0),
    decreases s.len(),
{
    let ts = spec_tokens(s)->Some_0;
    if s.len() == 0 {
    } else if is_whitespace_char(s[0]) {
        lemma_tokens_identifiers(s.skip(1));
    } else if s[0] == '{' || s[0] == '}' || s[0] == ',' {
        lemma_tokens_identifiers(s.skip(1));
        let rest = spec_tokens(s.skip(1))->Some_0;
        assert forall|j: int| 0 <= j < ts.len() && ts[j] is Ident implies is_identifier(
            #[trigger] ts[j]->Ident_0,
        ) by {
            if j > 0 {
                assert(ts[j] == rest[j - 1]);
            }
        }
    } else if is_ident_start_char(s[0]) {
        let l = ident_len(s) as int;
        lemma_ident_len_bounds(s);
        lemma_ident_len_run(s);
        let text = s.take(l);
        assert(text[0] == s[0]);
        assert(is_identifier(text));
        lemma_tokens_identifiers(s.skip(l));
        let rest = spec_tokens(s.skip(l))->Some_0;
        assert forall|j: int| 0 <= j < ts.len() && ts[j] is Ident implies is_identifier(
            #[trigger] ts[j]->Ident_0,
        ) by {
            if j > 0 {
                assert(ts[j] == rest[j - 1]);
            }
        }
    } else {
    }
}

proof fn lemma_columns_identifiers(ts: Seq<Tok>)
    requires
        spec_columns(ts) is Some,
        forall|j: int|
            0 <= j < ts.len() && ts[j] is Ident ==> is_identifier(#[trigger] ts[j]->Ident_0),
    ensures
        forall|i: int|
            0 <= i < spec_columns(ts)->Some_0.len() ==> is_identifier(
                #[trigger] spec_columns(ts)->Some_0[i].0,
            ),
    decreases ts.len(),
{
    let cs = spec_columns(ts)->Some_0;
    let col = (ts[0]->Ident_0, sql_type_of(ts[1]->Ident_0)->Some_0);
    assert(is_identifier(col.0));
    if ts.len() == 3 && ts[2] == Tok::RBrace {
        assert(cs == seq![col]);
    } else if ts[2] == Tok::Comma && ts.len() == 4 && ts[3] == Tok::RBrace {
        assert(cs == seq![col]);
    } else {
        let rest = ts.skip(3);
        assert forall|j: int| 0 <= j < rest.len() && rest[j] is Ident implies is_identifier(
            #[trigger] rest[j]->Ident_0,
        ) by {
            assert(rest[j] == ts[j + 3]);
        }
        lemma_columns_identifiers(rest);
        let rest_cs = spec_columns(rest)->Some_0;
        assert(cs == seq![col] + rest_cs);
        assert forall|i: int| 0 <= i < cs.len() implies is_identifier(#[trigger] cs[i].0) by {
            if i > 0 {
                assert(cs[i] == rest_cs[i - 1]);
            }
        }
    }
}

/// The data model invariant of a recognized statement: the table name and
/// every column name are non-empty and drawn from the identifier token class
/// — no leading digit, no embedded whitespace or punctuation.
pub proof fn lemma_parse_identifiers(s: Seq<char>)
    requires
        spec_parse(s) is Some,
    ensures
        is_identifier(spec_parse(s)->Some_0.table_name),
        forall|i: int|
            0 <= i < spec_parse(s)->Some_0.columns.len() ==> is_identifier(
                #[trigger] spec_parse(s)->Some_0.columns[i].0,
            ),
{
    let ts = spec_tokens(s)->Some_0;
    lemma_tokens_identifiers(s);
    let inner = ts.skip(4);
    assert forall|j: int| 0 <= j < inner.len() && inner[j] is Ident implies is_identifier(
        #[trigger] inner[j]->Ident_0,
    ) by {
        assert(inner[j] == ts[j + 4]);
    }
    lemma_columns_identifiers(inner);
}

/// The statement recognized in a text always has at least one column.
pub proof fn lemma_parse_nonempty(s: Seq<char>)
    requires
        spec_parse(s) is Some,
    ensures
        spec_parse(s)->Some_0.columns.len() >= 1,
{
    let ts = spec_tokens(s)->Some_0;
    assert(spec_match(ts) is Some);
    lemma_columns_nonempty(ts.skip(4));
}

} // verus!
