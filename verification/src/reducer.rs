//! Tree reducer: walks the flattened parse tree in document order and
//! assembles the validated [`CreateTable`] statement.
//!
//! The walk keeps two accumulators — the pending table name and the pending
//! column name — and appends a completed (name, type) pair whenever a column
//! type node is consumed, so the columns come out in source order in a single
//! forward pass. A tree that lacks a table name, pairs a column name with no
//! recognized type, leaves a column name dangling, or holds no column at all
//! is rejected; on trees the grammar engine produces these defects cannot
//! arise, but the reducer checks them so that it stands on its own.

use vstd::prelude::*;

use crate::ast::sql_type_of;
use crate::ast::ColumnInfo;
use crate::ast::ColumnInfoOption;
use crate::ast::CreateTable;
use crate::ast::CreateTableOption;
use crate::ast::SqlParseError;
use crate::ast::SqlType;
use crate::ast::StatementView;
use crate::grammar::ParseTree;
use crate::grammar::Rule;

verus! {

/// The view of an optional owned string.
pub open spec fn opt_str_view(o: Option<String>) -> Option<Seq<char>> {
    match o {
        Some(s) => Some(s@),
        None => None,
    }
}

/// Every accumulated column option is present and fully populated.
pub open spec fn column_options_complete(s: Seq<Option<ColumnInfoOption>>) -> bool {
    forall|i: int|
        0 <= i < s.len() ==> s[i] is Some && s[i]->Some_0.column_name is Some
            && s[i]->Some_0.column_type is Some
}

/// The (name, type) pairs held by a fully populated column option sequence.
pub open spec fn column_options_view(s: Seq<Option<ColumnInfoOption>>) -> Seq<
    (Seq<char>, SqlType),
> {
    s.map_values(
        |o: Option<ColumnInfoOption>|
            (o->Some_0.column_name->Some_0@, o->Some_0.column_type->Some_0),
    )
}

/// One pass of the reduction walk over the remaining nodes, carrying the
/// pending table name (first occurrence wins), the pending column name, and
/// the columns completed so far. At the end the table name must be set, no
/// column name may be left dangling, and at least one column must exist.
pub open spec fn reduce_walk(
    nodes: Seq<(Rule, Seq<char>)>,
    name: Option<Seq<char>>,
    pending: Option<Seq<char>>,
    cols: Seq<(Seq<char>, SqlType)>,
) -> Option<StatementView>
    decreases nodes.len(),
{
    if nodes.len() == 0 {
        if name is Some && pending is None && cols.len() >= 1 {
            Some(StatementView { table_name: name->Some_0, columns: cols })
        } else {
            None
        }
    } else {
        let nd = nodes[0];
        let rest = nodes.skip(1);
        match nd.0 {
            Rule::TableName => reduce_walk(
                rest,
                if name is Some {
                    name
                } else {
                    Some(nd.1)
                },
                pending,
                cols,
            ),
            Rule::ColumnName => reduce_walk(rest, name, Some(nd.1), cols),
            Rule::ColumnType => if pending is Some && sql_type_of(nd.1) is Some {
                reduce_walk(rest, name, None, cols.push((pending->Some_0, sql_type_of(nd.1)->Some_0)))
            } else {
                None
            },
        }
    }
}

/// The statement denoted by a flattened parse tree, if its nodes assemble
/// into a complete one.
pub open spec fn spec_reduce(nodes: Seq<(Rule, Seq<char>)>) -> Option<StatementView> {
    reduce_walk(nodes, None, None, Seq::empty())
}

/// This function, unwrap_column_info, unwraps and extracts column information
/// from a vector of optional ColumnInfoOption instances, returning a vector
/// of ColumnInfo in the same order.
pub fn unwrap_column_info(column_info: &mut Vec<Option<ColumnInfoOption>>) -> (r: Vec<ColumnInfo>)
    requires
        column_options_complete(old(column_info)@),
    ensures
        final(column_info)@ == old(column_info)@,
        r@.map_values(|c: ColumnInfo| c@) == column_options_view(old(column_info)@),
{
    let n = column_info.len();
    let mut r: Vec<ColumnInfo> = Vec::new();
    let mut idx: usize = 0;
    while idx < n
        invariant
            column_info@ == old(column_info)@,
            column_options_complete(column_info@),
            n == column_info@.len(),
            idx <= n,
            r@.map_values(|c: ColumnInfo| c@) =~= column_options_view(column_info@.take(idx as int)),
        decreases n - idx,
    {
        let cdef = match &column_info[idx] {
            Some(c) => c,
            None => unreached(),
        };
        let cname = match &cdef.column_name {
            Some(s) => s.clone(),
            None => unreached(),
        };
        let ctype = match &cdef.column_type {
            Some(t) => *t,
            None => unreached(),
        };
        let ghost r_pre = r@;
        let ghost cnv = cname@;
        let ghost e = column_info@[idx as int];
        proof {
            assert(cnv == e->Some_0.column_name->Some_0@);
            assert(ctype == e->Some_0.column_type->Some_0);
        }
        r.push(ColumnInfo { column_name: cname, column_type: ctype });
        idx = idx + 1;
        proof {
            let view_fn = |c: ColumnInfo| c@;
            assert(r@.map_values(view_fn) =~= r_pre.map_values(view_fn).push((cnv, ctype)));
            assert(column_info@.take(idx as int) =~= column_info@.take(idx as int - 1).push(e));
            assert(column_options_view(column_info@.take(idx as int)) =~= column_options_view(
                column_info@.take(idx as int - 1),
            ).push((cnv, ctype)));
            assert(r@.map_values(|c: ColumnInfo| c@) =~= column_options_view(
                column_info@.take(idx as int),
            ));
        }
    }
    proof {
        assert(column_info@.take(n as int) =~= column_info@);
    }
    r
}

/// This function reduces a parse tree, extracting the table name, column
/// names, and types to construct a CreateTable struct; a tree that lacks a
/// required field or pairs a column with an unrecognized type is rejected.
pub fn parse_create_table(tree: &ParseTree) -> (r: Result<CreateTable, SqlParseError>)
    ensures
        match r {
            Ok(ct) => spec_reduce(tree@) == Some(ct@),
            Err(e) => spec_reduce(tree@) is None && e == SqlParseError::InvalidData,
        },
{
    let ghost nodes_v = tree@;
    let mut acc = CreateTableOption { table_name: None, column_info: Vec::new() };
    let mut column_name: Option<String> = None;
    let n = tree.nodes.len();
    let mut i: usize = 0;
    proof {
        assert(nodes_v.len() == n);
        assert(nodes_v.skip(0) =~= nodes_v);
        assert(column_options_view(acc.column_info@) =~= Seq::<(Seq<char>, SqlType)>::empty());
    }
    while i < n
        invariant
            nodes_v == tree@,
            n == tree.nodes@.len(),
            n == nodes_v.len(),
            i <= n,
            column_options_complete(acc.column_info@),
            reduce_walk(
                nodes_v.skip(i as int),
                opt_str_view(acc.table_name),
                opt_str_view(column_name),
                column_options_view(acc.column_info@),
            ) == spec_reduce(nodes_v),
        decreases n - i,
    {
        let ghost w = nodes_v.skip(i as int);
        proof {
            assert(w[0] == nodes_v[i as int]);
            assert(w.skip(1) =~= nodes_v.skip(i as int + 1));
        }
        let nd = &tree.nodes[i];
        match nd.rule {
            Rule::TableName => {
                if acc.table_name.is_none() {
                    acc.table_name = Some(nd.text.clone());
                }
            },
            Rule::ColumnName => {
                column_name = Some(nd.text.clone());
            },
            Rule::ColumnType => {
                let ty = match SqlType::from_str(nd.text.as_str()) {
                    Ok(t) => t,
                    Err(_) => {
                        return Err(SqlParseError::InvalidData);
                    },
                };
                let cn = match &column_name {
                    Some(s) => s.clone(),
                    None => {
                        return Err(SqlParseError::InvalidData);
                    },
                };
                let ghost cols_pre = acc.column_info@;
                let ghost cnv = cn@;
                acc.column_info.push(
                    Some(ColumnInfoOption { column_name: Some(cn), column_type: Some(ty) }),
                );
                column_name = None;
                proof {
                    assert(column_options_view(acc.column_info@) =~= column_options_view(
                        cols_pre,
                    ).push((cnv, ty)));
                }
            },
        }
        i = i + 1;
    }
    proof {
        assert(nodes_v.skip(n as int) =~= Seq::<(Rule, Seq<char>)>::empty());
    }
    let table_name = match acc.table_name {
        Some(t) => t,
        None => {
            return Err(SqlParseError::InvalidData);
        },
    };
    if acc.column_info.is_empty() {
        return Err(SqlParseError::InvalidData);
    }
    if column_name.is_some() {
        return Err(SqlParseError::InvalidData);
    }
    let column_info = unwrap_column_info(&mut acc.column_info);
    let ct = CreateTable { table_name, column_info };
    proof {
        assert(ct@.columns == column_options_view(acc.column_info@));
    }
    Ok(ct)
}

} // verus!
