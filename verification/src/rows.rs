//! Rendering of query-result rows.
//!
//! A poll of a running or finished query job hands back a batch of rows,
//! each an ordered sequence of already-formatted fields. The results view
//! shows one line per row: the row's fields joined by a comma and a space.

use vstd::prelude::*;
use vstd::string::StringExecFns;

verus! {

/// The rendering of one row: its fields joined by `", "`.
pub open spec fn join_fields(fields: Seq<Seq<char>>) -> Seq<char>
    decreases fields.len(),
{
    if fields.len() == 0 {
        Seq::empty()
    } else if fields.len() == 1 {
        fields[0]
    } else {
        join_fields(fields.drop_last()) + ", "@ + fields.last()
    }
}

/// The rendering of a whole batch: one line per row, in the rows' order.
pub open spec fn rendered(rows: Seq<Seq<Seq<char>>>) -> Seq<Seq<char>> {
    rows.map_values(|row: Seq<Seq<char>>| join_fields(row))
}

/// Renders one result row as the line the results view shows for it.
pub fn render_row(fields: &Vec<String>) -> (out: String)
    ensures
        out@ == join_fields(fields.deep_view()),
{
    let mut out = String::new();
    let mut i: usize = 0;
    while i < fields.len()
        invariant
            i <= fields@.len(),
            out@ == join_fields(fields.deep_view().subrange(0, i as int)),
        decreases fields@.len() - i,
    {
        if i > 0 {
            out.append(", ");
        }
        out.append(fields[i].as_str());
        proof {
            let dv = fields.deep_view();
            assert(dv.subrange(0, i + 1).drop_last() =~= dv.subrange(0, i as int));
            assert(dv.subrange(0, i + 1).last() == dv[i as int]);
        }
        i += 1;
    }
    proof {
        assert(fields.deep_view().subrange(0, fields@.len() as int) =~= fields.deep_view());
    }
    out
}

/// Renders a batch of rows into the lines that replace the results view.
pub fn render_rows(rows: &Vec<Vec<String>>) -> (out: Vec<String>)
    ensures
        out.deep_view() == rendered(rows.deep_view()),
{
    let mut out: Vec<String> = Vec::new();
    let mut i: usize = 0;
    while i < rows.len()
        invariant
            i <= rows@.len(),
            out.deep_view() =~= rendered(rows.deep_view().subrange(0, i as int)),
        decreases rows@.len() - i,
    {
        let line = render_row(&rows[i]);
        out.push(line);
        proof {
            let dv = rows.deep_view();
            assert(dv.subrange(0, i + 1) =~= dv.subrange(0, i as int).push(dv[i as int]));
            assert(out.deep_view() =~= rendered(dv.subrange(0, i as int)).push(
                join_fields(dv[i as int]),
            ));
        }
        i += 1;
    }
    proof {
        assert(rows.deep_view().subrange(0, rows@.len() as int) =~= rows.deep_view());
        assert(out.deep_view() =~= rendered(rows.deep_view()));
    }
    out
}

} // verus!
