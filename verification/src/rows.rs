//! Lists of property rows and lookups in them.

use crate::model::{copy_row, PropValue, PropertyRow, RowView, ValueView};
use vstd::prelude::*;

verus! {

/// What a property lookup reports: type, default value and post-init
/// status.
pub type Found = (String, PropValue, bool);

/// The mathematical form of a [`Found`].
pub type FoundView = (Seq<char>, ValueView, bool);

/// The first row at or after `from` whose name is `name`, without its name.
pub open spec fn first_named_from(rows: Seq<RowView>, name: Seq<char>, from: int) -> Option<
    FoundView,
>
    decreases rows.len() - from,
{
    if from < 0 || from >= rows.len() {
        None
    } else if rows[from].0 == name {
        Some((rows[from].1, rows[from].2, rows[from].3))
    } else {
        first_named_from(rows, name, from + 1)
    }
}

/// The first row named `name`, without its name.
pub open spec fn first_named(rows: Seq<RowView>, name: Seq<char>) -> Option<FoundView> {
    first_named_from(rows, name, 0)
}

/// The mathematical form of an optional lookup result.
pub open spec fn found_view(f: Option<Found>) -> Option<FoundView> {
    match f {
        Some(t) => Some((t.0@, t.1@, t.2)),
        None => None,
    }
}

/// The first row named `name`, without its name.
pub fn find_row(rows: &Vec<PropertyRow>, name: &String) -> (r: Option<Found>)
    ensures
        found_view(r) == first_named(rows.deep_view(), name@),
{
    let ghost s = rows.deep_view();
    let mut i: usize = 0;
    while i < rows.len()
        invariant
            i <= rows.len(),
            s == rows.deep_view(),
            first_named(s, name@) == first_named_from(s, name@, i as int),
        decreases rows.len() - i,
    {
        if rows[i].0 == *name {
            let row = copy_row(&rows[i]);
            return Some((row.1, row.2, row.3));
        }
        i += 1;
    }
    None
}

} // verus!
