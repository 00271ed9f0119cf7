//! Selecting rows, as in a file explorer.

use vstd::prelude::*;

use crate::browse::{row_views, Row, RowView};
use crate::text::{opt_text, same_text};
use crate::text_set::TextSet;

verus! {

/// A click on a row.
#[derive(Clone, Copy, Debug, PartialEq, Eq, Structural)]
pub enum RowClick {
    /// No click on the row's body.
    Idle,
    /// A single primary click, with shift and the toggle modifier.
    Single { shift: bool, toggle: bool },
    /// A double primary click: open, that is enter a folder or view a file.
    Double,
}

/// The first row at `path`, or `other`.
pub open spec fn row_at(rows: Seq<RowView>, path: Seq<char>, other: int) -> int
    decreases rows.len(),
{
    if rows.len() == 0 {
        other
    } else if row_at(rows.drop_last(), path, -1) >= 0 {
        row_at(rows.drop_last(), path, -1)
    } else if rows.last().path == path {
        rows.len() - 1
    } else {
        other
    }
}

/// The row that a range starts from: the anchor's, or the clicked one if the anchor
/// is gone.
pub open spec fn range_start(rows: Seq<RowView>, anchor: Option<Seq<char>>, idx: int) -> int {
    match anchor {
        Some(a) => row_at(rows, a, idx),
        None => idx,
    }
}

/// The paths of the rows between two positions, both included.
pub open spec fn paths_between(rows: Seq<RowView>, a: int, b: int) -> Set<Seq<char>> {
    Set::new(
        |p: Seq<char>|
            exists|i: int|
                (a <= i <= b || b <= i <= a) && 0 <= i < rows.len() && (#[trigger] rows[i]).path
                    == p,
    )
}

/// The selection after a single click on row `idx`.
pub open spec fn selection_after(
    selected: Set<Seq<char>>,
    anchor: Option<Seq<char>>,
    rows: Seq<RowView>,
    idx: int,
    shift: bool,
    toggle: bool,
) -> Set<Seq<char>> {
    let path = rows[idx].path;
    if shift {
        (if toggle {
            selected
        } else {
            Set::empty()
        }).union(paths_between(rows, range_start(rows, anchor, idx), idx))
    } else if toggle {
        if selected.contains(path) {
            selected.remove(path)
        } else {
            selected.insert(path)
        }
    } else {
        Set::empty().insert(path)
    }
}

/// The anchor after a single click on row `idx`: a shift click leaves it alone.
pub open spec fn anchor_after(
    anchor: Option<Seq<char>>,
    rows: Seq<RowView>,
    idx: int,
    shift: bool,
) -> Option<Seq<char>> {
    if shift {
        anchor
    } else {
        Some(rows[idx].path)
    }
}

proof fn lemma_row_at(rows: Seq<RowView>, path: Seq<char>, other: int)
    ensures
        row_at(rows, path, other) == other && (forall|i: int|
            0 <= i < rows.len() ==> (#[trigger] rows[i]).path != path) || (0 <= row_at(
            rows,
            path,
            other,
        ) < rows.len() && rows[row_at(rows, path, other)].path == path && (forall|i: int|
            0 <= i < row_at(rows, path, other) ==> (#[trigger] rows[i]).path != path)),
    decreases rows.len(),
{
    if rows.len() > 0 {
        let t = rows.drop_last();
        lemma_row_at(t, path, -1);
        assert forall|i: int| 0 <= i < t.len() implies #[trigger] rows[i] == t[i] by {}
        if row_at(t, path, -1) < 0 && rows.last().path != path {
            assert forall|i: int| 0 <= i < rows.len() implies (#[trigger] rows[i]).path != path by {
                if i < t.len() {
                    assert(rows[i] == t[i]);
                }
            }
        }
    }
}

/// The first row at `path`, or `other`.
fn find_row(rows: &[Row], path: &str, other: usize) -> (r: usize)
    requires
        other < rows@.len(),
    ensures
        r == row_at(row_views(rows@), path@, other as int),
        r < rows@.len(),
{
    let ghost v = row_views(rows@);
    proof {
        lemma_row_at(v, path@, other as int);
    }
    let mut i: usize = 0;
    while i < rows.len()
        invariant
            i <= rows@.len(),
            v == row_views(rows@),
            forall|k: int| 0 <= k < i ==> (#[trigger] v[k]).path != path@,
        decreases rows@.len() - i,
    {
        assert(v[i as int] == rows@[i as int]@);
        if same_text(&rows[i].path, path) {
            proof {
                lemma_row_at(v, path@, other as int);
            }
            return i;
        }
        i += 1;
    }
    other
}

/// The core of a single (not double) click: updates the selection and the anchor by
/// the explorer's modifier rules. A plain click selects only the row; the toggle
/// modifier toggles it; shift selects the range from the anchor; both add the range.
pub fn resolve_single_click(
    selected: &mut TextSet,
    anchor: &mut Option<String>,
    rows: &[Row],
    idx: usize,
    shift: bool,
    toggle: bool,
)
    requires
        idx < rows@.len(),
    ensures
        final(selected)@ == selection_after(
            old(selected)@,
            opt_text(*old(anchor)),
            row_views(rows@),
            idx as int,
            shift,
            toggle,
        ),
        opt_text(*final(anchor)) == anchor_after(
            opt_text(*old(anchor)),
            row_views(rows@),
            idx as int,
            shift,
        ),
{
    let ghost v = row_views(rows@);
    let ghost before = selected@;
    assert(v[idx as int] == rows@[idx as int]@);
    let path = rows[idx].path.clone();
    if shift {
        let start: usize = match anchor {
            Some(a) => find_row(rows, a, idx),
            None => idx,
        };
        let (lo, hi): (usize, usize) = if start < idx { (start, idx) } else { (idx, start) };
        if !toggle {
            selected.clear();
        }
        let ghost base = selected@;
        let end: usize = hi + 1;
        let mut i: usize = lo;
        let ghost mut done: Set<Seq<char>> = Set::empty();
        assert(selected@ =~= base.union(done));
        while i < end
            invariant
                lo <= i <= end <= rows@.len(),
                v == row_views(rows@),
                selected@ == base.union(done),
                forall|p: Seq<char>| #[trigger]
                    done.contains(p) <==> exists|k: int|
                        lo <= k < i && 0 <= k < v.len() && (#[trigger] v[k]).path == p,
            decreases end - i,
        {
            assert(v[i as int] == rows@[i as int]@);
            selected.insert(&rows[i].path);
            proof {
                let p0 = rows@[i as int].path@;
                let next = done.insert(p0);
                assert forall|p: Seq<char>| #[trigger]
                    next.contains(p) <==> exists|k: int|
                        lo <= k < i + 1 && 0 <= k < v.len() && (#[trigger] v[k]).path == p by {
                    if p == p0 {
                        assert(v[i as int].path == p);
                    } else if next.contains(p) {
                        let k = choose|k: int|
                            lo <= k < i && 0 <= k < v.len() && (#[trigger] v[k]).path == p;
                        assert(v[k].path == p);
                    }
                }
                assert(selected@ =~= base.union(next));
                done = next;
            }
            i += 1;
        }
        proof {
            let range = paths_between(v, start as int, idx as int);
            assert forall|p: Seq<char>| range.contains(p) <==> done.contains(p) by {
                if range.contains(p) {
                    let k = choose|k: int|
                        (start <= k <= idx || idx <= k <= start) && 0 <= k < v.len() && (
                        #[trigger] v[k]).path == p;
                    assert(lo <= k < end && v[k].path == p);
                }
                if done.contains(p) {
                    let k = choose|k: int|
                        lo <= k < end && 0 <= k < v.len() && (#[trigger] v[k]).path == p;
                    assert((start <= k <= idx || idx <= k <= start) && v[k].path == p);
                }
            }
            assert(done =~= range);
        }
    } else if toggle {
        if !selected.remove(&path) {
            selected.insert(&path);
            assert(selected@ =~= before.insert(path@));
        }
        *anchor = Some(path);
    } else {
        selected.clear();
        selected.insert(&path);
        *anchor = Some(path);
    }
}

// ---------------------------------------------------------------------------
// Laws
// ---------------------------------------------------------------------------

/// Toggling the same row twice restores the selection.
pub proof fn law_toggle_twice_restores(
    selected: Set<Seq<char>>,
    anchor: Option<Seq<char>>,
    rows: Seq<RowView>,
    idx: int,
)
    requires
        0 <= idx < rows.len(),
    ensures
        selection_after(
            selection_after(selected, anchor, rows, idx, false, true),
            anchor_after(anchor, rows, idx, false),
            rows,
            idx,
            false,
            true,
        ) == selected,
{
    let p = rows[idx].path;
    if selected.contains(p) {
        assert(selected.remove(p).insert(p) =~= selected);
    } else {
        assert(selected.insert(p).remove(p) =~= selected);
    }
}

/// A shift click leaves the anchor, so a second one replaces the range of the
/// first: the selection depends on the last click alone.
pub proof fn law_shift_click_readjusts_the_range(
    selected: Set<Seq<char>>,
    anchor: Option<Seq<char>>,
    rows: Seq<RowView>,
    first: int,
    second: int,
)
    requires
        0 <= first < rows.len(),
        0 <= second < rows.len(),
    ensures
        selection_after(
            selection_after(selected, anchor, rows, first, true, false),
            anchor_after(anchor, rows, first, true),
            rows,
            second,
            true,
            false,
        ) == selection_after(selected, anchor, rows, second, true, false),
{
}

/// A click only ever adds rows that are shown.
pub proof fn law_clicks_select_only_shown_rows(
    selected: Set<Seq<char>>,
    anchor: Option<Seq<char>>,
    rows: Seq<RowView>,
    idx: int,
    shift: bool,
    toggle: bool,
    p: Seq<char>,
)
    requires
        0 <= idx < rows.len(),
        selection_after(selected, anchor, rows, idx, shift, toggle).contains(p),
    ensures
        selected.contains(p) || exists|i: int| 0 <= i < rows.len() && (#[trigger] rows[i]).path == p,
{
    if !selected.contains(p) && !shift {
        assert(rows[idx].path == p);
    }
}

/// A plain click selects the clicked row and nothing else; a toggling one changes the clicked
/// row and nothing else; both make it the anchor.
pub proof fn law_a_click_concerns_the_clicked_row(
    selected: Set<Seq<char>>,
    anchor: Option<Seq<char>>,
    rows: Seq<RowView>,
    idx: int,
    toggle: bool,
    p: Seq<char>,
)
    requires
        0 <= idx < rows.len(),
    ensures
        anchor_after(anchor, rows, idx, false) == Some(rows[idx].path),
        !toggle ==> (selection_after(selected, anchor, rows, idx, false, toggle).contains(p) <==> p
            == rows[idx].path),
        toggle && p != rows[idx].path ==> (selection_after(
            selected,
            anchor,
            rows,
            idx,
            false,
            toggle,
        ).contains(p) <==> selected.contains(p)),
        toggle ==> (selection_after(selected, anchor, rows, idx, false, toggle).contains(
            rows[idx].path,
        ) <==> !selected.contains(rows[idx].path)),
{
}

/// A range click selects exactly the rows from the anchor's row to the clicked one, whichever
/// comes first, besides what stays selected; the anchor stays.
pub proof fn law_a_range_click_selects_the_range(
    selected: Set<Seq<char>>,
    rows: Seq<RowView>,
    at: int,
    idx: int,
    toggle: bool,
    p: Seq<char>,
)
    requires
        0 <= idx < rows.len(),
        0 <= at < rows.len(),
        forall|i: int| 0 <= i < at ==> (#[trigger] rows[i]).path != rows[at].path,
    ensures
        anchor_after(Some(rows[at].path), rows, idx, true) == Some(rows[at].path),
        selection_after(selected, Some(rows[at].path), rows, idx, true, toggle).contains(p) <==> (
        toggle && selected.contains(p)) || exists|i: int|
            0 <= i < rows.len() && (at <= i <= idx || idx <= i <= at) && (#[trigger] rows[i]).path
                == p,
{
    lemma_row_at(rows, rows[at].path, idx);
    let k = row_at(rows, rows[at].path, idx);
    if k != at {
        assert(rows[at].path != rows[at].path || k < at);
        if k < at && 0 <= k {
            assert(rows[k].path != rows[at].path);
        }
    }
}

} // verus!
