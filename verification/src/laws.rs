//! The guarantees the model gives, stated and proved once for all inputs.

use crate::geometry::SpatialBounds;
use crate::handler::ViewInputHandler;
use crate::model::{
    lemma_replace_and_mark_wf,
    lemma_spliced_parts,
    mark_target,
    read_chars,
    replace_and_mark_spec,
    replace_text_spec,
    span_wf,
    state_wf,
    unmark_spec,
    ViewState,
};
use crate::text_view::TextView;
use crate::utf16::{
    ceil_chars,
    floor_chars,
    is_boundary,
    lemma_prefix_units_is_boundary,
    lemma_snap_range,
    lemma_units_bounds,
    lemma_units_subrange,
    snap_down,
    snap_up,
    units_of,
};
use vstd::prelude::*;

verus! {

/// Reading a range that lies on character boundaries inside the text needs no
/// snapping: the adjusted range equals the request, and the text returned
/// measures exactly the requested number of code units.
pub proof fn lemma_read_in_bounds_exact(text: Seq<char>, start: int, end: int)
    requires
        is_boundary(text, start),
        is_boundary(text, end),
        start <= end,
    ensures
        snap_down(text, start) == start,
        snap_up(text, end) == end,
        units_of(read_chars(text, start, end)) == end - start,
{
    lemma_snap_range(text, start, end);
    lemma_units_subrange(text, floor_chars(text, start), ceil_chars(text, end));
}

/// Reading a range whose ends bisect multi-unit characters snaps outward: the
/// adjusted range contains the request, aligns to character boundaries on
/// both ends, and the text returned covers exactly the adjusted range.
pub proof fn lemma_read_snaps_outward(text: Seq<char>, start: int, end: int)
    requires
        0 <= start <= end <= units_of(text),
    ensures
        snap_down(text, start) <= start,
        end <= snap_up(text, end),
        is_boundary(text, snap_down(text, start)),
        is_boundary(text, snap_up(text, end)),
        units_of(read_chars(text, start, end)) == snap_up(text, end) - snap_down(text, start),
{
    lemma_snap_range(text, start, end);
    lemma_units_subrange(text, floor_chars(text, start), ceil_chars(text, end));
}

/// One composition update accounts for length exactly once: the text after it
/// measures the old text minus the snapped target span plus the insertion,
/// and the marked span covers exactly the insertion.
pub proof fn lemma_mark_accounting(
    m: ViewState,
    range: Option<(int, int)>,
    ins: Seq<char>,
    new_sel: Option<(int, int)>,
)
    requires
        state_wf(m),
        span_wf(range),
        span_wf(new_sel),
    ensures
        ({
            let t = mark_target(m, range);
            let out = replace_and_mark_spec(m, range, ins, new_sel);
            &&& units_of(out.text) == units_of(m.text) - (snap_up(m.text, t.1) - snap_down(
                m.text,
                t.0,
            )) + units_of(ins)
            &&& out.marked == Some((snap_down(m.text, t.0), snap_down(m.text, t.0) + units_of(ins)))
        }),
{
    lemma_replace_and_mark_wf(m, range, ins, new_sel);
}

/// Consecutive composition updates each fully replace the prior marked span,
/// never accumulate: after a second update without an explicit range the text
/// is as if only the second had been applied, and committing with
/// `unmark_text` keeps that text.
pub proof fn lemma_remark_replaces(m: ViewState, t1: Seq<char>, t2: Seq<char>)
    requires
        state_wf(m),
    ensures
        ({
            let m1 = replace_and_mark_spec(m, None, t1, None);
            let m2 = replace_and_mark_spec(m1, None, t2, None);
            let direct = replace_and_mark_spec(m, None, t2, None);
            &&& m2.text == direct.text
            &&& m2.marked == direct.marked
            &&& m2.marked matches Some(r) && r.1 - r.0 == units_of(t2)
            &&& unmark_spec(m2).text == m2.text
        }),
{
    let t = mark_target(m, None);
    let cs = floor_chars(m.text, t.0);
    let ce = ceil_chars(m.text, t.1);
    let a0 = snap_down(m.text, t.0);
    let m1 = replace_and_mark_spec(m, None, t1, None);
    let m2 = replace_and_mark_spec(m1, None, t2, None);
    let direct = replace_and_mark_spec(m, None, t2, None);
    lemma_spliced_parts(m.text, t.0, t.1, t1);
    lemma_units_bounds(t1);
    assert(t1.take(t1.len() as int) =~= t1);
    assert(t1.take(0) =~= Seq::<char>::empty());
    assert(m1.text.take(cs) == m.text.take(cs));
    assert(units_of(m1.text.take(cs + 0)) == a0 + units_of(t1.take(0)));
    assert(units_of(m1.text.take(cs + t1.len())) == a0 + units_of(t1));
    lemma_prefix_units_is_boundary(m1.text, cs);
    lemma_prefix_units_is_boundary(m1.text, cs + t1.len());
    assert(mark_target(m1, None) == (a0, a0 + units_of(t1)));
    assert(floor_chars(m1.text, a0) == cs);
    assert(ceil_chars(m1.text, a0 + units_of(t1)) == cs + t1.len());
    assert(m2.text =~= m.text.take(cs) + t2 + m.text.skip(ce));
    assert(direct.text =~= m.text.take(cs) + t2 + m.text.skip(ce));
    assert(snap_down(m1.text, a0) == a0);
}

/// Committing a composition when none is active is a no-op on the whole view
/// state.
pub proof fn lemma_unmark_noop(m: ViewState)
    requires
        m.marked is None,
    ensures
        unmark_spec(m) == m,
{
    assert(unmark_spec(m) =~= m);
}

/// Round trip: after replacing a range with some text, reading the span where
/// that text was inserted returns exactly that text, with no further
/// snapping, and the caret sits immediately after it.
pub proof fn lemma_replace_round_trip(m: ViewState, start: int, end: int, ins: Seq<char>)
    requires
        state_wf(m),
        0 <= start <= end,
    ensures
        ({
            let out = replace_text_spec(m, Some((start, end)), ins);
            let a0 = snap_down(m.text, start);
            &&& read_chars(out.text, a0, a0 + units_of(ins)) == ins
            &&& snap_down(out.text, a0) == a0
            &&& snap_up(out.text, a0 + units_of(ins)) == a0 + units_of(ins)
            &&& out.sel_start == a0 + units_of(ins)
            &&& out.sel_end == a0 + units_of(ins)
            &&& out.marked is None
        }),
{
    let out = replace_text_spec(m, Some((start, end)), ins);
    let cs = floor_chars(m.text, start);
    let a0 = snap_down(m.text, start);
    lemma_spliced_parts(m.text, start, end, ins);
    lemma_units_bounds(ins);
    assert(ins.take(ins.len() as int) =~= ins);
    assert(ins.take(0) =~= Seq::<char>::empty());
    assert(out.text.take(cs) == m.text.take(cs));
    assert(units_of(out.text.take(cs + 0)) == a0 + units_of(ins.take(0)));
    assert(units_of(out.text.take(cs + ins.len())) == a0 + units_of(ins));
    lemma_prefix_units_is_boundary(out.text, cs);
    lemma_prefix_units_is_boundary(out.text, cs + ins.len());
    assert(floor_chars(out.text, a0) == cs);
    assert(ceil_chars(out.text, a0 + units_of(ins)) == cs + ins.len());
}

/// A span that snaps entirely outside the scroll window yields no rectangle,
/// and a reported rectangle is never zero-sized.
pub proof fn lemma_bounds_never_zero_size(v: TextView, start: int, end: int, eb: SpatialBounds)
    requires
        v.inv(),
        0 <= start <= end,
    ensures
        snap_up(v.text@, end) <= v.scroll_offset as int ==> v.bounds_spec(start, end, eb)
            is None,
        snap_down(v.text@, start) >= v.scroll_offset as int + v.viewport_units as int
            ==> v.bounds_spec(start, end, eb) is None,
        v.bounds_spec(start, end, eb) matches Some(b) ==> b.width >= 1 && b.height >= 1,
{
    lemma_snap_range(v.text@, start, end);
    let a0 = snap_down(v.text@, start);
    let a1 = snap_up(v.text@, end);
    let lo = v.scroll_offset as int;
    let hi = lo + v.viewport_units as int;
    let vs = if a0 > lo {
        a0
    } else {
        lo
    };
    let ve = if a1 < hi {
        a1
    } else {
        hi
    };
    if vs < ve {
        assert((ve - vs) * (v.unit_width as int) >= 1) by (nonlinear_arith)
            requires
                ve - vs >= 1,
                v.unit_width as int >= 1,
        ;
    }
}

} // verus!
