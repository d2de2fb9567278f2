//! The mathematical model of an editable view and of the state transitions
//! the input-method capability performs on it.
//!
//! A view's persistent state is its visible text, its selection, the active
//! composition (marked) span if any, and whether it currently accepts
//! input-method interaction. Every capability operation is specified as a
//! function on this state.

use crate::range::CodeUnitRange;
use crate::utf16::{
    ceil_chars,
    floor_chars,
    is_boundary,
    lemma_prefix_units_is_boundary,
    lemma_snap_range,
    lemma_units_concat,
    lemma_units_subrange,
    snap_down,
    snap_up,
    units_of,
};
use vstd::prelude::*;

verus! {

/// The persistent state of an editable view, as the contracts see it.
#[verifier::ext_equal]
pub struct ViewState {
    /// The view's visible text.
    pub text: Seq<char>,
    /// Selection start, in UTF-16 code units.
    pub sel_start: int,
    /// Selection end, in UTF-16 code units.
    pub sel_end: int,
    /// True when the caret end of the selection is at `sel_start`.
    pub sel_reversed: bool,
    /// The active composition span, or `None` when no composition is active.
    pub marked: Option<(int, int)>,
    /// False when the view refuses input-method interaction.
    pub enabled: bool,
}

/// Well-formedness of a view state: selection and marked span lie on
/// character boundaries inside the text and are ordered.
pub open spec fn state_wf(m: ViewState) -> bool {
    &&& is_boundary(m.text, m.sel_start)
    &&& is_boundary(m.text, m.sel_end)
    &&& m.sel_start <= m.sel_end
    &&& match m.marked {
        Some(r) => is_boundary(m.text, r.0) && is_boundary(m.text, r.1) && r.0 <= r.1,
        None => true,
    }
}

/// An optional code-unit range, as the model sees it.
pub open spec fn range_model(r: Option<CodeUnitRange>) -> Option<(int, int)> {
    match r {
        Some(x) => Some((x.start as int, x.end as int)),
        None => None,
    }
}

/// A well-formed optional span: ordered and non-negative.
pub open spec fn span_wf(r: Option<(int, int)>) -> bool {
    match r {
        Some(x) => 0 <= x.0 <= x.1,
        None => true,
    }
}

/// The span a plain replacement targets: the given range, or else the
/// current selection.
pub open spec fn replace_target(m: ViewState, range: Option<(int, int)>) -> (int, int) {
    match range {
        Some(r) => r,
        None => (m.sel_start, m.sel_end),
    }
}

/// The span a composition update targets: the given range, or else the
/// active marked span, or else the current selection.
pub open spec fn mark_target(m: ViewState, range: Option<(int, int)>) -> (int, int) {
    match range {
        Some(r) => r,
        None => match m.marked {
            Some(mr) => mr,
            None => (m.sel_start, m.sel_end),
        },
    }
}

/// The text after the characters covered by the snapped span `[start, end)`
/// are replaced by `ins`: the requested start is rounded down and the
/// requested end rounded up to character boundaries, so that no character is
/// ever split.
pub open spec fn spliced(text: Seq<char>, start: int, end: int, ins: Seq<char>) -> Seq<char> {
    text.take(floor_chars(text, start)) + ins + text.skip(ceil_chars(text, end))
}

/// The characters a text read of `[start, end)` covers after snapping.
pub open spec fn read_chars(text: Seq<char>, start: int, end: int) -> Seq<char> {
    text.subrange(floor_chars(text, start), ceil_chars(text, end))
}

/// State after `selected_text_range`: unchanged; the result it returns is
/// `None` exactly when the view refuses input and the caller does not
/// override that.
pub open spec fn selected_spec(m: ViewState, ignore_disabled_input: bool) -> Option<
    (int, int, bool),
> {
    if !m.enabled && !ignore_disabled_input {
        None
    } else {
        Some((m.sel_start, m.sel_end, m.sel_reversed))
    }
}

/// State after `unmark_text`: any active composition is committed, which
/// leaves text and selection unchanged and clears the marked span.
pub open spec fn unmark_spec(m: ViewState) -> ViewState {
    ViewState { marked: None, ..m }
}

/// State after `replace_text_in_range`: the target span (snapped outward to
/// character boundaries) is replaced by the inserted text, the caret moves to
/// immediately follow the insertion, and any composition is committed.
pub open spec fn replace_text_spec(
    m: ViewState,
    range: Option<(int, int)>,
    ins: Seq<char>,
) -> ViewState {
    let t = replace_target(m, range);
    let caret = snap_down(m.text, t.0) + units_of(ins);
    ViewState {
        text: spliced(m.text, t.0, t.1, ins),
        sel_start: caret,
        sel_end: caret,
        sel_reversed: false,
        marked: None,
        enabled: m.enabled,
    }
}

/// State after `replace_and_mark_text_in_range`: the target span (snapped
/// outward) is replaced by the inserted text, the inserted span becomes the
/// marked span, and the selection is the given sub-span of the insertion
/// (snapped within it) or else a caret at the insertion's end.
pub open spec fn replace_and_mark_spec(
    m: ViewState,
    range: Option<(int, int)>,
    ins: Seq<char>,
    new_sel: Option<(int, int)>,
) -> ViewState {
    let t = mark_target(m, range);
    let ins_start = snap_down(m.text, t.0);
    let ins_units = units_of(ins);
    let sel = match new_sel {
        Some(r) => (ins_start + snap_down(ins, r.0), ins_start + snap_up(ins, r.1)),
        None => (ins_start + ins_units, ins_start + ins_units),
    };
    ViewState {
        text: spliced(m.text, t.0, t.1, ins),
        sel_start: sel.0,
        sel_end: sel.1,
        sel_reversed: false,
        marked: Some((ins_start, ins_start + ins_units)),
        enabled: m.enabled,
    }
}

/// State after the application moves the selection: the requested span is
/// snapped outward to character boundaries and clamped into the text.
pub open spec fn set_selection_spec(m: ViewState, start: int, end: int, reversed: bool) -> ViewState {
    ViewState {
        sel_start: snap_down(m.text, start),
        sel_end: snap_up(m.text, end),
        sel_reversed: reversed,
        ..m
    }
}

/// Moving the selection to a well-formed span keeps the state well formed.
pub proof fn lemma_set_selection_wf(m: ViewState, start: int, end: int, reversed: bool)
    requires
        state_wf(m),
        0 <= start <= end,
    ensures
        state_wf(set_selection_spec(m, start, end, reversed)),
{
    lemma_snap_range(m.text, start, end);
}

/// How a splice decomposes: the prefix before the snapped start is kept, the
/// insertion follows it, the suffix after the snapped end follows that, and
/// code-unit measures add up accordingly.
pub proof fn lemma_spliced_parts(text: Seq<char>, start: int, end: int, ins: Seq<char>)
    requires
        0 <= start <= end,
    ensures
        ({
            let cs = floor_chars(text, start);
            let ce = ceil_chars(text, end);
            let out = spliced(text, start, end, ins);
            &&& 0 <= cs <= ce <= text.len()
            &&& out.len() == cs + ins.len() + (text.len() - ce)
            &&& forall|i: int| 0 <= i <= cs ==> #[trigger] out.take(i) == text.take(i)
            &&& forall|i: int|
                0 <= i <= ins.len() ==> #[trigger] units_of(out.take(cs + i)) == snap_down(
                    text,
                    start,
                ) + units_of(ins.take(i))
            &&& units_of(out) == snap_down(text, start) + units_of(ins) + units_of(text) - snap_up(
                text,
                end,
            )
            &&& out.subrange(cs, cs + ins.len()) == ins
            &&& out.skip(cs + ins.len()) == text.skip(ce)
        }),
{
    let cs = floor_chars(text, start);
    let ce = ceil_chars(text, end);
    let out = spliced(text, start, end, ins);
    lemma_snap_range(text, start, end);
    assert forall|i: int| 0 <= i <= cs implies #[trigger] out.take(i) == text.take(i) by {
        assert(out.take(i) =~= text.take(i));
    }
    assert forall|i: int| 0 <= i <= ins.len() implies #[trigger] units_of(out.take(cs + i))
        == snap_down(text, start) + units_of(ins.take(i)) by {
        assert(out.take(cs + i) =~= text.take(cs) + ins.take(i));
        lemma_units_concat(text.take(cs), ins.take(i));
    }
    assert(out =~= (text.take(cs) + ins) + text.skip(ce));
    lemma_units_concat(text.take(cs) + ins, text.skip(ce));
    lemma_units_concat(text.take(cs), ins);
    assert(text.skip(ce) =~= text.subrange(ce, text.len() as int));
    lemma_units_subrange(text, ce, text.len() as int);
    assert(text.take(text.len() as int) =~= text);
    assert(out.subrange(cs, cs + ins.len()) =~= ins);
    assert(out.skip(cs + ins.len()) =~= text.skip(ce));
}

/// A plain replacement yields a well-formed state whose caret sits at the
/// boundary immediately after the inserted text.
pub proof fn lemma_replace_text_wf(m: ViewState, range: Option<(int, int)>, ins: Seq<char>)
    requires
        state_wf(m),
        span_wf(range),
    ensures
        state_wf(replace_text_spec(m, range, ins)),
        units_of(replace_text_spec(m, range, ins).text) == snap_down(m.text, replace_target(m, range).0)
            + units_of(ins) + units_of(m.text) - snap_up(m.text, replace_target(m, range).1),
{
    let t = replace_target(m, range);
    let cs = floor_chars(m.text, t.0);
    let out = replace_text_spec(m, range, ins);
    lemma_spliced_parts(m.text, t.0, t.1, ins);
    assert(units_of(out.text.take(cs + ins.len())) == snap_down(m.text, t.0) + units_of(ins.take(
        ins.len() as int,
    )));
    assert(ins.take(ins.len() as int) =~= ins);
    lemma_prefix_units_is_boundary(out.text, cs + ins.len());
}

/// A composition update yields a well-formed state: the marked span covers
/// exactly the inserted text, and the selection lies inside it (or is the
/// caret at its end).
pub proof fn lemma_replace_and_mark_wf(
    m: ViewState,
    range: Option<(int, int)>,
    ins: Seq<char>,
    new_sel: Option<(int, int)>,
)
    requires
        state_wf(m),
        span_wf(range),
        span_wf(new_sel),
    ensures
        state_wf(replace_and_mark_spec(m, range, ins, new_sel)),
        ({
            let t = mark_target(m, range);
            let out = replace_and_mark_spec(m, range, ins, new_sel);
            &&& out.marked == Some(
                (snap_down(m.text, t.0), snap_down(m.text, t.0) + units_of(ins)),
            )
            &&& units_of(out.text) == snap_down(m.text, t.0) + units_of(ins) + units_of(m.text)
                - snap_up(m.text, t.1)
        }),
{
    let t = mark_target(m, range);
    let cs = floor_chars(m.text, t.0);
    let ins_start = snap_down(m.text, t.0);
    let out = replace_and_mark_spec(m, range, ins, new_sel);
    lemma_spliced_parts(m.text, t.0, t.1, ins);
    crate::utf16::lemma_units_bounds(ins);
    assert(ins.take(ins.len() as int) =~= ins);
    assert(ins.take(0) =~= Seq::<char>::empty());
    assert(units_of(out.text.take(cs + 0)) == ins_start + units_of(ins.take(0)));
    assert(units_of(out.text.take(cs + ins.len())) == ins_start + units_of(ins));
    lemma_prefix_units_is_boundary(out.text, cs);
    lemma_prefix_units_is_boundary(out.text, cs + ins.len());
    match new_sel {
        Some(r) => {
            lemma_snap_range(ins, r.0, r.1);
            let f0 = floor_chars(ins, r.0);
            let c1 = ceil_chars(ins, r.1);
            assert(units_of(out.text.take(cs + f0)) == ins_start + snap_down(ins, r.0));
            assert(units_of(out.text.take(cs + c1)) == ins_start + snap_up(ins, r.1));
            lemma_prefix_units_is_boundary(out.text, cs + f0);
            lemma_prefix_units_is_boundary(out.text, cs + c1);
        },
        None => {},
    }
}

} // verus!
