//! The editable-text capability contract and the input-method bridge.
//!
//! [`ViewInputHandler`] is the contract any view with editable text must
//! satisfy to participate in platform text input: query and replace
//! operations addressed by UTF-16 code-unit ranges, each specified against
//! the view's model state. [`ElementInputHandler`] adapts such a view into
//! the call shape a platform input-method system expects, supplying the
//! element bounds captured at construction to spatial queries.

use crate::geometry::SpatialBounds;
use crate::model::{
    range_model,
    read_chars,
    replace_and_mark_spec,
    replace_text_spec,
    selected_spec,
    state_wf,
    unmark_spec,
    ViewState,
};
use crate::range::{CodeUnitRange, UTF16Selection};
use crate::utf16::{snap_down, snap_up, units_of};
use vstd::prelude::*;

verus! {

/// The capability an editable view exposes to platform text input.
///
/// All offsets are UTF-16 code-unit offsets relative to the start of the
/// view's visible text. Requested offsets that fall inside a multi-unit
/// character are rounded outward to character boundaries before use, and
/// offsets past the end of the text are clamped; no operation ever splits a
/// character or signals a fault.
pub trait ViewInputHandler: Sized {
    /// The view's persistent input state, as the contracts see it.
    spec fn view_state(&self) -> ViewState;

    /// The well-formedness the view maintains across all operations.
    spec fn inv(&self) -> bool;

    /// The rectangle the view reports for the span `[start, end)` within the
    /// given element bounds, or `None` when the span is not currently laid
    /// out (for example, scrolled out of the viewport).
    spec fn bounds_spec(&self, start: int, end: int, element_bounds: SpatialBounds) -> Option<
        SpatialBounds,
    >;

    /// A well-formed view has a well-formed model state.
    proof fn inv_implies_state_wf(&self)
        requires
            self.inv(),
        ensures
            state_wf(self.view_state()),
    ;

    /// Returns the current selection, or `None` when the view refuses
    /// input-method interaction and `ignore_disabled_input` does not
    /// override that. Read-only.
    fn selected_text_range(&mut self, ignore_disabled_input: bool) -> (r: Option<UTF16Selection>)
        requires
            old(self).inv(),
        ensures
            final(self).inv(),
            final(self).view_state() == old(self).view_state(),
            (r is Some) <==> (selected_spec(old(self).view_state(), ignore_disabled_input)
                is Some),
            r matches Some(sel) ==> selected_spec(old(self).view_state(), ignore_disabled_input)
                == Some((sel.range.start as int, sel.range.end as int, sel.reversed)),
    ;

    /// Returns the active composition span, or `None`. Read-only.
    fn marked_text_range(&self) -> (r: Option<CodeUnitRange>)
        requires
            self.inv(),
        ensures
            range_model(r) == self.view_state().marked,
    ;

    /// Returns the text covered by `range` after snapping it outward to
    /// character boundaries and clamping it into the text, reporting the
    /// snapped range through `adjusted_range`; returns `None` (and reports no
    /// adjusted range) exactly when the range starts past the end of the
    /// text. Read-only.
    fn text_for_range(
        &mut self,
        range: CodeUnitRange,
        adjusted_range: &mut Option<CodeUnitRange>,
    ) -> (text: Option<String>)
        requires
            old(self).inv(),
            range.wf(),
        ensures
            final(self).inv(),
            final(self).view_state() == old(self).view_state(),
            (text is Some) <==> range.start <= units_of(old(self).view_state().text),
            ((*final(adjusted_range)) is Some) <==> range.start <= units_of(
                old(self).view_state().text,
            ),
            text matches Some(t) ==> t@ == read_chars(
                old(self).view_state().text,
                range.start as int,
                range.end as int,
            ),
            (*final(adjusted_range)) matches Some(a) ==> a.start == snap_down(
                old(self).view_state().text,
                range.start as int,
            ) && a.end == snap_up(old(self).view_state().text, range.end as int),
    ;

    /// Commits any in-progress composition: the marked span's text is kept as
    /// plain text and the marked span is cleared. A no-op when no composition
    /// is active.
    fn unmark_text(&mut self)
        requires
            old(self).inv(),
        ensures
            final(self).inv(),
            final(self).view_state() == unmark_spec(old(self).view_state()),
    ;

    /// Replaces `range` (or the current selection when `range` is `None`)
    /// with `new_text`, commits any composition, and moves the caret to
    /// immediately follow the inserted text.
    fn replace_text_in_range(&mut self, range: Option<CodeUnitRange>, new_text: &str)
        requires
            old(self).inv(),
            range matches Some(r) ==> r.wf(),
            units_of(old(self).view_state().text) + units_of(new_text@) <= usize::MAX,
        ensures
            final(self).inv(),
            final(self).view_state() == replace_text_spec(
                old(self).view_state(),
                range_model(range),
                new_text@,
            ),
    ;

    /// Replaces `range` (or the active marked span, or else the current
    /// selection, when `range` is `None`) with `new_text` and marks the
    /// inserted span as the composition. `new_selected_range` is a sub-range
    /// relative to the start of the inserted text and becomes the selection;
    /// without it the caret is placed at the insertion's end.
    fn replace_and_mark_text_in_range(
        &mut self,
        range: Option<CodeUnitRange>,
        new_text: &str,
        new_selected_range: Option<CodeUnitRange>,
    )
        requires
            old(self).inv(),
            range matches Some(r) ==> r.wf(),
            new_selected_range matches Some(r) ==> r.wf(),
            units_of(old(self).view_state().text) + units_of(new_text@) <= usize::MAX,
        ensures
            final(self).inv(),
            final(self).view_state() == replace_and_mark_spec(
                old(self).view_state(),
                range_model(range),
                new_text@,
                range_model(new_selected_range),
            ),
    ;

    /// Computes the on-screen rectangle spanned by `range` within the given
    /// element bounds, or `None` when the range does not correspond to
    /// currently laid-out content. Read-only.
    fn bounds_for_range(&mut self, range: CodeUnitRange, element_bounds: SpatialBounds) -> (r:
        Option<SpatialBounds>)
        requires
            old(self).inv(),
            range.wf(),
        ensures
            final(self).inv(),
            final(self).view_state() == old(self).view_state(),
            r == old(self).bounds_spec(range.start as int, range.end as int, element_bounds),
    ;
}

/// The canonical adapter between a capability-conforming view and a platform
/// input-method system.
///
/// An instance is constructed fresh whenever an editable element is focused
/// or painted, holds the view together with a snapshot of the element's
/// layout bounds, and must not outlive the paint cycle that created it. Every
/// method is a pure forwarding call to the corresponding capability
/// operation; `bounds_for_range` additionally supplies the stored element
/// bounds as the coordinate anchor.
pub struct ElementInputHandler<V> {
    view: V,
    element_bounds: SpatialBounds,
}

impl<V: ViewInputHandler> ElementInputHandler<V> {
    /// The wrapped view.
    pub closed spec fn spec_view(&self) -> V {
        self.view
    }

    /// The element bounds snapshot taken at construction.
    pub closed spec fn spec_element_bounds(&self) -> SpatialBounds {
        self.element_bounds
    }

    /// Builds an adapter for one paint cycle from the element's current
    /// layout bounds and the view.
    pub fn new(element_bounds: SpatialBounds, view: V) -> (r: Self)
        ensures
            r.spec_view() == view,
            r.spec_element_bounds() == element_bounds,
    {
        ElementInputHandler { view, element_bounds }
    }

    /// Releases the adapter at the end of the paint cycle, handing the view
    /// back.
    pub fn into_view(self) -> (v: V)
        ensures
            v == self.spec_view(),
    {
        self.view
    }

    /// Forwards `selected_text_range` to the view.
    pub fn selected_text_range(&mut self, ignore_disabled_input: bool) -> (r: Option<
        UTF16Selection,
    >)
        requires
            old(self).spec_view().inv(),
        ensures
            final(self).spec_view().inv(),
            final(self).spec_element_bounds() == old(self).spec_element_bounds(),
            final(self).spec_view().view_state() == old(self).spec_view().view_state(),
            (r is Some) <==> (selected_spec(
                old(self).spec_view().view_state(),
                ignore_disabled_input,
            ) is Some),
            r matches Some(sel) ==> selected_spec(
                old(self).spec_view().view_state(),
                ignore_disabled_input,
            ) == Some((sel.range.start as int, sel.range.end as int, sel.reversed)),
    {
        self.view.selected_text_range(ignore_disabled_input)
    }

    /// Forwards `marked_text_range` to the view.
    pub fn marked_text_range(&self) -> (r: Option<CodeUnitRange>)
        requires
            self.spec_view().inv(),
        ensures
            range_model(r) == self.spec_view().view_state().marked,
    {
        self.view.marked_text_range()
    }

    /// Forwards `text_for_range` to the view.
    pub fn text_for_range(
        &mut self,
        range: CodeUnitRange,
        adjusted_range: &mut Option<CodeUnitRange>,
    ) -> (text: Option<String>)
        requires
            old(self).spec_view().inv(),
            range.wf(),
        ensures
            final(self).spec_view().inv(),
            final(self).spec_element_bounds() == old(self).spec_element_bounds(),
            final(self).spec_view().view_state() == old(self).spec_view().view_state(),
            (text is Some) <==> range.start <= units_of(old(self).spec_view().view_state().text),
            ((*final(adjusted_range)) is Some) <==> range.start <= units_of(
                old(self).spec_view().view_state().text,
            ),
            text matches Some(t) ==> t@ == read_chars(
                old(self).spec_view().view_state().text,
                range.start as int,
                range.end as int,
            ),
            (*final(adjusted_range)) matches Some(a) ==> a.start == snap_down(
                old(self).spec_view().view_state().text,
                range.start as int,
            ) && a.end == snap_up(old(self).spec_view().view_state().text, range.end as int),
    {
        self.view.text_for_range(range, adjusted_range)
    }

    /// Forwards `unmark_text` to the view.
    pub fn unmark_text(&mut self)
        requires
            old(self).spec_view().inv(),
        ensures
            final(self).spec_view().inv(),
            final(self).spec_element_bounds() == old(self).spec_element_bounds(),
            final(self).spec_view().view_state() == unmark_spec(old(self).spec_view().view_state()),
    {
        self.view.unmark_text()
    }

    /// Forwards `replace_text_in_range` to the view.
    pub fn replace_text_in_range(&mut self, range: Option<CodeUnitRange>, new_text: &str)
        requires
            old(self).spec_view().inv(),
            range matches Some(r) ==> r.wf(),
            units_of(old(self).spec_view().view_state().text) + units_of(new_text@) <= usize::MAX,
        ensures
            final(self).spec_view().inv(),
            final(self).spec_element_bounds() == old(self).spec_element_bounds(),
            final(self).spec_view().view_state() == replace_text_spec(
                old(self).spec_view().view_state(),
                range_model(range),
                new_text@,
            ),
    {
        self.view.replace_text_in_range(range, new_text)
    }

    /// Forwards `replace_and_mark_text_in_range` to the view.
    pub fn replace_and_mark_text_in_range(
        &mut self,
        range: Option<CodeUnitRange>,
        new_text: &str,
        new_selected_range: Option<CodeUnitRange>,
    )
        requires
            old(self).spec_view().inv(),
            range matches Some(r) ==> r.wf(),
            new_selected_range matches Some(r) ==> r.wf(),
            units_of(old(self).spec_view().view_state().text) + units_of(new_text@) <= usize::MAX,
        ensures
            final(self).spec_view().inv(),
            final(self).spec_element_bounds() == old(self).spec_element_bounds(),
            final(self).spec_view().view_state() == replace_and_mark_spec(
                old(self).spec_view().view_state(),
                range_model(range),
                new_text@,
                range_model(new_selected_range),
            ),
    {
        self.view.replace_and_mark_text_in_range(range, new_text, new_selected_range)
    }

    /// Forwards `bounds_for_range` to the view, supplying the element bounds
    /// captured at construction as the coordinate anchor.
    pub fn bounds_for_range(&mut self, range: CodeUnitRange) -> (r: Option<SpatialBounds>)
        requires
            old(self).spec_view().inv(),
            range.wf(),
        ensures
            final(self).spec_view().inv(),
            final(self).spec_element_bounds() == old(self).spec_element_bounds(),
            final(self).spec_view().view_state() == old(self).spec_view().view_state(),
            r == old(self).spec_view().bounds_spec(
                range.start as int,
                range.end as int,
                old(self).spec_element_bounds(),
            ),
    {
        let bounds = self.element_bounds;
        self.view.bounds_for_range(range, bounds)
    }
}

} // verus!
