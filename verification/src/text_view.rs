//! A capability-conforming editable view.
//!
//! `TextView` owns the persistent state the platform's input method interacts
//! with — visible text, selection, composition span, input-enabled flag — and
//! a single-line layout (scroll window, per-unit advance width, line height)
//! used to answer spatial queries. It implements the UTF-16 boundary
//! adjustment and the marked-text state machine, verified against the
//! capability contract.

use crate::geometry::{
    clamp_coord,
    clamp_coord_exec,
    clamp_extent,
    clamp_extent_exec,
    SpatialBounds,
};
use crate::handler::ViewInputHandler;
use crate::model::{
    lemma_replace_and_mark_wf,
    lemma_replace_text_wf,
    lemma_set_selection_wf,
    range_model,
    replace_and_mark_spec,
    replace_text_spec,
    set_selection_spec,
    spliced,
    state_wf,
    unmark_spec,
    ViewState,
};
use crate::range::{CodeUnitRange, UTF16Selection};
use crate::utf16::{
    ceil_boundary,
    floor_boundary,
    lemma_prefix_units_is_boundary,
    lemma_snap_range,
    lemma_units_bounds,
    snap_down,
    snap_up,
    str_utf16_len,
    units_of,
};
use vstd::prelude::*;

verus! {

/// An editable view with a single-line layout.
///
/// The persistent input state must be mutated only through the capability
/// operations (and [`TextView::set_selection`]); every operation preserves
/// the invariant [`ViewInputHandler::inv`].
pub struct TextView {
    /// The view's visible text.
    pub text: String,
    /// The current selection, on character boundaries of `text`.
    pub selection: UTF16Selection,
    /// The active composition span, on character boundaries of `text`.
    pub marked: Option<CodeUnitRange>,
    /// False when the view refuses input-method interaction (for example, it
    /// is read-only).
    pub input_enabled: bool,
    /// First UTF-16 code-unit offset currently visible in the viewport.
    pub scroll_offset: u32,
    /// Number of UTF-16 code units the viewport spans.
    pub viewport_units: u32,
    /// Horizontal advance of one UTF-16 code unit, in coordinate units.
    pub unit_width: u16,
    /// Height of the rendered line, in coordinate units.
    pub line_height: u16,
}

impl TextView {
    /// Builds a view over `text` with the caret at the start of the text and
    /// no active composition.
    pub fn new(
        text: String,
        scroll_offset: u32,
        viewport_units: u32,
        unit_width: u16,
        line_height: u16,
        input_enabled: bool,
    ) -> (v: TextView)
        requires
            units_of(text@) <= usize::MAX,
            unit_width >= 1,
            line_height >= 1,
        ensures
            v.inv(),
            v.view_state() == (ViewState {
                text: text@,
                sel_start: 0,
                sel_end: 0,
                sel_reversed: false,
                marked: None,
                enabled: input_enabled,
            }),
            v.scroll_offset == scroll_offset,
            v.viewport_units == viewport_units,
            v.unit_width == unit_width,
            v.line_height == line_height,
    {
        proof {
            assert(text@.take(0) =~= Seq::<char>::empty());
            lemma_prefix_units_is_boundary(text@, 0);
        }
        TextView {
            text,
            selection: UTF16Selection { range: CodeUnitRange { start: 0, end: 0 }, reversed: false },
            marked: None,
            input_enabled,
            scroll_offset,
            viewport_units,
            unit_width,
            line_height,
        }
    }

    /// Moves the selection to the given span, snapped outward to character
    /// boundaries and clamped into the text.
    pub fn set_selection(&mut self, range: CodeUnitRange, reversed: bool)
        requires
            old(self).inv(),
            range.wf(),
        ensures
            final(self).inv(),
            final(self).view_state() == set_selection_spec(
                old(self).view_state(),
                range.start as int,
                range.end as int,
                reversed,
            ),
            final(self).scroll_offset == old(self).scroll_offset,
            final(self).viewport_units == old(self).viewport_units,
            final(self).unit_width == old(self).unit_width,
            final(self).line_height == old(self).line_height,
    {
        proof {
            lemma_snap_range(self.text@, range.start as int, range.end as int);
            lemma_set_selection_wf(
                self.view_state(),
                range.start as int,
                range.end as int,
                reversed,
            );
        }
        let (_, a0) = floor_boundary(self.text.as_str(), range.start);
        let (_, a1) = ceil_boundary(self.text.as_str(), range.end);
        self.selection = UTF16Selection { range: CodeUnitRange { start: a0, end: a1 }, reversed };
        proof {
            assert(self.view_state() =~= set_selection_spec(
                old(self).view_state(),
                range.start as int,
                range.end as int,
                reversed,
            ));
        }
    }

    /// The view's visible text.
    pub fn visible_text(&self) -> (r: &str)
        ensures
            r@ == self.view_state().text,
    {
        self.text.as_str()
    }
}

impl ViewInputHandler for TextView {
    open spec fn view_state(&self) -> ViewState {
        ViewState {
            text: self.text@,
            sel_start: self.selection.range.start as int,
            sel_end: self.selection.range.end as int,
            sel_reversed: self.selection.reversed,
            marked: range_model(self.marked),
            enabled: self.input_enabled,
        }
    }

    open spec fn inv(&self) -> bool {
        &&& state_wf(self.view_state())
        &&& units_of(self.text@) <= usize::MAX
        &&& self.unit_width >= 1
        &&& self.line_height >= 1
    }

    open spec fn bounds_spec(&self, start: int, end: int, element_bounds: SpatialBounds) -> Option<
        SpatialBounds,
    > {
        let a0 = snap_down(self.text@, start);
        let a1 = snap_up(self.text@, end);
        let lo = self.scroll_offset as int;
        let hi = lo + self.viewport_units as int;
        let vs = if a0 > lo {
            a0
        } else {
            lo
        };
        let ve = if a1 < hi {
            a1
        } else {
            hi
        };
        if vs >= ve {
            None
        } else {
            Some(
                SpatialBounds {
                    x: clamp_coord(element_bounds.x + (vs - lo) * self.unit_width as int) as i32,
                    y: element_bounds.y,
                    width: clamp_extent((ve - vs) * self.unit_width as int) as u32,
                    height: self.line_height as u32,
                },
            )
        }
    }

    proof fn inv_implies_state_wf(&self) {
    }

    fn selected_text_range(&mut self, ignore_disabled_input: bool) -> (r: Option<UTF16Selection>)
        ensures
            *final(self) == *old(self),
    {
        if !self.input_enabled && !ignore_disabled_input {
            None
        } else {
            Some(self.selection)
        }
    }

    fn marked_text_range(&self) -> (r: Option<CodeUnitRange>) {
        self.marked
    }

    fn text_for_range(
        &mut self,
        range: CodeUnitRange,
        adjusted_range: &mut Option<CodeUnitRange>,
    ) -> (text: Option<String>)
        ensures
            *final(self) == *old(self),
    {
        proof {
            lemma_snap_range(self.text@, range.start as int, range.end as int);
        }
        let total = str_utf16_len(self.text.as_str());
        if range.start > total {
            *adjusted_range = None;
            return None;
        }
        let (cs, a0) = floor_boundary(self.text.as_str(), range.start);
        let (ce, a1) = ceil_boundary(self.text.as_str(), range.end);
        *adjusted_range = Some(CodeUnitRange { start: a0, end: a1 });
        let piece = self.text.as_str().substring_char(cs, ce);
        Some(String::from_str(piece))
    }

    fn unmark_text(&mut self)
        ensures
            *final(self) == (TextView { marked: None, ..*old(self) }),
    {
        self.marked = None;
        proof {
            assert(self.view_state() =~= unmark_spec(old(self).view_state()));
        }
    }

    fn replace_text_in_range(&mut self, range: Option<CodeUnitRange>, new_text: &str)
        ensures
            final(self).scroll_offset == old(self).scroll_offset,
            final(self).viewport_units == old(self).viewport_units,
            final(self).unit_width == old(self).unit_width,
            final(self).line_height == old(self).line_height,
    {
        let (ts, te) = match range {
            Some(r) => (r.start, r.end),
            None => (self.selection.range.start, self.selection.range.end),
        };
        proof {
            lemma_units_bounds(self.text@);
            lemma_units_bounds(new_text@);
            lemma_snap_range(self.text@, ts as int, te as int);
            lemma_replace_text_wf(self.view_state(), range_model(range), new_text@);
        }
        let chars = self.text.unicode_len();
        let (cs, a0) = floor_boundary(self.text.as_str(), ts);
        let (ce, _) = ceil_boundary(self.text.as_str(), te);
        let ins_units = str_utf16_len(new_text);
        let mut out = String::from_str(self.text.as_str().substring_char(0, cs));
        out.append(new_text);
        out.append(self.text.as_str().substring_char(ce, chars));
        let caret = a0 + ins_units;
        self.text = out;
        self.selection = UTF16Selection {
            range: CodeUnitRange { start: caret, end: caret },
            reversed: false,
        };
        self.marked = None;
        proof {
            assert(self.text@ =~= spliced(old(self).text@, ts as int, te as int, new_text@));
            assert(self.view_state() =~= replace_text_spec(
                old(self).view_state(),
                range_model(range),
                new_text@,
            ));
        }
    }

    fn replace_and_mark_text_in_range(
        &mut self,
        range: Option<CodeUnitRange>,
        new_text: &str,
        new_selected_range: Option<CodeUnitRange>,
    )
        ensures
            final(self).scroll_offset == old(self).scroll_offset,
            final(self).viewport_units == old(self).viewport_units,
            final(self).unit_width == old(self).unit_width,
            final(self).line_height == old(self).line_height,
    {
        let (ts, te) = match range {
            Some(r) => (r.start, r.end),
            None => match self.marked {
                Some(mr) => (mr.start, mr.end),
                None => (self.selection.range.start, self.selection.range.end),
            },
        };
        proof {
            lemma_units_bounds(self.text@);
            lemma_units_bounds(new_text@);
            lemma_snap_range(self.text@, ts as int, te as int);
            lemma_replace_and_mark_wf(
                self.view_state(),
                range_model(range),
                new_text@,
                range_model(new_selected_range),
            );
        }
        let chars = self.text.unicode_len();
        let (cs, a0) = floor_boundary(self.text.as_str(), ts);
        let (ce, _) = ceil_boundary(self.text.as_str(), te);
        let ins_units = str_utf16_len(new_text);
        let mut out = String::from_str(self.text.as_str().substring_char(0, cs));
        out.append(new_text);
        out.append(self.text.as_str().substring_char(ce, chars));
        let (sel_start, sel_end) = match new_selected_range {
            Some(r) => {
                proof {
                    lemma_snap_range(new_text@, r.start as int, r.end as int);
                }
                let (_, s0) = floor_boundary(new_text, r.start);
                let (_, s1) = ceil_boundary(new_text, r.end);
                (a0 + s0, a0 + s1)
            },
            None => (a0 + ins_units, a0 + ins_units),
        };
        self.text = out;
        self.selection = UTF16Selection {
            range: CodeUnitRange { start: sel_start, end: sel_end },
            reversed: false,
        };
        self.marked = Some(CodeUnitRange { start: a0, end: a0 + ins_units });
        proof {
            assert(self.text@ =~= spliced(old(self).text@, ts as int, te as int, new_text@));
            assert(self.view_state() =~= replace_and_mark_spec(
                old(self).view_state(),
                range_model(range),
                new_text@,
                range_model(new_selected_range),
            ));
        }
    }

    fn bounds_for_range(&mut self, range: CodeUnitRange, element_bounds: SpatialBounds) -> (r:
        Option<SpatialBounds>)
        ensures
            *final(self) == *old(self),
    {
        proof {
            lemma_snap_range(self.text@, range.start as int, range.end as int);
        }
        let (_, a0) = floor_boundary(self.text.as_str(), range.start);
        let (_, a1) = ceil_boundary(self.text.as_str(), range.end);
        let lo = self.scroll_offset as u64;
        let hi = lo + self.viewport_units as u64;
        let vs = if a0 as u64 > lo {
            a0 as u64
        } else {
            lo
        };
        let ve = if (a1 as u64) < hi {
            a1 as u64
        } else {
            hi
        };
        if vs >= ve {
            None
        } else {
            let dx = vs - lo;
            let span = ve - vs;
            let dxi = dx as i64;
            let spani = span as i64;
            let uwi = self.unit_width as i64;
            proof {
                assert(0 <= dxi <= 0xffff_ffffi64);
                assert(0 <= spani <= 0xffff_ffffi64);
                assert(0 <= dxi * uwi <= 0xffff_ffffi64 * 0xffffi64) by (nonlinear_arith)
                    requires
                        0 <= dxi <= 0xffff_ffffi64,
                        0 <= uwi <= 0xffffi64,
                ;
                assert(0 <= spani * uwi <= 0xffff_ffffi64 * 0xffffi64) by (nonlinear_arith)
                    requires
                        0 <= spani <= 0xffff_ffffi64,
                        0 <= uwi <= 0xffffi64,
                ;
            }
            let x = clamp_coord_exec(element_bounds.x as i64 + dxi * uwi);
            let width = clamp_extent_exec(spani * uwi);
            Some(
                SpatialBounds {
                    x,
                    y: element_bounds.y,
                    width,
                    height: self.line_height as u32,
                },
            )
        }
    }
}

} // verus!
