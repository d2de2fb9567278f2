//! Tests for the input-method bridge and the capability-conforming view.

use input_bridge::geometry::SpatialBounds;
use input_bridge::handler::{ElementInputHandler, ViewInputHandler};
use input_bridge::range::{CodeUnitRange, UTF16Selection};
use input_bridge::text_view::TextView;

fn plain_view(text: &str) -> TextView {
    TextView::new(text.to_string(), 0, 1000, 1, 1, true)
}

#[test]
fn read_in_bounds_needs_no_snapping() {
    let mut view = plain_view("hello");
    let mut adjusted: Option<CodeUnitRange> = None;
    let text = view.text_for_range(CodeUnitRange::new(1, 3), &mut adjusted);
    assert_eq!(text.as_deref(), Some("el"));
    assert_eq!(adjusted, Some(CodeUnitRange::new(1, 3)));
    // The returned text measures exactly the requested number of units.
    assert_eq!(text.unwrap().encode_utf16().count(), CodeUnitRange::new(1, 3).len());
}

#[test]
fn read_full_text() {
    let mut view = plain_view("hello");
    let mut adjusted: Option<CodeUnitRange> = None;
    let text = view.text_for_range(CodeUnitRange::new(0, 5), &mut adjusted);
    assert_eq!(text.as_deref(), Some("hello"));
    assert_eq!(adjusted, Some(CodeUnitRange::new(0, 5)));
}

#[test]
fn read_bisecting_surrogate_pair_snaps_outward() {
    // "a" is one unit, the musical clef is a surrogate pair (two units),
    // "b" is one unit: boundaries at 0, 1, 3, 4.
    let mut view = plain_view("a\u{1D11E}b");
    let mut adjusted: Option<CodeUnitRange> = None;
    let text = view.text_for_range(CodeUnitRange::new(2, 3), &mut adjusted);
    assert_eq!(text.as_deref(), Some("\u{1D11E}"));
    let snapped = adjusted.unwrap();
    assert_eq!(snapped, CodeUnitRange::new(1, 3));
    // The adjusted range is a superset of the request.
    assert!(snapped.start <= 2 && 3 <= snapped.end);
}

#[test]
fn read_bisecting_both_ends_snaps_both() {
    // Two clefs back to back: boundaries at 0, 2, 4.
    let mut view = plain_view("\u{1D11E}\u{1D11E}");
    let mut adjusted: Option<CodeUnitRange> = None;
    let text = view.text_for_range(CodeUnitRange::new(1, 3), &mut adjusted);
    assert_eq!(text.as_deref(), Some("\u{1D11E}\u{1D11E}"));
    assert_eq!(adjusted, Some(CodeUnitRange::new(0, 4)));
}

#[test]
fn read_past_end_is_clamped() {
    let mut view = plain_view("hello");
    let mut adjusted: Option<CodeUnitRange> = None;
    let text = view.text_for_range(CodeUnitRange::new(2, 100), &mut adjusted);
    assert_eq!(text.as_deref(), Some("llo"));
    assert_eq!(adjusted, Some(CodeUnitRange::new(2, 5)));
}

#[test]
fn read_entirely_outside_is_absent() {
    let mut view = plain_view("hello");
    let mut adjusted: Option<CodeUnitRange> = Some(CodeUnitRange::new(9, 9));
    let text = view.text_for_range(CodeUnitRange::new(6, 8), &mut adjusted);
    assert_eq!(text, None);
    assert_eq!(adjusted, None);
}

#[test]
fn read_empty_text_at_origin() {
    let mut view = plain_view("");
    let mut adjusted: Option<CodeUnitRange> = None;
    let text = view.text_for_range(CodeUnitRange::new(0, 0), &mut adjusted);
    assert_eq!(text.as_deref(), Some(""));
    assert_eq!(adjusted, Some(CodeUnitRange::new(0, 0)));
}

#[test]
fn compose_then_commit_accounts_length_once() {
    // Composing "a", then "ab", then "abc" leaves one committed span of
    // length 3 after unmark_text, not three concatenated insertions.
    let mut view = plain_view("xy");
    view.set_selection(CodeUnitRange::new(2, 2), false);
    view.replace_and_mark_text_in_range(None, "a", None);
    assert_eq!(view.visible_text(), "xya");
    assert_eq!(view.marked_text_range(), Some(CodeUnitRange::new(2, 3)));
    view.replace_and_mark_text_in_range(None, "ab", None);
    assert_eq!(view.visible_text(), "xyab");
    assert_eq!(view.marked_text_range(), Some(CodeUnitRange::new(2, 4)));
    view.replace_and_mark_text_in_range(None, "abc", None);
    assert_eq!(view.visible_text(), "xyabc");
    assert_eq!(view.marked_text_range(), Some(CodeUnitRange::new(2, 5)));
    view.unmark_text();
    assert_eq!(view.marked_text_range(), None);
    assert_eq!(view.visible_text(), "xyabc");
    assert_eq!(view.visible_text().encode_utf16().count(), 5);
}

#[test]
fn unmark_without_composition_is_noop() {
    let mut view = plain_view("hello");
    view.set_selection(CodeUnitRange::new(1, 4), true);
    let before = view.selected_text_range(false);
    view.unmark_text();
    assert_eq!(view.visible_text(), "hello");
    assert_eq!(view.selected_text_range(false), before);
    assert_eq!(view.marked_text_range(), None);
}

#[test]
fn replace_then_read_round_trips() {
    let mut view = plain_view("hello");
    view.replace_text_in_range(Some(CodeUnitRange::new(1, 3)), "ZZZ");
    assert_eq!(view.visible_text(), "hZZZlo");
    // Caret immediately follows the inserted text.
    let sel = view.selected_text_range(false).unwrap();
    assert_eq!(sel.range, CodeUnitRange::new(4, 4));
    // Reading the span where the text was inserted returns it unchanged.
    let mut adjusted: Option<CodeUnitRange> = None;
    let text = view.text_for_range(CodeUnitRange::new(1, 4), &mut adjusted);
    assert_eq!(text.as_deref(), Some("ZZZ"));
    assert_eq!(adjusted, Some(CodeUnitRange::new(1, 4)));
}

#[test]
fn replace_clears_composition() {
    let mut view = plain_view("hello");
    view.set_selection(CodeUnitRange::new(5, 5), false);
    view.replace_and_mark_text_in_range(None, "x", None);
    assert_eq!(view.marked_text_range(), Some(CodeUnitRange::new(5, 6)));
    view.replace_text_in_range(Some(CodeUnitRange::new(0, 0)), "y");
    assert_eq!(view.marked_text_range(), None);
    assert_eq!(view.visible_text(), "yhellox");
}

#[test]
fn replace_selection_when_range_absent() {
    let mut view = plain_view("hello");
    view.set_selection(CodeUnitRange::new(1, 4), false);
    view.replace_text_in_range(None, "i");
    assert_eq!(view.visible_text(), "hio");
    let sel = view.selected_text_range(false).unwrap();
    assert_eq!(sel.range, CodeUnitRange::new(2, 2));
}

#[test]
fn replace_never_splits_a_character() {
    // Replacing an empty range that falls inside a surrogate pair rounds
    // outward and replaces the whole character.
    let mut view = plain_view("a\u{1D11E}b");
    view.replace_text_in_range(Some(CodeUnitRange::new(2, 2)), "X");
    assert_eq!(view.visible_text(), "aXb");
}

#[test]
fn compose_accented_text_scenario() {
    // View text "hello", caret at offset 5.
    let mut view = plain_view("hello");
    view.set_selection(CodeUnitRange::new(5, 5), false);
    view.replace_and_mark_text_in_range(None, "\u{f1}", None);
    assert_eq!(view.marked_text_range(), Some(CodeUnitRange::new(5, 6)));
    assert_eq!(view.visible_text(), "hello\u{f1}");
    view.replace_and_mark_text_in_range(Some(CodeUnitRange::new(5, 6)), "\u{f1}o", None);
    assert_eq!(view.visible_text(), "hello\u{f1}o");
    assert_eq!(view.marked_text_range(), Some(CodeUnitRange::new(5, 7)));
    view.unmark_text();
    assert_eq!(view.marked_text_range(), None);
    assert_eq!(view.visible_text(), "hello\u{f1}o");
}

#[test]
fn compose_with_relative_selection() {
    let mut view = plain_view("hi");
    view.set_selection(CodeUnitRange::new(2, 2), false);
    view.replace_and_mark_text_in_range(None, "abc", Some(CodeUnitRange::new(1, 2)));
    // The new selection is relative to the start of the inserted text.
    let sel = view.selected_text_range(false).unwrap();
    assert_eq!(sel.range, CodeUnitRange::new(3, 4));
    assert!(!sel.reversed);
}

#[test]
fn selected_text_range_respects_disabled_input() {
    let mut view = TextView::new("read only".to_string(), 0, 1000, 1, 1, false);
    view.set_selection(CodeUnitRange::new(4, 4), false);
    assert_eq!(view.selected_text_range(false), None);
    let forced = view.selected_text_range(true).unwrap();
    assert_eq!(forced.range, CodeUnitRange::new(4, 4));
}

#[test]
fn selection_direction_is_reported() {
    let mut view = plain_view("hello");
    view.set_selection(CodeUnitRange::new(1, 3), true);
    let sel = view.selected_text_range(false).unwrap();
    assert_eq!(
        sel,
        UTF16Selection::new(CodeUnitRange::new(1, 3), true)
    );
}

#[test]
fn set_selection_snaps_to_boundaries() {
    let mut view = plain_view("a\u{1D11E}b");
    view.set_selection(CodeUnitRange::new(2, 2), false);
    let sel = view.selected_text_range(false).unwrap();
    assert_eq!(sel.range, CodeUnitRange::new(1, 3));
}

#[test]
fn bounds_outside_viewport_are_absent() {
    // Viewport covers units [0, 2); the requested range lies past it.
    let mut view = TextView::new("hello".to_string(), 0, 2, 7, 11, true);
    let bounds = view.bounds_for_range(
        CodeUnitRange::new(3, 5),
        SpatialBounds::new(100, 200, 50, 60),
    );
    assert_eq!(bounds, None);
}

#[test]
fn bounds_inside_viewport_anchor_at_element() {
    let mut view = TextView::new("hello".to_string(), 0, 1000, 7, 11, true);
    let bounds = view
        .bounds_for_range(
            CodeUnitRange::new(1, 3),
            SpatialBounds::new(100, 200, 50, 60),
        )
        .unwrap();
    assert_eq!(bounds, SpatialBounds::new(107, 200, 14, 11));
}

#[test]
fn bounds_clip_to_scroll_window() {
    // Scrolled two units to the right, viewport three units wide: only the
    // overlap of [1, 5) with [2, 5) is reported, anchored at the element.
    let mut view = TextView::new("hello".to_string(), 2, 3, 10, 12, true);
    let bounds = view
        .bounds_for_range(
            CodeUnitRange::new(1, 5),
            SpatialBounds::new(0, 0, 80, 40),
        )
        .unwrap();
    assert_eq!(bounds, SpatialBounds::new(0, 0, 30, 12));
}

#[test]
fn handler_forwards_all_operations() {
    let view = plain_view("hello");
    let element_bounds = SpatialBounds::new(10, 20, 90, 30);
    let mut handler = ElementInputHandler::new(element_bounds, view);
    assert_eq!(handler.marked_text_range(), None);
    let sel = handler.selected_text_range(false).unwrap();
    assert_eq!(sel.range, CodeUnitRange::new(0, 0));
    let mut adjusted: Option<CodeUnitRange> = None;
    let text = handler.text_for_range(CodeUnitRange::new(0, 5), &mut adjusted);
    assert_eq!(text.as_deref(), Some("hello"));
    handler.replace_and_mark_text_in_range(None, "ab", None);
    assert_eq!(handler.marked_text_range(), Some(CodeUnitRange::new(0, 2)));
    assert_eq!(handler.text_for_range(CodeUnitRange::new(0, 7), &mut adjusted).as_deref(), Some("abhello"));
    handler.unmark_text();
    assert_eq!(handler.marked_text_range(), None);
    handler.replace_text_in_range(Some(CodeUnitRange::new(0, 7)), "bye");
    // The stored element bounds anchor spatial queries.
    let bounds = handler.bounds_for_range(CodeUnitRange::new(0, 3)).unwrap();
    assert_eq!(bounds, SpatialBounds::new(10, 20, 3, 1));
    let view = handler.into_view();
    assert_eq!(view.visible_text(), "bye");
}

#[test]
fn handler_bounds_absent_when_scrolled_out() {
    let view = TextView::new("hello".to_string(), 4, 1, 5, 9, true);
    let mut handler = ElementInputHandler::new(SpatialBounds::new(0, 0, 10, 10), view);
    assert_eq!(handler.bounds_for_range(CodeUnitRange::new(0, 2)), None);
}
