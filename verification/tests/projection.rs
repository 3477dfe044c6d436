//! Index-projection behavior: identity recycling, change notifications, and
//! the focus controller's clamping and scroll directives.

use picker::focus::{FocusController, ScrollDirective};
use picker::index_list::IndexList;

#[test]
fn set_indecies_reports_full_coverage() {
    let mut list = IndexList::new();
    let c1 = list.set_indecies(vec![4, 2, 7]);
    assert_eq!((c1.position, c1.removed, c1.added), (0, 0, 3));
    assert_eq!(list.n_items(), 3);
    let c2 = list.set_indecies(vec![1]);
    assert_eq!((c2.position, c2.removed, c2.added), (0, 3, 1));
    assert_eq!(list.n_items(), 1);
}

#[test]
fn index_at_rejects_out_of_range_positions() {
    let mut list = IndexList::new();
    list.set_indecies(vec![4, 2, 7]);
    assert_eq!(list.index_at(0), Some(4));
    assert_eq!(list.index_at(2), Some(7));
    assert_eq!(list.index_at(3), None);
    assert_eq!(list.item(3), None);
}

#[test]
fn issued_identities_are_distinct_and_fresh_on_exhaustion() {
    let mut list = IndexList::new();
    list.set_indecies(vec![10, 20, 30]);
    // the pool starts empty, so every position gets a fresh identity
    let s0 = list.item(0).unwrap();
    let s1 = list.item(1).unwrap();
    let s2 = list.item(2).unwrap();
    assert!(s0 != s1 && s1 != s2 && s0 != s2);
}

#[test]
fn pool_recycles_before_constructing() {
    let mut list = IndexList::new();
    list.set_indecies(vec![10, 20]);
    let s0 = list.item(0).unwrap();
    list.recycle(s0);
    // the freed identity is reused rather than a new one constructed
    let s1 = list.item(1).unwrap();
    assert_eq!(s0, s1);
    // with the pool drained again, the next identity is fresh
    let s2 = list.item(0).unwrap();
    assert!(s2 != s1);
}

#[test]
fn rebinding_leaves_no_trace_of_previous_index() {
    let mut list = IndexList::new();
    list.set_indecies(vec![5]);
    let s = list.item(0).unwrap();
    assert_eq!(list.identity_index(s), 5);
    list.recycle(s);
    list.set_indecies(vec![9]);
    let s2 = list.item(0).unwrap();
    assert_eq!(s, s2);
    // the recycled identity derives its display from the new index alone
    assert_eq!(list.identity_index(s2), 9);
}

#[test]
fn focus_initial_state_follows_startup_projection() {
    let empty = FocusController::new(0);
    assert_eq!(empty.position(), None);
    let filled = FocusController::new(4);
    assert_eq!(filled.position(), Some(0));
}

#[test]
fn reclamp_clears_clamps_or_keeps() {
    let mut f = FocusController::new(5);
    f.move_focus(3, 5);
    f.reclamp(2);
    assert_eq!(f.position(), Some(1));
    f.reclamp(2);
    assert_eq!(f.position(), Some(1));
    f.reclamp(0);
    assert_eq!(f.position(), None);
}

#[test]
fn move_on_empty_projection_is_a_no_op() {
    let mut f = FocusController::new(0);
    let out = f.move_focus(1, 0);
    assert_eq!(f.position(), None);
    assert_eq!(out.directive, None);
    assert_eq!(out.invalidate_previous, None);
    assert_eq!(out.invalidate_current, None);
}

#[test]
fn move_past_the_end_scrolls_to_maximum_extent() {
    let mut f = FocusController::new(5);
    let out = f.move_focus(4, 5);
    assert_eq!(f.position(), Some(4));
    assert_eq!(out.directive, Some(ScrollDirective::EnsureVisible(4)));
    let over = f.move_focus(1, 5);
    assert_eq!(over.directive, Some(ScrollDirective::ToMaximumExtent));
    // the focus does not clamp forward: it stays on the last position
    assert_eq!(f.position(), Some(4));
    assert_eq!(over.invalidate_previous, Some(4));
    assert_eq!(over.invalidate_current, Some(4));
}

#[test]
fn move_underflow_clamps_to_zero() {
    let mut f = FocusController::new(3);
    let out = f.move_focus(-7, 3);
    assert_eq!(f.position(), Some(0));
    assert_eq!(out.directive, Some(ScrollDirective::EnsureVisible(0)));
}

#[test]
fn move_from_unfocused_over_nonempty_projection_focuses_first() {
    let mut f = FocusController::new(0);
    assert!(matches!(f.position(), None));
    let out = f.move_focus(1, 3);
    assert_eq!(f.position(), Some(0));
    assert_eq!(out.directive, Some(ScrollDirective::EnsureVisible(0)));
    assert_eq!(out.invalidate_previous, None);
    assert_eq!(out.invalidate_current, Some(0));
}

#[test]
fn highlight_invalidation_reports_both_positions() {
    let mut f = FocusController::new(5);
    let out = f.move_focus(2, 5);
    assert_eq!(out.invalidate_previous, Some(0));
    assert_eq!(out.invalidate_current, Some(2));
}
