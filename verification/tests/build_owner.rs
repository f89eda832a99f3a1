use vexo::build_owner::BuildOwner;
use vexo::element::{Element, ElementBox, ElementRegistry};
use vexo::id::{ElementKey, RenderObjectKey};

struct Leaf;

impl Element for Leaf {
    fn render_object(&self) -> Option<RenderObjectKey> {
        None
    }
}

fn leaf() -> ElementBox {
    ElementBox::new(Box::new(Leaf))
}

/// root -> a -> b, plus c under root.
fn tree() -> (ElementRegistry, ElementKey, ElementKey, ElementKey, ElementKey) {
    let mut reg = ElementRegistry::new();
    let root = reg.insert(leaf(), None);
    let a = reg.insert(leaf(), Some(root));
    reg.add_child(root, a, None);
    let b = reg.insert(leaf(), Some(a));
    reg.add_child(a, b, None);
    let c = reg.insert(leaf(), Some(root));
    reg.add_child(root, c, None);
    (reg, root, a, b, c)
}

#[test]
fn test_deferred_unfocus_request_and_take() {
    let mut bo = BuildOwner::new();
    // Initially nothing is requested.
    assert!(!bo.take_unfocus_requested());

    // A single request is reported once then cleared.
    bo.request_unfocus();
    assert!(bo.take_unfocus_requested());
    assert!(!bo.take_unfocus_requested());
}

#[test]
fn test_deferred_unfocus_idempotent() {
    let mut bo = BuildOwner::new();
    bo.request_unfocus();
    bo.request_unfocus();
    bo.request_unfocus();
    assert!(bo.take_unfocus_requested());
    assert!(!bo.take_unfocus_requested());
}

#[test]
fn has_unfocus_request_reflects_pending_request() {
    let mut bo = BuildOwner::default();
    assert!(!bo.has_unfocus_request());
    bo.request_unfocus();
    assert!(bo.has_unfocus_request());
    bo.take_unfocus_requested();
    assert!(!bo.has_unfocus_request());
}

#[test]
fn mark_needs_build_is_idempotent_and_keeps_order() {
    let (_reg, root, a, b, _c) = tree();
    let mut bo = BuildOwner::new();
    assert!(!bo.has_pending_rebuilds());
    bo.mark_needs_build(b);
    bo.mark_needs_build(a);
    bo.mark_needs_build(b);
    assert_eq!(bo.dirty_count(), 2);
    assert!(bo.is_dirty(a));
    assert!(bo.is_dirty(b));
    assert!(!bo.is_dirty(root));
    assert!(bo.has_pending_rebuilds());
    assert_eq!(bo.drain_dirty(), vec![b, a]);
    assert!(!bo.has_pending_rebuilds());
    assert_eq!(bo.dirty_count(), 0);
    assert!(!bo.is_dirty(a));
}

#[test]
fn sort_dirty_by_depth_puts_parents_first_and_is_stable() {
    let (reg, root, a, b, c) = tree();
    let mut bo = BuildOwner::new();
    bo.mark_needs_build(b);
    bo.mark_needs_build(c);
    bo.mark_needs_build(root);
    bo.mark_needs_build(a);
    bo.sort_dirty_by_depth(|k| reg.depth(k));
    // depths: root 0, c 1, a 1, b 2; c was marked before a.
    assert_eq!(bo.drain_dirty_sorted(), vec![root, c, a, b]);
}

#[test]
fn clear_dirty_empties_the_list() {
    let (_reg, root, a, _b, _c) = tree();
    let mut bo = BuildOwner::new();
    bo.mark_needs_build(root);
    bo.mark_needs_build(a);
    bo.clear_dirty();
    assert_eq!(bo.dirty_count(), 0);
    assert!(bo.drain_dirty().is_empty());
}

#[test]
fn build_scope_detects_reentry() {
    let (_reg, root, a, _b, _c) = tree();
    let mut bo = BuildOwner::new();
    assert!(bo.enter_build_scope(root));
    assert!(bo.is_building(root));
    assert!(!bo.enter_build_scope(root));
    assert!(bo.enter_build_scope(a));
    bo.exit_build_scope(root);
    assert!(!bo.is_building(root));
    assert!(bo.is_building(a));
    assert!(bo.enter_build_scope(root));
}

#[test]
fn focused_element_round_trips() {
    let (_reg, root, _a, _b, _c) = tree();
    let mut bo = BuildOwner::new();
    assert_eq!(bo.focused_element(), None);
    bo.set_focused_element(Some(root));
    assert_eq!(bo.focused_element(), Some(root));
    bo.set_focused_element(None);
    assert_eq!(bo.focused_element(), None);
}

#[test]
fn build_owner_sources_are_shared_handles() {
    let mut bo = BuildOwner::new();
    let insets = vexo::ui_core::geometry::SafeAreaSource::default();
    bo.set_safe_area_source(insets.clone());
    insets.set(1.0f32.to_bits(), 2.0f32.to_bits(), 3.0f32.to_bits(), 4.0f32.to_bits());
    assert_eq!(f32::from_bits(bo.safe_area_source().get().bottom), 4.0);
    let kb = vexo::ui_core::geometry::KeyboardInsetSource::new();
    bo.set_keyboard_inset_source(kb.clone());
    kb.set(300.0f32.to_bits());
    assert_eq!(f32::from_bits(bo.keyboard_inset_source().get()), 300.0);
}
