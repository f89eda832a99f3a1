use vexo::child_ops::{ChildOp, ChildOps};
use vexo::element::{Element, ElementBox, ElementRegistry};
use vexo::id::RenderObjectKey;

struct Leaf(u64);

impl Element for Leaf {
    fn render_object(&self) -> Option<RenderObjectKey> {
        Some(RenderObjectKey::from_raw(self.0))
    }
}

fn leaf(n: u64) -> ElementBox {
    ElementBox::new(Box::new(Leaf(n)))
}

#[test]
fn insert_sets_parent_root_and_len() {
    let mut reg = ElementRegistry::new();
    assert!(reg.is_empty());
    let root = reg.insert(leaf(1), None);
    assert_eq!(reg.root(), Some(root));
    let child = reg.insert(leaf(2), Some(root));
    assert_eq!(reg.root(), Some(root));
    assert_eq!(reg.len(), 2);
    assert!(reg.contains(child));
    assert_eq!(reg.parent(child), Some(root));
    assert_eq!(reg.parent(root), None);
    // Insert does not link the child into the parent's list.
    assert!(reg.children(root).is_empty());
    assert_eq!(
        reg.get(child).unwrap().as_element().render_object(),
        Some(RenderObjectKey::from_raw(2))
    );
}

#[test]
fn add_child_slots_push_replace_and_grow() {
    let mut reg = ElementRegistry::default();
    let p = reg.insert(leaf(0), None);
    let a = reg.insert(leaf(1), Some(p));
    let b = reg.insert(leaf(2), Some(p));
    let c = reg.insert(leaf(3), Some(p));
    reg.add_child(p, a, None);
    assert_eq!(reg.children(p), &[a]);
    // Slot past the end: the list grows and every new slot holds the child.
    reg.add_child(p, b, Some(3));
    assert_eq!(reg.children(p), &[a, b, b, b]);
    // Slot inside the list: replaced in place.
    reg.add_child(p, c, Some(1));
    assert_eq!(reg.children(p), &[a, c, b, b]);
}

#[test]
fn replace_child_at_swaps_in_place_and_sets_parent() {
    let mut reg = ElementRegistry::new();
    let p = reg.insert(leaf(0), None);
    let q = reg.insert(leaf(1), None);
    let a = reg.insert(leaf(2), Some(p));
    let b = reg.insert(leaf(3), Some(q));
    reg.set_children(p, vec![a]);
    reg.replace_child_at(p, 0, b);
    assert_eq!(reg.children(p), &[b]);
    assert_eq!(reg.parent(b), Some(p));
    reg.replace_child_at(p, 2, a);
    assert_eq!(reg.children(p), &[b, a, a]);
}

#[test]
fn unmount_removes_subtree_and_unlinks_from_parent() {
    let mut reg = ElementRegistry::new();
    let root = reg.insert(leaf(0), None);
    let a = reg.insert(leaf(1), Some(root));
    reg.add_child(root, a, None);
    let b = reg.insert(leaf(2), Some(a));
    reg.add_child(a, b, None);
    let c = reg.insert(leaf(3), Some(root));
    reg.add_child(root, c, None);
    reg.unmount(a);
    assert!(!reg.contains(a));
    assert!(!reg.contains(b));
    assert!(reg.contains(c));
    assert_eq!(reg.children(root), &[c]);
    assert_eq!(reg.len(), 2);
    // Stale keys find nothing.
    assert!(reg.get(a).is_none());
    assert!(reg.children(a).is_empty());
    assert_eq!(reg.parent(b), None);
    // Unmounting a removed key does nothing.
    reg.unmount(a);
    assert_eq!(reg.len(), 2);
    // A new element does not reuse the stale key.
    let d = reg.insert(leaf(4), Some(root));
    assert_ne!(d, a);
    assert!(!reg.contains(a));
}

#[test]
fn depth_counts_parent_links() {
    let mut reg = ElementRegistry::new();
    let root = reg.insert(leaf(0), None);
    let a = reg.insert(leaf(1), Some(root));
    let b = reg.insert(leaf(2), Some(a));
    assert_eq!(reg.depth(root), 0);
    assert_eq!(reg.depth(a), 1);
    assert_eq!(reg.depth(b), 2);
    // A link to a removed parent still counts; the chain stops there.
    reg.unmount(root);
    assert!(!reg.contains(root));
    assert_eq!(reg.depth(a), 1);
    assert_eq!(reg.depth(b), 2);
}

#[test]
fn get_mut_writes_through() {
    let mut reg = ElementRegistry::new();
    let k = reg.insert(leaf(5), None);
    *reg.get_mut(k).unwrap().as_element_mut() = Box::new(Leaf(6));
    assert_eq!(
        reg.get(k).unwrap().as_element().render_object(),
        Some(RenderObjectKey::from_raw(6))
    );
    reg.set_root(k);
    assert_eq!(reg.root(), Some(k));
}

#[test]
fn child_ops_accumulate_and_drain_in_order() {
    let mut reg = ElementRegistry::new();
    let p = reg.insert(leaf(0), None);
    let c = reg.insert(leaf(1), Some(p));
    let mut ops: ChildOps<&'static str> = ChildOps::new();
    assert!(ops.is_empty());
    ops.inflate(Some(0), "text", p);
    ops.update(c, "button");
    ops.unmount(c);
    assert!(!ops.is_empty());
    let drained = ops.drain();
    assert!(ops.is_empty());
    assert_eq!(drained.len(), 3);
    assert!(matches!(drained[0], ChildOp::Inflate { slot: Some(0), widget: "text", parent } if parent == p));
    assert!(matches!(drained[1], ChildOp::Update { child, widget: "button" } if child == c));
    assert!(matches!(drained[2], ChildOp::Unmount { child } if child == c));
    let empty: ChildOps<u8> = ChildOps::default();
    assert!(empty.is_empty());
}

#[test]
fn with_element_reaches_live_elements_only() {
    let mut reg = ElementRegistry::new();
    let root = reg.insert(leaf(7), None);
    let child = reg.insert(leaf(8), Some(root));
    let mut seen: Vec<u64> = Vec::new();
    let got = reg.with_element(child, &mut seen, |element, seen| {
        let raw = element.render_object().unwrap().as_raw();
        seen.push(raw);
        raw + 1
    });
    assert_eq!(got, Some(9));
    assert_eq!(seen, vec![8]);
    // Swapping the element in place is visible through the registry.
    reg.with_element(child, &mut seen, |element, _| {
        *element = Box::new(Leaf(42));
    });
    assert_eq!(
        reg.get(child).unwrap().as_element().render_object(),
        Some(RenderObjectKey::from_raw(42))
    );
    reg.unmount(child);
    let missing = reg.with_element(child, &mut seen, |_, seen| seen.push(0));
    assert_eq!(missing, None);
    assert_eq!(seen, vec![8]);
    assert_eq!(reg.parent(root), None);
}
