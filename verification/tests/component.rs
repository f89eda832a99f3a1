use vexo::component::{Component, ComponentStateStorage, ComponentWidget, KeyPath};
use vexo::ui_core::id::WidgetId;

#[test]
fn test_keypath_root() {
    let root = KeyPath::root();
    assert_eq!(root.scoped("widget"), "widget");
}

#[test]
fn test_keypath_child() {
    let root = KeyPath::root();
    let child = root.child("login");
    assert_eq!(child.scoped("username"), "login/username");
}

#[test]
fn test_keypath_nested() {
    let root = KeyPath::root();
    let app = root.child("app");
    let login = app.child("login");
    assert_eq!(login.scoped("username"), "app/login/username");
}

#[test]
fn test_keypath_multiple_widgets() {
    let form = KeyPath::root().child("form");
    let id1 = form.scoped("field1");
    let id2 = form.scoped("field2");
    assert_ne!(id1, id2);
    assert_eq!(id1, "form/field1");
    assert_eq!(id2, "form/field2");
}

#[test]
fn keypath_child_scoped_is_segment_slash_key() {
    let path = KeyPath::default().child("a").child("b");
    assert_eq!(path.child("c").scoped("k"), format!("{}/{}", path.scoped("c"), "k"));
}

#[test]
fn keypath_empty_segment_joins_to_nothing() {
    // A single empty segment joins to the empty string, so no separator is
    // written before the key.
    let path = KeyPath::root().child("");
    assert_eq!(path.scoped("x"), "x");
    // Two empty segments join to "/".
    let path2 = path.child("");
    assert_eq!(path2.scoped("x"), "//x");
}

#[test]
fn keypath_child_leaves_parent_unchanged() {
    let root = KeyPath::root();
    let _child = root.child("a");
    assert_eq!(root, KeyPath::root());
}

#[test]
fn test_widget_id_deterministic() {
    let id1 = WidgetId::from_key("my-widget");
    let id2 = WidgetId::from_key("my-widget");
    assert_eq!(id1, id2);
}

#[test]
fn test_widget_id_different_keys() {
    let id1 = WidgetId::from_key("widget-1");
    let id2 = WidgetId::from_key("widget-2");
    assert_ne!(id1, id2);
}

#[test]
fn test_widget_id_from_raw() {
    let id = WidgetId::from_raw(12345);
    assert_eq!(id.as_raw(), 12345);
}

#[test]
fn widget_id_from_scoped_key_is_stable() {
    let form = KeyPath::root().child("form");
    assert_eq!(
        WidgetId::from_key(&form.scoped("field")),
        WidgetId::from_key("form/field")
    );
}

struct Counter;

#[derive(Default, Debug, PartialEq)]
struct CounterState {
    count: u32,
}

#[derive(Clone, Debug)]
enum CounterMsg {
    Add(u32),
    Reset,
}

impl Component for Counter {
    type Message = CounterMsg;
    type Output = u32;
    type State = CounterState;

    fn update(state: &mut CounterState, message: CounterMsg) {
        match message {
            CounterMsg::Add(n) => state.count += n,
            CounterMsg::Reset => state.count = 0,
        }
    }

    fn map_message(message: CounterMsg, state: &CounterState) -> Option<u32> {
        match message {
            CounterMsg::Add(_) => Some(state.count),
            CounterMsg::Reset => None,
        }
    }
}

#[test]
fn component_widget_new_uses_initial_state_and_key() {
    let w: ComponentWidget<Counter> = ComponentWidget::new("counter");
    assert_eq!(w.storage_key(), "counter");
    assert_eq!(w.state(), &CounterState { count: 0 });
}

#[test]
fn component_widget_with_state_and_state_mut() {
    let mut w: ComponentWidget<Counter> =
        ComponentWidget::new("c").with_state(CounterState { count: 5 });
    assert_eq!(w.state().count, 5);
    w.state_mut().count = 9;
    assert_eq!(w.state().count, 9);
    assert_eq!(w.storage_key(), "c");
}

#[test]
fn component_widget_routes_messages_through_update_then_map() {
    let mut w: ComponentWidget<Counter> = ComponentWidget::new("c");
    assert_eq!(w.handle_message(Some(CounterMsg::Add(3))), Some(3));
    assert_eq!(w.handle_message(Some(CounterMsg::Add(4))), Some(7));
    assert_eq!(w.handle_message(None), None);
    assert_eq!(w.state().count, 7);
    assert_eq!(w.handle_message(Some(CounterMsg::Reset)), None);
    assert_eq!(w.state().count, 0);
}

#[test]
fn component_state_storage_constructs() {
    let _a = ComponentStateStorage::new();
    let _b = ComponentStateStorage::default();
}
