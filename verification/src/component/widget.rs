//! Bridge between the Component trait and the widget tree.

use vstd::prelude::*;
use vstd::string::*;

use crate::component::context::KeyPath;

verus! {

/// A reusable component with local state and message isolation.
pub trait Component: Sized + 'static {
    type Message: Clone + std::fmt::Debug + Send;
    type Output: Clone + std::fmt::Debug + Send;
    type State: Default;

    fn initial_state() -> Self::State {
        Self::State::default()
    }

    fn update(state: &mut Self::State, message: Self::Message);

    fn map_message(message: Self::Message, state: &Self::State) -> Option<Self::Output>;
}

/// Widget wrapper that hosts a Component.
pub struct ComponentWidget<C: Component> {
    state: C::State,
    storage_key: String,
    key_path: KeyPath,
}

impl<C: Component> ComponentWidget<C> {
    /// The component's current state.
    pub closed spec fn state_view(&self) -> C::State {
        self.state
    }

    /// The key under which the component's state is stored.
    pub closed spec fn key_view(&self) -> Seq<char> {
        self.storage_key@
    }

    /// The key path that scopes the ids of the component's widgets.
    pub closed spec fn key_path_view(&self) -> Seq<Seq<char>> {
        self.key_path.segments()
    }

    /// A host for a fresh component stored under `storage_key`, holding the
    /// component's initial state; its widget ids are scoped under the
    /// one-segment path `[storage_key]`.
    pub fn new(storage_key: &str) -> (res: Self)
        ensures
            res.key_view() == storage_key@,
            res.key_path_view() == seq![storage_key@],
            call_ensures(C::initial_state, (), res.state_view()),
    {
        let key_path = KeyPath::root().child(storage_key);
        let initial_state = C::initial_state;
        ComponentWidget { state: initial_state(), storage_key: String::from_str(storage_key), key_path }
    }

    /// Replace the initial state.
    pub fn with_state(self, state: C::State) -> (res: Self)
        ensures
            res.state_view() == state,
            res.key_view() == self.key_view(),
            res.key_path_view() == self.key_path_view(),
    {
        let mut this = self;
        this.state = state;
        this
    }

    pub fn storage_key(&self) -> (res: &str)
        ensures
            res@ == self.key_view(),
    {
        self.storage_key.as_str()
    }

    pub fn state(&self) -> (res: &C::State)
        ensures
            *res == self.state_view(),
    {
        &self.state
    }

    pub fn state_mut(&mut self) -> (res: &mut C::State)
        ensures
            *res == old(self).state_view(),
            final(self).state_view() == *final(res),
            final(self).key_view() == old(self).key_view(),
            final(self).key_path_view() == old(self).key_path_view(),
    {
        &mut self.state
    }

    /// Route a message produced by the hosted view: the component updates its
    /// state with a clone of the message, then maps the message (against the
    /// updated state) to the message it emits, if any. Without a message
    /// nothing changes.
    ///
    /// The component's functions are called as function values, so that the
    /// contract can name the outcome of each call by `call_ensures`.
    pub fn handle_message(&mut self, message: Option<C::Message>) -> (out: Option<C::Output>)
        ensures
            message is None ==> out is None && final(self).state_view() == old(self).state_view(),
            message matches Some(m) ==> exists|copy: C::Message, state: &mut C::State|
                {
                    &&& cloned::<C::Message>(m, copy)
                    &&& *state == old(self).state_view()
                    &&& *final(state) == final(self).state_view()
                    &&& call_ensures(C::update, (state, copy), ())
                    &&& call_ensures(C::map_message, (m, &final(self).state_view()), out)
                },
            final(self).key_view() == old(self).key_view(),
            final(self).key_path_view() == old(self).key_path_view(),
    {
        match message {
            Some(internal_msg) => {
                let clone_message = C::Message::clone;
                let update = C::update;
                let map_message = C::map_message;
                let copy = clone_message(&internal_msg);
                update(&mut self.state, copy);
                map_message(internal_msg, &self.state)
            },
            None => None,
        }
    }
}

} // verus!
