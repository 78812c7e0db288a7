//! The event bus: one first-in first-out queue per registered event kind.
//! A read removes and returns the oldest pending value.
use vstd::prelude::*;
use std::collections::{HashMap, VecDeque};

use crate::TypeKey;

verus! {

broadcast use vstd::std_specs::hash::group_hash_axioms;

/// The pending values of one event kind, oldest first.
#[derive(Debug)]
pub struct Event<E> {
    data: VecDeque<E>,
}

impl<E> View for Event<E> {
    type V = Seq<E>;

    closed spec fn view(&self) -> Seq<E> {
        self.data@
    }
}

/// The queues after `value` is sent to kind `key`.
pub open spec fn sent<E>(m: Map<TypeKey, Seq<E>>, key: TypeKey, value: E) -> Map<TypeKey, Seq<E>> {
    m.insert(key, m[key].push(value))
}

/// What a read of kind `key` returns.
pub open spec fn read_result<E>(m: Map<TypeKey, Seq<E>>, key: TypeKey) -> Option<E> {
    if m[key].len() == 0 {
        None
    } else {
        Some(m[key][0])
    }
}

/// The queues after a read of kind `key`.
pub open spec fn after_read<E>(m: Map<TypeKey, Seq<E>>, key: TypeKey) -> Map<TypeKey, Seq<E>> {
    if m[key].len() == 0 {
        m
    } else {
        m.insert(key, m[key].drop_first())
    }
}

impl<E> Event<E> {
    /// An empty queue.
    pub fn new() -> (r: Self)
        ensures
            r@ == Seq::<E>::empty(),
    {
        Event { data: VecDeque::new() }
    }

    /// Appends `data` behind every pending value.
    pub fn send(&mut self, data: E)
        ensures
            final(self)@ == old(self)@.push(data),
    {
        self.data.push_back(data);
    }

    /// Removes and returns the oldest pending value.
    pub fn read(&mut self) -> (r: Option<E>)
        ensures
            old(self)@.len() == 0 ==> r is None && final(self)@ == old(self)@,
            old(self)@.len() > 0 ==> r == Some(old(self)@[0]) && final(self)@ == old(self)@.drop_first(),
    {
        self.data.pop_front()
    }

    /// Drops every pending value.
    pub fn clear(&mut self)
        ensures
            final(self)@ == Seq::<E>::empty(),
    {
        self.data.clear();
    }

    /// The number of pending values.
    pub fn len(&self) -> (r: usize)
        ensures
            r == self@.len(),
    {
        self.data.len()
    }
}

/// The queues of every registered event kind.
#[derive(Debug)]
pub struct EventStorage<E> {
    events: HashMap<TypeKey, Event<E>>,
}

impl<E> View for EventStorage<E> {
    type V = Map<TypeKey, Seq<E>>;

    closed spec fn view(&self) -> Map<TypeKey, Seq<E>> {
        self.events@.map_values(|q: Event<E>| q@)
    }
}

impl<E> EventStorage<E> {
    /// A bus with no registered kind.
    pub fn new() -> (r: Self)
        ensures
            r@ == Map::<TypeKey, Seq<E>>::empty(),
    {
        let r = EventStorage { events: HashMap::new() };
        assert(r@ =~= Map::<TypeKey, Seq<E>>::empty());
        r
    }

    /// Whether kind `key` is registered.
    pub fn is_registered(&self, key: TypeKey) -> (r: bool)
        ensures
            r == self@.contains_key(key),
    {
        self.events.contains_key(&key)
    }

    /// Registers kind `key` with an empty queue (an existing queue of that
    /// kind is replaced).
    pub fn add_event(&mut self, key: TypeKey)
        ensures
            final(self)@ == old(self)@.insert(key, Seq::<E>::empty()),
    {
        self.events.insert(key, Event::new());
        assert(self@ =~= old(self)@.insert(key, Seq::<E>::empty()));
    }

    /// Appends `data` to the queue of the registered kind `key`.
    pub fn send(&mut self, key: TypeKey, data: E)
        requires
            old(self)@.contains_key(key),
        ensures
            final(self)@ == sent(old(self)@, key, data),
    {
        let mut q = self.events.remove(&key).unwrap();
        q.send(data);
        self.events.insert(key, q);
        assert(self@ =~= sent(old(self)@, key, data));
    }

    /// Removes and returns the oldest pending value of the registered kind
    /// `key`.
    pub fn read(&mut self, key: TypeKey) -> (r: Option<E>)
        requires
            old(self)@.contains_key(key),
        ensures
            r == read_result(old(self)@, key),
            final(self)@ == after_read(old(self)@, key),
    {
        let mut q = self.events.remove(&key).unwrap();
        let r = q.read();
        self.events.insert(key, q);
        assert(self@ =~= after_read(old(self)@, key));
        r
    }

    /// Drops every pending value of the registered kind `key`.
    pub fn clear(&mut self, key: TypeKey)
        requires
            old(self)@.contains_key(key),
        ensures
            final(self)@ == old(self)@.insert(key, Seq::<E>::empty()),
    {
        let mut q = self.events.remove(&key).unwrap();
        q.clear();
        self.events.insert(key, q);
        assert(self@ =~= old(self)@.insert(key, Seq::<E>::empty()));
    }
}

/// Once kind `key` is registered, two sends are read back in the order
/// sent and then nothing is left; a clear after two sends leaves nothing to
/// read.
pub proof fn lemma_event_round_trip<E>(m: Map<TypeKey, Seq<E>>, key: TypeKey, v1: E, v2: E)
    ensures
        ({
            let two = sent(sent(m.insert(key, Seq::empty()), key, v1), key, v2);
            &&& read_result(two, key) == Some(v1)
            &&& read_result(after_read(two, key), key) == Some(v2)
            &&& read_result(after_read(after_read(two, key), key), key) is None
            &&& read_result(two.insert(key, Seq::<E>::empty()), key) is None
        }),
{
    let two = sent(sent(m.insert(key, Seq::empty()), key, v1), key, v2);
    assert(two[key] =~= seq![v1, v2]);
    assert(after_read(two, key)[key] =~= seq![v2]);
    assert(after_read(after_read(two, key), key)[key] =~= Seq::<E>::empty());
}

} // verus!
