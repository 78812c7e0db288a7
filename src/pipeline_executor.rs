//! A set of scenes, one per pipeline (a menu, a game, ...), keyed by the
//! pipeline's identity token.
use vstd::prelude::*;
use std::collections::HashMap;

use crate::TypeKey;

verus! {

broadcast use vstd::std_specs::hash::group_hash_axioms;

pub struct PipelineExecutor<Sc> {
    scenes: HashMap<TypeKey, Sc>,
}

impl<Sc> View for PipelineExecutor<Sc> {
    type V = Map<TypeKey, Sc>;

    closed spec fn view(&self) -> Map<TypeKey, Sc> {
        self.scenes@
    }
}

impl<Sc> PipelineExecutor<Sc> {
    pub fn new() -> (r: Self)
        ensures
            r@ == Map::<TypeKey, Sc>::empty(),
    {
        PipelineExecutor { scenes: HashMap::new() }
    }

    /// Files `scene` under pipeline `key`, replacing any scene there.
    pub fn add_scene(&mut self, key: TypeKey, scene: Sc)
        ensures
            final(self)@ == old(self)@.insert(key, scene),
    {
        self.scenes.insert(key, scene);
    }

    /// The scene of pipeline `key`, if any.
    pub fn get_scene(&self, key: TypeKey) -> (r: Option<&Sc>)
        ensures
            match r {
                Some(s) => self@.contains_key(key) && *s == self@[key],
                None => !self@.contains_key(key),
            },
    {
        self.scenes.get(&key)
    }

    /// Takes the scene of pipeline `key` out, to run it.
    pub fn remove_scene(&mut self, key: TypeKey) -> (r: Option<Sc>)
        ensures
            final(self)@ == old(self)@.remove(key),
            match r {
                Some(s) => old(self)@.contains_key(key) && s == old(self)@[key],
                None => !old(self)@.contains_key(key),
            },
    {
        self.scenes.remove(&key)
    }
}

} // verus!
