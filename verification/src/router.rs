//! The router: which handler serves which method.

use crate::handler::MethodHandler;
use vstd::hash_map::StringHashMap;
use vstd::prelude::*;

verus! {

/// The handlers of a server, each under the path of its method,
/// `/<service>/<method>`. A path has at most one handler.
pub struct Methods {
    map: StringHashMap<Box<dyn MethodHandler>>,
}

impl View for Methods {
    type V = Map<Seq<char>, Box<dyn MethodHandler>>;

    closed spec fn view(&self) -> Map<Seq<char>, Box<dyn MethodHandler>> {
        self.map@
    }
}

impl Methods {
    /// No handler at all.
    pub fn new() -> (m: Methods)
        ensures
            m@ == Map::<Seq<char>, Box<dyn MethodHandler>>::empty(),
    {
        Methods { map: StringHashMap::new() }
    }

    /// Puts `handler` under `path`, in place of the one that was there, if
    /// one was.
    pub fn insert(&mut self, path: String, handler: Box<dyn MethodHandler>)
        ensures
            final(self)@ == old(self)@.insert(path@, handler),
    {
        self.map.insert(path, handler);
    }

    /// Whether a handler is registered under `path`.
    pub fn contains_key(&self, path: &str) -> (b: bool)
        ensures
            b == self@.contains_key(path@),
    {
        self.map.contains_key(path)
    }

    /// The handler registered under `path`.
    pub fn get<'a>(&'a self, path: &str) -> (handler: Option<&'a Box<dyn MethodHandler>>)
        ensures
            match handler {
                Some(h) => self@.contains_key(path@) && *h == self@[path@],
                None => !self@.contains_key(path@),
            },
    {
        self.map.get(path)
    }

    /// How many paths have a handler.
    pub fn len(&self) -> (n: usize)
        ensures
            n == self@.len(),
    {
        self.map.len()
    }

    /// Takes in every handler of `other`, each under its path. Where both
    /// have a handler under a path, the one of `other` stays.
    pub fn extend(&mut self, other: Methods)
        ensures
            final(self)@ == old(self)@.union_prefer_right(other@),
    {
        self.map.union_prefer_right(other.map);
    }
}

} // verus!
