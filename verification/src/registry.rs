//! The observer registry: how many subscriptions are attached to each
//! resource path. Attach and detach keep the per-path count exact, and an
//! "is online" query is answered from that count alone: a path is online
//! exactly while it has at least one active subscription.

use vstd::prelude::*;

use crate::keymap::KeyMap;

verus! {

/// Number of subscriptions attached to `path` under the model map `m`.
pub open spec fn active_count(m: Map<Seq<u8>, usize>, path: Seq<u8>) -> usize {
    if m.contains_key(path) {
        m[path]
    } else {
        0
    }
}

/// Whether `path` is reported online: at least one active subscription.
pub open spec fn spec_is_online(m: Map<Seq<u8>, usize>, path: Seq<u8>) -> bool {
    active_count(m, path) > 0
}

/// The registry after one attach to `path`.
pub open spec fn spec_attach(m: Map<Seq<u8>, usize>, path: Seq<u8>) -> Map<Seq<u8>, usize>
    recommends
        active_count(m, path) < usize::MAX,
{
    m.insert(path, (active_count(m, path) + 1) as usize)
}

/// The registry after one detach from `path`; detaching from a path with no
/// subscription leaves the registry unchanged.
pub open spec fn spec_detach(m: Map<Seq<u8>, usize>, path: Seq<u8>) -> Map<Seq<u8>, usize> {
    if active_count(m, path) > 0 {
        m.insert(path, (active_count(m, path) - 1) as usize)
    } else {
        m
    }
}

/// Per-path count of attached subscriptions.
pub struct ObserverRegistry {
    counts: KeyMap<usize>,
}

impl ObserverRegistry {
    /// The mapping from resource path to active-subscription count.
    pub closed spec fn view(&self) -> Map<Seq<u8>, usize> {
        self.counts@
    }

    /// Well-formedness of the backing map.
    pub closed spec fn wf(&self) -> bool {
        self.counts.wf()
    }

    /// A registry with no subscription anywhere.
    pub fn new() -> (r: ObserverRegistry)
        ensures
            r.wf(),
            r@ =~= Map::<Seq<u8>, usize>::empty(),
    {
        ObserverRegistry { counts: KeyMap::new() }
    }

    /// Register one more subscription under `path`.
    pub fn attach(&mut self, path: Vec<u8>)
        requires
            old(self).wf(),
            active_count(old(self)@, path@) < usize::MAX,
        ensures
            final(self).wf(),
            final(self)@ == spec_attach(old(self)@, path@),
            active_count(final(self)@, path@) == active_count(old(self)@, path@) + 1,
    {
        let n = self.get_count(path.as_slice());
        self.counts.write(path, n + 1);
    }

    /// Drop one subscription from `path`; a no-op when none is attached.
    pub fn detach(&mut self, path: &[u8])
        requires
            old(self).wf(),
        ensures
            final(self).wf(),
            final(self)@ == spec_detach(old(self)@, path@),
            active_count(old(self)@, path@) > 0 ==> active_count(final(self)@, path@)
                == active_count(old(self)@, path@) - 1,
            active_count(old(self)@, path@) == 0 ==> final(self)@ == old(self)@,
    {
        let n = self.get_count(path);
        if n > 0 {
            let mut key: Vec<u8> = Vec::new();
            crate::keymap::append_bytes(&mut key, path);
            self.counts.write(key, n - 1);
        }
    }

    /// Current number of subscriptions attached to `path`. A query racing a
    /// detach in the surrounding service sees either the count before it or
    /// the count after it, never a torn value.
    pub fn get_count(&self, path: &[u8]) -> (n: usize)
        requires
            self.wf(),
        ensures
            n == active_count(self@, path@),
    {
        match self.counts.read(path) {
            Some(n) => *n,
            None => 0,
        }
    }

    /// Whether `path` currently has at least one subscription.
    pub fn is_online(&self, path: &[u8]) -> (r: bool)
        requires
            self.wf(),
        ensures
            r == spec_is_online(self@, path@),
    {
        self.get_count(path) > 0
    }
}

/// Law: a path with no subscription is offline; after one attach it is
/// online; after the matching detach it is offline again, and every other
/// path's count is untouched throughout.
pub proof fn lemma_attach_detach_online(m: Map<Seq<u8>, usize>, path: Seq<u8>)
    requires
        active_count(m, path) == 0,
        active_count(m, path) < usize::MAX,
    ensures
        !spec_is_online(m, path),
        spec_is_online(spec_attach(m, path), path),
        !spec_is_online(spec_detach(spec_attach(m, path), path), path),
        forall|q: Seq<u8>|
            q != path ==> #[trigger] active_count(spec_detach(spec_attach(m, path), path), q)
                == active_count(m, q),
        forall|q: Seq<u8>|
            q != path ==> #[trigger] active_count(spec_attach(m, path), q) == active_count(m, q),
{
}

/// Law: attach and detach are exact inverses on the count of their own path,
/// whatever the starting count.
pub proof fn lemma_detach_undoes_attach(m: Map<Seq<u8>, usize>, path: Seq<u8>)
    requires
        active_count(m, path) < usize::MAX,
    ensures
        active_count(spec_detach(spec_attach(m, path), path), path) == active_count(m, path),
{
}

} // verus!
