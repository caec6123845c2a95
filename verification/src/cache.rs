//! The local record cache: the durable store of synchronizable
//! records, one set per namespace.
//!
//! The store models the per-namespace cache files: an absent entry is
//! the valid empty first-run state for `load`, while an explicit
//! `clear` of an absent entry is an error. `save` replaces a
//! namespace's set as a whole, mirroring the all-or-nothing visibility
//! the on-disk representation guarantees (write to a temporary file,
//! then rename). Encoding to and from the JSON documents on disk, and
//! the disk writes themselves, live outside the verified store.

use vstd::prelude::*;

use crate::record::{recs_view, Record, RecordView};

verus! {

/// A logically distinct record collection with its own cache file and
/// sync cycle.
#[derive(Clone, Copy, PartialEq, Eq, Structural, Debug)]
pub enum Namespace {
    Tasks,
    Events,
}

/// Failures of the record cache.
#[derive(Clone, Copy, Debug, PartialEq, Eq, Structural)]
pub enum CacheError {
    /// An explicit `clear` found nothing to remove.
    NotFound,
    /// The cache file could not be replaced; the sync cycle that asked
    /// for the save is abandoned, no partial state is kept.
    WriteFailed,
    /// The cache file held no valid record set; treated as empty by
    /// the caller after a warning, never a crash.
    Corrupt,
}

/// The in-memory image of the per-namespace record sets.
pub struct CacheStore {
    pub tasks: Option<Vec<Record>>,
    pub events: Option<Vec<Record>>,
}

#[verifier::ext_equal]
pub ghost struct CacheStoreView {
    pub tasks: Option<Seq<RecordView>>,
    pub events: Option<Seq<RecordView>>,
}

impl View for CacheStore {
    type V = CacheStoreView;

    open spec fn view(&self) -> CacheStoreView {
        CacheStoreView {
            tasks: match self.tasks {
                Some(v) => Some(recs_view(v@)),
                None => None,
            },
            events: match self.events {
                Some(v) => Some(recs_view(v@)),
                None => None,
            },
        }
    }
}

impl CacheStoreView {
    /// The persisted set of a namespace, absent on first run.
    pub open spec fn entry(self, ns: Namespace) -> Option<Seq<RecordView>> {
        match ns {
            Namespace::Tasks => self.tasks,
            Namespace::Events => self.events,
        }
    }

    /// What `load` returns: the persisted set, or empty when none
    /// exists yet.
    pub open spec fn loaded(self, ns: Namespace) -> Seq<RecordView> {
        match self.entry(ns) {
            Some(s) => s,
            None => Seq::empty(),
        }
    }
}

impl CacheStore {
    /// A store with no namespace persisted yet.
    pub fn new() -> (s: CacheStore)
        ensures
            s@.entry(Namespace::Tasks) is None,
            s@.entry(Namespace::Events) is None,
    {
        CacheStore { tasks: None, events: None }
    }

    /// Returns the persisted set for a namespace; an absent cache is
    /// the expected empty first-run state, not an error.
    pub fn load(&self, ns: Namespace) -> (r: Vec<Record>)
        ensures
            recs_view(r@) == self@.loaded(ns),
    {
        let slot = match ns {
            Namespace::Tasks => &self.tasks,
            Namespace::Events => &self.events,
        };
        match slot {
            Some(v) => {
                let mut out: Vec<Record> = Vec::new();
                let mut i: usize = 0;
                while i < v.len()
                    invariant
                        i <= v.len(),
                        out@ =~= v@.take(i as int),
                    decreases v.len() - i,
                {
                    out.push(v[i].duplicate());
                    proof {
                        assert(out@ =~= v@.take(i + 1));
                    }
                    i = i + 1;
                }
                proof {
                    assert(v@.take(v@.len() as int) =~= v@);
                    assert(out@ == v@);
                }
                out
            },
            None => Vec::new(),
        }
    }

    /// Replaces the persisted set of a namespace as a whole; the other
    /// namespace is untouched.
    pub fn save(&mut self, ns: Namespace, records: Vec<Record>)
        ensures
            final(self)@.entry(ns) == Some(recs_view(records@)),
            forall|other: Namespace| other != ns ==> final(self)@.entry(other) == old(
                self,
            )@.entry(other),
    {
        match ns {
            Namespace::Tasks => {
                self.tasks = Some(records);
            },
            Namespace::Events => {
                self.events = Some(records);
            },
        }
    }

    /// Removes the persisted set of a namespace; fails when none
    /// exists.
    pub fn clear(&mut self, ns: Namespace) -> (r: Result<(), CacheError>)
        ensures
            r is Ok <==> old(self)@.entry(ns) is Some,
            r is Err ==> r == Result::<(), CacheError>::Err(CacheError::NotFound) && *final(self)
                == *old(self),
            r is Ok ==> final(self)@.entry(ns) is None,
            forall|other: Namespace| other != ns ==> final(self)@.entry(other) == old(
                self,
            )@.entry(other),
    {
        let present = match ns {
            Namespace::Tasks => self.tasks.is_some(),
            Namespace::Events => self.events.is_some(),
        };
        if !present {
            return Err(CacheError::NotFound);
        }
        match ns {
            Namespace::Tasks => {
                self.tasks = None;
            },
            Namespace::Events => {
                self.events = None;
            },
        }
        Ok(())
    }
}

/// Round trip: `save` followed by `load` for the same namespace
/// returns the saved record set. After a `save`, the namespace's
/// entry is exactly the saved sequence, and a store in that state
/// loads it back unchanged.
pub proof fn lemma_save_load_round_trip(v: CacheStoreView, ns: Namespace, records: Seq<RecordView>)
    requires
        v.entry(ns) == Some(records),
    ensures
        v.loaded(ns) == records,
{
}

} // verus!
