//! The nexus: per-process registry of portals.
//!
//! The nexus owns no wire state; it is a lifecycle coordinator. A new
//! connection is announced with [`Nexus::connected`], which registers a
//! fresh entry and hands back its key; callers enumerate or look up live
//! portals by key or identifier, and a portal that reaches `Closed` is
//! removed. Identifier collisions are permitted — identifiers are
//! informational — so the nexus always accepts a connection.

use vstd::prelude::*;

use crate::bytes::bytes_eq;

verus! {

/// One registered portal: its registry key and its informational
/// identifier (usually derived from the peer address).
pub struct NexusEntry {
    pub key: u64,
    pub identifier: Vec<u8>,
}

/// Mathematical image of a [`NexusEntry`].
#[verifier::ext_equal]
pub struct NexusEntryModel {
    pub key: u64,
    pub identifier: Seq<u8>,
}

impl View for NexusEntry {
    type V = NexusEntryModel;

    open spec fn view(&self) -> NexusEntryModel {
        NexusEntryModel { key: self.key, identifier: self.identifier@ }
    }
}

/// Mathematical image of a [`Nexus`].
#[verifier::ext_equal]
pub struct NexusModel {
    pub next_key: u64,
    pub entries: Seq<NexusEntryModel>,
}

/// There is a registered portal under this key.
pub open spec fn has_portal(s: Seq<NexusEntryModel>, key: u64) -> bool {
    exists|i: int| 0 <= i < s.len() && s[i].key == key
}

/// Index of the portal registered under this key (unique under the
/// invariant).
pub open spec fn portal_key_idx(s: Seq<NexusEntryModel>, key: u64) -> int {
    choose|i: int| 0 <= i < s.len() && s[i].key == key
}

impl NexusModel {
    /// Well-formedness: every key came from the monotonic allocator and is
    /// unique.
    pub open spec fn inv(self) -> bool {
        &&& forall|i: int| 0 <= i < self.entries.len() ==> (#[trigger] self.entries[i]).key
            < self.next_key
        &&& forall|i: int, j: int|
            0 <= i < self.entries.len() && 0 <= j < self.entries.len() && self.entries[i].key
                == self.entries[j].key ==> i == j
    }

    /// A fresh, empty nexus.
    pub open spec fn spec_new() -> NexusModel {
        NexusModel { next_key: 0, entries: Seq::empty() }
    }

    /// Registering a new connection: a fresh key is issued.
    pub open spec fn spec_connected(self, identifier: Seq<u8>) -> (NexusModel, u64)
        recommends
            self.next_key < u64::MAX,
    {
        let key = self.next_key;
        (
            NexusModel {
                next_key: (self.next_key + 1) as u64,
                entries: self.entries.push(NexusEntryModel { key, identifier }),
            },
            key,
        )
    }

    /// Removing a closed portal; removing an unknown key does nothing.
    pub open spec fn spec_remove(self, key: u64) -> NexusModel {
        if has_portal(self.entries, key) {
            NexusModel { entries: self.entries.remove(portal_key_idx(self.entries, key)), ..self }
        } else {
            self
        }
    }
}

/// The per-process registry of portals.
pub struct Nexus {
    next_key: u64,
    entries: Vec<NexusEntry>,
}

impl View for Nexus {
    type V = NexusModel;

    closed spec fn view(&self) -> NexusModel {
        NexusModel {
            next_key: self.next_key,
            entries: self.entries@.map_values(|e: NexusEntry| e@),
        }
    }
}

/// Starts a fresh nexus with no portals.
pub fn start_nexus() -> (r: Nexus)
    ensures
        r@ == NexusModel::spec_new(),
        r@.inv(),
{
    let r = Nexus { next_key: 0, entries: Vec::new() };
    proof {
        assert(r@ =~~= NexusModel::spec_new());
    }
    r
}

impl Nexus {
    /// Registers a portal for a freshly connected transport and returns
    /// its key. The nexus always accepts: identifier collisions are
    /// permitted.
    pub fn connected(&mut self, identifier: Vec<u8>) -> (r: u64)
        requires
            old(self)@.inv(),
            old(self)@.next_key < u64::MAX,
        ensures
            final(self)@.inv(),
            ({
                let (s2, key) = old(self)@.spec_connected(identifier@);
                r == key && final(self)@ == s2
            }),
    {
        let key = self.next_key;
        self.entries.push(NexusEntry { key, identifier });
        self.next_key = self.next_key + 1;
        proof {
            let (ms, mk) = old(self)@.spec_connected(identifier@);
            assert(self@ =~~= ms);
            assert(self@.inv());
        }
        key
    }

    /// The keys of all live portals, in registration order.
    pub fn list(&self) -> (r: Vec<u64>)
        ensures
            r@.len() == self@.entries.len(),
            forall|i: int| 0 <= i < r@.len() ==> r@[i] == (#[trigger] self@.entries[i]).key,
    {
        let mut r: Vec<u64> = Vec::new();
        let mut i: usize = 0;
        while i < self.entries.len()
            invariant
                i <= self.entries.len(),
                self@.entries.len() == self.entries.len(),
                r@.len() == i,
                forall|j: int| 0 <= j < i ==> r@[j] == (#[trigger] self@.entries[j]).key,
            decreases self.entries.len() - i,
        {
            r.push(self.entries[i].key);
            i = i + 1;
        }
        r
    }

    /// Looks up the first portal registered under `identifier`; `None`
    /// when no live portal carries it.
    pub fn find(&self, identifier: &Vec<u8>) -> (r: Option<u64>)
        ensures
            match r {
                Some(k) => exists|i: int|
                    0 <= i < self@.entries.len() && (#[trigger] self@.entries[i]).identifier
                        == identifier@ && self@.entries[i].key == k && (forall|j: int|
                        0 <= j < i ==> (#[trigger] self@.entries[j]).identifier != identifier@),
                None => forall|i: int|
                    0 <= i < self@.entries.len() ==> (#[trigger] self@.entries[i]).identifier
                        != identifier@,
            },
    {
        let mut i: usize = 0;
        while i < self.entries.len()
            invariant
                i <= self.entries.len(),
                self@.entries.len() == self.entries.len(),
                forall|j: int| 0 <= j < i ==> (#[trigger] self@.entries[j]).identifier
                    != identifier@,
            decreases self.entries.len() - i,
        {
            if bytes_eq(&self.entries[i].identifier, identifier) {
                proof {
                    assert((#[trigger] self@.entries[i as int]).identifier == identifier@);
                }
                return Some(self.entries[i].key);
            }
            i = i + 1;
        }
        None
    }

    /// Removes a portal that has transitioned to `Closed`. Returns whether
    /// the key was registered; removing an unknown key does nothing.
    pub fn remove(&mut self, key: u64) -> (r: bool)
        requires
            old(self)@.inv(),
        ensures
            final(self)@.inv(),
            r == has_portal(old(self)@.entries, key),
            final(self)@ == old(self)@.spec_remove(key),
    {
        let mut i: usize = 0;
        while i < self.entries.len()
            invariant
                i <= self.entries.len(),
                self@.entries.len() == self.entries.len(),
                self@ == old(self)@,
                old(self)@.inv(),
                forall|j: int| 0 <= j < i ==> (#[trigger] self@.entries[j]).key != key,
            decreases self.entries.len() - i,
        {
            if self.entries[i].key == key {
                proof {
                    assert(old(self)@.entries[portal_key_idx(old(self)@.entries, key)].key == key)
                        by {
                        assert(old(self)@.entries[i as int].key == key);
                    }
                    assert(i as int == portal_key_idx(old(self)@.entries, key));
                }
                self.entries.remove(i);
                proof {
                    assert(self@.entries =~= old(self)@.entries.remove(
                        portal_key_idx(old(self)@.entries, key),
                    ));
                    assert(self@ =~~= old(self)@.spec_remove(key));
                    assert(self@.inv());
                }
                return true;
            }
            i = i + 1;
        }
        proof {
            assert(!has_portal(self@.entries, key));
        }
        false
    }
}

} // verus!
