//! The read side the IPC server answers from: the id registry together with
//! each pane's terminal handle and raw-attach endpoint, keyed by pane
//! address and moved as one when a pane changes windows.

use std::collections::HashMap;

use vstd::prelude::*;

use crate::input_queue::QueueInputResult;
use crate::ipc_registry::{lemma_pack_key_injective, pack, pack_key, lemma_registered_id_resolves, pane_of, registry_wf, IpcRegistry, PaneKey, RegistryModel};

verus! {

fn same_key(a: PaneKey, b: PaneKey) -> (r: bool)
    ensures
        r == (a == b),
{
    a.0 == b.0 && a.1 == b.1
}

/// A table of values keyed by pane address, held in a `HashMap` under the
/// address packed into one `u128` ([`pack_key`]).
pub struct PaneTable<T> {
    map: HashMap<u128, T>,
}

impl<T> View for PaneTable<T> {
    type V = Map<PaneKey, T>;

    closed spec fn view(&self) -> Map<PaneKey, T> {
        Map::new(|k: PaneKey| self.map@.contains_key(pack_key(k)), |k: PaneKey| self.map@[pack_key(k)])
    }
}

impl<T> PaneTable<T> {
    /// Every state of the map is a valid table.
    pub closed spec fn wf(self) -> bool {
        true
    }

    /// An empty table.
    pub fn new() -> (t: PaneTable<T>)
        ensures
            t.wf(),
            t@ == Map::<PaneKey, T>::empty(),
    {
        broadcast use vstd::std_specs::hash::group_hash_axioms;

        let t = PaneTable { map: HashMap::new() };
        assert(t@ =~= Map::<PaneKey, T>::empty());
        t
    }

    /// The value stored for `key`, if any.
    pub fn get(&self, key: PaneKey) -> (r: Option<&T>)
        requires
            self.wf(),
        ensures
            match r {
                Some(v) => self@.contains_key(key) && *v == self@[key],
                None => !self@.contains_key(key),
            },
    {
        broadcast use vstd::std_specs::hash::group_hash_axioms;

        let packed = pack(key);
        self.map.get(&packed)
    }

    /// Whether a value is stored for `key`.
    pub fn contains_key(&self, key: PaneKey) -> (r: bool)
        requires
            self.wf(),
        ensures
            r == self@.contains_key(key),
    {
        broadcast use vstd::std_specs::hash::group_hash_axioms;

        let packed = pack(key);
        self.map.contains_key(&packed)
    }

    /// Store `value` under `key`, replacing any value there.
    pub fn insert(&mut self, key: PaneKey, value: T)
        requires
            old(self).wf(),
        ensures
            final(self).wf(),
            final(self)@ == old(self)@.insert(key, value),
    {
        broadcast use vstd::std_specs::hash::group_hash_axioms;

        let ghost before = self@;
        let packed = pack(key);
        let _ = self.map.insert(packed, value);
        proof {
            assert forall|k: PaneKey| #![trigger pack_key(k)] pack_key(k) == packed implies k == key by {
                lemma_pack_key_injective(k, key);
            }
            assert(self@ =~= before.insert(key, value));
        }
    }

    /// Take the value stored for `key` out of the table.
    pub fn remove(&mut self, key: PaneKey) -> (r: Option<T>)
        requires
            old(self).wf(),
        ensures
            final(self).wf(),
            final(self)@ == old(self)@.remove(key),
            match r {
                Some(v) => old(self)@.contains_key(key) && v == old(self)@[key],
                None => !old(self)@.contains_key(key),
            },
    {
        broadcast use vstd::std_specs::hash::group_hash_axioms;

        let ghost before = self@;
        let packed = pack(key);
        let r = self.map.remove(&packed);
        proof {
            assert forall|k: PaneKey| #![trigger pack_key(k)] pack_key(k) == packed implies k == key by {
                lemma_pack_key_injective(k, key);
            }
            assert(self@ =~= before.remove(key));
        }
        r
    }
}

impl<T> Default for PaneTable<T> {
    fn default() -> (t: PaneTable<T>)
        ensures
            t.wf(),
            t@ == Map::<PaneKey, T>::empty(),
    {
        PaneTable::new()
    }
}

/// Why an IPC pane id could not be served.
#[derive(Clone, Copy, Debug, PartialEq, Eq, Structural)]
pub enum PaneLookupError {
    /// No pane was ever registered under the id, or it was pruned.
    UnknownPane,
    /// The id is registered but its pane has no live terminal any more.
    PaneClosed,
}

/// The registry with each pane's terminal handle (`T`) and raw-attach
/// endpoint (`A`).
pub struct IpcShared<T, A> {
    pub registry: IpcRegistry,
    pub terminals: PaneTable<T>,
    pub attach_panes: PaneTable<A>,
}

impl<T, A> Default for IpcShared<T, A> {
    fn default() -> (s: IpcShared<T, A>)
        ensures
            s.wf(),
            s.registry@.next_id == 0,
            s.registry@.ids == Map::<PaneKey, u64>::empty(),
            s.terminals@ == Map::<PaneKey, T>::empty(),
            s.attach_panes@ == Map::<PaneKey, A>::empty(),
    {
        IpcShared::new()
    }
}

/// Why raw-attach input was refused.
#[derive(Clone, Copy, Debug, PartialEq, Eq, Structural)]
pub enum AttachWriteError {
    /// The pane's input queue is at its byte cap; the bytes were dropped.
    QueueFull,
    /// The pane is gone, or the writer's attach generation is stale.
    PaneClosed,
}

/// The answer to an attach write, from what queueing the bytes did
/// (`Err(())` when the attach generation no longer holds the pane).
pub fn attach_write_result(queued: Result<QueueInputResult, ()>) -> (r: Result<(), AttachWriteError>)
    ensures
        r == match queued {
            Ok(QueueInputResult::Queued) | Ok(QueueInputResult::Deferred) => Ok(()),
            Ok(QueueInputResult::Dropped) => Err(AttachWriteError::QueueFull),
            _ => Err(AttachWriteError::PaneClosed),
        },
{
    match queued {
        Ok(QueueInputResult::Queued) | Ok(QueueInputResult::Deferred) => Ok(()),
        Ok(QueueInputResult::Dropped) => Err(AttachWriteError::QueueFull),
        Ok(QueueInputResult::Disconnected) => Err(AttachWriteError::PaneClosed),
        Err(()) => Err(AttachWriteError::PaneClosed),
    }
}

/// An attach endpoint is usable until its pane shut it down.
pub fn attach_validate(available: bool) -> (r: Result<(), PaneLookupError>)
    ensures
        r == (if available {
            Ok::<(), PaneLookupError>(())
        } else {
            Err(PaneLookupError::PaneClosed)
        }),
{
    if available {
        Ok(())
    } else {
        Err(PaneLookupError::PaneClosed)
    }
}

/// Move the value under `from` to `to` when the two differ and `from` has
/// one; otherwise the table is unchanged.
pub open spec fn moved<T>(m: Map<PaneKey, T>, from: PaneKey, to: PaneKey) -> Map<PaneKey, T> {
    if from != to && m.contains_key(from) {
        m.remove(from).insert(to, m[from])
    } else {
        m
    }
}

impl<T, A> IpcShared<T, A> {
    /// Each of the three tables is well formed.
    pub open spec fn wf(self) -> bool {
        &&& self.registry.wf()
        &&& self.terminals.wf()
        &&& self.attach_panes.wf()
    }

    /// Empty tables.
    pub fn new() -> (s: IpcShared<T, A>)
        ensures
            s.wf(),
            s.registry@.next_id == 0,
            s.registry@.ids == Map::<PaneKey, u64>::empty(),
            s.terminals@ == Map::<PaneKey, T>::empty(),
            s.attach_panes@ == Map::<PaneKey, A>::empty(),
    {
        IpcShared { registry: IpcRegistry::new(), terminals: PaneTable::new(), attach_panes: PaneTable::new() }
    }

    /// A pane moved from window key `from` to `to`: its minted id, its raw
    /// attach endpoint and its terminal handle all follow it, so a live
    /// attach and the id clients hold survive the move.
    pub fn rekey_pane(&mut self, from: PaneKey, to: PaneKey)
        requires
            old(self).wf(),
        ensures
            final(self).wf(),
            (from == to || old(self).registry@.ids.contains_key(to) || !old(self).registry@.ids.contains_key(from))
                ==> final(self).registry@.ids == old(self).registry@.ids,
            !(from == to || old(self).registry@.ids.contains_key(to) || !old(self).registry@.ids.contains_key(from))
                ==> final(self).registry@.ids == old(self).registry@.ids.remove(from).insert(
                to,
                old(self).registry@.ids[from],
            ),
            final(self).registry@.next_id == old(self).registry@.next_id,
            final(self).attach_panes@ == moved(old(self).attach_panes@, from, to),
            final(self).terminals@ == moved(old(self).terminals@, from, to),
    {
        self.registry.rekey(from, to);
        if !same_key(from, to) {
            match self.attach_panes.remove(from) {
                Some(attach) => self.attach_panes.insert(to, attach),
                None => {},
            }
            match self.terminals.remove(from) {
                Some(terminal) => self.terminals.insert(to, terminal),
                None => {},
            }
        }
    }

    /// The raw-attach endpoint of the pane registered under `ipc_id`.
    pub fn resolve_attach_pane(&self, ipc_id: u64) -> (r: Result<&A, PaneLookupError>)
        requires
            self.wf(),
        ensures
            match pane_of(self.registry@, ipc_id) {
                None => r == Err::<&A, PaneLookupError>(PaneLookupError::UnknownPane),
                Some(key) => match r {
                    Ok(a) => self.attach_panes@.contains_key(key) && *a == self.attach_panes@[key],
                    Err(e) => e == PaneLookupError::PaneClosed && !self.attach_panes@.contains_key(key),
                },
            },
    {
        let key = match self.registry.resolve(ipc_id) {
            Some(key) => key,
            None => {
                return Err(PaneLookupError::UnknownPane);
            },
        };
        match self.attach_panes.get(key) {
            Some(a) => Ok(a),
            None => Err(PaneLookupError::PaneClosed),
        }
    }

    /// The terminal handle of the pane registered under `ipc_id`, found in
    /// one pass over both tables.
    pub fn resolve_terminal(&self, ipc_id: u64) -> (r: Result<&T, PaneLookupError>)
        requires
            self.wf(),
        ensures
            match pane_of(self.registry@, ipc_id) {
                None => r == Err::<&T, PaneLookupError>(PaneLookupError::UnknownPane),
                Some(key) => match r {
                    Ok(t) => self.terminals@.contains_key(key) && *t == self.terminals@[key],
                    Err(e) => e == PaneLookupError::PaneClosed && !self.terminals@.contains_key(key),
                },
            },
    {
        let key = match self.registry.resolve(ipc_id) {
            Some(key) => key,
            None => {
                return Err(PaneLookupError::UnknownPane);
            },
        };
        match self.terminals.get(key) {
            Some(t) => Ok(t),
            None => Err(PaneLookupError::PaneClosed),
        }
    }
}

/// A pane moved to another window is still served under the id clients
/// hold: the id resolves to the new address, where the same terminal
/// handle now sits.
pub proof fn lemma_moved_pane_still_resolves<T>(m: RegistryModel, terminals: Map<PaneKey, T>, from: PaneKey, to: PaneKey)
    requires
        registry_wf(m),
        m.ids.contains_key(from),
        !m.ids.contains_key(to),
        from != to,
        terminals.contains_key(from),
    ensures
        ({
            let after = RegistryModel { next_id: m.next_id, ids: m.ids.remove(from).insert(to, m.ids[from]) };
            &&& registry_wf(after)
            &&& pane_of(after, m.ids[from]) == Some(to)
            &&& moved(terminals, from, to).contains_key(to)
            &&& moved(terminals, from, to)[to] == terminals[from]
        }),
{
    let after = RegistryModel { next_id: m.next_id, ids: m.ids.remove(from).insert(to, m.ids[from]) };
    assert forall|a: PaneKey, b: PaneKey|
        #[trigger] after.ids.contains_key(a) && #[trigger] after.ids.contains_key(b) && a != b
            implies after.ids[a] != after.ids[b] by {
        if a == to {
            assert(m.ids.contains_key(b));
        } else if b == to {
            assert(m.ids.contains_key(a));
        }
    }
    assert(registry_wf(after));
    lemma_registered_id_resolves(after, to);
}

} // verus!
