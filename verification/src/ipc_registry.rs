//! The registry of IPC-visible pane ids: minted, monotonic ids mapped to
//! and from the internal `(window id, pane id)` address of a pane.

use std::collections::HashMap;

use vstd::prelude::*;

verus! {

/// A pane's internal address: `(window id, pane id)`.
pub type PaneKey = (u64, u64);

/// Maps IPC-visible pane ids to and from pane addresses, in two `HashMap`s:
/// by packed pane address ([`pack_key`]) and by id. Ids are minted from a
/// counter, so an id is never handed out twice, even after its pane was
/// pruned.
pub struct IpcRegistry {
    next_id: u64,
    by_pane: HashMap<u128, u64>,
    by_id: HashMap<u64, PaneKey>,
    ids: Ghost<Map<PaneKey, u64>>,
}

/// The state of an [`IpcRegistry`]: the last id minted and the id of every
/// registered pane.
pub struct RegistryModel {
    pub next_id: u64,
    pub ids: Map<PaneKey, u64>,
}

impl View for IpcRegistry {
    type V = RegistryModel;

    closed spec fn view(&self) -> RegistryModel {
        RegistryModel { next_id: self.next_id, ids: self.ids@ }
    }
}

/// Distinct panes hold distinct ids, and every id is one of those minted
/// so far (`1..=next_id`).
pub open spec fn registry_wf(m: RegistryModel) -> bool {
    &&& forall|k: PaneKey| #[trigger] m.ids.contains_key(k) ==> 1 <= m.ids[k] <= m.next_id
    &&& forall|a: PaneKey, b: PaneKey|
        #[trigger] m.ids.contains_key(a) && #[trigger] m.ids.contains_key(b) && a != b
            ==> m.ids[a] != m.ids[b]
}

/// The pane registered under `id`, if any (at most one is, by
/// [`registry_wf`]).
pub open spec fn pane_of(m: RegistryModel, id: u64) -> Option<PaneKey> {
    if exists|k: PaneKey| m.ids.contains_key(k) && m.ids[k] == id {
        Some(choose|k: PaneKey| m.ids.contains_key(k) && m.ids[k] == id)
    } else {
        None
    }
}

/// The registry after minting `key`, and the id returned: a registered pane
/// keeps its id and the counter; a new one gets the id one past the last.
pub open spec fn minted(m: RegistryModel, key: PaneKey) -> (RegistryModel, u64) {
    if m.ids.contains_key(key) {
        (m, m.ids[key])
    } else {
        let id = (m.next_id + 1) as u64;
        (RegistryModel { next_id: id, ids: m.ids.insert(key, id) }, id)
    }
}

/// The registry after dropping every pane outside `live`.
pub open spec fn pruned(m: RegistryModel, live: Set<PaneKey>) -> RegistryModel {
    RegistryModel { next_id: m.next_id, ids: m.ids.restrict(live) }
}

/// The registry after moving `from`'s registration to `to`; unchanged when
/// the two are the same, `from` is unregistered or `to` is taken.
pub open spec fn rekeyed(m: RegistryModel, from: PaneKey, to: PaneKey) -> RegistryModel {
    if from == to || m.ids.contains_key(to) || !m.ids.contains_key(from) {
        m
    } else {
        RegistryModel { next_id: m.next_id, ids: m.ids.remove(from).insert(to, m.ids[from]) }
    }
}

fn same_key(a: PaneKey, b: PaneKey) -> (r: bool)
    ensures
        r == (a == b),
{
    a.0 == b.0 && a.1 == b.1
}

/// A pane address packed into one integer: window id in the high 64 bits,
/// pane id in the low 64.
pub open spec fn pack_key(k: PaneKey) -> u128 {
    (k.0 as int * 0x1_0000_0000_0000_0000 + k.1 as int) as u128
}

/// Distinct pane addresses pack to distinct integers.
pub proof fn lemma_pack_key_injective(a: PaneKey, b: PaneKey)
    ensures
        pack_key(a) == pack_key(b) ==> a == b,
{
    let (a0, a1, b0, b1) = (a.0 as int, a.1 as int, b.0 as int, b.1 as int);
    assert(a0 * 0x1_0000_0000_0000_0000 + a1 < 0x1_0000_0000_0000_0000_0000_0000_0000_0000) by (nonlinear_arith)
        requires
            0 <= a0 < 0x1_0000_0000_0000_0000,
            0 <= a1 < 0x1_0000_0000_0000_0000,
    ;
    assert(b0 * 0x1_0000_0000_0000_0000 + b1 < 0x1_0000_0000_0000_0000_0000_0000_0000_0000) by (nonlinear_arith)
        requires
            0 <= b0 < 0x1_0000_0000_0000_0000,
            0 <= b1 < 0x1_0000_0000_0000_0000,
    ;
    assert(a0 * 0x1_0000_0000_0000_0000 + a1 == b0 * 0x1_0000_0000_0000_0000 + b1 ==> a0 == b0 && a1 == b1)
        by (nonlinear_arith)
        requires
            0 <= a0 < 0x1_0000_0000_0000_0000,
            0 <= a1 < 0x1_0000_0000_0000_0000,
            0 <= b0 < 0x1_0000_0000_0000_0000,
            0 <= b1 < 0x1_0000_0000_0000_0000,
    ;
}

/// Pack a pane address.
pub fn pack(k: PaneKey) -> (r: u128)
    ensures
        r == pack_key(k),
{
    assert((k.0 as int) * 0x1_0000_0000_0000_0000 + (k.1 as int) < 0x1_0000_0000_0000_0000_0000_0000_0000_0000)
        by (nonlinear_arith)
        requires
            0 <= k.0 < 0x1_0000_0000_0000_0000,
            0 <= k.1 < 0x1_0000_0000_0000_0000,
    ;
    (k.0 as u128) * 0x1_0000_0000_0000_0000u128 + (k.1 as u128)
}

impl IpcRegistry {
    /// The two maps and the id map agree, and the id map is well formed.
    pub closed spec fn wf(self) -> bool {
        &&& registry_wf(self@)
        &&& forall|k: PaneKey|
            #![trigger self.ids@.contains_key(k)]
            #![trigger self.by_pane@.contains_key(pack_key(k))]
            self.ids@.contains_key(k) <==> self.by_pane@.contains_key(pack_key(k))
        &&& forall|k: PaneKey|
            #[trigger] self.ids@.contains_key(k) ==> self.by_pane@[pack_key(k)] == self.ids@[k]
                && self.by_id@.contains_key(self.ids@[k]) && self.by_id@[self.ids@[k]] == k
        &&& forall|id: u64|
            #[trigger] self.by_id@.contains_key(id) ==> self.ids@.contains_key(self.by_id@[id])
                && self.ids@[self.by_id@[id]] == id
    }

    /// An empty registry.
    pub fn new() -> (r: IpcRegistry)
        ensures
            r@.next_id == 0,
            r@.ids == Map::<PaneKey, u64>::empty(),
            registry_wf(r@),
            r.wf(),
    {
        broadcast use vstd::std_specs::hash::group_hash_axioms;

        IpcRegistry { next_id: 0, by_pane: HashMap::new(), by_id: HashMap::new(), ids: Ghost(Map::empty()) }
    }

    /// The id registered for `key`, if any.
    pub fn id_of(&self, key: PaneKey) -> (r: Option<u64>)
        requires
            self.wf(),
        ensures
            r == (if self@.ids.contains_key(key) {
                Some(self@.ids[key])
            } else {
                None::<u64>
            }),
    {
        broadcast use vstd::std_specs::hash::group_hash_axioms;

        let packed = pack(key);
        match self.by_pane.get(&packed) {
            Some(id) => Some(*id),
            None => None,
        }
    }

    /// Returns the existing id for `(window_id, pane_id)`, minting a fresh
    /// one (one past the last minted) on first sight.
    pub fn mint(&mut self, window_id: u64, pane_id: u64) -> (id: u64)
        requires
            old(self).wf(),
            !old(self)@.ids.contains_key((window_id, pane_id)) ==> old(self)@.next_id < u64::MAX,
        ensures
            final(self).wf(),
            registry_wf(final(self)@),
            (final(self)@, id) == minted(old(self)@, (window_id, pane_id)),
            old(self)@.ids.contains_key((window_id, pane_id)) ==> id == old(self)@.ids[(
                window_id,
                pane_id,
            )] && final(self)@.ids == old(self)@.ids && final(self)@.next_id == old(self)@.next_id,
            !old(self)@.ids.contains_key((window_id, pane_id)) ==> id == old(self)@.next_id + 1
                && final(self)@.next_id == id && final(self)@.ids == old(self)@.ids.insert(
                (window_id, pane_id),
                id,
            ),
    {
        broadcast use vstd::std_specs::hash::group_hash_axioms;

        let key = (window_id, pane_id);
        match self.id_of(key) {
            Some(id) => {
                return id;
            },
            None => {},
        }
        let id = self.next_id + 1;
        let ghost old_ids = self.ids@;
        let ghost old_by_id = self.by_id@;
        proof {
            assert forall|k: PaneKey| #[trigger] old_ids.contains_key(k) implies old_ids[k] != id by {}
            assert(!old_by_id.contains_key(id)) by {
                if old_by_id.contains_key(id) {
                    assert(old_ids.contains_key(old_by_id[id]));
                }
            }
        }
        let packed = pack(key);
        self.next_id = id;
        self.by_pane.insert(packed, id);
        self.by_id.insert(id, key);
        self.ids = Ghost(old_ids.insert(key, id));
        proof {
            assert forall|k: PaneKey|
                #![trigger self.ids@.contains_key(k)]
                #![trigger self.by_pane@.contains_key(pack_key(k))]
                self.ids@.contains_key(k) <==> self.by_pane@.contains_key(pack_key(k)) by {
                lemma_pack_key_injective(k, key);
            }
            assert forall|k: PaneKey| #[trigger] self.ids@.contains_key(k) implies self.by_pane@[pack_key(k)]
                == self.ids@[k] && self.by_id@.contains_key(self.ids@[k]) && self.by_id@[self.ids@[k]]
                == k by {
                lemma_pack_key_injective(k, key);
            }
        }
        id
    }

    /// The pane registered under `ipc_id`, if any.
    pub fn resolve(&self, ipc_id: u64) -> (r: Option<PaneKey>)
        requires
            self.wf(),
        ensures
            r == pane_of(self@, ipc_id),
    {
        broadcast use vstd::std_specs::hash::group_hash_axioms;

        match self.by_id.get(&ipc_id) {
            Some(key) => {
                let key = *key;
                proof {
                    assert(self.by_id@.contains_key(ipc_id) && self.by_id@[ipc_id] == key);
                    assert(self.ids@.contains_key(key) && self.ids@[key] == ipc_id);
                    assert(self@.ids.contains_key(key) && self@.ids[key] == ipc_id);
                    assert(exists|k: PaneKey| self@.ids.contains_key(k) && self@.ids[k] == ipc_id);
                    let c = choose|k: PaneKey| self.ids@.contains_key(k) && self.ids@[k] == ipc_id;
                    assert(self.ids@.contains_key(key) && self.ids@[key] == ipc_id);
                    assert(c == key);
                }
                Some(key)
            },
            None => {
                proof {
                    assert(!self.by_id@.contains_key(ipc_id));
                    assert forall|k: PaneKey| self.ids@.contains_key(k) implies self.ids@[k] != ipc_id by {
                        assert(self.by_id@.contains_key(self.ids@[k]));
                    }
                }
                None
            },
        }
    }

    /// Removes every registration whose pane is absent from `live_keys`.
    pub fn prune(&mut self, live_keys: &[PaneKey])
        requires
            old(self).wf(),
        ensures
            final(self).wf(),
            final(self)@.next_id == old(self)@.next_id,
            final(self)@.ids == old(self)@.ids.restrict(live_keys@.to_set()),
            registry_wf(final(self)@),
            final(self)@ == pruned(old(self)@, live_keys@.to_set()),
    {
        broadcast use vstd::std_specs::hash::group_hash_axioms;

        let ghost old_ids = self.ids@;
        let mut by_pane: HashMap<u128, u64> = HashMap::new();
        let mut by_id: HashMap<u64, PaneKey> = HashMap::new();
        let ghost mut ids: Map<PaneKey, u64> = Map::empty();
        let mut i: usize = 0;
        while i < live_keys.len()
            invariant
                self.wf(),
                self.ids@ == old_ids,
                i <= live_keys@.len(),
                ids == old_ids.restrict(live_keys@.subrange(0, i as int).to_set()),
                forall|k: PaneKey|
                    #![trigger ids.contains_key(k)]
                    #![trigger by_pane@.contains_key(pack_key(k))]
                    ids.contains_key(k) <==> by_pane@.contains_key(pack_key(k)),
                forall|k: PaneKey|
                    #[trigger] ids.contains_key(k) ==> by_pane@[pack_key(k)] == ids[k] && by_id@.contains_key(
                        ids[k],
                    ) && by_id@[ids[k]] == k,
                forall|id: u64|
                    #[trigger] by_id@.contains_key(id) ==> ids.contains_key(by_id@[id]) && ids[by_id@[id]]
                        == id,
            decreases live_keys@.len() - i,
        {
            let key = live_keys[i];
            let ghost before = ids;
            let ghost sub = live_keys@.subrange(0, i + 1);
            assert(sub =~= live_keys@.subrange(0, i as int).push(key));
            assert(sub.to_set() =~= live_keys@.subrange(0, i as int).to_set().insert(key)) by {
                assert forall|k: PaneKey| sub.to_set().contains(k) <==> live_keys@.subrange(
                    0,
                    i as int,
                ).to_set().insert(key).contains(k) by {
                    if sub.contains(k) && k != key {
                        let w = choose|w: int| 0 <= w < sub.len() && sub[w] == k;
                        assert(live_keys@.subrange(0, i as int)[w] == k);
                    }
                    if live_keys@.subrange(0, i as int).contains(k) {
                        let w = choose|w: int| 0 <= w < i && live_keys@.subrange(0, i as int)[w] == k;
                        assert(sub[w] == k);
                    }
                    if k == key {
                        assert(sub[i as int] == key);
                    }
                }
            }
            match self.id_of(key) {
                Some(id) => {
                    let packed = pack(key);
                    proof {
                        if by_id@.contains_key(id) {
                            assert(ids.contains_key(by_id@[id]));
                            assert(old_ids[by_id@[id]] == id);
                            assert(by_id@[id] == key);
                        }
                    }
                    by_pane.insert(packed, id);
                    by_id.insert(id, key);
                    proof {
                        ids = before.insert(key, id);
                        assert forall|k: PaneKey|
                            #![trigger ids.contains_key(k)]
                            #![trigger by_pane@.contains_key(pack_key(k))]
                            ids.contains_key(k) <==> by_pane@.contains_key(pack_key(k)) by {
                            lemma_pack_key_injective(k, key);
                        }
                        assert forall|k: PaneKey| #[trigger] ids.contains_key(k) implies by_pane@[pack_key(k)]
                            == ids[k] && by_id@.contains_key(ids[k]) && by_id@[ids[k]] == k by {
                            lemma_pack_key_injective(k, key);
                            if k != key && before.contains_key(k) {
                                assert(old_ids[k] != old_ids[key]);
                            }
                        }
                        assert forall|x: u64| #[trigger] by_id@.contains_key(x) implies ids.contains_key(by_id@[x])
                            && ids[by_id@[x]] == x by {
                            if x != id {
                                assert(before.contains_key(by_id@[x]));
                            }
                        }
                        assert(ids =~= old_ids.restrict(sub.to_set()));
                    }
                },
                None => {
                    proof {
                        assert(ids =~= old_ids.restrict(sub.to_set()));
                    }
                },
            }
            i = i + 1;
        }
        assert(live_keys@.subrange(0, live_keys@.len() as int) =~= live_keys@);
        let ghost old_model = self@;
        assert(registry_wf(old_model));
        self.by_pane = by_pane;
        self.by_id = by_id;
        self.ids = Ghost(ids);
        proof {
            assert forall|a: PaneKey, b: PaneKey|
                #[trigger] self.ids@.contains_key(a) && #[trigger] self.ids@.contains_key(b) && a != b
                    implies self.ids@[a] != self.ids@[b] by {
                assert(old_ids.contains_key(a) && old_ids.contains_key(b));
            }
            assert forall|k: PaneKey| #[trigger] self.ids@.contains_key(k) implies 1 <= self.ids@[k]
                <= self.next_id by {
                assert(old_model.ids.contains_key(k));
            }
        }
    }

    /// Move `from`'s registration to `to`, keeping its minted id. A no-op
    /// when `from` has no registration, `to` is already registered, or the
    /// two are the same pane.
    pub fn rekey(&mut self, from: PaneKey, to: PaneKey)
        requires
            old(self).wf(),
        ensures
            final(self).wf(),
            final(self)@.next_id == old(self)@.next_id,
            registry_wf(final(self)@),
            (from == to || old(self)@.ids.contains_key(to) || !old(self)@.ids.contains_key(from))
                ==> final(self)@.ids == old(self)@.ids,
            !(from == to || old(self)@.ids.contains_key(to) || !old(self)@.ids.contains_key(from))
                ==> final(self)@.ids == old(self)@.ids.remove(from).insert(
                to,
                old(self)@.ids[from],
            ),
            final(self)@ == rekeyed(old(self)@, from, to),
    {
        broadcast use vstd::std_specs::hash::group_hash_axioms;

        if same_key(from, to) {
            return;
        }
        let to_packed = pack(to);
        if self.by_pane.contains_key(&to_packed) {
            return;
        }
        let from_packed = pack(from);
        let ghost old_ids = self.ids@;
        let ghost old_model = self@;
        let ghost old_by_pane = self.by_pane@;
        let ghost old_by_id = self.by_id@;
        assert(registry_wf(old_model));
        assert(forall|x: u64| #[trigger] old_by_id.contains_key(x) ==> old_ids.contains_key(old_by_id[x])
            && old_ids[old_by_id[x]] == x);
        assert(forall|k: PaneKey| #[trigger] old_ids.contains_key(k) ==> old_by_pane[pack_key(k)] == old_ids[k]
            && old_by_id.contains_key(old_ids[k]) && old_by_id[old_ids[k]] == k);
        assert(forall|k: PaneKey|
            #![trigger old_ids.contains_key(k)]
            #![trigger old_by_pane.contains_key(pack_key(k))]
            old_ids.contains_key(k) <==> old_by_pane.contains_key(pack_key(k)));
        let id = match self.by_pane.remove(&from_packed) {
            Some(id) => id,
            None => {
                assert(self.by_pane@ =~= old_by_pane);
                return;
            },
        };
        proof {
            assert(old_ids.contains_key(from));
            assert(old_ids[from] == id);
            assert(!old_ids.contains_key(to));
        }
        self.by_id.insert(id, to);
        self.by_pane.insert(to_packed, id);
        self.ids = Ghost(old_ids.remove(from).insert(to, id));
        proof {
            assert forall|k: PaneKey|
                #![trigger self.ids@.contains_key(k)]
                #![trigger self.by_pane@.contains_key(pack_key(k))]
                self.ids@.contains_key(k) <==> self.by_pane@.contains_key(pack_key(k)) by {
                lemma_pack_key_injective(k, to);
                lemma_pack_key_injective(k, from);
            }
            assert forall|k: PaneKey| #[trigger] self.ids@.contains_key(k) implies self.by_pane@[pack_key(k)]
                == self.ids@[k] && self.by_id@.contains_key(self.ids@[k]) && self.by_id@[self.ids@[k]] == k by {
                lemma_pack_key_injective(k, to);
                lemma_pack_key_injective(k, from);
                if k != to {
                    assert(old_ids[k] != old_ids[from]);
                }
            }
            assert forall|x: u64| #[trigger] self.by_id@.contains_key(x) implies self.ids@.contains_key(
                self.by_id@[x],
            ) && self.ids@[self.by_id@[x]] == x by {
                if x != id {
                    assert(old_ids.contains_key(self.by_id@[x]));
                    assert(self.by_id@[x] != from);
                }
            }
            assert forall|a: PaneKey, b: PaneKey|
                #[trigger] self.ids@.contains_key(a) && #[trigger] self.ids@.contains_key(b) && a != b
                    implies self.ids@[a] != self.ids@[b] by {
                if a == to {
                    assert(old_ids.contains_key(b));
                } else if b == to {
                    assert(old_ids.contains_key(a));
                }
            }
            assert forall|k: PaneKey| #[trigger] self.ids@.contains_key(k) implies 1 <= self.ids@[k]
                <= self.next_id by {
                if k == to {
                    assert(old_model.ids.contains_key(from));
                } else {
                    assert(old_model.ids.contains_key(k));
                }
            }
        }
    }
}

impl Default for IpcRegistry {
    fn default() -> (r: IpcRegistry)
        ensures
            r@.next_id == 0,
            r@.ids == Map::<PaneKey, u64>::empty(),
            r.wf(),
    {
        IpcRegistry::new()
    }
}

/// Minting is idempotent and resolves both ways: minting a pane that is
/// registered returns its id unchanged, and a registered pane's id
/// resolves back to that pane.
pub proof fn lemma_registered_id_resolves(m: RegistryModel, key: PaneKey)
    requires
        registry_wf(m),
        m.ids.contains_key(key),
    ensures
        pane_of(m, m.ids[key]) == Some(key),
{
    let c = choose|k: PaneKey| m.ids.contains_key(k) && m.ids[k] == m.ids[key];
    assert(m.ids.contains_key(c) && m.ids[c] == m.ids[key]);
}

/// A pruned pane's id is never handed out again: whatever is minted later
/// is above every id minted before.
pub proof fn lemma_fresh_id_never_reissued(m: RegistryModel, key: PaneKey, old_id: u64)
    requires
        registry_wf(m),
        1 <= old_id <= m.next_id,
        !m.ids.contains_key(key),
        m.next_id < u64::MAX,
    ensures
        (m.next_id + 1) as u64 != old_id,
        registry_wf(
            RegistryModel {
                next_id: (m.next_id + 1) as u64,
                ids: m.ids.insert(key, (m.next_id + 1) as u64),
            },
        ),
{
}

impl IpcRegistry {
    /// A well-formed registry's model is well formed: distinct panes hold
    /// distinct ids, all among those minted so far.
    pub proof fn lemma_wf_model(&self)
        requires
            self.wf(),
        ensures
            registry_wf(self@),
    {
    }

    /// [`lemma_mint_law`] for this registry: the id `mint` returns resolves
    /// back to the pane, minting again returns it unchanged, no other pane
    /// holds it, and a fresh id lies above every id minted before.
    pub proof fn lemma_mint_resolves(&self, window_id: u64, pane_id: u64)
        requires
            self.wf(),
            !self@.ids.contains_key((window_id, pane_id)) ==> self@.next_id < u64::MAX,
        ensures
            ({
                let (after, id) = minted(self@, (window_id, pane_id));
                &&& registry_wf(after)
                &&& pane_of(after, id) == Some((window_id, pane_id))
                &&& minted(after, (window_id, pane_id)) == (after, id)
                &&& forall|k: PaneKey|
                    #[trigger] after.ids.contains_key(k) && k != (window_id, pane_id) ==> after.ids[k] != id
                &&& !self@.ids.contains_key((window_id, pane_id)) ==> id > self@.next_id
            }),
    {
        lemma_mint_law(self@, (window_id, pane_id));
    }

    /// [`lemma_prune_law`] for this registry and a pane registered in it.
    pub proof fn lemma_prune_keeps_live(&self, live: Set<PaneKey>, key: PaneKey)
        requires
            self.wf(),
            self@.ids.contains_key(key),
        ensures
            registry_wf(pruned(self@, live)),
            live.contains(key) ==> pane_of(pruned(self@, live), self@.ids[key]) == Some(key) && minted(
                pruned(self@, live),
                key,
            ).1 == self@.ids[key],
            !live.contains(key) ==> pane_of(pruned(self@, live), self@.ids[key]) is None && (self@.next_id
                < u64::MAX ==> minted(pruned(self@, live), key).1 != self@.ids[key]),
    {
        lemma_prune_law(self@, live, key);
    }
}

/// Minting resolves, is idempotent and never reuses an id: the minted id
/// resolves to the pane, minting the pane again returns it unchanged, no
/// other pane holds it, and a fresh id lies above every id minted before.
pub proof fn lemma_mint_law(m: RegistryModel, key: PaneKey)
    requires
        registry_wf(m),
        !m.ids.contains_key(key) ==> m.next_id < u64::MAX,
    ensures
        ({
            let (after, id) = minted(m, key);
            &&& registry_wf(after)
            &&& pane_of(after, id) == Some(key)
            &&& minted(after, key) == (after, id)
            &&& forall|k: PaneKey| #[trigger] after.ids.contains_key(k) && k != key ==> after.ids[k] != id
            &&& !m.ids.contains_key(key) ==> id > m.next_id
        }),
{
    let (after, id) = minted(m, key);
    if !m.ids.contains_key(key) {
        assert forall|a: PaneKey, b: PaneKey|
            #[trigger] after.ids.contains_key(a) && #[trigger] after.ids.contains_key(b) && a != b
                implies after.ids[a] != after.ids[b] by {
            if a == key {
                assert(m.ids.contains_key(b));
            } else if b == key {
                assert(m.ids.contains_key(a));
            }
        }
    }
    lemma_registered_id_resolves(after, key);
}

/// Pruning keeps every live pane under its id and drops the rest: a dropped
/// pane's id resolves to nothing, and minting that pane again gives a new
/// id, never the old one.
pub proof fn lemma_prune_law(m: RegistryModel, live: Set<PaneKey>, key: PaneKey)
    requires
        registry_wf(m),
        m.ids.contains_key(key),
    ensures
        registry_wf(pruned(m, live)),
        live.contains(key) ==> pane_of(pruned(m, live), m.ids[key]) == Some(key) && minted(
            pruned(m, live),
            key,
        ).1 == m.ids[key],
        !live.contains(key) ==> pane_of(pruned(m, live), m.ids[key]) is None && (m.next_id < u64::MAX
            ==> minted(pruned(m, live), key).1 != m.ids[key]),
{
    let p = pruned(m, live);
    if live.contains(key) {
        lemma_registered_id_resolves(p, key);
    } else {
        assert forall|k: PaneKey| p.ids.contains_key(k) implies p.ids[k] != m.ids[key] by {
            assert(m.ids.contains_key(k) && k != key);
        }
    }
}

/// Rekeying a registered pane onto a free key moves its id: the id now
/// resolves to the new key, the old key is gone, minting the new key gives
/// the same id back, and every other registration is untouched.
pub proof fn lemma_rekey_law(m: RegistryModel, from: PaneKey, to: PaneKey)
    requires
        registry_wf(m),
        m.ids.contains_key(from),
        !m.ids.contains_key(to),
        from != to,
    ensures
        registry_wf(rekeyed(m, from, to)),
        pane_of(rekeyed(m, from, to), m.ids[from]) == Some(to),
        !rekeyed(m, from, to).ids.contains_key(from),
        minted(rekeyed(m, from, to), to).1 == m.ids[from],
        rekeyed(m, from, to).next_id == m.next_id,
        forall|k: PaneKey|
            k != from && k != to ==> (#[trigger] rekeyed(m, from, to).ids.contains_key(k) == m.ids.contains_key(k)
                && (m.ids.contains_key(k) ==> rekeyed(m, from, to).ids[k] == m.ids[k])),
{
    let after = rekeyed(m, from, to);
    assert forall|a: PaneKey, b: PaneKey|
        #[trigger] after.ids.contains_key(a) && #[trigger] after.ids.contains_key(b) && a != b
            implies after.ids[a] != after.ids[b] by {
        if a == to {
            assert(m.ids.contains_key(b));
        } else if b == to {
            assert(m.ids.contains_key(a));
        }
    }
    lemma_registered_id_resolves(after, to);
}

} // verus!
