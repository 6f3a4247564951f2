//! Entities waiting for their asset to finish loading.
//!
//! When an entity's handle changes, the entity queues up under the asset's
//! identity; once the host reports the asset loaded, every entity queued
//! under it is notified in one asset-ready event and the queue entry is
//! dropped.

use vstd::prelude::*;

use crate::asset_registry::EntityAssetRegistry;
use crate::keyed::KeyedList;
use crate::vecs::{copy_vec_u64, distinct};

verus! {

/// Notification that an asset is loaded (or was modified) and the entities
/// depending on it may (re)build their state.
pub struct EntityAssetReadyEvent {
    pub entities: Vec<u64>,
    pub asset: u64,
}

/// The assets of `keys`, in order, that `loaded` names.
pub open spec fn drained_keys(keys: Seq<u64>, loaded: Seq<u64>) -> Seq<u64>
    decreases keys.len(),
{
    if keys.len() == 0 {
        Seq::empty()
    } else {
        let rest = drained_keys(keys.drop_first(), loaded);
        if loaded.contains(keys[0]) {
            seq![keys[0]] + rest
        } else {
            rest
        }
    }
}

/// The assets of `keys`, in order, that `loaded` does not name.
pub open spec fn kept_keys(keys: Seq<u64>, loaded: Seq<u64>) -> Seq<u64>
    decreases keys.len(),
{
    if keys.len() == 0 {
        Seq::empty()
    } else {
        let rest = kept_keys(keys.drop_first(), loaded);
        if loaded.contains(keys[0]) {
            rest
        } else {
            seq![keys[0]] + rest
        }
    }
}

/// Whatever the drain hands out was queued.
proof fn lemma_drained_keys_members(keys: Seq<u64>, loaded: Seq<u64>)
    ensures
        forall|x: u64| #[trigger] drained_keys(keys, loaded).contains(x) ==> keys.contains(x),
    decreases keys.len(),
{
    if keys.len() == 0 {
    } else {
        lemma_drained_keys_members(keys.drop_first(), loaded);
        let rest = drained_keys(keys.drop_first(), loaded);
        assert forall|x: u64| #[trigger] drained_keys(keys, loaded).contains(x)
            implies keys.contains(x) by {
            let d = drained_keys(keys, loaded);
            let m = choose|m: int| 0 <= m < d.len() && d[m] == x;
            if loaded.contains(keys[0]) && m == 0 {
                assert(keys[0] == x);
            } else {
                let mr = if loaded.contains(keys[0]) {
                    m - 1
                } else {
                    m
                };
                assert(rest[mr] == x);
                assert(rest.contains(x));
                let k = choose|k: int|
                    0 <= k < keys.drop_first().len() && keys.drop_first()[k] == x;
                assert(keys[k + 1] == x);
            }
        }
    }
}

/// A drain of a queue without repeated assets repeats none.
pub proof fn lemma_drained_keys_distinct(keys: Seq<u64>, loaded: Seq<u64>)
    requires
        distinct(keys),
    ensures
        distinct(drained_keys(keys, loaded)),
    decreases keys.len(),
{
    if keys.len() == 0 {
    } else {
        assert forall|a: int, b: int|
            0 <= a < b < keys.drop_first().len() implies keys.drop_first()[a]
            != keys.drop_first()[b] by {
            assert(keys[a + 1] != keys[b + 1]);
        }
        lemma_drained_keys_distinct(keys.drop_first(), loaded);
        lemma_drained_keys_members(keys.drop_first(), loaded);
        let rest = drained_keys(keys.drop_first(), loaded);
        if loaded.contains(keys[0]) {
            let d = drained_keys(keys, loaded);
            assert forall|a: int, b: int| 0 <= a < b < d.len() implies d[a] != d[b] by {
                if a == 0 {
                    assert(d[b] == rest[b - 1]);
                    assert(rest.contains(rest[b - 1]));
                    assert(keys.drop_first().contains(d[b]));
                    let k = choose|k: int|
                        0 <= k < keys.drop_first().len() && keys.drop_first()[k] == d[b];
                    assert(keys[k + 1] == d[b]);
                    assert(keys[0] != keys[k + 1]);
                } else {
                    assert(d[a] == rest[a - 1] && d[b] == rest[b - 1]);
                }
            }
        }
    }
}

/// Per asset, the entities whose handles point at it and which have not yet
/// been told that it is ready.
pub struct WaitingAssets {
    waiting: KeyedList<Vec<u64>>,
}

impl WaitingAssets {
    /// Asset to the entities waiting on it, in arrival order.
    pub closed spec fn view_map(self) -> Map<u64, Seq<u64>> {
        self.waiting@
    }

    /// The queued assets, oldest first.
    pub closed spec fn keys_view(self) -> Seq<u64> {
        self.waiting.keys_view()
    }

    pub closed spec fn wf(self) -> bool {
        self.waiting.wf()
    }

    pub fn new() -> (r: WaitingAssets)
        ensures
            r.wf(),
            r.view_map() == Map::<u64, Seq<u64>>::empty(),
            r.keys_view() == Seq::<u64>::empty(),
    {
        WaitingAssets { waiting: KeyedList::new() }
    }

    /// Queues `entity` under `asset`, behind any entities already waiting
    /// for it.
    pub fn enqueue(&mut self, entity: u64, asset: u64)
        requires
            old(self).wf(),
        ensures
            final(self).wf(),
            final(self).view_map() == old(self).view_map().insert(
                asset,
                if old(self).view_map().dom().contains(asset) {
                    old(self).view_map()[asset].push(entity)
                } else {
                    seq![entity]
                },
            ),
            final(self).keys_view() == if old(self).view_map().dom().contains(asset) {
                old(self).keys_view()
            } else {
                old(self).keys_view().push(asset)
            },
    {
        let mut l = match self.waiting.get(asset) {
            Some(l) => copy_vec_u64(l),
            None => Vec::new(),
        };
        l.push(entity);
        proof {
            if !old(self).view_map().dom().contains(asset) {
                assert(l@ =~= seq![entity]);
            }
        }
        self.waiting.put(asset, l);
        proof {
            if !old(self).view_map().dom().contains(asset) {
                assert(self.keys_view() =~= old(self).keys_view().push(asset));
            }
        }
    }

    /// Hands out one ready event per queued asset that `loaded` names, in
    /// queue order, each carrying the entities that were waiting; those
    /// queue entries are dropped, the others stay in order.
    pub fn drain_ready(&mut self, loaded: &Vec<u64>) -> (r: Vec<EntityAssetReadyEvent>)
        requires
            old(self).wf(),
        ensures
            final(self).wf(),
            r@.map_values(|ev: EntityAssetReadyEvent| ev.asset) == drained_keys(
                old(self).keys_view(),
                loaded@,
            ),
            forall|k1: int, k2: int|
                0 <= k1 < k2 < r@.len() ==> (#[trigger] r@[k1]).asset != (#[trigger] r@[k2]).asset,
            forall|k: int|
                0 <= k < r@.len() ==> old(self).view_map().dom().contains((#[trigger] r@[k]).asset)
                    && r@[k].entities@ == old(self).view_map()[r@[k].asset],
            final(self).keys_view() == kept_keys(old(self).keys_view(), loaded@),
            forall|a: u64|
                #[trigger] final(self).view_map().dom().contains(a) <==> (old(
                    self,
                ).view_map().dom().contains(a) && !loaded@.contains(a)),
            forall|a: u64|
                final(self).view_map().dom().contains(a) ==> #[trigger] final(self).view_map()[a]
                    == old(self).view_map()[a],
    {
        let ghost keys = self.keys_view();
        proof {
            self.waiting.lemma_wf_keys_distinct();
        }
        let mut r: Vec<EntityAssetReadyEvent> = Vec::new();
        let mut kept: KeyedList<Vec<u64>> = KeyedList::new();
        let n = self.waiting.len();
        proof {
            assert(keys.skip(0) =~= keys);
            assert(Seq::<EntityAssetReadyEvent>::empty().map_values(
                |ev: EntityAssetReadyEvent| ev.asset,
            ) + drained_keys(keys, loaded@) =~= drained_keys(keys, loaded@));
            assert(Seq::<u64>::empty() + kept_keys(keys, loaded@) =~= kept_keys(keys, loaded@));
        }
        let mut i: usize = 0;
        while i < n
            invariant
                self == old(self),
                self.wf(),
                n == keys.len(),
                keys == self.keys_view(),
                i <= n,
                kept.wf(),
                r@.map_values(|ev: EntityAssetReadyEvent| ev.asset) + drained_keys(
                    keys.skip(i as int),
                    loaded@,
                ) == drained_keys(keys, loaded@),
                kept.keys_view() + kept_keys(keys.skip(i as int), loaded@) == kept_keys(
                    keys,
                    loaded@,
                ),
                forall|k: int|
                    0 <= k < r@.len() ==> self.view_map().dom().contains(
                        (#[trigger] r@[k]).asset,
                    ) && r@[k].entities@ == self.view_map()[r@[k].asset],
                forall|a: u64|
                    #[trigger] kept@.dom().contains(a) <==> (exists|m: int|
                        0 <= m < i && keys[m] == a && !loaded@.contains(a)),
                forall|a: u64|
                    kept@.dom().contains(a) ==> #[trigger] kept@[a] == self.view_map()[a],
            decreases n - i,
        {
            let ghost pre_r = r@;
            let ghost pre_kept_keys = kept.keys_view();
            proof {
                self.waiting.lemma_wf_keys_distinct();
            }
            let a = self.waiting.key_at(i);
            let l = copy_vec_u64(self.waiting.value_at(i));
            proof {
                assert(keys.skip(i as int)[0] == keys[i as int]);
                assert(keys.skip(i as int).drop_first() =~= keys.skip(i as int + 1));
            }
            if crate::physics::vec_contains_u64(loaded, a) {
                r.push(EntityAssetReadyEvent { entities: l, asset: a });
                proof {
                    let f = |ev: EntityAssetReadyEvent| ev.asset;
                    assert(r@.map_values(f) =~= pre_r.map_values(f).push(a));
                    assert(drained_keys(keys.skip(i as int), loaded@) == seq![a] + drained_keys(
                        keys.skip(i as int + 1),
                        loaded@,
                    ));
                    assert(r@.map_values(f) + drained_keys(keys.skip(i as int + 1), loaded@)
                        =~= pre_r.map_values(f) + drained_keys(keys.skip(i as int), loaded@));
                    assert(kept_keys(keys.skip(i as int), loaded@) == kept_keys(
                        keys.skip(i as int + 1),
                        loaded@,
                    ));
                }
            } else {
                proof {
                    assert(!kept@.dom().contains(a)) by {
                        if kept@.dom().contains(a) {
                            let m = choose|m: int|
                                0 <= m < i && keys[m] == a && !loaded@.contains(a);
                            assert(keys[m] == keys[i as int]);
                        }
                    }
                }
                kept.put(a, l);
                proof {
                    assert(kept.keys_view() =~= pre_kept_keys.push(a));
                    assert(kept_keys(keys.skip(i as int), loaded@) == seq![a] + kept_keys(
                        keys.skip(i as int + 1),
                        loaded@,
                    ));
                    assert(kept.keys_view() + kept_keys(keys.skip(i as int + 1), loaded@)
                        =~= pre_kept_keys + kept_keys(keys.skip(i as int), loaded@));
                    assert(drained_keys(keys.skip(i as int), loaded@) == drained_keys(
                        keys.skip(i as int + 1),
                        loaded@,
                    ));
                    assert forall|x: u64| #[trigger] kept@.dom().contains(x) implies (exists|
                        m: int,
                    |
                        0 <= m < i + 1 && keys[m] == x && !loaded@.contains(x)) by {
                        if x == a {
                            assert(keys[i as int] == x && !loaded@.contains(x));
                        } else {
                            let m = choose|m: int|
                                0 <= m < i && keys[m] == x && !loaded@.contains(x);
                            assert(0 <= m < i + 1 && keys[m] == x && !loaded@.contains(x));
                        }
                    }
                    assert forall|x: u64|
                        (exists|m: int| 0 <= m < i + 1 && keys[m] == x && !loaded@.contains(x))
                        implies #[trigger] kept@.dom().contains(x) by {}
                }
            }
            i += 1;
        }
        proof {
            assert(keys.skip(n as int) =~= Seq::<u64>::empty());
            assert(r@.map_values(|ev: EntityAssetReadyEvent| ev.asset) + drained_keys(
                keys.skip(n as int),
                loaded@,
            ) =~= r@.map_values(|ev: EntityAssetReadyEvent| ev.asset));
            assert(kept.keys_view() + kept_keys(keys.skip(n as int), loaded@) =~= kept.keys_view());
        }
        self.waiting = kept;
        proof {
            assert forall|a: u64| #[trigger] self.view_map().dom().contains(a) <==> (old(
                self,
            ).view_map().dom().contains(a) && !loaded@.contains(a)) by {
                if self.view_map().dom().contains(a) {
                    let m = choose|m: int| 0 <= m < n && keys[m] == a && !loaded@.contains(a);
                    assert(old(self).keys_view()[m] == a);
                    old(self).lemma_keys_cover(a, m);
                }
                if old(self).view_map().dom().contains(a) && !loaded@.contains(a) {
                    let m = old(self).lemma_dom_has_key(a);
                    assert(0 <= m < n && keys[m] == a && !loaded@.contains(a));
                }
            }
            old(self).lemma_keys_distinct();
            lemma_drained_keys_distinct(keys, loaded@);
            let f = |ev: EntityAssetReadyEvent| ev.asset;
            assert forall|k1: int, k2: int| 0 <= k1 < k2 < r@.len() implies (#[trigger] r@[k1]).asset
                != (#[trigger] r@[k2]).asset by {
                assert(r@.map_values(f)[k1] == f(r@[k1]));
                assert(r@.map_values(f)[k2] == f(r@[k2]));
            }
        }
        r
    }

    /// No asset queues twice.
    pub proof fn lemma_keys_distinct(self)
        requires
            self.wf(),
        ensures
            distinct(self.keys_view()),
    {
        self.waiting.lemma_wf_keys_distinct();
    }

    /// A queued asset's key stands at some position of `keys_view`.
    proof fn lemma_dom_has_key(self, a: u64) -> (m: int)
        requires
            self.wf(),
            self.view_map().dom().contains(a),
        ensures
            0 <= m < self.keys_view().len(),
            self.keys_view()[m] == a,
    {
        self.waiting.lemma_dom_is_keys();
        let m = choose|m: int|
            0 <= m < self.keys_view().len() && self.keys_view()[m] == a;
        m
    }

    /// A key at some position of `keys_view` is in the queue's domain.
    proof fn lemma_keys_cover(self, a: u64, m: int)
        requires
            self.wf(),
            0 <= m < self.keys_view().len(),
            self.keys_view()[m] == a,
        ensures
            self.view_map().dom().contains(a),
    {
        self.waiting.lemma_dom_is_keys();
        assert(self.keys_view().contains(a));
    }
}

/// The notification sent when an asset is modified in place (hot reload):
/// every entity registered on it is told to rebuild, and an unused asset
/// notifies nobody.
pub fn on_asset_modified(registry: &EntityAssetRegistry, asset: u64) -> (ev: EntityAssetReadyEvent)
    requires
        registry.wf(),
    ensures
        ev.asset == asset,
        ev.entities@ == if registry.handle_map().dom().contains(asset) {
            registry.handle_map()[asset]
        } else {
            Seq::<u64>::empty()
        },
{
    EntityAssetReadyEvent { entities: registry.entities_of(asset), asset }
}

} // verus!
