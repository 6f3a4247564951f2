//! Which entities depend on which asset.
//!
//! An entity declares the asset it uses through a handle; this registry keeps,
//! per asset, the list of entities using it, together with the reverse lookup
//! from an entity to its asset. When an entity's handle changes, the entity
//! leaves its old asset's list — and an emptied list is dropped altogether, so
//! that the host's reference counting can release the asset. When an entity
//! leaves the world, it leaves its list too (the reverse lookup keeps the
//! stale entry, as a later handle change overwrites it).

use vstd::prelude::*;

use crate::keyed::KeyedList;
use crate::vecs::{copy_vec_u64, distinct, lemma_remove_distinct, position_u64};

verus! {

/// Tracks, for every asset, the entities whose state is built from it.
pub struct EntityAssetRegistry {
    handle_entities: KeyedList<Vec<u64>>,
    entity_handles: KeyedList<u64>,
}

impl EntityAssetRegistry {
    /// Asset to the entities using it, in the order they arrived.
    pub closed spec fn handle_map(self) -> Map<u64, Seq<u64>> {
        self.handle_entities@
    }

    /// Entity to the asset its handle last pointed at.
    pub closed spec fn entity_map(self) -> Map<u64, u64> {
        self.entity_handles@
    }

    /// Whether the registry lists `e` as a user of asset `a`.
    pub open spec fn has(self, a: u64, e: u64) -> bool {
        self.handle_map().dom().contains(a) && self.handle_map()[a].contains(e)
    }

    /// Every list is duplicate-free, and every listed entity's reverse
    /// lookup points back at the list it stands in.
    pub closed spec fn wf(self) -> bool {
        &&& self.handle_entities.wf()
        &&& self.entity_handles.wf()
        &&& forall|a: u64|
            #[trigger] self.handle_map().dom().contains(a) ==> distinct(self.handle_map()[a])
        &&& forall|a: u64, k: int|
            self.handle_map().dom().contains(a) && 0 <= k < self.handle_map()[a].len()
                ==> self.entity_map().dom().contains(#[trigger] self.handle_map()[a][k])
                && self.entity_map()[self.handle_map()[a][k]] == a
    }

    pub fn new() -> (r: EntityAssetRegistry)
        ensures
            r.wf(),
            r.handle_map() == Map::<u64, Seq<u64>>::empty(),
            r.entity_map() == Map::<u64, u64>::empty(),
    {
        EntityAssetRegistry {
            handle_entities: KeyedList::new(),
            entity_handles: KeyedList::new(),
        }
    }

    /// An asset's list names every entity at most once.
    pub proof fn lemma_list_distinct(self, a: u64)
        requires
            self.wf(),
            self.handle_map().dom().contains(a),
        ensures
            distinct(self.handle_map()[a]),
    {
    }

    /// An entity is never listed under two assets at once.
    pub proof fn lemma_listing_exclusive(self, a1: u64, a2: u64, e: u64)
        requires
            self.wf(),
            self.has(a1, e),
            self.has(a2, e),
        ensures
            a1 == a2,
    {
        self.lemma_has_unique(a1, e);
        self.lemma_has_unique(a2, e);
    }

    /// An entity stands in the list of at most one asset: the one its
    /// reverse lookup names.
    pub proof fn lemma_has_unique(self, a: u64, e: u64)
        requires
            self.wf(),
            self.has(a, e),
        ensures
            self.entity_map().dom().contains(e),
            self.entity_map()[e] == a,
    {
        let k = choose|k: int|
            0 <= k < self.handle_map()[a].len() && self.handle_map()[a][k] == e;
        assert(self.handle_map()[a][k] == e);
    }

    /// The entities using `asset`, as the asset-ready notification hands
    /// them out.
    pub fn entities_of(&self, asset: u64) -> (r: Vec<u64>)
        requires
            self.wf(),
        ensures
            r@ == if self.handle_map().dom().contains(asset) {
                self.handle_map()[asset]
            } else {
                Seq::<u64>::empty()
            },
    {
        match self.handle_entities.get(asset) {
            Some(l) => copy_vec_u64(l),
            None => Vec::new(),
        }
    }

    /// Records that `entity`'s handle now points at `asset`: the entity
    /// leaves its old asset's list (dropping the list if it empties), joins
    /// the end of `asset`'s list, and the reverse lookup is updated.
    pub fn record(&mut self, entity: u64, asset: u64)
        requires
            old(self).wf(),
        ensures
            final(self).wf(),
            final(self).entity_map() == old(self).entity_map().insert(entity, asset),
            forall|a: u64, e: u64|
                e != entity ==> #[trigger] final(self).has(a, e) == old(self).has(a, e),
            forall|a: u64| #[trigger] final(self).has(a, entity) <==> a == asset,
            final(self).handle_map().dom().contains(asset),
            final(self).handle_map()[asset].last() == entity,
            final(self).handle_map().dom() == (
            if old(self).entity_map().dom().contains(entity) && old(self).has(
                old(self).entity_map()[entity],
                entity,
            ) && old(self).handle_map()[old(self).entity_map()[entity]].len() == 1 {
                old(self).handle_map().dom().remove(old(self).entity_map()[entity]).insert(asset)
            } else {
                old(self).handle_map().dom().insert(asset)
            }),
    {
        let ghost pre = *old(self);
        // Detach the entity from the list its old handle put it in.
        let prev_asset = match self.entity_handles.get(entity) {
            Some(a) => Some(*a),
            None => None,
        };
        if let Some(a0) = prev_asset {
            let found = match self.handle_entities.get(a0) {
                Some(l) => Some(copy_vec_u64(l)),
                None => None,
            };
            if let Some(mut l) = found {
                if let Some(idx) = position_u64(&l, entity) {
                    proof {
                        lemma_remove_distinct(pre.handle_map()[a0], idx as int);
                    }
                    l.remove(idx);
                    if l.len() == 0 {
                        self.handle_entities.remove_key(a0);
                    } else {
                        self.handle_entities.put(a0, l);
                    }
                }
            }
        }
        let ghost mid = *self;
        proof {
            assert(mid.entity_map() == pre.entity_map());
            if pre.entity_map().dom().contains(entity) && pre.has(
                pre.entity_map()[entity],
                entity,
            ) && pre.handle_map()[pre.entity_map()[entity]].len() == 1 {
                assert(mid.handle_map().dom() == pre.handle_map().dom().remove(
                    pre.entity_map()[entity],
                ));
            } else {
                if prev_asset is Some && pre.has(prev_asset->0, entity) {
                    assert(pre.handle_map().dom().insert(prev_asset->0) =~= pre.handle_map().dom());
                }
                assert(mid.handle_map().dom() =~= pre.handle_map().dom());
            }
            assert forall|a: u64| !(#[trigger] mid.has(a, entity)) by {
                if mid.has(a, entity) {
                    if prev_asset is Some && a == prev_asset->0 {
                    } else {
                        assert(pre.has(a, entity));
                        pre.lemma_has_unique(a, entity);
                    }
                }
            }
            assert forall|a: u64, e: u64| e != entity implies #[trigger] mid.has(a, e) == pre.has(
                a,
                e,
            ) by {
                if prev_asset is Some {
                    let a0 = prev_asset->0;
                    if a == a0 && pre.has(a0, entity) {
                        lemma_remove_distinct(
                            pre.handle_map()[a0],
                            choose|k: int|
                                0 <= k < pre.handle_map()[a0].len() && pre.handle_map()[a0][k]
                                    == entity,
                        );
                    }
                }
            }
            assert(mid.wf());
        }
        // Attach the entity to the new asset's list.
        let mut l2 = match self.handle_entities.get(asset) {
            Some(l) => copy_vec_u64(l),
            None => Vec::new(),
        };
        l2.push(entity);
        self.handle_entities.put(asset, l2);
        self.entity_handles.put(entity, asset);
        proof {
            let fin = *self;
            assert(fin.handle_map() == mid.handle_map().insert(asset, l2@));
            assert(fin.handle_map().dom() == mid.handle_map().dom().insert(asset));
            assert(l2@.last() == entity);
            assert forall|a: u64, e: u64| e != entity implies #[trigger] fin.has(a, e) == mid.has(
                a,
                e,
            ) by {
                if a == asset {
                    assert forall|x: u64| x != entity implies l2@.contains(x) == (mid.has(
                        asset,
                        x,
                    )) by {
                        if l2@.contains(x) {
                            let m = choose|m: int| 0 <= m < l2@.len() && l2@[m] == x;
                            assert(m < l2@.len() - 1);
                            assert(mid.handle_map()[asset][m] == x);
                        }
                        if mid.has(asset, x) {
                            let m = choose|m: int|
                                0 <= m < mid.handle_map()[asset].len() && mid.handle_map()[asset][m]
                                    == x;
                            assert(l2@[m] == x);
                        }
                    }
                }
            }
            assert forall|a: u64| #[trigger] fin.has(a, entity) <==> a == asset by {
                if a == asset {
                    assert(l2@.contains(entity));
                }
            }
            assert(fin.wf()) by {
                assert(distinct(l2@)) by {
                    assert(!mid.has(asset, entity));
                    if mid.handle_map().dom().contains(asset) {
                        assert(distinct(mid.handle_map()[asset]));
                        assert forall|i: int, j: int| 0 <= i < j < l2@.len() implies l2@[i]
                            != l2@[j] by {
                            if j < l2@.len() - 1 {
                                assert(mid.handle_map()[asset][i] == l2@[i]);
                                assert(mid.handle_map()[asset][j] == l2@[j]);
                            } else {
                                if l2@[i] == entity {
                                    assert(mid.handle_map()[asset].contains(l2@[i]));
                                }
                            }
                        }
                    } else {
                        assert(l2@.len() == 1);
                    }
                }
                assert forall|a: u64, k: int|
                    fin.handle_map().dom().contains(a) && 0 <= k < fin.handle_map()[a].len()
                        implies fin.entity_map().dom().contains(
                    #[trigger] fin.handle_map()[a][k],
                ) && fin.entity_map()[fin.handle_map()[a][k]] == a by {
                    let e = fin.handle_map()[a][k];
                    if a == asset {
                        if k == fin.handle_map()[a].len() - 1 {
                            assert(e == entity);
                        } else {
                            assert(mid.handle_map()[asset][k] == e);
                            assert(mid.has(asset, e));
                            assert(e != entity);
                            mid.lemma_has_unique(asset, e);
                        }
                    } else {
                        assert(mid.handle_map()[a][k] == e);
                        assert(mid.has(a, e));
                        assert(e != entity) by {
                            if e == entity {
                                assert(mid.has(a, entity));
                            }
                        }
                        mid.lemma_has_unique(a, e);
                    }
                }
            }
        }
    }

    /// Forgets a removed entity: it leaves its asset's list (the reverse
    /// lookup entry stays, and an emptied list stays too, as it does when
    /// the host removes an entity rather than repoint its handle).
    pub fn remove_entity(&mut self, entity: u64)
        requires
            old(self).wf(),
        ensures
            final(self).wf(),
            final(self).entity_map() == old(self).entity_map(),
            forall|a: u64| !(#[trigger] final(self).has(a, entity)),
            forall|a: u64, e: u64|
                e != entity ==> #[trigger] final(self).has(a, e) == old(self).has(a, e),
            final(self).handle_map().dom() == old(self).handle_map().dom(),
    {
        let ghost pre = *old(self);
        let prev_asset = match self.entity_handles.get(entity) {
            Some(a) => Some(*a),
            None => None,
        };
        if let Some(a0) = prev_asset {
            let found = match self.handle_entities.get(a0) {
                Some(l) => Some(copy_vec_u64(l)),
                None => None,
            };
            if let Some(mut l) = found {
                if let Some(idx) = position_u64(&l, entity) {
                    proof {
                        lemma_remove_distinct(pre.handle_map()[a0], idx as int);
                    }
                    l.remove(idx);
                    self.handle_entities.put(a0, l);
                }
            }
        }
        proof {
            let fin = *self;
            assert(fin.handle_map().dom() =~= pre.handle_map().dom());
            assert forall|a: u64| !(#[trigger] fin.has(a, entity)) by {
                if fin.has(a, entity) {
                    if prev_asset is Some && a == prev_asset->0 {
                    } else {
                        assert(pre.has(a, entity));
                        pre.lemma_has_unique(a, entity);
                    }
                }
            }
            assert forall|a: u64, e: u64| e != entity implies #[trigger] fin.has(a, e) == pre.has(
                a,
                e,
            ) by {
                if prev_asset is Some {
                    let a0 = prev_asset->0;
                    if a == a0 && pre.has(a0, entity) {
                        lemma_remove_distinct(
                            pre.handle_map()[a0],
                            choose|k: int|
                                0 <= k < pre.handle_map()[a0].len() && pre.handle_map()[a0][k]
                                    == entity,
                        );
                    }
                }
            }
            assert(fin.wf());
        }
    }
}

} // verus!
