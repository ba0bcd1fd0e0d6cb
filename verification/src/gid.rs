//! Generational identifiers and the arena that owns every live entity.
//!
//! A `Gid` names a slot together with the generation at which the slot was
//! filled. Removing an entity bumps its slot's generation, so every `Gid`
//! handed out earlier for that slot goes stale: lookups on it return absent
//! instead of aliasing whatever is stored there later.

use vstd::prelude::*;

verus! {

/// A generational identifier: valid only while its generation matches the
/// current generation of its slot.
#[derive(Debug, Clone, Copy, PartialEq, Eq, Structural)]
pub struct Gid {
    pub index: usize,
    pub generation: u64,
}

#[derive(Debug)]
struct Slot<T> {
    generation: u64,
    value: Option<T>,
}

/// Ghost image of one slot.
pub struct SlotModel<T> {
    pub generation: u64,
    pub value: Option<T>,
}

/// Ghost image of a whole arena: the slots in order, and the free list of
/// vacant slots that the next insertions will reuse, last first.
#[verifier::ext_equal]
pub struct ArenaModel<T> {
    pub slots: Seq<SlotModel<T>>,
    pub free: Seq<usize>,
}

impl<T> ArenaModel<T> {
    /// Structural invariant: free-list entries name vacant slots that can
    /// still bump their generation, the free list holds no duplicates, and
    /// no occupied slot has exhausted its generation counter.
    pub open spec fn wf(self) -> bool {
        &&& (forall|k: int|
            0 <= k < self.free.len() ==> (#[trigger] self.free[k]) < self.slots.len()
                && self.slots[self.free[k] as int].value is None
                && self.slots[self.free[k] as int].generation < u64::MAX)
        &&& (forall|k1: int, k2: int|
            0 <= k1 < k2 < self.free.len() ==> self.free[k1] != self.free[k2])
        &&& (forall|i: int|
            0 <= i < self.slots.len() && (#[trigger] self.slots[i].value) is Some
                ==> self.slots[i].generation < u64::MAX)
    }

    /// Whether `gid` names a live entity.
    pub open spec fn contains(self, gid: Gid) -> bool {
        &&& gid.index < self.slots.len()
        &&& self.slots[gid.index as int].generation == gid.generation
        &&& self.slots[gid.index as int].value is Some
    }

    /// The entity that `gid` names.
    pub open spec fn at(self, gid: Gid) -> T
        recommends
            self.contains(gid),
    {
        self.slots[gid.index as int].value->0
    }

    /// `gid`'s slot has moved past it: no entity stored later under the same
    /// index can ever be confused with what `gid` once named.
    pub open spec fn stale(self, gid: Gid) -> bool {
        gid.index < self.slots.len() && self.slots[gid.index as int].generation > gid.generation
    }

    /// What inserting a value does: reuse the last free slot at its current
    /// generation, or append a fresh slot at generation zero.
    pub open spec fn insert_model(self, value: T) -> (ArenaModel<T>, Gid) {
        if self.free.len() > 0 {
            let i = self.free.last();
            let gid = Gid { index: i, generation: self.slots[i as int].generation };
            (
                ArenaModel {
                    slots: self.slots.update(
                        i as int,
                        SlotModel { generation: gid.generation, value: Some(value) },
                    ),
                    free: self.free.drop_last(),
                },
                gid,
            )
        } else {
            let gid = Gid { index: self.slots.len() as usize, generation: 0 };
            (
                ArenaModel {
                    slots: self.slots.push(SlotModel { generation: 0, value: Some(value) }),
                    free: self.free,
                },
                gid,
            )
        }
    }

    /// What removing a live entity does: vacate the slot, bump its
    /// generation, and return it to the free list while generations remain.
    /// Removal through a stale or unknown `Gid` changes nothing.
    pub open spec fn remove_model(self, gid: Gid) -> (ArenaModel<T>, Option<T>) {
        if self.contains(gid) {
            let bumped = (gid.generation + 1) as u64;
            (
                ArenaModel {
                    slots: self.slots.update(
                        gid.index as int,
                        SlotModel { generation: bumped, value: None },
                    ),
                    free: if bumped < u64::MAX {
                        self.free.push(gid.index)
                    } else {
                        self.free
                    },
                },
                Some(self.slots[gid.index as int].value->0),
            )
        } else {
            (self, None)
        }
    }
}

/// A generational slot map: the exclusive owner of every live instance of
/// one entity kind, looked up through `Gid` handles that can go stale but
/// never dangle.
#[derive(Debug)]
pub struct Arena<T> {
    slots: Vec<Slot<T>>,
    free: Vec<usize>,
}

impl<T> View for Arena<T> {
    type V = ArenaModel<T>;

    closed spec fn view(&self) -> ArenaModel<T> {
        ArenaModel {
            slots: self.slots@.map_values(
                |s: Slot<T>| SlotModel { generation: s.generation, value: s.value },
            ),
            free: self.free@,
        }
    }
}

impl<T> Arena<T> {
    pub fn new() -> (a: Arena<T>)
        ensures
            a@.wf(),
            a@.slots.len() == 0,
            a@.free.len() == 0,
            forall|g: Gid| !a@.contains(g),
    {
        Arena { slots: Vec::new(), free: Vec::new() }
    }

    /// Index-bounds plus generation check: true only for the `Gid` most
    /// recently handed out for a still-occupied slot.
    pub fn contains(&self, gid: Gid) -> (r: bool)
        ensures
            r == self@.contains(gid),
    {
        if gid.index < self.slots.len() {
            let slot = &self.slots[gid.index];
            slot.generation == gid.generation && slot.value.is_some()
        } else {
            false
        }
    }

    /// Lookup that never panics: `None` on an out-of-range index, a
    /// generation mismatch, or a vacated slot.
    pub fn get(&self, gid: Gid) -> (r: Option<&T>)
        ensures
            match r {
                Some(v) => self@.contains(gid) && *v == self@.at(gid),
                None => !self@.contains(gid),
            },
    {
        if gid.index < self.slots.len() {
            let slot = &self.slots[gid.index];
            if slot.generation == gid.generation {
                slot.value.as_ref()
            } else {
                None
            }
        } else {
            None
        }
    }

    /// Exclusive access to a live entity. The caller must already know the
    /// handle is live; everything else in the arena is untouched. Well-
    /// formedness of the result is re-established by
    /// `lemma_wf_after_update`.
    pub fn get_mut(&mut self, gid: Gid) -> (v: &mut T)
        requires
            old(self)@.contains(gid),
        ensures
            *v == old(self)@.at(gid),
            final(self)@.slots == old(self)@.slots.update(
                gid.index as int,
                SlotModel { generation: gid.generation, value: Some(*final(v)) },
            ),
            final(self)@.free == old(self)@.free,
            forall|g: Gid| final(self)@.contains(g) == old(self)@.contains(g),
            forall|g: Gid|
                g != gid && old(self)@.contains(g) ==> final(self)@.at(g) == old(self)@.at(g),
            final(self)@.at(gid) == *final(v),
            forall|g: Gid| final(self)@.stale(g) == old(self)@.stale(g),
    {
        let slot = &mut self.slots[gid.index];
        match &mut slot.value {
            Some(v) => v,
            None => unreached(),
        }
    }

    /// O(1) insertion, reusing a freed slot when one is available; the
    /// returned handle is fresh: it names the new entity and nothing that
    /// was ever in the arena before.
    pub fn insert(&mut self, value: T) -> (gid: Gid)
        requires
            old(self)@.wf(),
        ensures
            (final(self)@, gid) == old(self)@.insert_model(value),
            final(self)@.wf(),
            final(self)@.contains(gid),
            final(self)@.at(gid) == value,
            !old(self)@.contains(gid),
            forall|g: Gid| g != gid ==> final(self)@.contains(g) == old(self)@.contains(g),
            forall|g: Gid|
                g != gid && old(self)@.contains(g) ==> final(self)@.at(g) == old(self)@.at(g),
            forall|g: Gid| old(self)@.stale(g) ==> final(self)@.stale(g),
    {
        let ghost m0 = self@;
        match self.free.pop() {
            Some(i) => {
                let slot = &mut self.slots[i];
                let generation = slot.generation;
                slot.value = Some(value);
                proof {
                    assert(self@.slots =~= m0.slots.update(
                        i as int,
                        SlotModel { generation, value: Some(value) },
                    ));
                    assert(self@.free =~= m0.free.drop_last());
                    assert(self@ =~= m0.insert_model(value).0);
                }
                Gid { index: i, generation }
            },
            None => {
                let index = self.slots.len();
                self.slots.push(Slot { generation: 0, value: Some(value) });
                proof {
                    assert(self@.slots =~= m0.slots.push(
                        SlotModel { generation: 0, value: Some(value) },
                    ));
                    assert(self@ =~= m0.insert_model(value).0);
                }
                Gid { index, generation: 0 }
            },
        }
    }

    /// Removes and returns the entity `gid` names, vacating its slot and
    /// invalidating every outstanding copy of the handle; a no-op returning
    /// `None` on a stale or unknown handle.
    pub fn remove(&mut self, gid: Gid) -> (r: Option<T>)
        requires
            old(self)@.wf(),
        ensures
            (final(self)@, r) == old(self)@.remove_model(gid),
            final(self)@.wf(),
            !final(self)@.contains(gid),
            old(self)@.contains(gid) ==> final(self)@.stale(gid) && r == Some(old(self)@.at(gid)),
            !old(self)@.contains(gid) ==> r is None && final(self)@ == old(self)@,
            forall|g: Gid| g != gid ==> final(self)@.contains(g) == old(self)@.contains(g),
            forall|g: Gid|
                g != gid && old(self)@.contains(g) ==> final(self)@.at(g) == old(self)@.at(g),
            forall|g: Gid| old(self)@.stale(g) ==> final(self)@.stale(g),
    {
        let ghost m0 = self@;
        if gid.index < self.slots.len() {
            let slot = &mut self.slots[gid.index];
            if slot.generation == gid.generation && slot.value.is_some() {
                let value = slot.value.take();
                proof {
                    assert(m0.slots[gid.index as int].value is Some);
                }
                let bumped = slot.generation + 1;
                slot.generation = bumped;
                if bumped < u64::MAX {
                    self.free.push(gid.index);
                }
                proof {
                    assert(self@.slots =~= m0.slots.update(
                        gid.index as int,
                        SlotModel { generation: (gid.generation + 1) as u64, value: None },
                    ));
                    assert(self@ =~= m0.remove_model(gid).0);
                    assert forall|k: int| 0 <= k < m0.free.len() implies m0.free[k]
                        != gid.index by {
                        assert(m0.slots[m0.free[k] as int].value is None);
                    }
                    let m1 = self@;
                    assert forall|k: int| 0 <= k < m1.free.len() implies (#[trigger] m1.free[k])
                        < m1.slots.len() && m1.slots[m1.free[k] as int].value is None
                        && m1.slots[m1.free[k] as int].generation < u64::MAX by {
                        if k < m0.free.len() {
                            assert(m1.free[k] == m0.free[k]);
                            assert(m0.slots[m0.free[k] as int].value is None);
                        } else {
                            assert(m1.free[k] == gid.index);
                        }
                    }
                    assert forall|k1: int, k2: int|
                        0 <= k1 < k2 < m1.free.len() implies m1.free[k1] != m1.free[k2] by {
                        if k2 == m0.free.len() as int {
                            assert(m1.free[k1] == m0.free[k1]);
                        }
                    }
                    assert(m1.wf());
                }
                value
            } else {
                proof {
                    assert(self@.slots =~= m0.slots);
                    assert(self@ =~= m0);
                }
                None
            }
        } else {
            None
        }
    }

    /// The live handles, in slot order: exactly the `Gid`s on which `get`
    /// succeeds, each at most once.
    pub fn gids(&self) -> (r: Vec<Gid>)
        ensures
            forall|g: Gid| r@.contains(g) <==> self@.contains(g),
            forall|k: int| 0 <= k < r@.len() ==> self@.contains(#[trigger] r@[k]),
            forall|k1: int, k2: int| 0 <= k1 < k2 < r@.len() ==> r@[k1].index < r@[k2].index,
    {
        let mut r: Vec<Gid> = Vec::new();
        let mut i: usize = 0;
        while i < self.slots.len()
            invariant
                i <= self.slots.len(),
                forall|k: int|
                    0 <= k < r@.len() ==> self@.contains(#[trigger] r@[k]) && r@[k].index < i,
                forall|g: Gid| self@.contains(g) && g.index < i ==> r@.contains(g),
                forall|k1: int, k2: int| 0 <= k1 < k2 < r@.len() ==> r@[k1].index < r@[k2].index,
            decreases self.slots.len() - i,
        {
            let ghost r0 = r@;
            let slot = &self.slots[i];
            if slot.value.is_some() {
                let gid = Gid { index: i, generation: slot.generation };
                r.push(gid);
                proof {
                    assert(self@.contains(gid));
                    assert(r@[r@.len() - 1] == gid);
                    assert forall|g: Gid| self@.contains(g) && g.index < i + 1 implies r@.contains(
                        g,
                    ) by {
                        if g.index < i {
                            assert(r0.contains(g));
                            let k = choose|k: int| 0 <= k < r0.len() && r0[k] == g;
                            assert(r@[k] == g);
                        } else {
                            assert(g == gid);
                            assert(r@[r@.len() - 1] == g);
                        }
                    }
                }
            } else {
                proof {
                    assert forall|g: Gid| self@.contains(g) && g.index < i + 1 implies r@.contains(
                        g,
                    ) by {
                        assert(g.index != i);
                    }
                }
            }
            i = i + 1;
        }
        proof {
            assert forall|g: Gid| r@.contains(g) implies self@.contains(g) by {
                let k = choose|k: int| 0 <= k < r@.len() && r@[k] == g;
            }
        }
        r
    }
}

/// Overwriting the value of a live slot — the footprint of `get_mut` —
/// keeps an arena well-formed.
pub proof fn lemma_wf_after_update<T>(m0: ArenaModel<T>, m1: ArenaModel<T>, gid: Gid, value: T)
    requires
        m0.wf(),
        m0.contains(gid),
        m1.slots == m0.slots.update(
            gid.index as int,
            SlotModel { generation: gid.generation, value: Some(value) },
        ),
        m1.free == m0.free,
    ensures
        m1.wf(),
{
    assert forall|k: int| 0 <= k < m0.free.len() implies m0.free[k] != gid.index by {
        assert(m0.slots[m0.free[k] as int].value is None);
    }
    assert(m0.slots[gid.index as int].generation < u64::MAX);
}

/// Removes the first occurrence of a handle from a roster vector. On a
/// duplicate-free roster the handle is gone afterwards and every other
/// entry keeps its membership.
pub fn remove_gid(v: &mut Vec<Gid>, gid: Gid) -> (found: bool)
    ensures
        found == old(v)@.contains(gid),
        !found ==> final(v)@ == old(v)@,
        found ==> final(v)@.len() == old(v)@.len() - 1,
        forall|k: int| 0 <= k < final(v)@.len() ==> old(v)@.contains(#[trigger] final(v)@[k]),
        (forall|k1: int, k2: int| 0 <= k1 < k2 < old(v)@.len() ==> old(v)@[k1] != old(v)@[k2])
            ==> {
            &&& forall|k1: int, k2: int|
                0 <= k1 < k2 < final(v)@.len() ==> final(v)@[k1] != final(v)@[k2]
            &&& !final(v)@.contains(gid)
            &&& forall|g: Gid| g != gid ==> (final(v)@.contains(g) <==> old(v)@.contains(g))
        },
{
    let ghost v0 = v@;
    let mut i: usize = 0;
    while i < v.len()
        invariant
            v0 == old(v)@,
            i <= v0.len(),
            v@ == v0,
            forall|k: int| 0 <= k < i ==> v0[k] != gid,
        decreases v0.len() - i,
    {
        if v[i] == gid {
            v.remove(i);
            proof {
                assert(v@ =~= v0.subrange(0, i as int) + v0.subrange(i + 1, v0.len() as int));
                assert(v0.contains(gid)) by {
                    assert(v0[i as int] == gid);
                }
                assert forall|k: int| 0 <= k < v@.len() implies v0.contains(
                    #[trigger] v@[k],
                ) by {
                    if k < i {
                        assert(v@[k] == v0[k]);
                    } else {
                        assert(v@[k] == v0[k + 1]);
                    }
                }
                if forall|k1: int, k2: int| 0 <= k1 < k2 < v0.len() ==> v0[k1] != v0[k2] {
                    assert forall|k1: int, k2: int|
                        0 <= k1 < k2 < v@.len() implies v@[k1] != v@[k2] by {
                        assert(v@[k1] == if k1 < i {
                            v0[k1]
                        } else {
                            v0[k1 + 1]
                        });
                        assert(v@[k2] == if k2 < i {
                            v0[k2]
                        } else {
                            v0[k2 + 1]
                        });
                    }
                    assert forall|k: int| 0 <= k < v@.len() implies v@[k] != gid by {
                        if k < i {
                            assert(v@[k] == v0[k]);
                        } else {
                            assert(v@[k] == v0[k + 1]);
                            assert(v0[k + 1] != v0[i as int]);
                        }
                    }
                    assert(!v@.contains(gid));
                    assert forall|g: Gid| g != gid implies (v@.contains(g) <==> v0.contains(
                        g,
                    )) by {
                        if v0.contains(g) {
                            let k = choose|k: int| 0 <= k < v0.len() && v0[k] == g;
                            if k < i {
                                assert(v@[k] == g);
                            } else {
                                assert(v@[k - 1] == g);
                            }
                        }
                        if v@.contains(g) {
                            let k = choose|k: int| 0 <= k < v@.len() && v@[k] == g;
                            assert(v0.contains(g));
                        }
                    }
                }
            }
            return true;
        }
        i = i + 1;
    }
    proof {
        assert forall|g: Gid| v0.contains(g) implies g != gid by {
            let k = choose|k: int| 0 <= k < v0.len() && v0[k] == g;
        }
        assert(!v0.contains(gid));
    }
    false
}

/// Law of generation isolation: once a handle has been removed from an
/// arena, lookups through it stay absent, even after an insertion that may
/// reuse the very same slot index.
pub proof fn lemma_generation_isolation<T>(a: ArenaModel<T>, r: Gid, value: T)
    requires
        a.wf(),
        a.contains(r),
        a.slots.len() <= usize::MAX,
    ensures
        ({
            let (a1, removed) = a.remove_model(r);
            let (a2, fresh) = a1.insert_model(value);
            &&& !a1.contains(r)
            &&& a1.stale(r)
            &&& !a2.contains(r)
            &&& fresh != r
            &&& a2.contains(fresh)
        }),
{
    let (a1, removed) = a.remove_model(r);
    let (a2, fresh) = a1.insert_model(value);
    assert(a.slots[r.index as int].value is Some);
    assert(r.generation < u64::MAX);
    assert(a1.slots[r.index as int].generation == r.generation + 1);
    assert(a1.stale(r));
    if a1.free.len() > 0 {
        let i = a1.free.last();
        assert(a2.slots[i as int].value is Some);
        if i == r.index {
            assert(fresh.generation == r.generation + 1);
            assert(fresh != r);
        } else {
            assert(a2.slots[r.index as int] == a1.slots[r.index as int]);
        }
    } else {
        assert(r.index < a1.slots.len());
        assert(fresh.index == a1.slots.len());
        assert(a2.slots[r.index as int] == a1.slots[r.index as int]);
    }
}

} // verus!
