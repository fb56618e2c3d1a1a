//! A generational-index slot arena backing a column-oriented component store.
//!
//! The arena hands out `ID` handles for dynamically created and destroyed
//! records, reuses freed slots through an intrusive LIFO free list, and
//! validates every handle against the slot's current generation so that a
//! stale handle can never silently alias a newer record.

use vstd::prelude::*;

verus! {

/// The state of one slot: either occupied by a live record stamped with the
/// generation a valid handle must match, or free, linking to the next free
/// slot (`None` at the tail of the free list).
#[derive(Clone, Copy, Debug, PartialEq, Eq)]
pub enum Gen {
    Occupied { generation: u64 },
    Free { next: Option<usize> },
}

impl Gen {
    /// Returns the generation of an occupied slot.
    pub fn unwrap_some(self) -> (r: u64)
        requires
            self is Occupied,
        ensures
            r == self->generation,
    {
        match self {
            Gen::Occupied { generation } => generation,
            Gen::Free { .. } => vstd::pervasive::unreached(),
        }
    }

    /// Returns the free-list link of a free slot.
    pub fn unwrap_none(self) -> (r: Option<usize>)
        requires
            self is Free,
        ensures
            r == self->next,
    {
        match self {
            Gen::Free { next } => next,
            Gen::Occupied { .. } => vstd::pervasive::unreached(),
        }
    }
}

/// The single error kind of the arena: the handle does not name a live
/// record (it was never issued, its slot has been freed since, or the slot
/// has been reoccupied under a newer generation).
#[derive(Clone, Copy, Debug, PartialEq, Eq)]
pub enum ECSError {
    InvalidID,
}

/// An opaque (slot index, generation) handle for addressing one record.
/// A handle carries no ownership: every access revalidates it against the
/// slot table.
#[derive(Clone, Copy, Debug, PartialEq, Eq)]
pub struct ID {
    pub index: usize,
    pub gen: u64,
}

impl ID {
    pub fn new(index: usize, gen: u64) -> (r: ID)
        ensures
            r.index == index,
            r.gen == gen,
    {
        ID { index, gen }
    }

    pub fn index(&self) -> (r: usize)
        ensures
            r == self.index,
    {
        self.index
    }

    pub fn gen(&self) -> (r: u64)
        ensures
            r == self.gen,
    {
        self.gen
    }
}

/// The mathematical model of the arena: the slot table, the five attribute
/// columns (index-aligned with the slot table), the free list in pop order,
/// the cached free-list head, the generation counter, and the number of
/// occupied slots.
#[verifier::ext_equal]
pub ghost struct ArenaView<Pos, Rot, Light, Vel, Poly> {
    pub slots: Seq<Gen>,
    pub position: Seq<Option<Pos>>,
    pub rotation: Seq<Option<Rot>>,
    pub light: Seq<Option<Light>>,
    pub velocity: Seq<Option<Vel>>,
    pub polygon: Seq<Option<Poly>>,
    pub free: Seq<usize>,
    pub last: Option<usize>,
    pub next_gen: u64,
    pub len: usize,
}

/// The number of occupied slots in a slot table.
pub open spec fn occ_count(s: Seq<Gen>) -> nat
    decreases s.len(),
{
    if s.len() == 0 {
        0
    } else {
        occ_count(s.drop_last()) + (if s.last() is Occupied {
            1nat
        } else {
            0nat
        })
    }
}

pub proof fn lemma_occ_count_le_len(s: Seq<Gen>)
    ensures
        occ_count(s) <= s.len(),
    decreases s.len(),
{
    if s.len() > 0 {
        lemma_occ_count_le_len(s.drop_last());
    }
}

pub proof fn lemma_occ_count_lt_if_free(s: Seq<Gen>, i: int)
    requires
        0 <= i < s.len(),
        s[i] is Free,
    ensures
        occ_count(s) < s.len(),
    decreases s.len(),
{
    if i == s.len() - 1 {
        lemma_occ_count_le_len(s.drop_last());
    } else {
        lemma_occ_count_lt_if_free(s.drop_last(), i);
    }
}

pub proof fn lemma_occ_count_pos_if_occupied(s: Seq<Gen>, i: int)
    requires
        0 <= i < s.len(),
        s[i] is Occupied,
    ensures
        occ_count(s) >= 1,
    decreases s.len(),
{
    if i < s.len() - 1 {
        lemma_occ_count_pos_if_occupied(s.drop_last(), i);
    }
}

pub proof fn lemma_occ_count_update(s: Seq<Gen>, i: int, g: Gen)
    requires
        0 <= i < s.len(),
    ensures
        occ_count(s.update(i, g)) == occ_count(s) + (if g is Occupied {
            1int
        } else {
            0int
        }) - (if s[i] is Occupied {
            1int
        } else {
            0int
        }),
    decreases s.len(),
{
    let t = s.update(i, g);
    if i == s.len() - 1 {
        assert(t.drop_last() =~= s.drop_last());
    } else {
        lemma_occ_count_update(s.drop_last(), i, g);
        assert(t.drop_last() =~= s.drop_last().update(i, g));
        assert(t.last() == s.last());
    }
}

pub proof fn lemma_occ_count_push(s: Seq<Gen>, g: Gen)
    ensures
        occ_count(s.push(g)) == occ_count(s) + (if g is Occupied {
            1int
        } else {
            0int
        }),
{
    assert(s.push(g).drop_last() =~= s);
    assert(s.push(g).last() == g);
}

impl<Pos, Rot, Light, Vel, Poly> ArenaView<Pos, Rot, Light, Vel, Poly> {
    /// A handle is valid iff its slot exists, is occupied, and carries
    /// exactly the handle's generation.
    pub open spec fn valid(self, id: ID) -> bool {
        &&& id.index < self.slots.len()
        &&& self.slots[id.index as int] matches Gen::Occupied { generation } && generation
            == id.gen
    }

    /// A permanently dead handle: it does not name a live record, and the
    /// generation counter has moved strictly past its generation, so no
    /// future occupant of any slot can ever be stamped with it again.
    pub open spec fn stale(self, id: ID) -> bool {
        &&& !self.valid(id)
        &&& id.gen < self.next_gen
    }

    /// Every attribute column has exactly one cell per slot.
    pub open spec fn columns_aligned(self) -> bool {
        &&& self.position.len() == self.slots.len()
        &&& self.rotation.len() == self.slots.len()
        &&& self.light.len() == self.slots.len()
        &&& self.velocity.len() == self.slots.len()
        &&& self.polygon.len() == self.slots.len()
    }

    /// Entry `k` of the free list names a free slot whose link points to the
    /// following entry (or nowhere, at the tail).
    pub open spec fn free_entry_ok(self, k: int) -> bool {
        &&& self.free[k] < self.slots.len()
        &&& self.slots[self.free[k] as int] matches Gen::Free { next } && next == (if k + 1
            < self.free.len() {
            Some(self.free[k + 1])
        } else {
            None::<usize>
        })
    }

    /// The free list is exactly the chain threaded through the free slots:
    /// it starts at the cached head, each entry links to the next, no slot
    /// appears twice, and every free slot is on it.
    pub open spec fn free_wf(self) -> bool {
        &&& self.last == (if self.free.len() == 0 {
            None::<usize>
        } else {
            Some(self.free[0])
        })
        &&& forall|k: int| 0 <= k < self.free.len() ==> #[trigger] self.free_entry_ok(k)
        &&& forall|k1: int, k2: int|
            0 <= k1 < self.free.len() && 0 <= k2 < self.free.len() && k1 != k2 ==> #[trigger] self
                .free[k1] != #[trigger] self.free[k2]
        &&& forall|j: int|
            0 <= j < self.slots.len() && (#[trigger] self.slots[j]) is Free ==> self.free.contains(
                j as usize,
            )
    }

    /// No occupied slot is stamped with a generation newer than the counter.
    pub open spec fn gens_bounded(self) -> bool {
        forall|j: int|
            0 <= j < self.slots.len() ==> ((#[trigger] self.slots[j]) matches Gen::Occupied {
                generation,
            } ==> generation <= self.next_gen)
    }

    /// The arena invariant: columns aligned with the slot table, the
    /// occupied count exact, the free list well formed, and generations
    /// bounded by the counter.
    pub open spec fn wf(self) -> bool {
        &&& self.columns_aligned()
        &&& self.len as nat == occ_count(self.slots)
        &&& self.free_wf()
        &&& self.gens_bounded()
    }

    /// The slot index the next allocation will use: the free-list head if
    /// one exists, otherwise a fresh slot appended at the end.
    pub open spec fn push_index(self) -> usize {
        match self.last {
            Some(i) => i,
            None => self.slots.len() as usize,
        }
    }

    /// The state after one allocation: the chosen slot becomes occupied at
    /// the current generation, its column cells are overwritten with the
    /// given values, and the free list loses its head (or the table grows
    /// by one slot).
    pub open spec fn push_state(
        self,
        position: Option<Pos>,
        rotation: Option<Rot>,
        light: Option<Light>,
        velocity: Option<Vel>,
        polygon: Option<Poly>,
    ) -> Self {
        match self.last {
            Some(i) => ArenaView {
                slots: self.slots.update(i as int, Gen::Occupied { generation: self.next_gen }),
                position: self.position.update(i as int, position),
                rotation: self.rotation.update(i as int, rotation),
                light: self.light.update(i as int, light),
                velocity: self.velocity.update(i as int, velocity),
                polygon: self.polygon.update(i as int, polygon),
                free: self.free.skip(1),
                last: self.slots[i as int]->next,
                next_gen: self.next_gen,
                len: (self.len + 1) as usize,
            },
            None => ArenaView {
                slots: self.slots.push(Gen::Occupied { generation: self.next_gen }),
                position: self.position.push(position),
                rotation: self.rotation.push(rotation),
                light: self.light.push(light),
                velocity: self.velocity.push(velocity),
                polygon: self.polygon.push(polygon),
                free: self.free,
                last: None,
                next_gen: self.next_gen,
                len: (self.len + 1) as usize,
            },
        }
    }

    /// The state after freeing through a valid handle: every column cell of
    /// the slot is cleared, the slot becomes the new free-list head, and the
    /// generation counter advances past the handle's generation if it had
    /// not already (capped at the largest representable generation). An
    /// invalid handle leaves the state untouched.
    pub open spec fn remove_state(self, id: ID) -> Self {
        if self.valid(id) {
            ArenaView {
                slots: self.slots.update(id.index as int, Gen::Free { next: self.last }),
                position: self.position.update(id.index as int, None),
                rotation: self.rotation.update(id.index as int, None),
                light: self.light.update(id.index as int, None),
                velocity: self.velocity.update(id.index as int, None),
                polygon: self.polygon.update(id.index as int, None),
                free: seq![id.index] + self.free,
                last: Some(id.index),
                next_gen: if id.gen >= self.next_gen && self.next_gen < u64::MAX {
                    (self.next_gen + 1) as u64
                } else {
                    self.next_gen
                },
                len: (self.len - 1) as usize,
            }
        } else {
            self
        }
    }

    /// The state after writing the position cell of a valid handle's slot;
    /// an invalid handle changes nothing.
    pub open spec fn set_position_state(self, id: ID, value: Option<Pos>) -> Self {
        if self.valid(id) {
            ArenaView { position: self.position.update(id.index as int, value), ..self }
        } else {
            self
        }
    }

    /// The state after writing the rotation cell of a valid handle's slot.
    pub open spec fn set_rotation_state(self, id: ID, value: Option<Rot>) -> Self {
        if self.valid(id) {
            ArenaView { rotation: self.rotation.update(id.index as int, value), ..self }
        } else {
            self
        }
    }

    /// The state after writing the light cell of a valid handle's slot.
    pub open spec fn set_light_state(self, id: ID, value: Option<Light>) -> Self {
        if self.valid(id) {
            ArenaView { light: self.light.update(id.index as int, value), ..self }
        } else {
            self
        }
    }

    /// The state after writing the velocity cell of a valid handle's slot.
    pub open spec fn set_velocity_state(self, id: ID, value: Option<Vel>) -> Self {
        if self.valid(id) {
            ArenaView { velocity: self.velocity.update(id.index as int, value), ..self }
        } else {
            self
        }
    }

    /// The state after writing the polygon cell of a valid handle's slot.
    pub open spec fn set_polygon_state(self, id: ID, value: Option<Poly>) -> Self {
        if self.valid(id) {
            ArenaView { polygon: self.polygon.update(id.index as int, value), ..self }
        } else {
            self
        }
    }
}

/// Allocation preserves the arena invariant. The chosen slot becomes a
/// valid occupied slot at the current generation, and the occupied count
/// grows by one. The bounds on the table size only rule out model states
/// that no machine-resident arena can reach.
pub proof fn lemma_push_preserves_wf<Pos, Rot, Light, Vel, Poly>(
    v: ArenaView<Pos, Rot, Light, Vel, Poly>,
    position: Option<Pos>,
    rotation: Option<Rot>,
    light: Option<Light>,
    velocity: Option<Vel>,
    polygon: Option<Poly>,
)
    requires
        v.wf(),
        v.last is Some ==> v.slots.len() <= usize::MAX,
        v.last is None ==> v.slots.len() < usize::MAX,
    ensures
        ({
            let v1 = v.push_state(position, rotation, light, velocity, polygon);
            &&& v1.wf()
            &&& v1.slots.len() == (if v.last is Some {
                v.slots.len() as int
            } else {
                v.slots.len() + 1int
            })
            &&& v.push_index() < v1.slots.len()
            &&& v1.valid(ID { index: v.push_index(), gen: v.next_gen })
            &&& v1.len == v.len + 1
            &&& v1.next_gen == v.next_gen
        }),
{
    let v1 = v.push_state(position, rotation, light, velocity, polygon);
    match v.last {
        Some(i) => {
            assert(v.free_entry_ok(0));
            assert(v.free[0] == i);
            lemma_occ_count_lt_if_free(v.slots, i as int);
            lemma_occ_count_update(v.slots, i as int, Gen::Occupied { generation: v.next_gen });
            assert forall|k: int| 0 <= k < v1.free.len() implies #[trigger] v1.free_entry_ok(
                k,
            ) by {
                assert(v.free_entry_ok(k + 1));
                assert(v1.free[k] == v.free[k + 1]);
                assert(v.free[k + 1] != v.free[0]);
                if k + 1 < v1.free.len() {
                    assert(v1.free[k + 1] == v.free[k + 2]);
                }
            }
            assert forall|k1: int, k2: int|
                0 <= k1 < v1.free.len() && 0 <= k2 < v1.free.len() && k1 != k2 implies v1.free[k1]
                != v1.free[k2] by {
                assert(v.free[k1 + 1] != v.free[k2 + 1]);
            }
            assert forall|j: int|
                0 <= j < v1.slots.len() && (#[trigger] v1.slots[j]) is Free implies v1.free.contains(
                j as usize,
            ) by {
                assert(v.slots[j] is Free);
                assert(v.free.contains(j as usize));
                let k = choose|k: int| 0 <= k < v.free.len() && v.free[k] == j as usize;
                assert(v.free[k] == j as usize);
                assert(k != 0);
                assert(v1.free[k - 1] == j as usize);
            }
            if v.free.len() == 1 {
                assert(v1.free.len() == 0);
            } else {
                assert(v1.free[0] == v.free[1]);
            }
        },
        None => {
            assert(v.free.len() == 0);
            lemma_occ_count_le_len(v.slots);
            lemma_occ_count_push(v.slots, Gen::Occupied { generation: v.next_gen });
            assert forall|j: int|
                0 <= j < v1.slots.len() && (#[trigger] v1.slots[j]) is Free implies v1.free.contains(
                j as usize,
            ) by {
                assert(j < v.slots.len());
                assert(v.free.contains(j as usize));
            }
        },
    }
}

/// Freeing through a valid handle preserves the arena invariant, shrinks
/// the occupied count by one, and leaves the handle invalid; freeing
/// through an invalid handle changes nothing. The generation counter never
/// decreases.
pub proof fn lemma_remove_preserves_wf<Pos, Rot, Light, Vel, Poly>(
    v: ArenaView<Pos, Rot, Light, Vel, Poly>,
    id: ID,
)
    requires
        v.wf(),
    ensures
        ({
            let v1 = v.remove_state(id);
            &&& v1.wf()
            &&& v1.slots.len() == v.slots.len()
            &&& v.next_gen <= v1.next_gen
            &&& v.valid(id) ==> v1.len == v.len - 1 && !v1.valid(id)
            &&& !v.valid(id) ==> v1 == v
        }),
{
    if v.valid(id) {
        let i = id.index as int;
        let v1 = v.remove_state(id);
        lemma_occ_count_pos_if_occupied(v.slots, i);
        lemma_occ_count_update(v.slots, i, Gen::Free { next: v.last });
        assert forall|k: int| 0 <= k < v.free.len() implies v.free[k] != id.index by {
            assert(v.free_entry_ok(k));
        }
        assert forall|k: int| 0 <= k < v1.free.len() implies #[trigger] v1.free_entry_ok(k) by {
            if k == 0 {
                assert(v1.free[0] == id.index);
                if v.free.len() > 0 {
                    assert(v1.free[1] == v.free[0]);
                }
            } else {
                assert(v.free_entry_ok(k - 1));
                assert(v1.free[k] == v.free[k - 1]);
                if k + 1 < v1.free.len() {
                    assert(v1.free[k + 1] == v.free[k]);
                }
            }
        }
        assert forall|k1: int, k2: int|
            0 <= k1 < v1.free.len() && 0 <= k2 < v1.free.len() && k1 != k2 implies v1.free[k1]
            != v1.free[k2] by {
            if k1 != 0 && k2 != 0 {
                assert(v.free[k1 - 1] != v.free[k2 - 1]);
            }
        }
        assert forall|j: int|
            0 <= j < v1.slots.len() && (#[trigger] v1.slots[j]) is Free implies v1.free.contains(
            j as usize,
        ) by {
            if j == i {
                assert(v1.free[0] == id.index);
            } else {
                assert(v.slots[j] is Free);
                assert(v.free.contains(j as usize));
                let k = choose|k: int| 0 <= k < v.free.len() && v.free[k] == j as usize;
                assert(v1.free[k + 1] == j as usize);
            }
        }
    }
}

/// Writing column cells cannot break the arena invariant: well-formedness
/// depends only on the slot table, the free list, the counters, and the
/// columns' lengths, never on the values the columns hold.
pub proof fn lemma_wf_after_column_write<Pos, Rot, Light, Vel, Poly>(
    v: ArenaView<Pos, Rot, Light, Vel, Poly>,
    w: ArenaView<Pos, Rot, Light, Vel, Poly>,
)
    requires
        v.wf(),
        w.slots == v.slots,
        w.free == v.free,
        w.last == v.last,
        w.next_gen == v.next_gen,
        w.len == v.len,
        w.position.len() == v.position.len(),
        w.rotation.len() == v.rotation.len(),
        w.light.len() == v.light.len(),
        w.velocity.len() == v.velocity.len(),
        w.polygon.len() == v.polygon.len(),
    ensures
        w.wf(),
{
    assert forall|k: int| 0 <= k < w.free.len() implies #[trigger] w.free_entry_ok(k) by {
        assert(v.free_entry_ok(k));
    }
}

/// The entity arena: a slot table with parallel optional-value columns for
/// position, rotation, light, velocity, and polygon outline. Records are
/// addressed only through validated `ID` handles.
pub struct ECS<Pos, Rot, Light, Vel, Poly> {
    polygon: Vec<Option<Poly>>,
    position: Vec<Option<Pos>>,
    rotation: Vec<Option<Rot>>,
    light: Vec<Option<Light>>,
    velocity: Vec<Option<Vel>>,
    gen: Vec<Gen>,
    last: Option<usize>,
    next_gen: u64,
    len: usize,
    free_order: Ghost<Seq<usize>>,
}

impl<Pos, Rot, Light, Vel, Poly> View for ECS<Pos, Rot, Light, Vel, Poly> {
    type V = ArenaView<Pos, Rot, Light, Vel, Poly>;

    closed spec fn view(&self) -> ArenaView<Pos, Rot, Light, Vel, Poly> {
        ArenaView {
            slots: self.gen@,
            position: self.position@,
            rotation: self.rotation@,
            light: self.light@,
            velocity: self.velocity@,
            polygon: self.polygon@,
            free: self.free_order@,
            last: self.last,
            next_gen: self.next_gen,
            len: self.len,
        }
    }
}

impl<Pos, Rot, Light, Vel, Poly> ECS<Pos, Rot, Light, Vel, Poly> {
    /// Creates an empty arena: no slots, no free list, generation counter
    /// at zero.
    pub fn new() -> (r: Self)
        ensures
            r@.wf(),
            r@.slots.len() == 0,
            r@.free.len() == 0,
            r@.next_gen == 0,
            r@.len == 0,
    {
        ECS {
            polygon: Vec::new(),
            position: Vec::new(),
            rotation: Vec::new(),
            light: Vec::new(),
            velocity: Vec::new(),
            gen: Vec::new(),
            last: None,
            next_gen: 0,
            len: 0,
            free_order: Ghost(Seq::empty()),
        }
    }

    /// Allocates a record with the given attribute values (each present or
    /// absent independently) and returns its handle. The most recently
    /// freed slot is reused first; with no free slot the table grows by
    /// one. The new slot is stamped with the arena's current generation
    /// counter, which allocation never advances. Cannot fail.
    pub fn push(
        &mut self,
        position: Option<Pos>,
        rotation: Option<Rot>,
        light: Option<Light>,
        velocity: Option<Vel>,
        polygon: Option<Poly>,
    ) -> (id: ID)
        requires
            old(self)@.wf(),
        ensures
            final(self)@ == old(self)@.push_state(position, rotation, light, velocity, polygon),
            final(self)@.wf(),
            id.index == old(self)@.push_index(),
            id.gen == old(self)@.next_gen,
            final(self)@.valid(id),
            final(self)@.len == old(self)@.len + 1,
    {
        let ghost pre = self@;
        let head = self.last;
        if let Some(last) = head {
            proof {
                assert(pre.free_entry_ok(0));
                assert(pre.free[0] == last);
            }
            self.polygon[last] = polygon;
            self.position[last] = position;
            self.rotation[last] = rotation;
            self.light[last] = light;
            self.velocity[last] = velocity;

            let next = self.gen[last].unwrap_none();
            self.gen[last] = Gen::Occupied { generation: self.next_gen };
            self.last = next;

            let cap = self.gen.len();
            proof {
                lemma_occ_count_lt_if_free(pre.slots, last as int);
                assert(pre.len < cap);
            }
            self.len = self.len + 1;
            self.free_order = Ghost(pre.free.skip(1));

            let id = ID::new(last, self.next_gen);
            proof {
                lemma_push_preserves_wf(pre, position, rotation, light, velocity, polygon);
                assert(self@ =~= pre.push_state(position, rotation, light, velocity, polygon));
            }
            id
        } else {
            let index = self.gen.len();
            self.gen.push(Gen::Occupied { generation: self.next_gen });
            self.polygon.push(polygon);
            self.position.push(position);
            self.rotation.push(rotation);
            self.light.push(light);
            self.velocity.push(velocity);

            let cap = self.gen.len();
            proof {
                lemma_occ_count_le_len(pre.slots);
                assert(pre.len < cap);
            }
            self.len = self.len + 1;

            let id = ID::new(index, self.next_gen);
            proof {
                lemma_push_preserves_wf(pre, position, rotation, light, velocity, polygon);
                assert(self@ =~= pre.push_state(position, rotation, light, velocity, polygon));
            }
            id
        }
    }

    /// Frees the record named by the handle: every column cell of its slot
    /// is cleared, the slot is pushed onto the free-list head, and the
    /// generation counter advances past the slot's generation if it had not
    /// already, so the slot's next occupant gets a strictly fresher
    /// generation. An invalid handle (stale, reused, or never issued) is
    /// reported as `InvalidID` and the arena is left untouched.
    pub fn remove(&mut self, id: ID) -> (r: Result<(), ECSError>)
        requires
            old(self)@.wf(),
        ensures
            final(self)@ == old(self)@.remove_state(id),
            final(self)@.wf(),
            r == (if old(self)@.valid(id) {
                Result::<(), ECSError>::Ok(())
            } else {
                Result::<(), ECSError>::Err(ECSError::InvalidID)
            }),
            old(self)@.valid(id) ==> !final(self)@.valid(id),
    {
        let ghost pre = self@;
        if self.valid_id(id) {
            self.polygon[id.index] = None;
            self.position[id.index] = None;
            self.rotation[id.index] = None;
            self.light[id.index] = None;
            self.velocity[id.index] = None;

            let slot_gen = self.gen[id.index].unwrap_some();
            if slot_gen >= self.next_gen && self.next_gen < u64::MAX {
                self.next_gen = self.next_gen + 1;
            }

            self.gen[id.index] = Gen::Free { next: self.last };
            self.last = Some(id.index);

            proof {
                lemma_occ_count_pos_if_occupied(pre.slots, id.index as int);
            }
            self.len = self.len - 1;
            self.free_order = Ghost(seq![id.index] + pre.free);

            proof {
                lemma_remove_preserves_wf(pre, id);
                assert(self@ =~= pre.remove_state(id));
            }
            Ok(())
        } else {
            Err(ECSError::InvalidID)
        }
    }

    /// True iff the handle names a live record: its slot exists, is
    /// occupied, and matches the handle's generation. Safe on any handle,
    /// including one into an arena that never allocated.
    pub fn valid_id(&self, id: ID) -> (r: bool)
        ensures
            r == self@.valid(id),
    {
        if id.index < self.gen.len() {
            match self.gen[id.index] {
                Gen::Occupied { generation } => generation == id.gen,
                Gen::Free { .. } => false,
            }
        } else {
            false
        }
    }

    /// The number of currently occupied slots.
    pub fn len(&self) -> (r: usize)
        ensures
            r == self@.len,
    {
        self.len
    }

    /// The total number of slots in the table, occupied or free.
    pub fn table_len(&self) -> (r: usize)
        ensures
            r == self@.slots.len(),
    {
        self.gen.len()
    }

    /// Reads the position cell of the record named by the handle. The cell
    /// may be absent even for a valid handle: attribute presence is
    /// independent of handle validity.
    pub fn position(&self, id: ID) -> (r: Result<&Option<Pos>, ECSError>)
        requires
            self@.wf(),
        ensures
            self@.valid(id) <==> r is Ok,
            r matches Ok(v) ==> *v == self@.position[id.index as int],
            r matches Err(e) ==> e == ECSError::InvalidID,
    {
        if self.valid_id(id) {
            Ok(&self.position[id.index])
        } else {
            Err(ECSError::InvalidID)
        }
    }

    /// Reads the rotation cell of the record named by the handle.
    pub fn rotation(&self, id: ID) -> (r: Result<&Option<Rot>, ECSError>)
        requires
            self@.wf(),
        ensures
            self@.valid(id) <==> r is Ok,
            r matches Ok(v) ==> *v == self@.rotation[id.index as int],
            r matches Err(e) ==> e == ECSError::InvalidID,
    {
        if self.valid_id(id) {
            Ok(&self.rotation[id.index])
        } else {
            Err(ECSError::InvalidID)
        }
    }

    /// Reads the light cell of the record named by the handle.
    pub fn light(&self, id: ID) -> (r: Result<&Option<Light>, ECSError>)
        requires
            self@.wf(),
        ensures
            self@.valid(id) <==> r is Ok,
            r matches Ok(v) ==> *v == self@.light[id.index as int],
            r matches Err(e) ==> e == ECSError::InvalidID,
    {
        if self.valid_id(id) {
            Ok(&self.light[id.index])
        } else {
            Err(ECSError::InvalidID)
        }
    }

    /// Reads the velocity cell of the record named by the handle.
    pub fn velocity(&self, id: ID) -> (r: Result<&Option<Vel>, ECSError>)
        requires
            self@.wf(),
        ensures
            self@.valid(id) <==> r is Ok,
            r matches Ok(v) ==> *v == self@.velocity[id.index as int],
            r matches Err(e) ==> e == ECSError::InvalidID,
    {
        if self.valid_id(id) {
            Ok(&self.velocity[id.index])
        } else {
            Err(ECSError::InvalidID)
        }
    }

    /// Reads the polygon cell of the record named by the handle.
    pub fn polygon(&self, id: ID) -> (r: Result<&Option<Poly>, ECSError>)
        requires
            self@.wf(),
        ensures
            self@.valid(id) <==> r is Ok,
            r matches Ok(v) ==> *v == self@.polygon[id.index as int],
            r matches Err(e) ==> e == ECSError::InvalidID,
    {
        if self.valid_id(id) {
            Ok(&self.polygon[id.index])
        } else {
            Err(ECSError::InvalidID)
        }
    }

    /// Overwrites (sets or clears) the position cell of the record named by
    /// the handle. Only that one cell changes; an invalid handle is
    /// reported and nothing changes.
    pub fn set_position(&mut self, id: ID, value: Option<Pos>) -> (r: Result<(), ECSError>)
        requires
            old(self)@.wf(),
        ensures
            final(self)@ == old(self)@.set_position_state(id, value),
            final(self)@.wf(),
            r == (if old(self)@.valid(id) {
                Result::<(), ECSError>::Ok(())
            } else {
                Result::<(), ECSError>::Err(ECSError::InvalidID)
            }),
    {
        let ghost pre = self@;
        if self.valid_id(id) {
            self.position[id.index] = value;
            proof {
                assert(self@ =~= pre.set_position_state(id, value));
                lemma_wf_after_column_write(pre, pre.set_position_state(id, value));
            }
            Ok(())
        } else {
            Err(ECSError::InvalidID)
        }
    }

    /// Overwrites (sets or clears) the rotation cell of the record named by
    /// the handle.
    pub fn set_rotation(&mut self, id: ID, value: Option<Rot>) -> (r: Result<(), ECSError>)
        requires
            old(self)@.wf(),
        ensures
            final(self)@ == old(self)@.set_rotation_state(id, value),
            final(self)@.wf(),
            r == (if old(self)@.valid(id) {
                Result::<(), ECSError>::Ok(())
            } else {
                Result::<(), ECSError>::Err(ECSError::InvalidID)
            }),
    {
        let ghost pre = self@;
        if self.valid_id(id) {
            self.rotation[id.index] = value;
            proof {
                assert(self@ =~= pre.set_rotation_state(id, value));
                lemma_wf_after_column_write(pre, pre.set_rotation_state(id, value));
            }
            Ok(())
        } else {
            Err(ECSError::InvalidID)
        }
    }

    /// Overwrites (sets or clears) the light cell of the record named by
    /// the handle.
    pub fn set_light(&mut self, id: ID, value: Option<Light>) -> (r: Result<(), ECSError>)
        requires
            old(self)@.wf(),
        ensures
            final(self)@ == old(self)@.set_light_state(id, value),
            final(self)@.wf(),
            r == (if old(self)@.valid(id) {
                Result::<(), ECSError>::Ok(())
            } else {
                Result::<(), ECSError>::Err(ECSError::InvalidID)
            }),
    {
        let ghost pre = self@;
        if self.valid_id(id) {
            self.light[id.index] = value;
            proof {
                assert(self@ =~= pre.set_light_state(id, value));
                lemma_wf_after_column_write(pre, pre.set_light_state(id, value));
            }
            Ok(())
        } else {
            Err(ECSError::InvalidID)
        }
    }

    /// Overwrites (sets or clears) the velocity cell of the record named by
    /// the handle.
    pub fn set_velocity(&mut self, id: ID, value: Option<Vel>) -> (r: Result<(), ECSError>)
        requires
            old(self)@.wf(),
        ensures
            final(self)@ == old(self)@.set_velocity_state(id, value),
            final(self)@.wf(),
            r == (if old(self)@.valid(id) {
                Result::<(), ECSError>::Ok(())
            } else {
                Result::<(), ECSError>::Err(ECSError::InvalidID)
            }),
    {
        let ghost pre = self@;
        if self.valid_id(id) {
            self.velocity[id.index] = value;
            proof {
                assert(self@ =~= pre.set_velocity_state(id, value));
                lemma_wf_after_column_write(pre, pre.set_velocity_state(id, value));
            }
            Ok(())
        } else {
            Err(ECSError::InvalidID)
        }
    }

    /// Overwrites (sets or clears) the polygon cell of the record named by
    /// the handle.
    pub fn set_polygon(&mut self, id: ID, value: Option<Poly>) -> (r: Result<(), ECSError>)
        requires
            old(self)@.wf(),
        ensures
            final(self)@ == old(self)@.set_polygon_state(id, value),
            final(self)@.wf(),
            r == (if old(self)@.valid(id) {
                Result::<(), ECSError>::Ok(())
            } else {
                Result::<(), ECSError>::Err(ECSError::InvalidID)
            }),
    {
        let ghost pre = self@;
        if self.valid_id(id) {
            self.polygon[id.index] = value;
            proof {
                assert(self@ =~= pre.set_polygon_state(id, value));
                lemma_wf_after_column_write(pre, pre.set_polygon_state(id, value));
            }
            Ok(())
        } else {
            Err(ECSError::InvalidID)
        }
    }

    /// Recovers the currently valid handle for an occupied slot index, or
    /// `None` if the index is out of range or the slot is free. This is how
    /// a presentation layer walks all live records once per frame.
    pub fn handle_at(&self, index: usize) -> (r: Option<ID>)
        ensures
            r == (if index < self@.slots.len() && self@.slots[index as int] is Occupied {
                Some(ID { index, gen: self@.slots[index as int]->generation })
            } else {
                None::<ID>
            }),
            r matches Some(id) ==> self@.valid(id),
    {
        if index < self.gen.len() {
            match self.gen[index] {
                Gen::Occupied { generation } => Some(ID::new(index, generation)),
                Gen::Free { .. } => None,
            }
        } else {
            None
        }
    }
}

} // verus!
