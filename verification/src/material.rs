//! The material resource table: instances stored once, addressed by
//! generation-tagged handles.
//!
//! Entities never hold an instance, only a [`MaterialHandle`]. Many entities
//! may hold the same handle, so one edit reaches all of them. A handle names
//! a slot and the generation of the slot's occupant; once the occupant is
//! removed the handle stays stale forever, even after the slot is reused.

use crate::error::RenderError;
use vstd::prelude::*;

verus! {

/// An RGB colour. Each channel holds the bit pattern of a 32-bit float.
#[derive(Clone, Copy, Debug, PartialEq, Eq)]
pub struct Rgb {
    pub r: u32,
    pub g: u32,
    pub b: u32,
}

/// The shader-visible fields of one material.
#[derive(Clone, Copy, Debug, PartialEq, Eq)]
pub struct MaterialInstance {
    pub albedo: Rgb,
}

/// Key into the material table: a slot and the generation of its occupant.
#[derive(Clone, Copy, Debug, PartialEq, Eq)]
pub struct MaterialHandle {
    pub index: usize,
    pub generation: u64,
}

/// One slot of the table.
#[derive(Clone, Copy, Debug, PartialEq, Eq)]
pub struct Slot {
    /// Generation of the current occupant, or of the last one when empty.
    pub generation: u64,
    /// The occupant; `None` once it has been removed.
    pub instance: Option<MaterialInstance>,
    /// Set by every mutation, cleared at the end of a binding pass.
    pub dirty: bool,
}

/// The table as mathematics: its slots in index order.
pub struct TableModel {
    pub slots: Seq<Slot>,
}

/// One mutation of the table.
pub enum TableOp {
    Add(MaterialInstance),
    Update(MaterialHandle, MaterialInstance),
    Remove(MaterialHandle),
    ClearDirty,
}

impl TableModel {
    pub open spec fn empty() -> TableModel {
        TableModel { slots: Seq::empty() }
    }

    /// Only occupied slots are dirty.
    pub open spec fn wf(self) -> bool {
        forall|i: int|
            0 <= i < self.slots.len() && (#[trigger] self.slots[i]).dirty
                ==> self.slots[i].instance is Some
    }

    /// `h` names an occupied slot whose generation it carries.
    pub open spec fn live(self, h: MaterialHandle) -> bool {
        &&& h.index < self.slots.len()
        &&& self.slots[h.index as int].generation == h.generation
        &&& self.slots[h.index as int].instance is Some
    }

    /// The slot `h` names has moved past `h`: it is empty, or holds a later
    /// generation.
    pub open spec fn retired(self, h: MaterialHandle) -> bool {
        &&& h.index < self.slots.len()
        &&& {
            ||| self.slots[h.index as int].generation > h.generation
            ||| (self.slots[h.index as int].generation == h.generation
                && self.slots[h.index as int].instance is None)
        }
    }

    /// What a lookup of `h` answers.
    pub open spec fn lookup(self, h: MaterialHandle) -> Result<MaterialInstance, RenderError> {
        if self.live(h) {
            Ok(self.slots[h.index as int].instance->Some_0)
        } else {
            Err(RenderError::StaleHandle)
        }
    }

    /// The instance behind `h` has been mutated since the last binding pass.
    pub open spec fn is_dirty(self, h: MaterialHandle) -> bool {
        self.live(h) && self.slots[h.index as int].dirty
    }

    /// Slot `i` is empty and its generation can still advance.
    pub open spec fn reusable(self, i: int) -> bool {
        &&& 0 <= i < self.slots.len()
        &&& self.slots[i].instance is None
        &&& self.slots[i].generation < u64::MAX
    }

    /// `i` is the lowest reusable slot.
    pub open spec fn lowest_reusable(self, i: int) -> bool {
        &&& self.reusable(i)
        &&& forall|j: int| 0 <= j < i ==> !self.reusable(j)
    }

    /// Where the next instance goes: the lowest reusable slot, or a new slot
    /// at the end when none is reusable.
    pub open spec fn next_index(self) -> int {
        if exists|i: int| self.lowest_reusable(i) {
            choose|i: int| self.lowest_reusable(i)
        } else {
            self.slots.len() as int
        }
    }

    /// The handle the next `add` hands out.
    pub open spec fn next_handle(self) -> MaterialHandle {
        let i = self.next_index();
        if i < self.slots.len() {
            MaterialHandle {
                index: i as usize,
                generation: (self.slots[i].generation + 1) as u64,
            }
        } else {
            MaterialHandle { index: i as usize, generation: 0 }
        }
    }

    pub open spec fn after_add(self, instance: MaterialInstance) -> TableModel {
        let i = self.next_index();
        let slot = Slot {
            generation: self.next_handle().generation,
            instance: Some(instance),
            dirty: false,
        };
        if i < self.slots.len() {
            TableModel { slots: self.slots.update(i, slot) }
        } else {
            TableModel { slots: self.slots.push(slot) }
        }
    }

    /// Replaces the instance behind a live handle and marks it dirty; a stale
    /// handle changes nothing.
    pub open spec fn after_update(self, h: MaterialHandle, instance: MaterialInstance) -> TableModel {
        if self.live(h) {
            TableModel {
                slots: self.slots.update(
                    h.index as int,
                    Slot { generation: h.generation, instance: Some(instance), dirty: true },
                ),
            }
        } else {
            self
        }
    }

    /// Empties the slot behind a live handle; a stale handle changes nothing.
    pub open spec fn after_remove(self, h: MaterialHandle) -> TableModel {
        if self.live(h) {
            TableModel {
                slots: self.slots.update(
                    h.index as int,
                    Slot { generation: h.generation, instance: None, dirty: false },
                ),
            }
        } else {
            self
        }
    }

    pub open spec fn after_clear_dirty(self) -> TableModel {
        TableModel {
            slots: Seq::new(
                self.slots.len(),
                |i: int|
                    Slot {
                        generation: self.slots[i].generation,
                        instance: self.slots[i].instance,
                        dirty: false,
                    },
            ),
        }
    }

    pub open spec fn apply(self, op: TableOp) -> TableModel {
        match op {
            TableOp::Add(instance) => self.after_add(instance),
            TableOp::Update(h, instance) => self.after_update(h, instance),
            TableOp::Remove(h) => self.after_remove(h),
            TableOp::ClearDirty => self.after_clear_dirty(),
        }
    }

    /// The table after the mutations `ops`, first to last.
    pub open spec fn apply_all(self, ops: Seq<TableOp>) -> TableModel
        decreases ops.len(),
    {
        if ops.len() == 0 {
            self
        } else {
            self.apply_all(ops.drop_last()).apply(ops.last())
        }
    }
}

/// The lowest reusable slot is unique, so finding it settles `next_index`.
pub proof fn lemma_next_index(t: TableModel, i: int)
    requires
        t.lowest_reusable(i) || (i == t.slots.len() && forall|j: int| !t.reusable(j)),
    ensures
        t.next_index() == i,
{
    if t.lowest_reusable(i) {
        let c = choose|c: int| t.lowest_reusable(c);
        if c < i {
            assert(!t.reusable(c));
        } else if i < c {
            assert(!t.reusable(i));
        }
    } else {
        if exists|c: int| t.lowest_reusable(c) {
            let c = choose|c: int| t.lowest_reusable(c);
            assert(!t.reusable(c));
        }
    }
}

/// The next handle lies in the table or just past its end, and when it reuses
/// a slot that slot is reusable.
pub proof fn lemma_next_handle(t: TableModel)
    ensures
        0 <= t.next_index() <= t.slots.len(),
        t.next_index() < t.slots.len() ==> t.reusable(t.next_index()),
        t.slots.len() <= usize::MAX ==> !t.live(t.next_handle()),
{
    if exists|i: int| t.lowest_reusable(i) {
        let c = choose|c: int| t.lowest_reusable(c);
        assert(t.reusable(c));
    }
}

/// Every mutation keeps the table well-formed.
pub proof fn lemma_apply_keeps_wf(t: TableModel, op: TableOp)
    requires
        t.wf(),
    ensures
        t.apply(op).wf(),
{
    lemma_next_handle(t);
}

/// A handle handed out by `add` resolves to the instance that was added.
pub proof fn lemma_add_then_get(t: TableModel, instance: MaterialInstance)
    requires
        t.slots.len() <= usize::MAX,
    ensures
        t.after_add(instance).lookup(t.next_handle()) == Ok::<MaterialInstance, RenderError>(
            instance,
        ),
        !t.after_add(instance).is_dirty(t.next_handle()),
{
    lemma_next_handle(t);
}

/// A mutation through a live handle is what every later lookup of that handle
/// sees, and it marks the instance dirty.
pub proof fn lemma_update_then_get(t: TableModel, h: MaterialHandle, instance: MaterialInstance)
    requires
        t.live(h),
    ensures
        t.after_update(h, instance).lookup(h) == Ok::<MaterialInstance, RenderError>(instance),
        t.after_update(h, instance).is_dirty(h),
{
}

/// Once the slot behind a handle has moved past it, no mutation brings the
/// handle back.
pub proof fn lemma_retired_stays_retired(t: TableModel, h: MaterialHandle, op: TableOp)
    requires
        t.retired(h),
    ensures
        t.apply(op).retired(h),
{
    lemma_next_handle(t);
}

/// A handle whose instance was removed fails every later lookup with
/// `StaleHandle`, whatever is added, changed or removed afterwards: reuse of
/// the slot never makes the old handle resolve to unrelated data.
pub proof fn lemma_removed_handle_stays_stale(t: TableModel, h: MaterialHandle, ops: Seq<TableOp>)
    requires
        t.live(h),
    ensures
        t.after_remove(h).apply_all(ops).retired(h),
        t.after_remove(h).apply_all(ops).lookup(h) == Err::<MaterialInstance, RenderError>(
            RenderError::StaleHandle,
        ),
    decreases ops.len(),
{
    if ops.len() > 0 {
        lemma_removed_handle_stays_stale(t, h, ops.drop_last());
        lemma_retired_stays_retired(t.after_remove(h).apply_all(ops.drop_last()), h, ops.last());
    }
}

/// The table of material instances.
pub struct MaterialTable {
    slots: Vec<Slot>,
}

impl View for MaterialTable {
    type V = TableModel;

    closed spec fn view(&self) -> TableModel {
        TableModel { slots: self.slots@ }
    }
}

impl MaterialTable {
    pub open spec fn wf(&self) -> bool {
        self@.wf()
    }

    /// A table without slots.
    pub fn new() -> (t: Self)
        ensures
            t.wf(),
            t@ == TableModel::empty(),
    {
        MaterialTable { slots: Vec::new() }
    }

    /// Number of slots, occupied or not.
    pub fn slot_count(&self) -> (n: usize)
        ensures
            n == self@.slots.len(),
    {
        self.slots.len()
    }

    /// Stores `instance` and hands out its handle. The lowest reusable slot
    /// is taken, with its generation advanced by one; when no slot is
    /// reusable a new one is appended with generation zero.
    pub fn add(&mut self, instance: MaterialInstance) -> (h: MaterialHandle)
        requires
            old(self).wf(),
        ensures
            final(self).wf(),
            h == old(self)@.next_handle(),
            final(self)@ == old(self)@.after_add(instance),
            final(self)@.lookup(h) == Ok::<MaterialInstance, RenderError>(instance),
    {
        let mut i: usize = 0;
        while i < self.slots.len()
            invariant
                i <= self.slots.len(),
                *self == *old(self),
                self.wf(),
                forall|j: int| 0 <= j < i ==> !self@.reusable(j),
            decreases self.slots.len() - i,
        {
            if self.slots[i].instance.is_none() && self.slots[i].generation < u64::MAX {
                proof {
                    lemma_next_index(self@, i as int);
                }
                let generation = self.slots[i].generation + 1;
                self.slots.set(i, Slot { generation, instance: Some(instance), dirty: false });
                return MaterialHandle { index: i, generation };
            }
            i += 1;
        }
        proof {
            lemma_next_index(self@, i as int);
        }
        self.slots.push(Slot { generation: 0, instance: Some(instance), dirty: false });
        MaterialHandle { index: i, generation: 0 }
    }

    /// The instance behind `h`, or `StaleHandle` when `h` no longer names the
    /// occupant of its slot.
    pub fn get(&self, h: MaterialHandle) -> (r: Result<MaterialInstance, RenderError>)
        ensures
            r == self@.lookup(h),
    {
        if h.index < self.slots.len() && self.slots[h.index].generation == h.generation {
            match self.slots[h.index].instance {
                Some(instance) => Ok(instance),
                None => Err(RenderError::StaleHandle),
            }
        } else {
            Err(RenderError::StaleHandle)
        }
    }

    /// Whether `h` still names the occupant of its slot.
    pub fn contains(&self, h: MaterialHandle) -> (r: bool)
        ensures
            r == self@.live(h),
    {
        h.index < self.slots.len() && self.slots[h.index].generation == h.generation
            && self.slots[h.index].instance.is_some()
    }

    /// Replaces the instance behind `h` and marks it dirty for the next
    /// binding pass. A stale handle fails with `StaleHandle` and changes
    /// nothing.
    pub fn update(&mut self, h: MaterialHandle, instance: MaterialInstance) -> (r: Result<
        (),
        RenderError,
    >)
        requires
            old(self).wf(),
        ensures
            final(self).wf(),
            r is Ok <==> old(self)@.live(h),
            r is Err ==> r == Err::<(), RenderError>(RenderError::StaleHandle),
            final(self)@ == old(self)@.after_update(h, instance),
    {
        if self.contains(h) {
            self.slots.set(
                h.index,
                Slot { generation: h.generation, instance: Some(instance), dirty: true },
            );
            Ok(())
        } else {
            Err(RenderError::StaleHandle)
        }
    }

    /// Removes and returns the instance behind `h`; from then on `h` is
    /// stale. A handle that is already stale fails with `StaleHandle` and
    /// changes nothing.
    pub fn remove(&mut self, h: MaterialHandle) -> (r: Result<MaterialInstance, RenderError>)
        requires
            old(self).wf(),
        ensures
            final(self).wf(),
            r == old(self)@.lookup(h),
            final(self)@ == old(self)@.after_remove(h),
            final(self)@.lookup(h) == Err::<MaterialInstance, RenderError>(
                RenderError::StaleHandle,
            ),
    {
        let found = self.get(h);
        if found.is_ok() {
            self.slots.set(
                h.index,
                Slot { generation: h.generation, instance: None, dirty: false },
            );
        }
        found
    }

    /// Whether the instance behind `h` was mutated since the last binding
    /// pass; `false` for a stale handle.
    pub fn is_dirty(&self, h: MaterialHandle) -> (r: bool)
        ensures
            r == self@.is_dirty(h),
    {
        self.contains(h) && self.slots[h.index].dirty
    }

    /// Ends a binding pass: no instance is dirty afterwards, nothing else
    /// changes.
    pub fn clear_dirty(&mut self)
        requires
            old(self).wf(),
        ensures
            final(self).wf(),
            final(self)@ == old(self)@.after_clear_dirty(),
    {
        let mut i: usize = 0;
        while i < self.slots.len()
            invariant
                i <= self.slots.len(),
                self.slots.len() == old(self).slots.len(),
                forall|j: int|
                    0 <= j < i ==> (#[trigger] self.slots[j]) == (Slot {
                        generation: old(self).slots[j].generation,
                        instance: old(self).slots[j].instance,
                        dirty: false,
                    }),
                forall|j: int| i <= j < self.slots.len() ==> self.slots[j] == old(self).slots[j],
            decreases self.slots.len() - i,
        {
            let slot = self.slots[i];
            self.slots.set(
                i,
                Slot { generation: slot.generation, instance: slot.instance, dirty: false },
            );
            i += 1;
        }
        assert(self@.slots =~= old(self)@.after_clear_dirty().slots);
    }
}

} // verus!
