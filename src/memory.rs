//! The segment store: every memory segment of the machine, and the pool of
//! identifiers that unmapping has released.
use crate::fault::Fault;
use vstd::prelude::*;

verus! {

/// The abstract contents of a segment store.
#[verifier::ext_equal]
pub struct SegmentsView {
    /// Slot `id` holds the words of segment `id`, or `None` where that
    /// identifier is not live.
    pub slots: Seq<Option<Seq<u32>>>,
    /// Released identifiers; the last one is handed out first.
    pub pool: Seq<u32>,
}

/// A new segment of `len` words, each zero.
pub open spec fn zeros(len: nat) -> Seq<u32> {
    Seq::new(len, |i: int| 0u32)
}

impl SegmentsView {
    /// Whether `id` names a live segment.
    pub open spec fn is_live(self, id: int) -> bool {
        0 <= id < self.slots.len() && self.slots[id] is Some
    }

    /// The words of live segment `id`.
    pub open spec fn segment(self, id: int) -> Seq<u32> {
        self.slots[id]->0
    }

    /// Whether `offset` is a word of live segment `id`.
    pub open spec fn in_bounds(self, id: int, offset: int) -> bool {
        self.is_live(id) && 0 <= offset < self.segment(id).len()
    }

    /// Segment 0 exists; identifiers fit in a word; live segments are
    /// addressable by a word offset; the pool holds distinct identifiers of
    /// dead slots other than 0.
    pub open spec fn wf(self) -> bool {
        &&& 1 <= self.slots.len() <= u32::MAX + 1
        &&& self.is_live(0)
        &&& forall|id: int| #[trigger] self.is_live(id) ==> self.segment(id).len() <= u32::MAX
        &&& forall|i: int|
            0 <= i < self.pool.len() ==> 0 < #[trigger] self.pool[i] < self.slots.len()
                && !self.is_live(self.pool[i] as int)
        &&& self.pool.no_duplicates()
    }

    /// Whether an identifier is left for `allocate`.
    pub open spec fn can_allocate(self) -> bool {
        self.pool.len() > 0 || self.slots.len() <= u32::MAX
    }

    /// The identifier that the next allocation hands out: the most recently
    /// released one, or else one above every identifier issued so far.
    pub open spec fn next_id(self) -> int {
        if self.pool.len() > 0 {
            self.pool.last() as int
        } else {
            self.slots.len() as int
        }
    }

    /// The store after allocating a segment of `len` words.
    pub open spec fn allocated(self, len: nat) -> SegmentsView {
        if self.pool.len() > 0 {
            SegmentsView {
                slots: self.slots.update(self.pool.last() as int, Some(zeros(len))),
                pool: self.pool.drop_last(),
            }
        } else {
            SegmentsView { slots: self.slots.push(Some(zeros(len))), pool: self.pool }
        }
    }

    /// The store after unmapping segment `id`.
    pub open spec fn freed(self, id: int) -> SegmentsView {
        SegmentsView { slots: self.slots.update(id, None), pool: self.pool.push(id as u32) }
    }

    /// The store after writing `value` at `offset` of segment `id`.
    pub open spec fn written(self, id: int, offset: int, value: u32) -> SegmentsView {
        SegmentsView {
            slots: self.slots.update(id, Some(self.segment(id).update(offset, value))),
            pool: self.pool,
        }
    }

    /// The store after `LoadProgram` from segment `id`: segment 0 becomes a
    /// copy of segment `id`, unless `id` is 0.
    pub open spec fn program_loaded(self, id: int) -> SegmentsView {
        if id == 0 {
            self
        } else {
            SegmentsView { slots: self.slots.update(0, self.slots[id]), pool: self.pool }
        }
    }
}

/// The abstract contents of one slot of the store.
pub open spec fn slot_view(slot: Option<Vec<u32>>) -> Option<Seq<u32>> {
    match slot {
        Some(v) => Some(v@),
        None => None,
    }
}

/// The segment store of a machine.
pub struct Segments {
    slots: Vec<Option<Vec<u32>>>,
    free: Vec<u32>,
}

impl View for Segments {
    type V = SegmentsView;

    closed spec fn view(&self) -> SegmentsView {
        SegmentsView { slots: self.slots@.map_values(|s: Option<Vec<u32>>| slot_view(s)), pool: self.free@ }
    }
}

impl Segments {
    /// A store whose only segment is `program`, as segment 0.
    pub fn new(program: Vec<u32>) -> (r: Segments)
        requires
            program.len() <= u32::MAX,
        ensures
            r@ == (SegmentsView { slots: seq![Some(program@)], pool: seq![] }),
            r@.wf(),
    {
        let ghost p = program@;
        let mut slots: Vec<Option<Vec<u32>>> = Vec::new();
        slots.push(Some(program));
        let r = Segments { slots, free: Vec::new() };
        assert(r@.slots =~= seq![Some(p)]);
        assert(r@ =~= (SegmentsView { slots: seq![Some(p)], pool: seq![] }));
        r
    }

    /// Whether `id` names a live segment.
    pub fn is_live(&self, id: u32) -> (r: bool)
        ensures
            r == self@.is_live(id as int),
    {
        (id as usize) < self.slots.len() && self.slots[id as usize].is_some()
    }

    /// The word at `offset` of segment `id`.
    pub fn read(&self, id: u32, offset: u32) -> (r: Result<u32, Fault>)
        ensures
            self@.in_bounds(id as int, offset as int) ==> r == Ok::<u32, Fault>(
                self@.segment(id as int)[offset as int],
            ),
            !self@.is_live(id as int) ==> r == Err::<u32, Fault>(Fault::InvalidSegment),
            self@.is_live(id as int) && !self@.in_bounds(id as int, offset as int) ==> r == Err::<
                u32,
                Fault,
            >(Fault::OutOfBounds),
    {
        if (id as usize) >= self.slots.len() {
            return Err(Fault::InvalidSegment);
        }
        match &self.slots[id as usize] {
            Some(seg) => {
                if (offset as usize) < seg.len() {
                    Ok(seg[offset as usize])
                } else {
                    Err(Fault::OutOfBounds)
                }
            },
            None => Err(Fault::InvalidSegment),
        }
    }

    /// Writes `value` at `offset` of segment `id`.
    pub fn write(&mut self, id: u32, offset: u32, value: u32) -> (r: Result<(), Fault>)
        requires
            old(self)@.wf(),
        ensures
            final(self)@.wf(),
            old(self)@.in_bounds(id as int, offset as int) ==> r == Ok::<(), Fault>(())
                && final(self)@ == old(self)@.written(id as int, offset as int, value),
            !old(self)@.is_live(id as int) ==> r == Err::<(), Fault>(Fault::InvalidSegment),
            old(self)@.is_live(id as int) && !old(self)@.in_bounds(id as int, offset as int) ==> r
                == Err::<(), Fault>(Fault::OutOfBounds),
            r is Err ==> final(self)@ == old(self)@,
    {
        if let Err(e) = self.read(id, offset) {
            return Err(e);
        }
        let ghost before = self@;
        match &mut self.slots[id as usize] {
            Some(seg) => {
                seg[offset as usize] = value;
            },
            None => {},
        }
        assert(self@.slots =~= before.written(id as int, offset as int, value).slots);
        assert(self@ =~= before.written(id as int, offset as int, value));
        assert forall|k: int| #[trigger] self@.is_live(k) implies self@.segment(k).len() <= u32::MAX by {
            assert(before.is_live(k));
        }
        Ok(())
    }

    /// Maps a new zero-filled segment of `len` words and returns its
    /// identifier.
    pub fn allocate(&mut self, len: u32) -> (r: Result<u32, Fault>)
        requires
            old(self)@.wf(),
        ensures
            final(self)@.wf(),
            old(self)@.can_allocate() ==> r == Ok::<u32, Fault>(old(self)@.next_id() as u32)
                && final(self)@ == old(self)@.allocated(len as nat),
            !old(self)@.can_allocate() ==> r == Err::<u32, Fault>(Fault::IdentifiersExhausted)
                && final(self)@ == old(self)@,
    {
        let ghost before = self@;
        if self.free.len() == 0 && self.slots.len() > u32::MAX as usize {
            return Err(Fault::IdentifiersExhausted);
        }
        let fresh: Vec<u32> = vec![0u32; len as usize];
        assert(fresh@ =~= zeros(len as nat));
        let id: u32;
        match self.free.pop() {
            Some(reused) => {
                id = reused;
                self.slots[reused as usize] = Some(fresh);
            },
            None => {
                id = self.slots.len() as u32;
                self.slots.push(Some(fresh));
            },
        }
        let ghost after = before.allocated(len as nat);
        assert(self@.slots =~= after.slots);
        assert(self@ =~= after);
        assert forall|i: int| 0 <= i < after.pool.len() implies 0 < #[trigger] after.pool[i]
            < after.slots.len() && !after.is_live(after.pool[i] as int) by {
            assert(after.pool[i] == before.pool[i]);
            if before.pool.len() > 0 {
                assert(before.pool[i] != before.pool.last());
            }
        }
        assert forall|k: int| #[trigger] after.is_live(k) implies after.segment(k).len()
            <= u32::MAX by {
            if k != before.next_id() {
                assert(before.is_live(k));
            }
        }
        Ok(id)
    }

    /// Unmaps segment `id` and releases its identifier to the pool.
    pub fn free(&mut self, id: u32) -> (r: Result<(), Fault>)
        requires
            old(self)@.wf(),
        ensures
            final(self)@.wf(),
            id != 0 && old(self)@.is_live(id as int) ==> r == Ok::<(), Fault>(()) && final(self)@
                == old(self)@.freed(id as int),
            !(id != 0 && old(self)@.is_live(id as int)) ==> r == Err::<(), Fault>(
                Fault::InvalidSegment,
            ) && final(self)@ == old(self)@,
    {
        if id == 0 || !self.is_live(id) {
            return Err(Fault::InvalidSegment);
        }
        let ghost before = self@;
        self.slots[id as usize] = None;
        self.free.push(id);
        let ghost after = before.freed(id as int);
        assert(self@.slots =~= after.slots);
        assert(self@ =~= after);
        assert forall|i: int| 0 <= i < after.pool.len() implies 0 < #[trigger] after.pool[i]
            < after.slots.len() && !after.is_live(after.pool[i] as int) by {
            if i < before.pool.len() {
                assert(after.pool[i] == before.pool[i]);
            }
        }
        assert forall|k: int| #[trigger] after.is_live(k) implies after.segment(k).len()
            <= u32::MAX by {
            assert(before.is_live(k));
        }
        assert(after.pool.no_duplicates()) by {
            assert forall|i: int, j: int|
                0 <= i < after.pool.len() && 0 <= j < after.pool.len() && i != j implies after.pool[i]
                != after.pool[j] by {
                if i < before.pool.len() && j < before.pool.len() {
                } else if i < before.pool.len() {
                    assert(!before.is_live(before.pool[i] as int));
                } else {
                    assert(!before.is_live(before.pool[j] as int));
                }
            }
        }
        Ok(())
    }

    /// Replaces segment 0 by a copy of segment `id`; with `id` 0, leaves the
    /// store as it is.
    pub fn load_program(&mut self, id: u32) -> (r: Result<(), Fault>)
        requires
            old(self)@.wf(),
        ensures
            final(self)@.wf(),
            old(self)@.is_live(id as int) ==> r == Ok::<(), Fault>(()) && final(self)@ == old(
                self,
            )@.program_loaded(id as int),
            !old(self)@.is_live(id as int) ==> r == Err::<(), Fault>(Fault::InvalidSegment)
                && final(self)@ == old(self)@,
    {
        if !self.is_live(id) {
            return Err(Fault::InvalidSegment);
        }
        if id == 0 {
            return Ok(());
        }
        let ghost before = self@;
        let copy: Option<Vec<u32>> = match &self.slots[id as usize] {
            Some(seg) => Some(seg.clone()),
            None => None,
        };
        self.slots[0] = copy;
        let ghost after = before.program_loaded(id as int);
        assert(self@.slots =~= after.slots);
        assert(self@ =~= after);
        assert forall|k: int| #[trigger] after.is_live(k) implies after.segment(k).len()
            <= u32::MAX by {
            if k == 0 {
                assert(before.is_live(id as int));
            } else {
                assert(before.is_live(k));
            }
        }
        assert forall|i: int| 0 <= i < after.pool.len() implies 0 < #[trigger] after.pool[i]
            < after.slots.len() && !after.is_live(after.pool[i] as int) by {
            assert(!before.is_live(before.pool[i] as int));
        }
        Ok(())
    }
}

} // verus!
