//! A uniform/instance buffer that rotates over several device buffers so the
//! CPU never writes a buffer the GPU may still be reading.
use vstd::prelude::*;

verus! {

/// One device buffer slot: the device buffer handle (if allocated), its
/// capacity in elements, and how many elements the last write used.
pub struct MultiMetalBuffer<B> {
    pub buffer: Option<B>,
    pub size: usize,
    pub used: usize,
}

/// Six buffer slots, of which writes rotate over the first three.
pub struct MetalBuffer<B> {
    pub last_written: usize,
    pub multi1: MultiMetalBuffer<B>,
    pub multi2: MultiMetalBuffer<B>,
    pub multi3: MultiMetalBuffer<B>,
    pub multi4: MultiMetalBuffer<B>,
    pub multi5: MultiMetalBuffer<B>,
    pub multi6: MultiMetalBuffer<B>,
}

/// The slot that a `last_written` value selects: 0 to 4 select themselves,
/// anything larger selects the sixth slot.
pub open spec fn slot_index(last_written: usize) -> nat {
    if last_written < 5 { last_written as nat } else { 5 }
}

/// The value `last_written` takes on a write.
pub open spec fn next_written(last_written: usize) -> usize {
    ((last_written + 1) % 3) as usize
}

impl<B> MultiMetalBuffer<B> {
    pub open spec fn empty() -> Self {
        MultiMetalBuffer { buffer: None, size: 0, used: 0 }
    }

    /// Creates a slot with no device buffer.
    pub fn new() -> (r: Self)
        ensures r == Self::empty(),
    {
        MultiMetalBuffer { buffer: None, size: 0, used: 0 }
    }
}

impl<B> MetalBuffer<B> {
    pub open spec fn slot(self, k: nat) -> MultiMetalBuffer<B> {
        if k == 0 { self.multi1 }
        else if k == 1 { self.multi2 }
        else if k == 2 { self.multi3 }
        else if k == 3 { self.multi4 }
        else if k == 4 { self.multi5 }
        else { self.multi6 }
    }

    pub open spec fn with_slot(self, k: nat, m: MultiMetalBuffer<B>) -> Self {
        if k == 0 { MetalBuffer { multi1: m, ..self } }
        else if k == 1 { MetalBuffer { multi2: m, ..self } }
        else if k == 2 { MetalBuffer { multi3: m, ..self } }
        else if k == 3 { MetalBuffer { multi4: m, ..self } }
        else if k == 4 { MetalBuffer { multi5: m, ..self } }
        else { MetalBuffer { multi6: m, ..self } }
    }

    /// The slot that `last_written` currently selects.
    pub open spec fn current(self) -> MultiMetalBuffer<B> {
        self.slot(slot_index(self.last_written))
    }

    pub open spec fn empty() -> Self {
        MetalBuffer {
            last_written: 0,
            multi1: MultiMetalBuffer::empty(),
            multi2: MultiMetalBuffer::empty(),
            multi3: MultiMetalBuffer::empty(),
            multi4: MultiMetalBuffer::empty(),
            multi5: MultiMetalBuffer::empty(),
            multi6: MultiMetalBuffer::empty(),
        }
    }

    /// Creates a buffer set with no device buffers, whose first write goes
    /// to the second slot.
    pub fn new() -> (r: Self)
        ensures r == Self::empty(),
    {
        MetalBuffer {
            last_written: 0,
            multi1: MultiMetalBuffer::new(),
            multi2: MultiMetalBuffer::new(),
            multi3: MultiMetalBuffer::new(),
            multi4: MultiMetalBuffer::new(),
            multi5: MultiMetalBuffer::new(),
            multi6: MultiMetalBuffer::new(),
        }
    }

    /// The slot that was written last, which the GPU is to read.
    pub fn multi_buffer_read(&self) -> (r: &MultiMetalBuffer<B>)
        ensures *r == self.current(),
    {
        match self.last_written {
            0 => &self.multi1,
            1 => &self.multi2,
            2 => &self.multi3,
            3 => &self.multi4,
            4 => &self.multi5,
            _ => &self.multi6,
        }
    }

    /// Advances `last_written` to the next of the three rotating slots and
    /// hands out that slot for writing.
    pub fn multi_buffer_write(&mut self) -> (r: &mut MultiMetalBuffer<B>)
        requires
            old(self).last_written < usize::MAX,
        ensures
            final(self).last_written == next_written(old(self).last_written),
            *r == old(self).slot(slot_index(next_written(old(self).last_written))),
            *final(self) == (MetalBuffer { last_written: next_written(old(self).last_written), ..*old(self) })
                .with_slot(slot_index(next_written(old(self).last_written)), *final(r)),
    {
        self.last_written = (self.last_written + 1) % 3;
        match self.last_written {
            0 => &mut self.multi1,
            1 => &mut self.multi2,
            2 => &mut self.multi3,
            3 => &mut self.multi4,
            4 => &mut self.multi5,
            _ => &mut self.multi6,
        }
    }

    /// The state after `begin_update(len)`: the write slot advances, a device
    /// buffer smaller than `len` elements is released, and the slot records
    /// `len` elements as used.
    pub open spec fn begin_update_spec(self, len: usize) -> Self {
        let k = slot_index(next_written(self.last_written));
        let s = self.slot(k);
        let s2 = MultiMetalBuffer {
            buffer: if s.size < len { None } else { s.buffer },
            size: s.size,
            used: len,
        };
        (MetalBuffer { last_written: next_written(self.last_written), ..self }).with_slot(k, s2)
    }

    /// The state after installing a freshly allocated device buffer of `len`
    /// elements in the current slot.
    pub open spec fn install_buffer_spec(self, buffer: B, len: usize) -> Self {
        let k = slot_index(self.last_written);
        let s = self.slot(k);
        self.with_slot(k, MultiMetalBuffer { buffer: Some(buffer), size: len, used: s.used })
    }

    /// The buffer-management half of a data upload of `len` elements: moves to
    /// the next write slot, drops its device buffer if it holds fewer than
    /// `len` elements, and records `len` as used. Returns whether the slot now
    /// needs a new device buffer (which the caller allocates with room for
    /// `len` elements and hands to `install_buffer`) before the data is copied.
    pub fn begin_update(&mut self, len: usize) -> (needs_buffer: bool)
        requires
            old(self).last_written < usize::MAX,
        ensures
            *final(self) == old(self).begin_update_spec(len),
            needs_buffer == final(self).current().buffer is None,
    {
        let elem = self.multi_buffer_write();
        if elem.size < len {
            elem.buffer = None;
        }
        elem.used = len;
        elem.buffer.is_none()
    }

    /// Installs a device buffer of `len` elements in the current slot.
    pub fn install_buffer(&mut self, buffer: B, len: usize)
        ensures
            *final(self) == old(self).install_buffer_spec(buffer, len),
    {
        let elem: &mut MultiMetalBuffer<B> = match self.last_written {
            0 => &mut self.multi1,
            1 => &mut self.multi2,
            2 => &mut self.multi3,
            3 => &mut self.multi4,
            4 => &mut self.multi5,
            _ => &mut self.multi6,
        };
        elem.buffer = Some(buffer);
        elem.size = len;
    }
}

/// A write is followed by a read of the very slot that was written, and no
/// other slot changes.
pub proof fn lemma_read_after_write<B>(m: MetalBuffer<B>, written: MultiMetalBuffer<B>)
    requires
        m.last_written < usize::MAX,
    ensures
        ({
            let k = slot_index(next_written(m.last_written));
            let m2 = (MetalBuffer { last_written: next_written(m.last_written), ..m }).with_slot(k, written);
            &&& m2.current() == written
            &&& forall|j: nat| j != k ==> #[trigger] m2.slot(j) == m.slot(j)
        }),
{
}

/// Writes rotate over the first three slots only: after any write the
/// selected slot is one of them, and three writes come back to the slot
/// they started from.
pub proof fn lemma_writes_rotate(last_written: usize)
    ensures
        next_written(last_written) < 3,
        slot_index(next_written(last_written)) < 3,
        last_written < 3 ==> next_written(next_written(next_written(last_written))) == last_written,
{
}

/// Writes go round the first three slots in order: first, second, third,
/// then the first again; from outside the rotation they go to the slot
/// after `last_written` modulo three.
pub proof fn lemma_write_order(last_written: usize)
    requires
        last_written < usize::MAX,
    ensures
        last_written < 2 ==> next_written(last_written) == last_written + 1,
        last_written == 2 ==> next_written(last_written) == 0,
        next_written(last_written) == (last_written + 1) % 3,
        last_written < 5 ==> slot_index(last_written) == last_written,
        last_written >= 5 ==> slot_index(last_written) == 5,
{
}

/// After an update of `len` elements, once a needed buffer of `len`
/// elements is installed, the current slot holds a device buffer with room
/// for at least `len` elements and records `len` as used; a slot that
/// already had room keeps its device buffer.
pub proof fn lemma_update_leaves_room<B>(m: MetalBuffer<B>, len: usize, fresh: B)
    requires
        m.last_written < usize::MAX,
    ensures
        ({
            let m1 = m.begin_update_spec(len);
            let m2 = if m1.current().buffer is None { m1.install_buffer_spec(fresh, len) } else { m1 };
            &&& m2.current().buffer is Some
            &&& m2.current().size >= len
            &&& m2.current().used == len
            &&& m2.last_written == next_written(m.last_written)
            &&& (m.slot(slot_index(next_written(m.last_written))).buffer is Some
                 && m.slot(slot_index(next_written(m.last_written))).size >= len)
                ==> m2.current().buffer == m.slot(slot_index(next_written(m.last_written))).buffer
        }),
{
}

} // verus!
