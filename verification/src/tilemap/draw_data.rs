use vstd::prelude::*;

verus! {

/// Phase payload of one tilemap draw: which prepared chunk it draws, which
/// of the chunk's instances, and which model matrix slot it uses.
#[derive(Clone, Copy, Debug, PartialEq, Eq, Structural)]
pub struct TilemapDrawData {
    pub payload_index: u32,
    pub first_instance: u32,
    /// Number of instances to draw; `u32::MAX` draws the rest of the chunk.
    pub instance_count: u32,
    pub model_slot: u32,
}

impl TilemapDrawData {
    pub fn new_chunk_range(chunk_index: u32, first_instance: u32, instance_count: u32) -> (r:
        TilemapDrawData)
        ensures
            r == (TilemapDrawData {
                payload_index: chunk_index,
                first_instance,
                instance_count,
                model_slot: 0,
            }),
    {
        TilemapDrawData { payload_index: chunk_index, first_instance, instance_count, model_slot: 0 }
    }

    pub fn payload_index(self) -> (r: u32)
        ensures
            r == self.payload_index,
    {
        self.payload_index
    }

    pub fn model_slot(self) -> (r: u32)
        ensures
            r == self.model_slot,
    {
        self.model_slot
    }

    pub fn set_model_slot(&mut self, model_slot: u32)
        ensures
            *final(self) == (TilemapDrawData { model_slot, ..*old(self) }),
    {
        self.model_slot = model_slot;
    }

    /// The instances to draw out of a chunk of `chunk_instance_count`
    /// instances, as a half-open range clamped into the chunk.
    pub fn instance_range(self, chunk_instance_count: u32) -> (r: (u32, u32))
        ensures
            r.0 == (if self.first_instance <= chunk_instance_count {
                self.first_instance
            } else {
                chunk_instance_count
            }),
            r.1 == (if self.instance_count == u32::MAX || r.0 + self.instance_count
                >= chunk_instance_count {
                chunk_instance_count
            } else {
                (r.0 + self.instance_count) as u32
            }),
            r.0 <= r.1 <= chunk_instance_count,
    {
        let start = if self.first_instance <= chunk_instance_count {
            self.first_instance
        } else {
            chunk_instance_count
        };
        let count = if self.instance_count == u32::MAX {
            chunk_instance_count - start
        } else {
            self.instance_count
        };
        let end = start.saturating_add(count);
        let end = if end <= chunk_instance_count {
            end
        } else {
            chunk_instance_count
        };
        (start, end)
    }
}

} // verus!
