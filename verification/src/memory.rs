//! A fixed-size, byte-addressable memory, indexed by 16-bit addresses.

use vstd::prelude::*;

verus! {

/// A linearly addressed array of byte cells. The size is fixed at
/// construction; every access must name an address below that size.
pub struct Memory {
    pub data: Vec<u8>,
}

impl View for Memory {
    type V = Seq<u8>;

    open spec fn view(&self) -> Seq<u8> {
        self.data@
    }
}

impl Memory {
    /// The size fits the 16-bit address space, so the halt sentinel
    /// (an instruction pointer equal to the size) fits in a `u16`.
    pub open spec fn wf(&self) -> bool {
        self@.len() <= 0xFFFF
    }

    /// A memory of `size` zeroed cells.
    pub fn new(size: usize) -> (m: Memory)
        requires
            size <= 0xFFFF,
        ensures
            m.wf(),
            m@.len() == size,
            forall|i: int| 0 <= i < size ==> m@[i] == 0,
    {
        let mut data: Vec<u8> = Vec::new();
        while data.len() < size
            invariant
                data@.len() <= size,
                forall|i: int| 0 <= i < data@.len() ==> data@[i] == 0,
            decreases size - data@.len(),
        {
            data.push(0u8);
        }
        Memory { data }
    }

    /// The cell at `address`.
    pub fn read(&self, address: u16) -> (b: u8)
        requires
            address < self@.len(),
        ensures
            b == self@[address as int],
    {
        self.data[address as usize]
    }

    /// Stores `value` at `address`; no other cell changes.
    pub fn write(&mut self, address: u16, value: u8)
        requires
            address < old(self)@.len(),
        ensures
            final(self)@ == old(self)@.update(address as int, value),
    {
        self.data.set(address as usize, value);
    }
}

} // verus!
