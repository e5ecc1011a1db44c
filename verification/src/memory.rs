use vstd::prelude::*;

use crate::Chip8Error;
use crate::RAM_SIZE;

verus! {

/// Flat bounds-checked byte store covering the whole emulated address space.
pub struct Memory {
    inner: Vec<u8>,
}

impl View for Memory {
    type V = Seq<u8>;

    closed spec fn view(&self) -> Seq<u8> {
        self.inner@
    }
}

impl Memory {
    /// The store always spans exactly `RAM_SIZE` bytes.
    pub open spec fn wf(&self) -> bool {
        self@.len() == RAM_SIZE
    }

    /// A fresh memory, every byte zero.
    pub fn new() -> (m: Memory)
        ensures
            m.wf(),
            m@ == Seq::new(RAM_SIZE as nat, |i: int| 0u8),
    {
        let mut inner: Vec<u8> = Vec::new();
        let mut i: usize = 0;
        while i < RAM_SIZE
            invariant
                i <= RAM_SIZE,
                inner@.len() == i,
                forall|j: int| 0 <= j < i ==> inner@[j] == 0u8,
            decreases RAM_SIZE - i,
        {
            inner.push(0u8);
            i = i + 1;
        }
        proof {
            assert(inner@ =~= Seq::new(RAM_SIZE as nat, |i: int| 0u8));
        }
        Memory { inner }
    }

    /// Reads the byte stored at `pos`.
    pub fn read_byte(&self, pos: usize) -> (r: u8)
        requires
            self.wf(),
            pos < RAM_SIZE,
        ensures
            r == self@[pos as int],
    {
        self.inner[pos]
    }

    /// Reads the big-endian 16-bit word whose bytes sit at `pos` and
    /// `pos + 1`; fails if either byte lies past the end of memory.
    pub fn get_instruction(&self, pos: usize) -> (r: Result<u16, Chip8Error>)
        requires
            self.wf(),
        ensures
            pos + 1 < RAM_SIZE ==> r == Ok::<u16, Chip8Error>(
                (self@[pos as int] as u16 * 256 + self@[pos + 1] as u16) as u16,
            ),
            pos + 1 >= RAM_SIZE ==> r == Err::<u16, Chip8Error>(Chip8Error::OutOfBounds),
    {
        if pos >= RAM_SIZE || pos + 1 >= RAM_SIZE {
            return Err(Chip8Error::OutOfBounds);
        }
        let high = self.inner[pos];
        let low = self.inner[pos + 1];
        let word = (high as u16) << 8 | (low as u16);
        proof {
            let h = high as u16;
            let l = low as u16;
            assert(h < 256 && l < 256 && word == h << 8 | l ==> word == h * 256 + l)
                by (bit_vector);
        }
        Ok(word)
    }

    /// Copies `data` into memory starting at `base`. Fails with
    /// `CapacityExceeded` if the copy would run past the end of memory, in
    /// which case memory is left completely unmodified.
    pub fn load(&mut self, base: u16, data: &[u8]) -> (r: Result<(), Chip8Error>)
        requires
            old(self).wf(),
        ensures
            final(self).wf(),
            base + data@.len() <= RAM_SIZE ==> {
                &&& r == Ok::<(), Chip8Error>(())
                &&& final(self)@ == old(self)@.subrange(0, base as int) + data@
                    + old(self)@.subrange(base + data@.len(), RAM_SIZE as int)
            },
            base + data@.len() > RAM_SIZE ==> {
                &&& r == Err::<(), Chip8Error>(Chip8Error::CapacityExceeded)
                &&& final(self)@ == old(self)@
            },
    {
        let len = data.len();
        if len > RAM_SIZE || (base as usize) > RAM_SIZE - len {
            return Err(Chip8Error::CapacityExceeded);
        }
        let start = base as usize;
        let mut i: usize = 0;
        while i < len
            invariant
                i <= len,
                start + len <= RAM_SIZE,
                data@.len() == len,
                self.inner@.len() == RAM_SIZE,
                forall|j: int| 0 <= j < i ==> self.inner@[start + j] == data@[j],
                forall|j: int|
                    0 <= j < RAM_SIZE && !(start <= j < start + i) ==> self.inner@[j] == old(
                        self,
                    )@[j],
            decreases len - i,
        {
            self.inner[start + i] = data[i];
            i = i + 1;
        }
        proof {
            assert(self.inner@ =~= old(self)@.subrange(0, base as int) + data@ + old(
                self,
            )@.subrange(base + data@.len(), RAM_SIZE as int));
        }
        Ok(())
    }
}

} // verus!
