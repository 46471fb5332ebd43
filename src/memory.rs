use vstd::prelude::*;

verus! {

/// An `(offset, length)` descriptor into guest linear memory.
#[derive(Clone, Copy, Debug, PartialEq, Eq, Structural)]
pub struct Region {
    pub offset: u32,
    pub length: u32,
}

/// Why a region could not be marshaled.
#[derive(Clone, Copy, Debug, PartialEq, Eq, Structural)]
pub enum RegionError {
    /// `offset + length` lies beyond the memory snapshot.
    OutOfBounds,
    /// The region's length differs from the size that the caller expects.
    BadLength,
}

/// `mem` with `data` written at `offset`.
pub open spec fn overwrite(mem: Seq<u8>, offset: int, data: Seq<u8>) -> Seq<u8> {
    Seq::new(
        mem.len(),
        |i: int|
            if offset <= i < offset + data.len() {
                data[i - offset]
            } else {
                mem[i]
            },
    )
}

/// The region that a guest `(pointer, length)` pair describes.
pub open spec fn region_of(arg: (u32, u32)) -> Region {
    Region { offset: arg.0, length: arg.1 }
}

impl Region {
    /// One past the region's last byte, `offset + length`, computed without overflow.
    pub open spec fn end(self) -> int {
        self.offset + self.length
    }

    /// Whether the region lies inside a memory of `len` bytes.
    pub open spec fn fits(self, len: int) -> bool {
        self.end() <= len
    }

    /// The bytes of `mem` that the region covers.
    pub open spec fn bytes_of(self, mem: Seq<u8>) -> Seq<u8> {
        mem.subrange(self.offset as int, self.end())
    }

    /// A region from a guest `(pointer, length)` pair.
    pub fn from_arg(arg: (u32, u32)) -> (r: Region)
        ensures
            r.offset == arg.0,
            r.length == arg.1,
    {
        Region { offset: arg.0, length: arg.1 }
    }

    /// Whether the region lies inside `memory`.
    pub fn check_bounds(&self, memory: &Vec<u8>) -> (r: bool)
        ensures
            r == self.fits(memory@.len() as int),
    {
        (self.offset as u64) + (self.length as u64) <= memory.len() as u64
    }

    /// A copy of the bytes that the region covers in `memory`.
    pub fn as_slice(&self, memory: &Vec<u8>) -> (r: Result<Vec<u8>, RegionError>)
        ensures
            match r {
                Ok(v) => self.fits(memory@.len() as int) && v@ == self.bytes_of(memory@),
                Err(e) => !self.fits(memory@.len() as int) && e == RegionError::OutOfBounds,
            },
    {
        let mlen = memory.len();
        if (self.offset as u64) + (self.length as u64) > mlen as u64 {
            return Err(RegionError::OutOfBounds);
        }
        let start = self.offset as usize;
        let end = start + self.length as usize;
        let mut out: Vec<u8> = Vec::new();
        let mut i: usize = start;
        while i < end
            invariant
                start == self.offset,
                end == self.end(),
                end <= memory@.len(),
                start <= i <= end,
                out@ == memory@.subrange(start as int, i as int),
            decreases end - i,
        {
            out.push(memory[i]);
            i = i + 1;
            proof {
                assert(out@ =~= memory@.subrange(start as int, i as int));
            }
        }
        Ok(out)
    }

    /// Write `data` into the region, in place. `data` must fill the region exactly.
    pub fn write(&self, memory: &mut Vec<u8>, data: &Vec<u8>) -> (r: Result<(), RegionError>)
        ensures
            match r {
                Ok(()) => {
                    &&& self.fits(old(memory)@.len() as int)
                    &&& data@.len() == self.length
                    &&& final(memory)@ == overwrite(old(memory)@, self.offset as int, data@)
                },
                Err(e) => {
                    &&& final(memory)@ == old(memory)@
                    &&& e == (if !self.fits(old(memory)@.len() as int) {
                        RegionError::OutOfBounds
                    } else {
                        RegionError::BadLength
                    })
                    &&& (self.fits(old(memory)@.len() as int) ==> data@.len() != self.length)
                },
            },
    {
        if !self.check_bounds(memory) {
            return Err(RegionError::OutOfBounds);
        }
        if data.len() != self.length as usize {
            return Err(RegionError::BadLength);
        }
        let mlen = memory.len();
        let start = self.offset as usize;
        let n = data.len();
        let mut j: usize = 0;
        while j < n
            invariant
                start == self.offset,
                n == data@.len(),
                start + n <= memory@.len(),
                memory@.len() == old(memory)@.len(),
                memory@.len() == mlen,
                0 <= j <= n,
                forall|i: int|
                    0 <= i < memory@.len() ==> #[trigger] memory@[i] == (if start <= i < start + j {
                        data@[i - start]
                    } else {
                        old(memory)@[i]
                    }),
            decreases n - j,
        {
            memory.set(start + j, data[j]);
            j = j + 1;
        }
        proof {
            assert(memory@ =~= overwrite(old(memory)@, self.offset as int, data@));
        }
        Ok(())
    }
}

} // verus!
