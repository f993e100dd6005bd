//! A window onto memory: a base address and the bytes that lie behind it.
//! Every read is checked against the window's bounds.

use vstd::prelude::*;

verus! {

/// The bytes found at the addresses `base .. base + len`. The region ends
/// inside the address space.
pub struct MemoryRegion<'a> {
    base: usize,
    bytes: &'a [u8],
}

impl<'a> View for MemoryRegion<'a> {
    type V = Seq<u8>;

    closed spec fn view(&self) -> Seq<u8> {
        self.bytes@
    }
}

/// The unsigned value of two bytes, least significant first.
pub open spec fn le_u16(b0: u8, b1: u8) -> u16 {
    (b0 + 0x100 * b1) as u16
}

/// The unsigned value of eight bytes, least significant first.
pub open spec fn le_u64(
    b0: u8,
    b1: u8,
    b2: u8,
    b3: u8,
    b4: u8,
    b5: u8,
    b6: u8,
    b7: u8,
) -> u64 {
    (b0 + 0x100 * b1 + 0x1_0000 * b2 + 0x100_0000 * b3 + 0x1_0000_0000 * b4 + 0x100_0000_0000
        * b5 + 0x1_0000_0000_0000 * b6 + 0x100_0000_0000_0000 * b7) as u64
}

impl<'a> MemoryRegion<'a> {
    #[verifier::type_invariant]
    spec fn ends_in_address_space(self) -> bool {
        self.base + self.bytes@.len() <= usize::MAX
    }

    /// The address of the region's first byte.
    pub closed spec fn spec_base(&self) -> usize {
        self.base
    }

    /// Whether the `width` bytes from `address` on all lie in the region.
    pub open spec fn covers(&self, address: int, width: int) -> bool {
        self.spec_base() <= address && address + width <= self.spec_base() + self@.len()
    }

    /// The byte stored at `address`.
    pub open spec fn byte_at(&self, address: int) -> u8
        recommends
            self.covers(address, 1),
    {
        self@[address - self.spec_base()]
    }

    /// The little-endian 16-bit value stored at `address`.
    pub open spec fn u16_at(&self, address: int) -> u16
        recommends
            self.covers(address, 2),
    {
        le_u16(self.byte_at(address), self.byte_at(address + 1))
    }

    /// The little-endian 64-bit value stored at `address`.
    pub open spec fn u64_at(&self, address: int) -> u64
        recommends
            self.covers(address, 8),
    {
        le_u64(
            self.byte_at(address),
            self.byte_at(address + 1),
            self.byte_at(address + 2),
            self.byte_at(address + 3),
            self.byte_at(address + 4),
            self.byte_at(address + 5),
            self.byte_at(address + 6),
            self.byte_at(address + 7),
        )
    }

    /// The 64-bit value stored at `address`, read as an address of this
    /// machine: `None` where the region does not hold all eight bytes or the
    /// value is no such address.
    pub open spec fn word_at(&self, address: int) -> Option<usize> {
        if self.covers(address, 8) && self.u64_at(address) <= usize::MAX {
            Some(self.u64_at(address) as usize)
        } else {
            None
        }
    }

    /// A region over `bytes` that starts at `base`, unless it would run past
    /// the end of the address space.
    pub fn new(base: usize, bytes: &'a [u8]) -> (r: Option<Self>)
        ensures
            r is Some <==> base + bytes@.len() <= usize::MAX,
            r matches Some(region) ==> region.spec_base() == base && region@ == bytes@,
    {
        if bytes.len() <= usize::MAX - base {
            Some(MemoryRegion { base, bytes })
        } else {
            None
        }
    }

    /// The address of the first byte.
    pub fn base(&self) -> (r: usize)
        ensures
            r == self.spec_base(),
            r + self@.len() <= usize::MAX,
    {
        proof {
            use_type_invariant(self);
        }
        self.base
    }

    /// The number of bytes in the region.
    pub fn len(&self) -> (r: usize)
        ensures
            r == self@.len(),
            self.spec_base() + r <= usize::MAX,
    {
        proof {
            use_type_invariant(self);
        }
        self.bytes.len()
    }

    /// The bytes of the region.
    pub fn as_bytes(&self) -> (r: &'a [u8])
        ensures
            r@ == self@,
            self.spec_base() + r@.len() <= usize::MAX,
    {
        proof {
            use_type_invariant(self);
        }
        self.bytes
    }

    /// Whether `width` bytes can be read at `address`.
    pub fn contains(&self, address: usize, width: usize) -> (r: bool)
        ensures
            r == self.covers(address as int, width as int),
    {
        proof {
            use_type_invariant(self);
        }
        let size: usize = self.bytes.len();
        address >= self.base && address - self.base <= size && width <= size - (address
            - self.base)
    }

    /// The byte at `address`, if the region holds it.
    pub fn read_u8(&self, address: usize) -> (r: Option<u8>)
        ensures
            r == if self.covers(address as int, 1) {
                Some(self.byte_at(address as int))
            } else {
                None
            },
    {
        if self.contains(address, 1) {
            Some(self.bytes[address - self.base])
        } else {
            None
        }
    }

    /// The 16-bit value at `address`, if the region holds both bytes.
    pub fn read_u16(&self, address: usize) -> (r: Option<u16>)
        ensures
            r == if self.covers(address as int, 2) {
                Some(self.u16_at(address as int))
            } else {
                None
            },
    {
        if self.contains(address, 2) {
            let at: usize = address - self.base;
            let b0: u16 = self.bytes[at] as u16;
            let b1: u16 = self.bytes[at + 1] as u16;
            Some(b0 + 0x100 * b1)
        } else {
            None
        }
    }

    /// The 64-bit value at `address`, if the region holds all eight bytes.
    pub fn read_u64(&self, address: usize) -> (r: Option<u64>)
        ensures
            r == if self.covers(address as int, 8) {
                Some(self.u64_at(address as int))
            } else {
                None
            },
    {
        if self.contains(address, 8) {
            let at: usize = address - self.base;
            let b0: u64 = self.bytes[at] as u64;
            let b1: u64 = self.bytes[at + 1] as u64;
            let b2: u64 = self.bytes[at + 2] as u64;
            let b3: u64 = self.bytes[at + 3] as u64;
            let b4: u64 = self.bytes[at + 4] as u64;
            let b5: u64 = self.bytes[at + 5] as u64;
            let b6: u64 = self.bytes[at + 6] as u64;
            let b7: u64 = self.bytes[at + 7] as u64;
            Some(
                b0 + 0x100 * b1 + 0x1_0000 * b2 + 0x100_0000 * b3 + 0x1_0000_0000 * b4
                    + 0x100_0000_0000 * b5 + 0x1_0000_0000_0000 * b6 + 0x100_0000_0000_0000 * b7,
            )
        } else {
            None
        }
    }

    /// The 64-bit value at `address` as an address of this machine, if the
    /// region holds all eight bytes and the value is such an address.
    pub fn read_word(&self, address: usize) -> (r: Option<usize>)
        ensures
            r == self.word_at(address as int),
    {
        match self.read_u64(address) {
            Some(word) => if word <= usize::MAX as u64 {
                Some(word as usize)
            } else {
                None
            },
            None => None,
        }
    }
}

} // verus!
