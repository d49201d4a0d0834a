use vstd::prelude::*;

verus! {

/// Size of the writable low region (`$0000`..=`$07FF`).
pub const RAM_SIZE: usize = 0x0800;

/// Size of the high region (`$8000`..=`$FFFF`).
pub const ROM_SIZE: usize = 0x8000;

/// Flat 16-bit address space: a low RAM region, a high ROM region and an
/// unmapped gap in between that reads as zero and ignores writes.
pub struct Mmio {
    pub ram: Vec<u8>,
    pub rom: Vec<u8>,
}

impl Mmio {
    /// Both regions have their fixed sizes.
    pub open spec fn wf(&self) -> bool {
        self.ram@.len() == RAM_SIZE && self.rom@.len() == ROM_SIZE
    }

    /// The byte seen at `addr`.
    pub open spec fn byte_at(&self, addr: u16) -> u8 {
        if addr <= 0x07FF {
            self.ram@[addr as int]
        } else if 0x8000 <= addr {
            self.rom@[addr - 0x8000]
        } else {
            0
        }
    }

    /// RAM contents after storing `byte` at `addr`.
    pub open spec fn ram_after(&self, addr: u16, byte: u8) -> Seq<u8> {
        if addr <= 0x07FF {
            self.ram@.update(addr as int, byte)
        } else {
            self.ram@
        }
    }

    /// ROM contents after storing `byte` at `addr`.
    pub open spec fn rom_after(&self, addr: u16, byte: u8) -> Seq<u8> {
        if 0x8000 <= addr {
            self.rom@.update(addr - 0x8000, byte)
        } else {
            self.rom@
        }
    }

    pub fn new() -> (m: Mmio)
        ensures
            m.wf(),
            forall|a: u16| #[trigger] m.byte_at(a) == 0,
    {
        Mmio { ram: vec![0u8; RAM_SIZE], rom: vec![0u8; ROM_SIZE] }
    }

    pub fn read_byte(&self, addr: u16) -> (b: u8)
        requires
            self.wf(),
        ensures
            b == self.byte_at(addr),
    {
        if addr <= 0x07FF {
            self.ram[addr as usize]
        } else if 0x8000 <= addr {
            self.rom[(addr - 0x8000) as usize]
        } else {
            0
        }
    }

    /// Bulk read of `size` bytes from `addr` through the memory map; `None`
    /// when the range runs past the end of the address space.
    pub fn read(&self, addr: u16, size: u16) -> (r: Option<Vec<u8>>)
        requires
            self.wf(),
        ensures
            addr as int + size as int <= 0x10000 <==> r.is_some(),
            r matches Some(v) ==> v@.len() == size && forall|i: int|
                0 <= i < size ==> #[trigger] v@[i] == self.byte_at((addr + i) as u16),
    {
        if addr as u32 + size as u32 > 0x10000 {
            return None;
        }
        let mut out: Vec<u8> = Vec::new();
        let mut i: u16 = 0;
        while i < size
            invariant
                i <= size,
                addr as int + size as int <= 0x10000,
                self.wf(),
                out@.len() == i,
                forall|j: int| 0 <= j < i ==> #[trigger] out@[j] == self.byte_at((addr + j) as u16),
            decreases size - i,
        {
            out.push(self.read_byte(addr + i));
            i += 1;
        }
        Some(out)
    }

    pub fn write_byte(&mut self, addr: u16, byte: u8)
        requires
            old(self).wf(),
        ensures
            final(self).wf(),
            final(self).ram@ == old(self).ram_after(addr, byte),
            final(self).rom@ == old(self).rom_after(addr, byte),
    {
        if addr <= 0x07FF {
            self.ram.set(addr as usize, byte);
        } else if 0x8000 <= addr {
            self.rom.set((addr - 0x8000) as usize, byte);
        }
    }

    /// Stores `bytes` at consecutive addresses from `addr`, wrapping past `$FFFF`.
    pub fn write(&mut self, addr: u16, bytes: &[u8])
        requires
            old(self).wf(),
            bytes@.len() <= 0x10000,
        ensures
            final(self).wf(),
            forall|a: u16|
                #![trigger final(self).byte_at(a)]
                final(self).byte_at(a) == if 0x0800 <= a < 0x8000 {
                    0
                } else if ((a - addr) % 0x10000) < bytes@.len() {
                    bytes@[(a - addr) % 0x10000]
                } else {
                    old(self).byte_at(a)
                },
    {
        let mut i: usize = 0;
        while i < bytes.len()
            invariant
                self.wf(),
                i <= bytes@.len() <= 0x10000,
                forall|a: u16|
                    #![trigger self.byte_at(a)]
                    self.byte_at(a) == if 0x0800 <= a < 0x8000 {
                        0
                    } else if ((a - addr) % 0x10000) < i {
                        bytes@[(a - addr) % 0x10000]
                    } else {
                        old(self).byte_at(a)
                    },
            decreases bytes@.len() - i,
        {
            let target = addr.wrapping_add(i as u16);
            let ghost prev = *self;
            self.write_byte(target, bytes[i]);
            proof {
                assert forall|a: u16| #![trigger self.byte_at(a)]
                    self.byte_at(a) == if 0x0800 <= a < 0x8000 {
                        0
                    } else if ((a - addr) % 0x10000) < i + 1 {
                        bytes@[(a - addr) % 0x10000]
                    } else {
                        old(self).byte_at(a)
                    } by {
                    if a == target {
                        assert((a - addr) % 0x10000 == i);
                    } else {
                        assert((a - addr) % 0x10000 != i);
                        assert(self.byte_at(a) == prev.byte_at(a));
                    }
                }
            }
            i += 1;
        }
    }
}

} // verus!
