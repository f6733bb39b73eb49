//! A machine: a CPU and the address space it works on.
use crate::cpu::CPU;
use crate::memory::{DeviceState, MemoryError, MemoryType};
use crate::memory_map::{
    collides, fresh_device, lemma_owner_unique, mapped, owner, ranges_intersect, route_write,
    valid_layout, EntryState, MemoryMap,
};
use vstd::prelude::*;

verus! {

/// End of the RAM window that a cold reset clears.
pub const RAM_END: u16 = 0x4000;

/// The address space that `init` builds: 16 KiB of RAM at 0x0000, 16 KiB of
/// I/O (backed by RAM) at 0x4000 and 32 KiB of ROM at 0x8000.
pub open spec fn standard_layout() -> Seq<EntryState> {
    seq![
        EntryState { name: seq!['R', 'A', 'M'], device: fresh_device(MemoryType::RAM, 0x4000, 0x0000) },
        EntryState { name: seq!['I', 'O'], device: fresh_device(MemoryType::MMIO, 0x4000, 0x4000) },
        EntryState { name: seq!['R', 'O', 'M'], device: fresh_device(MemoryType::ROM, 0x8000, 0x8000) },
    ]
}

/// `d` with every writable byte at an address below `limit` set to zero.
pub open spec fn cleared_device(d: DeviceState, limit: int) -> DeviceState {
    d.with_bytes(
        Seq::new(
            d.bytes.len(),
            |k: int|
                if !d.ignores_writes() && d.offset + k < limit {
                    0u8
                } else {
                    d.bytes[k]
                },
        ),
    )
}

/// Every device of `m` with its writable bytes below `limit` set to zero.
pub open spec fn cleared_below(m: Seq<EntryState>, limit: int) -> Seq<EntryState> {
    m.map_values(|e: EntryState| EntryState { name: e.name, device: cleared_device(e.device, limit) })
}

/// Clearing keeps every range, so the layout stays valid.
proof fn lemma_cleared_keeps_layout(m: Seq<EntryState>, limit: int)
    requires
        valid_layout(m),
    ensures
        valid_layout(cleared_below(m, limit)),
{
    let c = cleared_below(m, limit);
    assert forall|i: int| 0 <= i < c.len() implies (#[trigger] c[i]).device.wf() by {
        assert(m[i].device.wf());
    }
    assert forall|i: int, j: int|
        0 <= i < c.len() && 0 <= j < c.len() && i != j implies !ranges_intersect(
        (#[trigger] c[i]).device.offset as int,
        c[i].device.size as int,
        (#[trigger] c[j]).device.offset as int,
        c[j].device.size as int,
    ) by {
        assert(m[i].device.offset == c[i].device.offset && m[j].device.offset == c[j].device.offset);
    }
}

/// Writing zero at the next mapped address extends the cleared window by one.
proof fn lemma_clear_step(m: Seq<EntryState>, address: u16)
    requires
        valid_layout(m),
        mapped(m, address),
    ensures
        route_write(cleared_below(m, address as int), address, 0) == (
            cleared_below(m, address + 1),
            Ok::<(), MemoryError>(()),
        ),
{
    let c = cleared_below(m, address as int);
    let i = owner(m, address);
    lemma_cleared_keeps_layout(m, address as int);
    assert(c[i].device.contains(address as int));
    lemma_owner_unique(c, i, address);
    let next = cleared_below(m, address + 1);
    let written = route_write(c, address, 0).0;
    assert forall|j: int| 0 <= j < m.len() implies #[trigger] written[j] == next[j] by {
        assert(m[j].device.wf());
        if j == i {
            assert(written[j].device.bytes =~= next[j].device.bytes);
        } else {
            assert(!m[j].device.contains(address as int)) by {
                if m[j].device.contains(address as int) {
                    lemma_owner_unique(m, j, address);
                }
            }
            assert(written[j].device.bytes =~= next[j].device.bytes);
        }
    }
    assert(written =~= next);
}

/// A CPU and the address space it works on.
#[derive(Debug)]
pub struct Emulator {
    pub cpu: CPU,
    pub memory_map: MemoryMap,
}

impl Emulator {
    /// A reset CPU and an empty address space.
    pub fn new() -> (r: Emulator)
        ensures
            r.cpu.is_reset(),
            r.memory_map.wf(),
            r.memory_map@ == Seq::<EntryState>::empty(),
    {
        Emulator { cpu: CPU::new(), memory_map: MemoryMap::new() }
    }

    /// Registers RAM, I/O and ROM in an empty address space.
    pub fn init(&mut self)
        requires
            old(self).memory_map.wf(),
            old(self).memory_map@.len() == 0,
        ensures
            final(self).memory_map.wf(),
            final(self).memory_map@ == standard_layout(),
            final(self).cpu == old(self).cpu,
    {
        let ghost m0 = self.memory_map@;
        proof {
            reveal_strlit("RAM");
            reveal_strlit("IO");
            reveal_strlit("ROM");
            assert("RAM"@ =~= seq!['R', 'A', 'M']);
            assert("IO"@ =~= seq!['I', 'O']);
            assert("ROM"@ =~= seq!['R', 'O', 'M']);
        }
        let ram = self.memory_map.create("RAM".to_owned(), MemoryType::RAM, 0x4000, 0x0000);
        let ghost m1 = self.memory_map@;
        ram.unwrap();
        let io = self.memory_map.create("IO".to_owned(), MemoryType::MMIO, 0x4000, 0x4000);
        let ghost m2 = self.memory_map@;
        assert(!collides(0x4000, 0x4000, m1[0].device));
        io.unwrap();
        let rom = self.memory_map.create("ROM".to_owned(), MemoryType::ROM, 0x8000, 0x8000);
        assert(!collides(0x8000, 0x8000, m2[0].device));
        assert(!collides(0x8000, 0x8000, m2[1].device));
        rom.unwrap();
        assert(self.memory_map@ =~= standard_layout());
    }

    /// Resets the CPU and leaves memory as it is.
    pub fn warm_reset(&mut self)
        ensures
            final(self).cpu.is_reset(),
            final(self).memory_map == old(self).memory_map,
    {
        self.cpu.reset();
    }

    /// Writes zero to every address below `RAM_END`, which clears the
    /// writable bytes there, then resets the CPU.
    pub fn cold_reset(&mut self)
        requires
            old(self).memory_map.wf(),
            forall|a: u16| a < RAM_END ==> mapped(old(self).memory_map@, a),
        ensures
            final(self).memory_map.wf(),
            final(self).memory_map@ == cleared_below(old(self).memory_map@, RAM_END as int),
            final(self).cpu.is_reset(),
    {
        let ghost m0 = self.memory_map@;
        proof {
            assert(cleared_below(m0, 0) =~= m0) by {
                assert forall|j: int| 0 <= j < m0.len() implies #[trigger] cleared_below(m0, 0)[j]
                    == m0[j] by {
                    assert(m0[j].device.wf());
                    assert(cleared_below(m0, 0)[j].device.bytes =~= m0[j].device.bytes);
                }
            }
        }
        for i in 0..RAM_END
            invariant
                self.memory_map.wf(),
                valid_layout(m0),
                forall|a: u16| a < RAM_END ==> mapped(m0, a),
                self.memory_map@ == cleared_below(m0, i as int),
        {
            proof {
                lemma_clear_step(m0, i);
            }
            self.memory_map.write(i, 0).unwrap();
        }
        self.cpu.reset();
    }
}

} // verus!
