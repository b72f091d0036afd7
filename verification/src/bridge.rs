//! The guest's side of the memory boundary: a flat linear memory below
//! 4 GiB, two allocation primitives with no automatic reclamation, the
//! conversions that move a string into and out of a raw (address, length)
//! region, and the logging import that receives such a region.
//!
//! Ownership of a region moves by convention alone: whichever side holds the
//! (address, length) pair of a live region must eventually release it with
//! [`Bridge::deallocate`], giving exactly the size it was allocated with.
//! The model keeps the book on that convention: the map of live regions, the
//! running total of reserved bytes, and the messages the host has been handed
//! through the logging import.

use vstd::prelude::*;
use vstd::utf8::{decode_utf8, encode_utf8, encode_utf8_decode_utf8, encode_utf8_valid_utf8,
    valid_utf8};
use vstd::string::StrSliceExecFns;
use vstd::pervasive::unreached;
use crate::text::string_from_utf8_bytes;

verus! {

/// The mathematical state of the bridge: the contents of linear memory, the
/// total of bytes currently reserved, the live regions (address to size,
/// zero-sized regions owning no bytes are not tracked), and the messages
/// handed to the host's logging import, oldest first.
pub ghost struct BridgeModel {
    pub bytes: Seq<u8>,
    pub reserved: int,
    pub live: Map<u32, u32>,
    pub logged: Seq<Seq<char>>,
}

impl BridgeModel {
    /// Linear memory stays addressable by 32 bits, the reserved total never
    /// exceeds what memory holds, and every live region has a positive size
    /// and lies within memory.
    pub open spec fn wf(self) -> bool {
        &&& self.bytes.len() <= u32::MAX
        &&& 0 <= self.reserved <= self.bytes.len()
        &&& forall|a: u32| #[trigger] self.live.dom().contains(a)
            ==> self.live[a] > 0 && a + self.live[a] <= self.bytes.len()
    }

    /// The bytes of memory at [addr, addr + len).
    pub open spec fn region(self, addr: u32, len: u32) -> Seq<u8> {
        self.bytes.subrange(addr as int, addr + len)
    }
}

/// How [`Bridge::allocate`] relates the model before (`m0`) to the model
/// after (`m1`): memory grows by `size` bytes of unspecified content at the
/// fresh address `addr`, the region is recorded live, the reserved total
/// grows by `size`, and nothing else moves.
pub open spec fn allocate_post(m0: BridgeModel, m1: BridgeModel, size: u32, addr: u32) -> bool {
    &&& addr == m0.bytes.len()
    &&& size > 0 ==> !m0.live.dom().contains(addr)
    &&& m1.bytes.len() == m0.bytes.len() + size
    &&& m1.bytes.subrange(0, m0.bytes.len() as int) == m0.bytes
    &&& m1.reserved == m0.reserved + size
    &&& m1.live == (if size > 0 { m0.live.insert(addr, size) } else { m0.live })
    &&& m1.logged == m0.logged
}

/// How [`Bridge::deallocate`] relates the model before (`m0`) to the model
/// after (`m1`): the region's record is dropped, the reserved total shrinks
/// by `size`, and memory contents are untouched.
pub open spec fn deallocate_post(m0: BridgeModel, m1: BridgeModel, addr: u32, size: u32) -> bool {
    &&& m1.bytes == m0.bytes
    &&& m1.reserved == m0.reserved - size
    &&& m1.live == (if size > 0 { m0.live.remove(addr) } else { m0.live })
    &&& m1.logged == m0.logged
}

/// The guest memory bridge. See the module documentation.
pub struct Bridge {
    mem: Vec<u8>,
    reserved: u64,
    live: Ghost<Map<u32, u32>>,
    logged: Vec<String>,
}

impl View for Bridge {
    type V = BridgeModel;

    closed spec fn view(&self) -> BridgeModel {
        BridgeModel {
            bytes: self.mem@,
            reserved: self.reserved as int,
            live: self.live@,
            logged: Seq::new(self.logged@.len(), |i: int| self.logged@[i]@),
        }
    }
}

impl Bridge {
    /// A bridge with empty memory, nothing reserved, and nothing logged.
    pub fn new() -> (r: Bridge)
        ensures
            r@.wf(),
            r@.bytes =~= Seq::<u8>::empty(),
            r@.reserved == 0,
            r@.live =~= Map::<u32, u32>::empty(),
            r@.logged =~= Seq::<Seq<char>>::empty(),
    {
        Bridge {
            mem: Vec::new(),
            reserved: 0,
            live: Ghost(Map::empty()),
            logged: Vec::new(),
        }
    }

    /// Reserves `size` bytes of memory of unspecified content and returns the
    /// region's starting address. The caller becomes the owner: the region
    /// stays reserved until [`Bridge::deallocate`] is called with the same
    /// address and size.
    pub fn allocate(&mut self, size: u32) -> (addr: u32)
        requires
            old(self)@.wf(),
            old(self)@.bytes.len() + size <= u32::MAX,
        ensures
            final(self)@.wf(),
            allocate_post(old(self)@, final(self)@, size, addr),
    {
        let addr = self.mem.len() as u32;
        let mut fresh: Vec<u8> = Vec::new();
        while fresh.len() < size as usize
            invariant
                fresh@.len() <= size,
            decreases size - fresh.len(),
        {
            fresh.push(0u8);
        }
        let ghost m0 = self@;
        self.mem.append(&mut fresh);
        self.reserved = self.reserved + size as u64;
        if size > 0 {
            self.live = Ghost(self.live@.insert(addr, size));
        }
        proof {
            assert(self@.bytes.subrange(0, m0.bytes.len() as int) =~= m0.bytes);
            assert forall|a: u32| #[trigger] self@.live.dom().contains(a)
                implies self@.live[a] > 0 && a + self@.live[a] <= self@.bytes.len() by {
                if a != addr {
                    assert(m0.live.dom().contains(a));
                }
            }
        }
        addr
    }

    /// Releases a region previously handed out by [`Bridge::allocate`] (or by
    /// a primitive that transferred ownership of one), with exactly the size
    /// it was allocated with. The bridge trusts its caller: there is no
    /// defensive check, only this contract.
    pub fn deallocate(&mut self, addr: u32, size: u32)
        requires
            old(self)@.wf(),
            size > 0 ==> old(self)@.live.contains_pair(addr, size),
            size <= old(self)@.reserved,
        ensures
            final(self)@.wf(),
            deallocate_post(old(self)@, final(self)@, addr, size),
    {
        self.reserved = self.reserved - size as u64;
        if size > 0 {
            self.live = Ghost(self.live@.remove(addr));
        }
    }

    /// Copies the bytes at [addr, addr + len) out of linear memory.
    pub fn read_region(&self, addr: u32, len: u32) -> (r: Vec<u8>)
        requires
            addr + len <= self@.bytes.len(),
        ensures
            r@ == self@.region(addr, len),
    {
        let mem_len = self.mem.len();
        let mut r: Vec<u8> = Vec::new();
        let mut i: u32 = 0;
        while i < len
            invariant
                i <= len,
                addr + len <= self@.bytes.len(),
                mem_len == self@.bytes.len(),
                r@ =~= self@.bytes.subrange(addr as int, addr + i),
            decreases len - i,
        {
            let b = self.mem[addr as usize + i as usize];
            r.push(b);
            proof {
                assert(r@ =~= self@.bytes.subrange(addr as int, addr + i + 1));
            }
            i = i + 1;
        }
        proof {
            assert(r@ =~= self@.region(addr, len));
        }
        r
    }

    /// Overwrites the bytes at [addr, addr + data.len()) with `data`; the
    /// rest of memory, and all bookkeeping, stay as they were.
    pub fn write_region(&mut self, addr: u32, data: &Vec<u8>)
        requires
            old(self)@.wf(),
            addr + data@.len() <= old(self)@.bytes.len(),
        ensures
            final(self)@.wf(),
            final(self)@.bytes == old(self)@.bytes.take(addr as int) + data@
                + old(self)@.bytes.skip(addr + data@.len()),
            final(self)@.reserved == old(self)@.reserved,
            final(self)@.live == old(self)@.live,
            final(self)@.logged == old(self)@.logged,
    {
        let ghost m0 = self@;
        let ghost lg0 = self.logged@;
        let mem_len = self.mem.len();
        let mut i: usize = 0;
        while i < data.len()
            invariant
                i <= data@.len(),
                addr + data@.len() <= m0.bytes.len(),
                mem_len == m0.bytes.len(),
                self.mem@.len() == m0.bytes.len(),
                forall|j: int| 0 <= j < m0.bytes.len() && !(addr <= j < addr + i)
                    ==> self.mem@[j] == m0.bytes[j],
                forall|j: int| 0 <= j < i ==> self.mem@[addr + j] == data@[j],
                self.reserved as int == m0.reserved,
                self.live@ == m0.live,
                self.logged@ == lg0,
            decreases data@.len() - i,
        {
            self.mem[addr as usize + i] = data[i];
            i = i + 1;
        }
        proof {
            assert(self@.bytes =~= m0.bytes.take(addr as int) + data@
                + m0.bytes.skip(addr + data@.len()));
            assert(self@.logged =~= m0.logged);
        }
    }

    /// Moves a string into linear memory: allocates a fresh region of the
    /// size of the string's UTF-8 encoding, writes the encoding there, and
    /// returns the (address, length) pair. The caller owns the region.
    pub fn str_to_ptr(&mut self, s: &String) -> (r: (u32, u32))
        requires
            old(self)@.wf(),
            old(self)@.bytes.len() + encode_utf8(s@).len() <= u32::MAX,
        ensures
            final(self)@.wf(),
            r.0 == old(self)@.bytes.len(),
            r.1 == encode_utf8(s@).len(),
            final(self)@.bytes == old(self)@.bytes + encode_utf8(s@),
            final(self)@.reserved == old(self)@.reserved + r.1,
            final(self)@.live == (if r.1 > 0 {
                old(self)@.live.insert(r.0, r.1)
            } else {
                old(self)@.live
            }),
            r.1 > 0 ==> !old(self)@.live.dom().contains(r.0),
            final(self)@.logged == old(self)@.logged,
    {
        let bytes = s.as_str().as_bytes_vec();
        let n = bytes.len() as u32;
        let addr = self.allocate(n);
        self.write_region(addr, &bytes);
        proof {
            assert(self@.bytes =~= old(self)@.bytes + encode_utf8(s@));
        }
        (addr, n)
    }

    /// Reads the bytes at [addr, addr + len) back as an owned string. The
    /// region must hold valid UTF-8: this mirrors an unchecked conversion,
    /// so malformed bytes are excluded by contract rather than reported. The
    /// string copies the bytes, so the region may be released independently
    /// afterwards.
    pub fn ptr_to_str(&self, addr: u32, len: u32) -> (r: String)
        requires
            addr + len <= self@.bytes.len(),
            valid_utf8(self@.region(addr, len)),
        ensures
            r@ == decode_utf8(self@.region(addr, len)),
    {
        let bytes = self.read_region(addr, len);
        match string_from_utf8_bytes(bytes) {
            Some(s) => {
                proof {
                    encode_utf8_decode_utf8(s@);
                }
                s
            },
            None => unreached(),
        }
    }

    /// Hands a message to the host's logging import: the message is placed in
    /// linear memory, the host receives its (address, length) pair and records
    /// the text, and the temporary region is released again. Exactly one
    /// message is appended to the log; the reserved total and the live
    /// regions end as they began.
    pub fn log(&mut self, s: &String)
        requires
            old(self)@.wf(),
            old(self)@.bytes.len() + encode_utf8(s@).len() <= u32::MAX,
        ensures
            final(self)@.wf(),
            final(self)@.logged == old(self)@.logged.push(s@),
            final(self)@.reserved == old(self)@.reserved,
            final(self)@.live == old(self)@.live,
            final(self)@.bytes.len() == old(self)@.bytes.len() + encode_utf8(s@).len(),
            final(self)@.bytes.subrange(0, old(self)@.bytes.len() as int) == old(self)@.bytes,
    {
        let ghost m0 = self@;
        let (addr, n) = self.str_to_ptr(s);
        proof {
            encode_utf8_valid_utf8(s@);
            assert(self@.region(addr, n) =~= encode_utf8(s@));
        }
        let msg = self.ptr_to_str(addr, n);
        proof {
            encode_utf8_decode_utf8(s@);
        }
        let ghost lg1 = self@.logged;
        self.logged.push(msg);
        proof {
            assert(self@.logged =~= lg1.push(s@));
        }
        self.deallocate(addr, n);
        proof {
            if n > 0 {
                assert(self@.live =~= m0.live);
            }
            assert(self@.bytes.subrange(0, m0.bytes.len() as int) =~= m0.bytes);
        }
    }

    /// The total of bytes currently reserved through [`Bridge::allocate`] and
    /// not yet released.
    pub fn reserved_bytes(&self) -> (r: u64)
        ensures
            r == self@.reserved,
    {
        self.reserved
    }

    /// How many bytes linear memory holds.
    pub fn memory_len(&self) -> (r: usize)
        ensures
            r == self@.bytes.len(),
    {
        self.mem.len()
    }

    /// How many messages have been handed to the logging import.
    pub fn log_count(&self) -> (r: usize)
        ensures
            r == self@.logged.len(),
    {
        self.logged.len()
    }

    /// The `i`-th message handed to the logging import, oldest first.
    pub fn log_message(&self, i: usize) -> (r: String)
        requires
            i < self@.logged.len(),
        ensures
            r@ == self@.logged[i as int],
    {
        self.logged[i].clone()
    }
}

/// Allocating a region and then releasing it with the same address and size
/// leaves no observable growth: the reserved total, the live regions and the
/// log all return to what they were, over any number of such cycles.
pub proof fn lemma_allocate_deallocate_balanced(
    m0: BridgeModel,
    m1: BridgeModel,
    m2: BridgeModel,
    size: u32,
    addr: u32,
)
    requires
        m0.wf(),
        allocate_post(m0, m1, size, addr),
        deallocate_post(m1, m2, addr, size),
    ensures
        m2.reserved == m0.reserved,
        m2.live == m0.live,
        m2.logged == m0.logged,
{
    if size > 0 {
        assert(m0.live.insert(addr, size).remove(addr) =~= m0.live);
    }
}

} // verus!
