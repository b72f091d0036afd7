//! The business operations built on the marshaling convention: composing the
//! greeting text, and the exported entry points that move it across the
//! boundary. The exported forms take and return raw (address, length) pairs,
//! packed into one 64-bit value where a single return value must carry both;
//! the logging import instead takes the two halves separately, an asymmetry
//! of the fixed host interface that is kept exactly.

use vstd::prelude::*;
use vstd::string::StringExecFns;
use vstd::utf8::{decode_utf8, decode_utf8_encode_utf8, encode_utf8, encode_utf8_decode_utf8,
    is_ascii_chars, valid_utf8};
use crate::bridge::Bridge;
use crate::codec::{encode, unpack_addr, unpack_len};
use crate::text::{lemma_ascii_encode_len, lemma_encode_utf8_concat};

verus! {

/// The greeting for `name`: the concatenation of "Hello", the empty
/// separator, the name, and "!". For name = "World" that is "HelloWorld!":
/// no space stands between the fixed text and the name.
pub fn greeting(name: &String) -> (r: String)
    ensures
        r@ == "Hello"@ + name@ + "!"@,
{
    let r = String::from_str("Hello");
    let r = r.concat("");
    let r = r.concat(name.as_str());
    let r = r.concat("!");
    proof {
        reveal_strlit("");
        assert(r@ =~= "Hello"@ + name@ + "!"@);
    }
    r
}

/// Computes the greeting for `name`, prefixes it with "wasm >> ", and hands
/// the result to the logging import: exactly one message is logged, and the
/// temporary buffers the call placed in memory are released again, so the
/// reserved total and the live regions end as they began.
pub fn greet(mem: &mut Bridge, name: &String)
    requires
        old(mem)@.wf(),
        old(mem)@.bytes.len() + encode_utf8("wasm >> "@ + "Hello"@ + name@ + "!"@).len()
            <= u32::MAX,
    ensures
        final(mem)@.wf(),
        final(mem)@.logged == old(mem)@.logged.push("wasm >> "@ + "Hello"@ + name@ + "!"@),
        final(mem)@.reserved == old(mem)@.reserved,
        final(mem)@.live == old(mem)@.live,
        final(mem)@.bytes.subrange(0, old(mem)@.bytes.len() as int) == old(mem)@.bytes,
{
    let g = greeting(name);
    let msg = String::from_str("wasm >> ").concat(g.as_str());
    proof {
        assert(msg@ =~= "wasm >> "@ + "Hello"@ + name@ + "!"@);
    }
    mem.log(&msg);
}

/// The exported greeting entry point. The name arrives as the (address,
/// length) pair of a UTF-8 region in memory; the greeting is placed in a
/// fresh region whose pair is returned packed into one 64-bit value.
/// Ownership of the new region passes to the caller, who must release it
/// with the returned address and length; the name's region is untouched.
pub fn _greeting(mem: &mut Bridge, ptr: u32, len: u32) -> (r: u64)
    requires
        old(mem)@.wf(),
        ptr + len <= old(mem)@.bytes.len(),
        valid_utf8(old(mem)@.region(ptr, len)),
        old(mem)@.bytes.len() + len + 6 <= u32::MAX,
    ensures
        final(mem)@.wf(),
        unpack_addr(r) == old(mem)@.bytes.len(),
        unpack_len(r) == len + 6,
        final(mem)@.region(unpack_addr(r), unpack_len(r))
            == encode_utf8("Hello"@ + decode_utf8(old(mem)@.region(ptr, len)) + "!"@),
        decode_utf8(final(mem)@.region(unpack_addr(r), unpack_len(r)))
            == "Hello"@ + decode_utf8(old(mem)@.region(ptr, len)) + "!"@,
        final(mem)@.bytes.subrange(0, old(mem)@.bytes.len() as int) == old(mem)@.bytes,
        final(mem)@.reserved == old(mem)@.reserved + len + 6,
        final(mem)@.live == old(mem)@.live.insert(unpack_addr(r), unpack_len(r)),
        final(mem)@.logged == old(mem)@.logged,
{
    let ghost m0 = mem@;
    let name = mem.ptr_to_str(ptr, len);
    let g = greeting(&name);
    proof {
        lemma_encode_utf8_concat("Hello"@ + name@, "!"@);
        lemma_encode_utf8_concat("Hello"@, name@);
        reveal_strlit("Hello");
        reveal_strlit("!");
        assert(is_ascii_chars("Hello"@));
        assert(is_ascii_chars("!"@));
        lemma_ascii_encode_len("Hello"@);
        lemma_ascii_encode_len("!"@);
        decode_utf8_encode_utf8(m0.region(ptr, len));
        assert(encode_utf8(g@).len() == len + 6);
    }
    let (gptr, glen) = mem.str_to_ptr(&g);
    proof {
        assert(mem@.region(gptr, glen) =~= encode_utf8(g@));
        encode_utf8_decode_utf8(g@);
        assert(mem@.bytes.subrange(0, m0.bytes.len() as int) =~= m0.bytes);
    }
    encode(gptr, glen)
}

/// The exported greet entry point: reads the name out of the given region
/// and logs "wasm >> " followed by its greeting. All temporaries are
/// released; nothing is returned and no ownership moves to the caller.
pub fn _greet(mem: &mut Bridge, ptr: u32, len: u32)
    requires
        old(mem)@.wf(),
        ptr + len <= old(mem)@.bytes.len(),
        valid_utf8(old(mem)@.region(ptr, len)),
        old(mem)@.bytes.len() + len + 14 <= u32::MAX,
    ensures
        final(mem)@.wf(),
        final(mem)@.logged == old(mem)@.logged.push(
            "wasm >> "@ + "Hello"@ + decode_utf8(old(mem)@.region(ptr, len)) + "!"@,
        ),
        final(mem)@.reserved == old(mem)@.reserved,
        final(mem)@.live == old(mem)@.live,
        final(mem)@.bytes.subrange(0, old(mem)@.bytes.len() as int) == old(mem)@.bytes,
{
    let ghost m0 = mem@;
    let name = mem.ptr_to_str(ptr, len);
    proof {
        lemma_encode_utf8_concat("wasm >> "@ + "Hello"@ + name@, "!"@);
        lemma_encode_utf8_concat("wasm >> "@ + "Hello"@, name@);
        lemma_encode_utf8_concat("wasm >> "@, "Hello"@);
        reveal_strlit("wasm >> ");
        reveal_strlit("Hello");
        reveal_strlit("!");
        assert(is_ascii_chars("wasm >> "@));
        assert(is_ascii_chars("Hello"@));
        assert(is_ascii_chars("!"@));
        lemma_ascii_encode_len("wasm >> "@);
        lemma_ascii_encode_len("Hello"@);
        lemma_ascii_encode_len("!"@);
        decode_utf8_encode_utf8(m0.region(ptr, len));
        assert(encode_utf8("wasm >> "@ + "Hello"@ + name@ + "!"@).len() == len + 14);
    }
    greet(mem, &name);
}

/// The exported demonstration buffer: places the four bytes 10, 20, 30, 40
/// in a fresh region and returns its packed (address, length) pair.
/// Ownership of the region passes to the caller, as with [`_greeting`].
pub fn _send_vec(mem: &mut Bridge) -> (r: u64)
    requires
        old(mem)@.wf(),
        old(mem)@.bytes.len() + 4 <= u32::MAX,
    ensures
        final(mem)@.wf(),
        unpack_addr(r) == old(mem)@.bytes.len(),
        unpack_len(r) == 4,
        final(mem)@.region(unpack_addr(r), 4) == seq![10u8, 20u8, 30u8, 40u8],
        final(mem)@.bytes.subrange(0, old(mem)@.bytes.len() as int) == old(mem)@.bytes,
        final(mem)@.reserved == old(mem)@.reserved + 4,
        final(mem)@.live == old(mem)@.live.insert(unpack_addr(r), 4),
        final(mem)@.logged == old(mem)@.logged,
{
    let ghost m0 = mem@;
    let addr = mem.allocate(4);
    let mut v: Vec<u8> = Vec::new();
    v.push(10);
    v.push(20);
    v.push(30);
    v.push(40);
    proof {
        assert(v@ =~= seq![10u8, 20u8, 30u8, 40u8]);
    }
    mem.write_region(addr, &v);
    proof {
        assert(mem@.region(addr, 4) =~= seq![10u8, 20u8, 30u8, 40u8]);
        assert(mem@.bytes.subrange(0, m0.bytes.len() as int) =~= m0.bytes);
    }
    encode(addr, 4)
}

} // verus!
