use guest_bridge::bridge::Bridge;
use guest_bridge::codec::{decode, encode};
use guest_bridge::greet::{_greet, _greeting, _send_vec, greet, greeting};

#[test]
fn greeting_concatenates_without_separator() {
    let g = greeting(&String::from("World"));
    assert_eq!(g, "HelloWorld!");
}

#[test]
fn greeting_empty_name_is_six_bytes() {
    let g = greeting(&String::from(""));
    assert_eq!(g, "Hello!");
    assert_eq!(g.len(), 6);
}

#[test]
fn greeting_keeps_unicode_name() {
    let g = greeting(&String::from("W\u{00f6}rld"));
    assert_eq!(g, "HelloW\u{00f6}rld!");
}

#[test]
fn pack_unpack_round_trip() {
    let cases: Vec<(u32, u32)> = vec![
        (0, 0),
        (1, 2),
        (0xDEAD_BEEF, 123),
        (u32::MAX, u32::MAX),
        (0, u32::MAX),
        (u32::MAX, 0),
    ];
    for (addr, len) in cases {
        let packed = encode(addr, len);
        assert_eq!(decode(packed), (addr, len));
    }
}

#[test]
fn pack_puts_address_in_high_half() {
    assert_eq!(encode(1, 2), (1u64 << 32) | 2);
}

#[test]
fn allocate_then_deallocate_reserves_nothing() {
    let mut b = Bridge::new();
    assert_eq!(b.reserved_bytes(), 0);
    for _ in 0..3 {
        let addr = b.allocate(16);
        assert_eq!(b.reserved_bytes(), 16);
        b.deallocate(addr, 16);
        assert_eq!(b.reserved_bytes(), 0);
    }
}

#[test]
fn allocate_returns_region_of_requested_size() {
    let mut b = Bridge::new();
    let addr = b.allocate(8);
    assert_eq!(b.memory_len(), addr as usize + 8);
    let region = b.read_region(addr, 8);
    assert_eq!(region.len(), 8);
}

#[test]
fn write_then_read_region_returns_written_bytes() {
    let mut b = Bridge::new();
    let addr = b.allocate(3);
    b.write_region(addr, &vec![7, 8, 9]);
    assert_eq!(b.read_region(addr, 3), vec![7, 8, 9]);
}

#[test]
fn str_to_ptr_then_ptr_to_str_round_trips() {
    let mut b = Bridge::new();
    let original = String::from("caf\u{00e9} \u{2615}");
    let (addr, len) = b.str_to_ptr(&original);
    assert_eq!(len as usize, original.len());
    let back = b.ptr_to_str(addr, len);
    assert_eq!(back, original);
    b.deallocate(addr, len);
    assert_eq!(b.reserved_bytes(), 0);
}

#[test]
fn exported_greeting_writes_hello_name() {
    let mut b = Bridge::new();
    let name = String::from("World");
    let (nptr, nlen) = b.str_to_ptr(&name);
    let packed = _greeting(&mut b, nptr, nlen);
    let (gptr, glen) = decode(packed);
    assert_eq!(glen, nlen + 6);
    assert_eq!(b.ptr_to_str(gptr, glen), "HelloWorld!");
    // The caller owns the returned region and must release it, with the
    // name's region, to get back to nothing reserved.
    b.deallocate(gptr, glen);
    b.deallocate(nptr, nlen);
    assert_eq!(b.reserved_bytes(), 0);
}

#[test]
fn exported_greeting_zero_length_name() {
    let mut b = Bridge::new();
    let addr = b.allocate(0);
    let packed = _greeting(&mut b, addr, 0);
    let (gptr, glen) = decode(packed);
    assert_eq!(glen, 6);
    assert_eq!(b.ptr_to_str(gptr, glen), "Hello!");
}

#[test]
fn greet_logs_exactly_one_message() {
    let mut b = Bridge::new();
    greet(&mut b, &String::from("Rust"));
    assert_eq!(b.log_count(), 1);
    assert_eq!(b.log_message(0), "wasm >> HelloRust!");
    assert_eq!(b.reserved_bytes(), 0);
}

#[test]
fn exported_greet_logs_through_the_region() {
    let mut b = Bridge::new();
    let name = String::from("Rust");
    let (nptr, nlen) = b.str_to_ptr(&name);
    _greet(&mut b, nptr, nlen);
    assert_eq!(b.log_count(), 1);
    assert_eq!(b.log_message(0), "wasm >> HelloRust!");
}

#[test]
fn send_vec_returns_the_four_demo_bytes() {
    let mut b = Bridge::new();
    let packed = _send_vec(&mut b);
    let (addr, len) = decode(packed);
    assert_eq!(len, 4);
    assert_eq!(b.read_region(addr, len), vec![10, 20, 30, 40]);
    assert_eq!(b.reserved_bytes(), 4);
    b.deallocate(addr, len);
    assert_eq!(b.reserved_bytes(), 0);
}

#[test]
fn log_leaves_no_reservation_and_appends_in_order() {
    let mut b = Bridge::new();
    b.log(&String::from("first"));
    b.log(&String::from("second"));
    assert_eq!(b.log_count(), 2);
    assert_eq!(b.log_message(0), "first");
    assert_eq!(b.log_message(1), "second");
    assert_eq!(b.reserved_bytes(), 0);
}
