use nes::util::{current_time_millis, debug_assert, debug_print, read_to_buf, ReadError, ReadProgress, Save, Xorshift};

#[test]
fn xorshift_sequence() {
    let mut rng = Xorshift::new();
    assert_eq!((rng.x, rng.y, rng.z, rng.w), (123456789, 362436069, 521288629, 88675123));
    assert_eq!(rng.next(), 3701687786);
    assert_eq!(rng.next(), 458299110);
    assert_eq!(rng.next(), 2500872618);
    assert_eq!((rng.x, rng.y, rng.z), (88675123, 3701687786, 458299110));
}

#[test]
fn xorshift_leaves_zero_state_only_if_in_it() {
    let mut rng = Xorshift { x: 1, y: 0, z: 0, w: 0 };
    for _ in 0..100 {
        rng.next();
        assert!(rng.x != 0 || rng.y != 0 || rng.z != 0 || rng.w != 0);
    }
    let mut zero = Xorshift { x: 0, y: 0, z: 0, w: 0 };
    assert_eq!(zero.next(), 0);
}

#[test]
fn integers_save_little_endian() {
    let mut out = Vec::new();
    0xabu8.save(&mut out);
    0x1234u16.save(&mut out);
    0x0102030405060708u64.save(&mut out);
    assert_eq!(out, vec![0xab, 0x34, 0x12, 8, 7, 6, 5, 4, 3, 2, 1]);
    let mut a = 0u8;
    let mut b = 0u16;
    let mut c = 0u64;
    let p = a.load(&out, 0);
    let p = b.load(&out, p);
    let p = c.load(&out, p);
    assert_eq!(p, 11);
    assert_eq!((a, b, c), (0xab, 0x1234, 0x0102030405060708));
}

#[test]
fn u64_extremes_round_trip() {
    for v in [0u64, 1, u64::MAX, 0x8000_0000_0000_0000] {
        let mut out = Vec::new();
        v.save(&mut out);
        let mut w = 12345u64;
        w.load(&out, 0);
        assert_eq!(w, v);
    }
}

#[test]
fn bool_round_trip() {
    let mut out = Vec::new();
    true.save(&mut out);
    false.save(&mut out);
    assert_eq!(out, vec![1, 0]);
    let mut t = false;
    let mut f = true;
    t.load(&out, 0);
    f.load(&out, 1);
    assert!(t);
    assert!(!f);
}

#[test]
fn read_to_buf_fills_in_rounds() {
    let mut buf = [0u8; 5];
    assert!(read_to_buf(&mut buf, 0, &[1, 2]) == Ok(ReadProgress::Partial(2)));
    assert!(read_to_buf(&mut buf, 2, &[3, 4, 5]) == Ok(ReadProgress::Filled));
    assert_eq!(buf, [1, 2, 3, 4, 5]);
}

#[test]
fn read_to_buf_eof_too_early() {
    let mut buf = [9u8; 3];
    assert!(read_to_buf(&mut buf, 1, &[]) == Err(ReadError::EofReachedPrematurely));
    assert_eq!(buf, [9, 9, 9]);
}

#[test]
fn time_in_millis() {
    assert_eq!(current_time_millis(1, 999_999), 1999);
    assert_eq!(current_time_millis(1_700_000_000, 500), 1_700_000_000_000);
}

#[test]
fn debug_output_is_silent() {
    debug_assert(false, "not printed");
    debug_print("not printed");
}
