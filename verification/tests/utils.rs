use allora::utils::{Big, Endian, Endianness, HasEndianness, Little};

#[test]
fn big_endian_word_is_byte_reversed() {
    let e: Endian<u32, Big> = Endian::new(0x1122_3344);
    assert_eq!(e.raw(), 0x4433_2211);
    assert_eq!(e.native(), 0x1122_3344);
}

#[test]
fn little_endian_word_is_the_value() {
    let e: Endian<u16, Little> = Endian::new(0xbeef);
    assert_eq!(e.raw(), 0xbeef);
    assert_eq!(e.native(), 0xbeef);
}

#[test]
fn from_raw_takes_the_word_as_it_is() {
    let e: Endian<u32, Big> = Endian::from_raw(0x0100_0000);
    assert_eq!(e.raw(), 0x0100_0000);
    assert_eq!(e.native(), 1);
    let e: Endian<u64, Little> = Endian::from_raw(0x0102_0304_0506_0708);
    assert_eq!(e.native(), 0x0102_0304_0506_0708);
}

#[test]
fn every_width_reverses_all_its_bytes() {
    assert_eq!(HasEndianness::to_be(0xabu8), 0xab);
    assert_eq!(HasEndianness::to_be(0x1234u16), 0x3412);
    assert_eq!(HasEndianness::to_be(0x1234_5678u32), 0x7856_3412);
    assert_eq!(HasEndianness::to_be(0x0102_0304_0506_0708u64), 0x0807_0605_0403_0201);
    assert_eq!(
        HasEndianness::to_be(0x0102_0304_0506_0708_090a_0b0c_0d0e_0f10u128),
        0x100f_0e0d_0c0b_0a09_0807_0605_0403_0201
    );
    assert_eq!(HasEndianness::from_be(0x3412u16), 0x1234);
    assert_eq!(HasEndianness::from_be(0x7856_3412u32), 0x1234_5678);
    assert_eq!(HasEndianness::to_le(0x1234u16), 0x1234);
    assert_eq!(HasEndianness::from_le(0x1234_5678u32), 0x1234_5678);
}

#[test]
fn signed_integers_reverse_as_their_bits_do() {
    assert_eq!(HasEndianness::to_be(-5i8), -5);
    assert_eq!(HasEndianness::to_be(0x0180i16), 0x8001u16 as i16);
    assert_eq!(HasEndianness::to_be(-2i32), 0xfeff_ffffu32 as i32);
    assert_eq!(HasEndianness::from_be(0xfeff_ffffu32 as i32), -2);
    assert_eq!(HasEndianness::to_be(1i64), 0x0100_0000_0000_0000);
    assert_eq!(HasEndianness::to_be(1i128), 1i128 << 120);
    assert_eq!(HasEndianness::to_le(-7i64), -7);
}

#[test]
fn byte_reversal_agrees_with_std() {
    for v in [0u32, 1, 0xff, 0x8000_0000, 0xdead_beef, u32::MAX, 0x0001_0203] {
        assert_eq!(HasEndianness::to_be(v), v.swap_bytes());
        assert_eq!(HasEndianness::to_be(v as u16), (v as u16).swap_bytes());
        assert_eq!(HasEndianness::to_be(v as i32), (v as i32).swap_bytes());
        let wide = (v as u64) << 17 | v as u64;
        assert_eq!(HasEndianness::to_be(wide), wide.swap_bytes());
        assert_eq!(HasEndianness::to_be(wide as i64), (wide as i64).swap_bytes());
    }
}

#[test]
fn storing_and_reading_back_gives_the_value() {
    for v in [0u64, 1, 0x0102_0304_0506_0708, u64::MAX, 0x8000_0000_0000_0001] {
        assert_eq!(Endian::<u64, Big>::new(v).native(), v);
        assert_eq!(Endian::<u64, Little>::new(v).native(), v);
        assert_eq!(Endian::<u16, Big>::new(v as u16).native(), v as u16);
        assert_eq!(Endian::<i32, Big>::new(v as i32).native(), v as i32);
        assert_eq!(Endian::<i128, Big>::new(v as i128 - 5).native(), v as i128 - 5);
    }
}

#[test]
fn byte_orders_convert_both_ways() {
    assert_eq!(Big::from_native(0x1234u16), 0x3412);
    assert_eq!(Big::to_native(0x3412u16), 0x1234);
    assert_eq!(Little::from_native(0x1234u16), 0x1234);
    assert_eq!(Little::to_native(0x1234u16), 0x1234);
}

#[test]
fn from_stores_a_value() {
    let a: Endian<u32, Big> = 0x0102_0304.into();
    assert_eq!(a.raw(), 0x0403_0201);
    assert_eq!(Endian::<u16, Little>::from(7).raw(), 7);
}

#[test]
fn endian_values_can_be_copied_and_compared() {
    let a: Endian<u32, Big> = Endian::new(5);
    let b = a;
    assert!(a == b);
    assert!(a.clone() == Endian::from_raw(0x0500_0000));
    assert!(a != Endian::new(6));
}
