use rosy::num::bits::BitOp;
use rosy::num::codec::{host_is_little_endian, reads_least_first};
use rosy::Integer;
use rosy::num::pack::{ByteOrder, Options, Order, Sign, Word};
use rosy::object::{AnyObject, Equality};
use rosy::protected::Category;
use std::cmp::Ordering;
use std::fmt::{Debug, Display};
use std::ops::{BitAnd, BitOr, BitXor};

fn check_value<W: Word + PartialEq + Debug + Display>(value: W)
where
    Integer: From<W>,
{
    let int = Integer::from(value);
    assert_eq!(int.to_s(), value.to_string());

    let converted = int.to_value::<W>();
    assert!(converted.is_some(), "{} cannot represent {}", int.to_s(), value);
    assert_eq!(converted, Some(value));

    let mut buf: [W; 1] = [W::zero()];
    let sign = int.pack(&mut buf);
    assert!(
        !sign.did_overflow(),
        "Packing {} from {} overflowed as {:?}",
        int.to_s(),
        value,
        sign,
    );
    assert_eq!(buf[0], value);
}

#[test]
fn values() {
    check_value::<usize>(0);
    check_value(usize::MIN);
    check_value(usize::MAX);
    check_value::<u128>(0);
    check_value(u128::MIN);
    check_value(u128::MAX);
    check_value::<u64>(0);
    check_value(u64::MIN);
    check_value(u64::MAX);
    check_value::<u32>(0);
    check_value(u32::MIN);
    check_value(u32::MAX);
    check_value::<u16>(0);
    check_value(u16::MIN);
    check_value(u16::MAX);
    check_value::<u8>(0);
    check_value(u8::MIN);
    check_value(u8::MAX);
    check_value::<isize>(0);
    check_value(isize::MIN);
    check_value(isize::MAX);
    check_value::<i128>(0);
    check_value(i128::MIN);
    check_value(i128::MAX);
    check_value::<i64>(0);
    check_value(i64::MIN);
    check_value(i64::MAX);
    check_value::<i32>(0);
    check_value(i32::MIN);
    check_value(i32::MAX);
    check_value::<i16>(0);
    check_value(i16::MIN);
    check_value(i16::MAX);
    check_value::<i8>(0);
    check_value(i8::MIN);
    check_value(i8::MAX);
}

fn check_bit_ops<W>(min: W, max: W)
where
    W: Word + BitAnd<Output = W> + BitOr<Output = W> + BitXor<Output = W>,
    Integer: From<W>,
{
    let min_int = Integer::from(min);
    let max_int = Integer::from(max);

    assert!(min_int.bitand(&min_int).eq_word(min & min));
    assert!(min_int.bitand(&max_int).eq_word(min & max));
    assert!(max_int.bitand(&min_int).eq_word(max & min));
    assert!(max_int.bitand(&max_int).eq_word(max & max));

    assert!(min_int.bitor(&min_int).eq_word(min | min));
    assert!(min_int.bitor(&max_int).eq_word(min | max));
    assert!(max_int.bitor(&min_int).eq_word(max | min));
    assert!(max_int.bitor(&max_int).eq_word(max | max));

    assert!(min_int.bitxor(&min_int).eq_word(min ^ min));
    assert!(min_int.bitxor(&max_int).eq_word(min ^ max));
    assert!(max_int.bitxor(&min_int).eq_word(max ^ min));
    assert!(max_int.bitxor(&max_int).eq_word(max ^ max));
}

#[test]
fn bit_ops() {
    check_bit_ops(usize::MIN, usize::MAX);
    check_bit_ops(u128::MIN, u128::MAX);
    check_bit_ops(u64::MIN, u64::MAX);
    check_bit_ops(u32::MIN, u32::MAX);
    check_bit_ops(u16::MIN, u16::MAX);
    check_bit_ops(u8::MIN, u8::MAX);
    check_bit_ops(isize::MIN, isize::MAX);
    check_bit_ops(i128::MIN, i128::MAX);
    check_bit_ops(i64::MIN, i64::MAX);
    check_bit_ops(i32::MIN, i32::MAX);
    check_bit_ops(i16::MIN, i16::MAX);
    check_bit_ops(i8::MIN, i8::MAX);
}

#[test]
fn logical_operations_on_small_integers() {
    let a_val: i64 = 0b1101;
    let b_val: i64 = 0b0111;
    let a_int = Integer::from_word(a_val);
    let b_int = Integer::from_word(b_val);
    assert!(a_int.bitand(&b_int).eq_word(a_val & b_val));
    assert!(a_int.bitor(&b_int).eq_word(a_val | b_val));
    assert!(a_int.bitxor(&b_int).eq_word(a_val ^ b_val));
    assert_eq!(a_int.bitand(&b_int).to_fixnum(), Some(0b0101));
    assert_eq!(a_int.bitor(&b_int).to_fixnum(), Some(0b1111));
    assert_eq!(a_int.bitxor(&b_int).to_fixnum(), Some(0b1010));
    assert_eq!(a_int.combine(BitOp::And, &b_int).to_fixnum(), Some(5));
}

#[test]
fn logical_operations_on_mixed_signs() {
    let a: i128 = -0x1234_5678_9abc_def0_1122_3344_5566_7788;
    let b: i64 = 0x0f0f_0f0f_0f0f_0f0f;
    let c: i8 = -1;
    let a_int = Integer::from_word(a);
    let b_int = Integer::from_word(b);
    let c_int = Integer::from_word(c);
    assert!(a_int.bitand(&b_int).eq_word(a & (b as i128)));
    assert!(a_int.bitor(&b_int).eq_word(a | (b as i128)));
    assert!(a_int.bitxor(&b_int).eq_word(a ^ (b as i128)));
    assert!(b_int.bitand(&a_int).eq_word(a & (b as i128)));
    assert!(a_int.bitand(&c_int).eq_word(a));
    assert!(a_int.bitor(&c_int).eq_word(-1i8));
    assert!(a_int.bitxor(&c_int).eq_word(!a));
    let big = Integer::unpack(&[0u64, 0, 1]);
    let minus_one = Integer::from_word(-1i64);
    assert!(big.bitand(&minus_one) == big);
    assert_eq!(big.bitor(&minus_one).to_fixnum(), Some(-1));
}

#[test]
fn fixnum_limits() {
    let max = i64::MAX >> 1;
    let min = i64::MIN >> 1;
    assert_eq!(Integer::max_fixnum().to_fixnum(), Some(max));
    assert_eq!(Integer::min_fixnum().to_fixnum(), Some(min));
    assert!(Integer::from_word(max) == Integer::max_fixnum());
    assert!(Integer::from_word(min) == Integer::min_fixnum());
    assert!(Integer::from_word(max).is_fixnum());
    assert!(Integer::from_word(max + 1).is_bignum());
    assert!(Integer::from_word(min).is_fixnum());
    assert!(Integer::from_word(min - 1).is_bignum());
    assert_eq!(Integer::from_word(max + 1).to_fixnum(), None);
    assert_eq!(Integer::zero().to_fixnum(), Some(0));
    assert_eq!(Integer::zero().to_fixnum_unchecked(), 0);
    assert!(Integer::zero().is_zero());
    assert!(!Integer::max_fixnum().is_zero());
    assert!(!Integer::from_word(u128::MAX).is_zero());
}

#[test]
fn from_fixnum_wrapping_wraps_at_the_top_bit() {
    assert_eq!(Integer::from_fixnum_wrapping(5).to_fixnum(), Some(5));
    assert_eq!(Integer::from_fixnum_wrapping(-5).to_fixnum(), Some(-5));
    let max = i64::MAX >> 1;
    let min = i64::MIN >> 1;
    assert_eq!(Integer::from_fixnum_wrapping(max + 1).to_fixnum(), Some(min));
    assert_eq!(Integer::from_fixnum_wrapping(min - 1).to_fixnum(), Some(max));
    assert_eq!(Integer::from_fixnum_wrapping(i64::MAX).to_fixnum(), Some(-1));
    assert_eq!(Integer::from_fixnum_wrapping(i64::MIN).to_fixnum(), Some(0));
}

#[test]
fn signs_of_small_and_large() {
    let big = Integer::from_word(u128::MAX);
    let fix = Integer::from_word(i64::MAX / 2);
    assert!(big.is_bignum());
    assert!(fix.is_fixnum());
    assert!(big.is_positive());
    assert!(fix.is_positive());
    let big = Integer::from_word(i128::MIN);
    let fix = Integer::from_word(i64::MIN / 2);
    assert!(big.is_bignum());
    assert!(fix.is_fixnum());
    assert!(big.is_negative());
    assert!(fix.is_negative());
    assert!(Integer::zero().is_positive());
    assert!(!Integer::zero().is_negative());
}

#[test]
fn objects_of_small_integers() {
    let five = Integer::from_word(5u8);
    assert_eq!(five.to_word(), Some(11));
    assert_eq!(five.to_object().map(|o| o.raw()), Some(11));
    let back = Integer::from_object(AnyObject::from_raw(11)).unwrap();
    assert_eq!(back.to_fixnum(), Some(5));
    let minus = Integer::from_object(AnyObject::from_raw(u64::MAX)).unwrap();
    assert_eq!(minus.to_fixnum(), Some(-1));
    assert!(Integer::from_object(AnyObject::nil()).is_none());
    assert!(Integer::from_object(AnyObject::from_raw(0x1000)).is_none());
    assert!(Integer::from_word(u64::MAX).to_word().is_none());
    assert!(Integer::from_word(u64::MAX).to_object().is_none());
}

#[test]
fn pack_into_wider_buffer() {
    let value = u128::MAX / 0xF00F;
    let integer = Integer::from_word(value);
    let mut buf = [0u128; 2];
    let sign = integer.pack(&mut buf);
    assert_eq!(buf[0], value);
    assert_eq!(buf[1], 0);
    assert_eq!(sign, Sign::Positive { did_overflow: false });
}

#[test]
fn pack_using_byte_orders() {
    let value = u128::MAX / 0xF00F;
    let integer = Integer::from_word(value);

    let mut be_buf = [0u128; 1];
    integer.pack_using(Options::big_endian(), &mut be_buf);
    assert_eq!(be_buf[0], value.to_be());

    let mut le_buf = [0u128; 1];
    integer.pack_using(Options::little_endian(), &mut le_buf);
    assert_eq!(le_buf[0], value.to_le());

    let mut native = [0u128; 1];
    integer.pack_using(Options::new(), &mut native);
    assert_eq!(native[0], value);
}

#[test]
fn pack_on_either_host() {
    let integer = Integer::from_word(0x0102_0304u32);
    let most = Options::new().byte_order(ByteOrder::Most);
    let least = Options::new().byte_order(ByteOrder::Least);
    let mut buf = [0u32; 1];
    integer.pack_on_host(most, true, &mut buf);
    assert_eq!(buf[0], 0x0403_0201);
    integer.pack_on_host(most, false, &mut buf);
    assert_eq!(buf[0], 0x0102_0304);
    integer.pack_on_host(least, true, &mut buf);
    assert_eq!(buf[0], 0x0102_0304);
    integer.pack_on_host(least, false, &mut buf);
    assert_eq!(buf[0], 0x0403_0201);
    let mut wide = [0u16; 2];
    integer.pack_on_host(most, true, &mut wide);
    assert_eq!(wide, [0x0403, 0x0201]);
    assert_eq!(Integer::unpack_on_host(&wide, most, true).to_value::<u32>(), Some(0x0102_0304));
    assert_eq!(Integer::unpack_on_host(&wide, most, false).to_value::<u32>(), Some(0x0201_0403));
}

#[test]
fn byte_order_of_the_host() {
    assert!(reads_least_first(1));
    assert!(!reads_least_first(256));
    assert!(!reads_least_first(0));
    assert_eq!(host_is_little_endian(), reads_least_first(u16::from_ne_bytes([1, 0])));
    assert_eq!(host_is_little_endian(), 1u16.to_le() == 1);
}

#[test]
fn pack_word_orders() {
    let integer = Integer::from_word(0x0001_0002_0003_0004u64);
    let mut buf = [0u16; 4];
    integer.pack(&mut buf);
    assert_eq!(buf, [4, 3, 2, 1]);
    integer.pack_using(Options::new().word_order(Order::Most), &mut buf);
    assert_eq!(buf, [1, 2, 3, 4]);
    let back = Integer::unpack_using(&buf, Options::new().word_order(Order::Most));
    assert!(back == integer);
    let other = Integer::unpack(&buf);
    assert!(other.eq_word(0x0004_0003_0002_0001u64));
}

#[test]
fn pack_three_words_into_two() {
    let words: [u64; 3] = [0x1111_2222_3333_4444, 0x5555_6666_7777_8888, 0x9];
    let int = Integer::unpack(&words);
    assert_eq!(int.to_s_radix(16).unwrap(), "955556666777788881111222233334444");
    let mut buf: [u64; 2] = [0; 2];
    let sign = int.pack(&mut buf);
    assert_eq!(sign, Sign::Positive { did_overflow: true });
    assert_eq!(buf, [0x1111_2222_3333_4444, 0x5555_6666_7777_8888]);

    let wide: u128 = 0x0003_0002_0001;
    let int = Integer::from_word(wide);
    let mut bytes = [0u8; 2];
    let sign = int.pack(&mut bytes);
    assert!(sign.did_overflow());
    assert_eq!(u16::from_le_bytes(bytes), wide as u16);
    assert_eq!(int.to_truncated::<u16>(), wide as u16);
}

#[test]
fn pack_negative_into_too_few_signed_words() {
    let value: i64 = -0x0123_4567_89ab_cdef;
    let int = Integer::from_word(value);
    let mut buf = [0i16; 2];
    let sign = int.pack(&mut buf);
    assert_eq!(sign, Sign::Negative { did_overflow: true });
    assert_eq!(buf, [value as i16, (value >> 16) as i16]);
    let mut whole = [0i16; 4];
    let sign = int.pack(&mut whole);
    assert_eq!(sign, Sign::Negative { did_overflow: false });
    assert_eq!(whole, [value as i16, (value >> 16) as i16, (value >> 32) as i16, (value >> 48) as i16]);
    let mut more = [0i32; 3];
    let sign = int.pack(&mut more);
    assert_eq!(sign, Sign::Negative { did_overflow: false });
    assert_eq!(more, [value as i32, (value >> 32) as i32, -1]);
}

#[test]
fn pack_reports_what_the_bits_hold() {
    let mut buf = [0i8; 1];
    // 200 does not fit a signed byte, but its eight bits fit the buffer
    let sign = Integer::from_word(200u8).pack(&mut buf);
    assert_eq!(sign, Sign::Positive { did_overflow: false });
    assert_eq!(buf[0], 200u8 as i8);
    assert!(!Integer::from_word(200u8).can_represent::<i8>());
    let sign = Integer::from_word(256u16).pack(&mut buf);
    assert_eq!(sign, Sign::Positive { did_overflow: true });
    assert_eq!(buf[0], 0);
    let sign = Integer::from_word(-256i16).pack(&mut buf);
    assert_eq!(sign, Sign::Negative { did_overflow: false });
    assert_eq!(buf[0], 0);
    let sign = Integer::from_word(-257i16).pack(&mut buf);
    assert_eq!(sign, Sign::Negative { did_overflow: true });
    assert_eq!(buf[0], -1);

    let mut mag = [0u8; 1];
    // an unsigned buffer gets the magnitude, and the report has the sign
    let sign = Integer::from_word(-5i8).pack(&mut mag);
    assert_eq!(sign, Sign::Negative { did_overflow: false });
    assert_eq!(mag[0], 5);
    assert!(!Integer::from_word(-5i8).can_represent::<u8>());
    let sign = Integer::from_word(-255i16).pack(&mut mag);
    assert_eq!(sign, Sign::Negative { did_overflow: false });
    assert_eq!(mag[0], 255);
    let sign = Integer::from_word(-256i16).pack(&mut mag);
    assert_eq!(sign, Sign::Negative { did_overflow: true });
    assert_eq!(mag[0], 0);
    let sign = Integer::zero().pack(&mut mag);
    assert_eq!(sign, Sign::Zero);
    assert_eq!(mag[0], 0);
}

#[test]
fn pack_into_empty_buffer() {
    let mut none: [u32; 0] = [];
    assert_eq!(Integer::zero().pack(&mut none), Sign::Zero);
    assert_eq!(Integer::from_word(1u8).pack(&mut none), Sign::Positive { did_overflow: true });
    assert_eq!(Integer::from_word(-1i8).pack(&mut none), Sign::Negative { did_overflow: true });
    let mut signed: [i32; 0] = [];
    assert_eq!(Integer::from_word(-1i8).pack(&mut signed), Sign::Negative { did_overflow: false });
    assert_eq!(Integer::from_word(-2i8).pack(&mut signed), Sign::Negative { did_overflow: true });
    assert!(Integer::unpack(&none).is_zero());
    assert!(Integer::unpack(&signed).is_zero());
    let negative = Options::new().is_negative(true);
    assert!(Integer::unpack_using(&none, negative).is_zero());
    assert_eq!(Integer::unpack_using(&signed, negative).to_fixnum(), Some(-1));
}

#[test]
fn unpack_with_sign_override() {
    let negative = Options::new().is_negative(true);
    let int = Integer::unpack_using(&[7u8, 1], negative);
    assert_eq!(int.to_fixnum(), Some(-263));
    let int = Integer::unpack_using(&[0u8, 0], negative);
    assert_eq!(int.to_fixnum(), Some(0));
    let int = Integer::unpack_using(&[7i8, 1], negative);
    assert_eq!(int.to_fixnum(), Some(263 - 65536));
    let int = Integer::unpack_using(&[0i8, 0], negative);
    assert_eq!(int.to_fixnum(), Some(-65536));
    let int = Integer::unpack(&[-1i8, -1]);
    assert_eq!(int.to_fixnum(), Some(-1));
    let int = Integer::unpack(&[-1i8, 0]);
    assert_eq!(int.to_fixnum(), Some(255));
    let int = Integer::unpack(&[0u64, 0x8000_0000_0000_0000]);
    assert!(int.is_bignum());
    assert!(int.eq_word(1u128 << 127));
    let int = Integer::unpack(&[0i64, i64::MIN]);
    assert!(int.eq_word(i128::MIN));
}

#[test]
fn can_represent_at_the_edges() {
    assert!(Integer::from_word(-128i16).can_represent::<i8>());
    assert!(!Integer::from_word(-129i16).can_represent::<i8>());
    assert!(Integer::from_word(127i16).can_represent::<i8>());
    assert!(!Integer::from_word(128i16).can_represent::<i8>());
    assert!(Integer::from_word(255i16).can_represent::<u8>());
    assert!(!Integer::from_word(256i16).can_represent::<u8>());
    assert!(!Integer::from_word(-1i16).can_represent::<u8>());
    assert!(Integer::zero().can_represent::<u8>());
    assert!(Integer::zero().can_represent::<i8>());
    assert!(Integer::from_word(i64::MIN).can_represent::<i64>());
    assert!(!Integer::from_word(i64::MIN).can_represent::<u64>());
    assert!(!Integer::from_word(i64::MIN as i128 - 1).can_represent::<i64>());
    assert!(!Integer::from_word(-0x8001i32).can_represent::<i16>());
    assert!(Integer::from_word(-0x8000i32).can_represent::<i16>());
    assert!(!Integer::from_word(-0x8100i32).can_represent::<i16>());
    assert!(Integer::from_word(u64::MAX).can_represent::<u64>());
    assert!(!Integer::from_word(u64::MAX).can_represent::<i64>());
    assert!(Integer::from_word(u64::MAX).can_represent::<i128>());
    assert_eq!(Integer::from_word(-3i8)._can_represent::<u32>(), (false, true));
    assert_eq!(Integer::from_word(3i8)._can_represent::<u32>(), (true, false));
    assert_eq!(Integer::from_word(-128i16)._can_represent_raw(true, 1), (true, true));
    assert_eq!(Integer::from_word(-128i16)._can_represent_raw(false, 1), (false, true));
    assert_eq!(Integer::from_word(128i16)._can_represent_raw(true, 1), (false, false));
    assert_eq!(Integer::from_word(128i16)._can_represent_raw(false, 1), (true, false));
    assert_eq!(Integer::zero()._can_represent_raw(true, 0), (false, false));
    assert_eq!(Integer::zero()._can_represent_raw(false, 0), (true, false));
    assert_eq!(Integer::from_word(1u8)._can_represent_raw(false, 0), (false, false));
}

#[test]
fn can_represent_agrees_with_pack_overflow() {
    let samples: [i32; 9] = [0, 1, 127, 255, 256, 65535, 65536, 1 << 20, i32::MAX];
    for &v in samples.iter() {
        let int = Integer::from_word(v);
        let mut b8 = [0u8; 1];
        let mut b16 = [0u16; 1];
        assert_eq!(int.can_represent::<u8>(), !int.pack(&mut b8).did_overflow());
        assert_eq!(int.can_represent::<u16>(), !int.pack(&mut b16).did_overflow());
    }
    let signed: [i32; 8] = [0, 1, -1, 127, -128, 70000, -70000, i32::MIN];
    for &v in signed.iter() {
        let int = Integer::from_word(v);
        let mut b16 = [0i16; 1];
        let fits = int.can_represent::<i16>();
        let overflowed = int.pack(&mut b16).did_overflow();
        if fits {
            assert!(!overflowed);
            assert_eq!(b16[0] as i32, v);
        }
        if v < -65536 || v >= 65536 {
            assert!(overflowed);
        }
    }
}

#[test]
fn to_value_and_to_truncated() {
    let val = u16::MAX;
    let int = Integer::from_word(val);
    assert_eq!(int.to_truncated::<u16>(), val);
    assert_eq!(int.to_truncated::<u8>(), 255);
    assert_eq!(int.to_truncated::<i8>(), -1);
    assert_eq!(int.to_value::<u16>(), Some(val));
    assert_eq!(int.to_value::<u8>(), None);
    assert_eq!(int.to_value::<i16>(), None);
    assert_eq!(int.to_value::<i32>(), Some(65535));
    let big = Integer::from_word(0x1_2345_6789_abcd_ef01u128);
    assert_eq!(big.to_truncated::<u64>(), 0x2345_6789_abcd_ef01);
    assert_eq!(big.to_truncated::<i32>(), 0xabcd_ef01u32 as i32);
    assert_eq!(big.to_value::<u64>(), None);
    let neg = Integer::from_word(-0x1_2345_6789_abcd_ef01i128);
    assert_eq!(neg.to_truncated::<i64>(), (-0x1_2345_6789_abcd_ef01i128) as i64);
    assert_eq!(neg.to_truncated::<u64>(), 0x2345_6789_abcd_ef01);
    assert_eq!(neg.to_value::<i64>(), None);
    assert_eq!(neg.to_value::<i128>(), Some(-0x1_2345_6789_abcd_ef01));
}

#[test]
fn radix_strings() {
    let int = Integer::from_word(255u8);
    assert_eq!(int.to_s_radix(2).unwrap(), "11111111");
    assert_eq!(int.to_s_radix(8).unwrap(), "377");
    assert_eq!(int.to_s_radix(10).unwrap(), "255");
    assert_eq!(int.to_s_radix(16).unwrap(), "ff");
    assert_eq!(int.to_s_radix(36).unwrap(), "73");
    assert_eq!(Integer::from_word(35u8).to_s_radix(36).unwrap(), "z");
    assert_eq!(Integer::from_word(-35i8).to_s_radix(36).unwrap(), "-z");
    assert_eq!(Integer::zero().to_s_radix(2).unwrap(), "0");
    assert_eq!(Integer::zero().to_s(), "0");
    assert_eq!(Integer::from_word(i128::MIN).to_s(), i128::MIN.to_string());
    assert_eq!(Integer::from_word(u128::MAX).to_s_radix_unchecked(16), format!("{:x}", u128::MAX));
    assert_eq!(Integer::from_word(u128::MAX).to_s_radix_unchecked(2), format!("{:b}", u128::MAX));
    assert_eq!(Integer::from_word(-1000i32).to_s_radix(10).unwrap(), "-1000");
    for radix in [0u32, 1, 37, 100, u32::MAX] {
        let err = int.to_s_radix(radix).unwrap_err();
        assert_eq!(err.category, Category::Argument);
        assert!(err.object.is_nil());
    }
}

#[test]
fn order_of_integers() {
    let small = Integer::from_word(-3i8);
    let mid = Integer::from_word(1000u16);
    let big = Integer::from_word(u128::MAX);
    let low = Integer::from_word(i128::MIN);
    assert_eq!(small.cmp(&mid), Ordering::Less);
    assert_eq!(mid.cmp(&small), Ordering::Greater);
    assert_eq!(mid.cmp(&mid), Ordering::Equal);
    assert_eq!(big.cmp(&mid), Ordering::Greater);
    assert_eq!(low.cmp(&small), Ordering::Less);
    assert_eq!(low.cmp(&big), Ordering::Less);
    assert_eq!(big.cmp(&Integer::from_word(u128::MAX - 1)), Ordering::Greater);
    assert_eq!(low.cmp(&Integer::from_word(i128::MIN + 1)), Ordering::Less);
    assert_eq!(big.cmp(&Integer::from_word(u128::MAX)), Ordering::Equal);
    assert!(small < mid);
    assert!(big > low);
    assert!(big == Integer::unpack(&[u64::MAX, u64::MAX]));
    assert!(mid != small);
    assert_eq!(small.partial_cmp(&mid), Some(Ordering::Less));
}

#[test]
fn order_against_host_words() {
    let big = Integer::from_word(u128::MAX);
    assert_eq!(big.partial_cmp_word(5i8), Some(Ordering::Greater));
    assert_eq!(big.partial_cmp_word(i128::MAX), Some(Ordering::Greater));
    assert_eq!(big.partial_cmp_word(u128::MAX), Some(Ordering::Equal));
    assert_eq!(big.partial_cmp_word(u128::MAX - 1), Some(Ordering::Greater));
    let low = Integer::from_word(i128::MIN);
    assert_eq!(low.partial_cmp_word(0u8), Some(Ordering::Less));
    assert_eq!(low.partial_cmp_word(i8::MIN), Some(Ordering::Less));
    assert_eq!(low.partial_cmp_word(i128::MIN), Some(Ordering::Equal));
    let small = Integer::from_word(-3i8);
    assert_eq!(small.partial_cmp_word(0u64), Some(Ordering::Less));
    assert_eq!(small.partial_cmp_word(-3i64), Some(Ordering::Equal));
    assert_eq!(small.partial_cmp_word(-4i16), Some(Ordering::Greater));
    assert_eq!(small.partial_cmp_word(-2i16), Some(Ordering::Less));
    assert!(small.eq_word(-3i32));
    assert!(!small.eq_word(253u8));
    assert!(!big.eq_word(-1i128));
    assert!(!big.eq_word(u64::MAX));
    assert!(Integer::from_word(200u8).eq_word(200i16));
    assert!(!Integer::from_word(200u8).eq_word(-56i8));
}

#[test]
fn equality_with_objects() {
    let five = Integer::from(5u8);
    assert_eq!(five.eq_object(AnyObject::from_raw(11)), Equality::Decided(true));
    assert_eq!(five.eq_object(AnyObject::from_raw(13)), Equality::Decided(false));
    assert_eq!(five.eq_object(AnyObject::nil()), Equality::AskMachine);
    assert_eq!(five.eq_object(AnyObject::from_raw(0x1000)), Equality::AskMachine);
    let big = Integer::from(u128::MAX);
    assert_eq!(big.eq_object(AnyObject::from_raw(u64::MAX)), Equality::Decided(false));
    assert_eq!(big.eq_object(AnyObject::from_raw(0x1000)), Equality::AskMachine);
    let a = AnyObject::from_raw(11);
    assert_eq!(a.equality(AnyObject::from_raw(11)), Equality::Decided(true));
    assert_eq!(a.equality(AnyObject::from_raw(9)), Equality::Decided(false));
    assert_eq!(a.equality(AnyObject::from_raw(0x1000)), Equality::AskMachine);
    assert_eq!(AnyObject::nil().equality(AnyObject::nil()), Equality::AskMachine);
    let copy = big.clone();
    assert!(copy == big);
}

#[test]
fn sign_codes() {
    assert_eq!(Sign::from_code(2), Sign::Positive { did_overflow: true });
    assert_eq!(Sign::from_code(1), Sign::Positive { did_overflow: false });
    assert_eq!(Sign::from_code(0), Sign::Zero);
    assert_eq!(Sign::from_code(-1), Sign::Negative { did_overflow: false });
    assert_eq!(Sign::from_code(-2), Sign::Negative { did_overflow: true });
    assert_eq!(Sign::from_code(-7), Sign::Negative { did_overflow: true });
    assert_eq!(Sign::from_code(3), Sign::Negative { did_overflow: true });
    for code in [-2, -1, 0, 1, 2] {
        assert_eq!(Sign::from_code(code).code(), code);
    }
    assert!(Sign::Zero.is_zero());
    assert!(!Sign::Zero.did_overflow());
    assert!(Sign::Positive { did_overflow: false }.is_positive());
    assert!(Sign::Negative { did_overflow: true }.is_negative());
    assert!(Sign::Negative { did_overflow: true }.did_overflow());
    assert!(!Sign::Negative { did_overflow: false }.did_overflow());
}

#[test]
fn options_builders() {
    let o = Options::default();
    assert_eq!(o, Options::new());
    assert_eq!(o.word_order, Order::Least);
    assert_eq!(o.byte_order, ByteOrder::Native);
    assert!(!o.is_negative);
    assert!(!o.swaps_on(true));
    assert!(!o.swaps_on(false));
    let be = Options::big_endian();
    assert_eq!(be.word_order, Order::Most);
    assert_eq!(be.byte_order, ByteOrder::Most);
    assert!(be.swaps_on(true));
    assert!(!be.swaps_on(false));
    let le = Options::little_endian();
    assert_eq!(le.word_order, Order::Least);
    assert!(!le.swaps_on(true));
    assert!(le.swaps_on(false));
    let n = o.is_negative(true).word_order(Order::Most).byte_order(ByteOrder::Least);
    assert!(n.is_negative);
    assert_eq!(n.word_order, Order::Most);
    assert_eq!(n.byte_order, ByteOrder::Least);
}

#[test]
fn flags_of_options() {
    assert_eq!(Options::new().flags(), 0x42);
    assert_eq!(Options::big_endian().flags(), 0x11);
    assert_eq!(Options::little_endian().flags(), 0x22);
    assert_eq!(Options::new().word_order(Order::Most).flags(), 0x41);
    assert_eq!(Options::new().pack_flags(false), 0x42);
    assert_eq!(Options::new().pack_flags(true), 0xc2);
    assert_eq!(Options::new().unpack_flags(true), 0xc2);
    assert_eq!(Options::new().is_negative(true).unpack_flags(true), 0x2c2);
    assert_eq!(Options::new().is_negative(true).unpack_flags(false), 0x242);
    assert_eq!(Options::new().is_negative(true).pack_flags(false), 0x42);
    assert_eq!(Options::big_endian().is_negative(true).unpack_flags(true), 0x291);
}

#[test]
fn parts_of_integers() {
    assert_eq!(Integer::zero().parts(), (false, vec![]));
    assert_eq!(Integer::from_word(-258i16).parts(), (true, vec![2, 1]));
    assert_eq!(Integer::from_word(1u128 << 64).parts(), (false, vec![0, 0, 0, 0, 0, 0, 0, 0, 1]));
    assert_eq!(Integer::from_parts(true, vec![2, 1]).to_fixnum(), Some(-258));
    assert_eq!(Integer::from_parts(true, vec![]).to_fixnum(), Some(0));
    assert!(Integer::from_parts(false, vec![0, 0, 0, 0, 0, 0, 0, 64]).is_bignum());
    assert!(Integer::from_parts(true, vec![0, 0, 0, 0, 0, 0, 0, 64]).is_fixnum());
    assert!(Integer::from_parts(true, vec![1, 0, 0, 0, 0, 0, 0, 64]).is_bignum());
}
