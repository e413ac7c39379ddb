use register_vm::value::Value;
use register_vm::value::ValueType;

#[test]
fn sizes_of_types() {
    assert_eq!(ValueType::U8.get_size(), 1);
    assert_eq!(ValueType::I8.get_size(), 1);
    assert_eq!(ValueType::U16.get_size(), 2);
    assert_eq!(ValueType::I16.get_size(), 2);
    assert_eq!(ValueType::U32.get_size(), 4);
    assert_eq!(ValueType::I32.get_size(), 4);
    assert_eq!(ValueType::F32.get_size(), 4);
    assert_eq!(ValueType::U64.get_size(), 8);
    assert_eq!(ValueType::I64.get_size(), 8);
    assert_eq!(ValueType::F64.get_size(), 8);
    assert_eq!(ValueType::MemoryRef.get_size(), 8);
    assert_eq!(ValueType::ObjectRef.get_size(), 8);
    assert_eq!(ValueType::StringRef.get_size(), 8);
    assert_eq!(ValueType::ArrayRef.get_size(), 8);
    assert_eq!(ValueType::Object.get_size(), 8);
    assert_eq!(ValueType::String.get_size(), 8);
    assert_eq!(ValueType::Array.get_size(), 8);
    assert_eq!(ValueType::Function.get_size(), 8);
}

#[test]
fn new_values_are_zero() {
    assert_eq!(Value::new(ValueType::U8), Value::U8(0));
    assert_eq!(Value::new(ValueType::I64), Value::I64(0));
    assert_eq!(Value::new(ValueType::F32), Value::F32(0.0f32.to_bits()));
    assert_eq!(Value::new(ValueType::F64), Value::F64(0.0f64.to_bits()));
    assert_eq!(Value::new(ValueType::MemoryRef), Value::MemoryRef(0));
    assert_eq!(Value::new(ValueType::ArrayRef), Value::ArrayRef(0));
    assert_eq!(Value::new(ValueType::U16).get_type(), ValueType::U16);
}

#[test]
fn transmute_between_integers_casts_as_the_host_does() {
    assert_eq!(Value::I8(-1).transmute(ValueType::U8), Value::U8(255));
    assert_eq!(Value::U8(200).transmute(ValueType::I8), Value::I8(200u8 as i8));
    assert_eq!(Value::I8(-1).transmute(ValueType::U16), Value::U16(-1i8 as u16));
    assert_eq!(Value::U16(0x1234).transmute(ValueType::U8), Value::U8(0x34));
    assert_eq!(Value::I16(-300).transmute(ValueType::I8), Value::I8(-300i16 as i8));
    assert_eq!(Value::U32(0xdead_beef).transmute(ValueType::I32), Value::I32(0xdead_beefu32 as i32));
    assert_eq!(Value::I32(-5).transmute(ValueType::U64), Value::U64(-5i32 as u64));
    assert_eq!(Value::I32(-5).transmute(ValueType::I64), Value::I64(-5));
    assert_eq!(Value::U64(u64::MAX).transmute(ValueType::I64), Value::I64(-1));
    assert_eq!(Value::I64(i64::MIN).transmute(ValueType::U64), Value::U64(1u64 << 63));
    assert_eq!(Value::I64(i64::MIN).transmute(ValueType::I16), Value::I16(0));
    assert_eq!(Value::U64(0x1_0000_0001).transmute(ValueType::U32), Value::U32(1));
    assert_eq!(Value::U8(7).transmute(ValueType::U8), Value::U8(7));
}

#[test]
fn transmute_every_integer_pair_matches_the_host_cast() {
    let samples: [i128; 12] = [
        0,
        1,
        -1,
        127,
        128,
        -128,
        255,
        32767,
        -32768,
        65535,
        i64::MAX as i128,
        i64::MIN as i128,
    ];
    for sample in samples {
        let from_i64 = sample as i64;
        assert_eq!(Value::I64(from_i64).transmute(ValueType::U8), Value::U8(from_i64 as u8));
        assert_eq!(Value::I64(from_i64).transmute(ValueType::I8), Value::I8(from_i64 as i8));
        assert_eq!(Value::I64(from_i64).transmute(ValueType::U16), Value::U16(from_i64 as u16));
        assert_eq!(Value::I64(from_i64).transmute(ValueType::I16), Value::I16(from_i64 as i16));
        assert_eq!(Value::I64(from_i64).transmute(ValueType::U32), Value::U32(from_i64 as u32));
        assert_eq!(Value::I64(from_i64).transmute(ValueType::I32), Value::I32(from_i64 as i32));
        assert_eq!(Value::I64(from_i64).transmute(ValueType::U64), Value::U64(from_i64 as u64));
        let from_u16 = sample as u16;
        assert_eq!(Value::U16(from_u16).transmute(ValueType::I8), Value::I8(from_u16 as i8));
        assert_eq!(Value::U16(from_u16).transmute(ValueType::I16), Value::I16(from_u16 as i16));
        assert_eq!(Value::U16(from_u16).transmute(ValueType::I64), Value::I64(from_u16 as i64));
        let from_i8 = sample as i8;
        assert_eq!(Value::I8(from_i8).transmute(ValueType::U32), Value::U32(from_i8 as u32));
        assert_eq!(Value::I8(from_i8).transmute(ValueType::U64), Value::U64(from_i8 as u64));
    }
}

#[test]
fn transmute_between_u64_and_references_keeps_the_word() {
    assert_eq!(Value::U64(42).transmute(ValueType::MemoryRef), Value::MemoryRef(42));
    assert_eq!(Value::U64(42).transmute(ValueType::ObjectRef), Value::ObjectRef(42));
    assert_eq!(Value::U64(42).transmute(ValueType::StringRef), Value::StringRef(42));
    assert_eq!(Value::U64(42).transmute(ValueType::ArrayRef), Value::ArrayRef(42));
    assert_eq!(Value::MemoryRef(u64::MAX).transmute(ValueType::U64), Value::U64(u64::MAX));
    assert_eq!(Value::ArrayRef(9).transmute(ValueType::U64), Value::U64(9));
    assert_eq!(Value::StringRef(9).transmute(ValueType::MemoryRef), Value::MemoryRef(9));
    assert_eq!(Value::ObjectRef(9).transmute(ValueType::ObjectRef), Value::ObjectRef(9));
}

#[test]
fn transmute_is_defined_where_it_says() {
    assert!(Value::U8(1).can_transmute_to(ValueType::I64));
    assert!(Value::U64(1).can_transmute_to(ValueType::StringRef));
    assert!(Value::MemoryRef(1).can_transmute_to(ValueType::U64));
    assert!(Value::F32(0).can_transmute_to(ValueType::F32));
    assert!(!Value::F32(0).can_transmute_to(ValueType::F64));
    assert!(!Value::F32(0).can_transmute_to(ValueType::U32));
    assert!(!Value::U32(0).can_transmute_to(ValueType::F32));
    assert!(!Value::I64(1).can_transmute_to(ValueType::MemoryRef));
    assert!(!Value::MemoryRef(1).can_transmute_to(ValueType::StringRef));
    assert!(!Value::MemoryRef(1).can_transmute_to(ValueType::U8));
    assert!(!Value::Function(1).can_transmute_to(ValueType::U64));
    assert!(!Value::U64(1).can_transmute_to(ValueType::Object));
}

#[test]
fn addition_wraps_and_reports_it() {
    assert_eq!(Value::U8(255).overflowing_add(Value::U8(1)), (Value::U8(0), true));
    assert_eq!(Value::U8(1).overflowing_add(Value::U8(2)), (Value::U8(3), false));
    assert_eq!(Value::I8(127).overflowing_add(Value::I8(1)), (Value::I8(-128), true));
    assert_eq!(Value::I8(-128).overflowing_add(Value::I8(-1)), (Value::I8(127), true));
    assert_eq!(
        Value::U64(u64::MAX).overflowing_add(Value::U64(u64::MAX)),
        (Value::U64(u64::MAX - 1), true)
    );
    assert_eq!(
        Value::I64(i64::MIN).overflowing_add(Value::I64(i64::MIN)),
        (Value::I64(0), true)
    );
    assert_eq!(Value::I32(-5).overflowing_add(Value::I32(7)), (Value::I32(2), false));
}

#[test]
fn subtraction_wraps_and_reports_it() {
    assert_eq!(Value::U8(0).overflowing_sub(Value::U8(1)), (Value::U8(255), true));
    assert_eq!(Value::U16(5).overflowing_sub(Value::U16(3)), (Value::U16(2), false));
    assert_eq!(Value::I16(i16::MIN).overflowing_sub(Value::I16(1)), (Value::I16(i16::MAX), true));
    assert_eq!(
        Value::I64(i64::MAX).overflowing_sub(Value::I64(-1)),
        (Value::I64(i64::MIN), true)
    );
    assert_eq!(Value::U64(0).overflowing_sub(Value::U64(u64::MAX)), (Value::U64(1), true));
}

#[test]
fn multiplication_wraps_and_reports_it() {
    assert_eq!(Value::U8(16).overflowing_mul(Value::U8(16)), (Value::U8(0), true));
    assert_eq!(Value::U8(15).overflowing_mul(Value::U8(17)), (Value::U8(255), false));
    assert_eq!(Value::I8(-128).overflowing_mul(Value::I8(-1)), (Value::I8(-128), true));
    assert_eq!(Value::I32(-3).overflowing_mul(Value::I32(4)), (Value::I32(-12), false));
    assert_eq!(
        Value::U64(u64::MAX).overflowing_mul(Value::U64(2)),
        (Value::U64(u64::MAX - 1), true)
    );
    assert_eq!(
        Value::I64(i64::MAX).overflowing_mul(Value::I64(i64::MAX)),
        (Value::I64(i64::MAX.wrapping_mul(i64::MAX)), true)
    );
}

#[test]
fn increment_and_decrement_wrap() {
    assert_eq!(Value::U8(255).increment_overflowing(), (Value::U8(0), true));
    assert_eq!(Value::I8(5).increment_overflowing(), (Value::I8(6), false));
    assert_eq!(Value::U32(0).decrement_overflowing(), (Value::U32(u32::MAX), true));
    assert_eq!(Value::I64(i64::MIN).decrement_overflowing(), (Value::I64(i64::MAX), true));
    assert_eq!(Value::I64(0).decrement_overflowing(), (Value::I64(-1), false));
}

#[test]
fn division_rounds_toward_zero() {
    assert_eq!(Value::I8(-7).safe_div(Value::I8(2)), Some((Value::I8(-3), false)));
    assert_eq!(Value::I8(7).safe_div(Value::I8(-2)), Some((Value::I8(-3), false)));
    assert_eq!(Value::I8(-7).safe_div(Value::I8(-2)), Some((Value::I8(3), false)));
    assert_eq!(Value::U64(10).safe_div(Value::U64(3)), Some((Value::U64(3), false)));
    assert_eq!(Value::U64(10).safe_div(Value::U64(0)), None);
    assert_eq!(Value::I32(0).safe_div(Value::I32(0)), None);
    assert_eq!(Value::I8(-128).safe_div(Value::I8(-1)), Some((Value::I8(-128), true)));
    assert_eq!(
        Value::I64(i64::MIN).safe_div(Value::I64(-1)),
        Some((Value::I64(i64::MIN), true))
    );
    assert_eq!(
        Value::U64(u64::MAX).safe_div(Value::U64(1)),
        Some((Value::U64(u64::MAX), false))
    );
}

#[test]
fn remainder_has_the_sign_of_the_dividend() {
    assert_eq!(Value::I8(-7).safe_mod(Value::I8(2)), Some((Value::I8(-1), false)));
    assert_eq!(Value::I8(7).safe_mod(Value::I8(-2)), Some((Value::I8(1), false)));
    assert_eq!(Value::U16(10).safe_mod(Value::U16(4)), Some((Value::U16(2), false)));
    assert_eq!(Value::U16(10).safe_mod(Value::U16(0)), None);
    assert_eq!(Value::I8(-128).safe_mod(Value::I8(-1)), Some((Value::I8(0), true)));
    assert_eq!(Value::I64(i64::MIN).safe_mod(Value::I64(-1)), Some((Value::I64(0), true)));
    assert_eq!(
        Value::I64(i64::MIN).safe_mod(Value::I64(i64::MAX)),
        Some((Value::I64(i64::MIN % i64::MAX), false))
    );
}

#[test]
fn bitwise_operations() {
    assert_eq!(Value::U8(0b1100).bitand(Value::U8(0b1010)), Value::U8(0b1000));
    assert_eq!(Value::U8(0b1100).bitor(Value::U8(0b1010)), Value::U8(0b1110));
    assert_eq!(Value::U8(0b1100).bitxor(Value::U8(0b1010)), Value::U8(0b0110));
    assert_eq!(Value::I16(-1).bitand(Value::I16(0x00ff)), Value::I16(0x00ff));
    assert_eq!(Value::I32(-1).bitxor(Value::I32(-1)), Value::I32(0));
    assert_eq!(Value::U32(7).not(), Value::U32(!7u32));
    assert_eq!(Value::I64(0).not(), Value::I64(-1));
    assert_eq!(Value::U64(u64::MAX).bitor(Value::U64(0)), Value::U64(u64::MAX));
}

#[test]
fn shifts_take_the_count_modulo_the_width() {
    assert_eq!(Value::U8(1).shl(Value::U8(3)), Value::U8(8));
    assert_eq!(Value::U8(1).shl(Value::U8(8)), Value::U8(1));
    assert_eq!(Value::U8(1).shl(Value::U8(9)), Value::U8(2));
    assert_eq!(Value::U8(0x80).shl(Value::U8(1)), Value::U8(0));
    assert_eq!(Value::U16(0x8000).shr(Value::U16(15)), Value::U16(1));
    assert_eq!(Value::I16(-0x8000).shr(Value::I16(15)), Value::I16(-1));
    assert_eq!(Value::I8(-8).shr(Value::I8(1)), Value::I8(-4));
    assert_eq!(Value::I8(1).shl(Value::I8(-1)), Value::I8(1i8.wrapping_shl(7)));
    assert_eq!(Value::I64(-1).shr(Value::I64(63)), Value::I64(-1));
    assert_eq!(Value::U64(u64::MAX).shr(Value::U64(63)), Value::U64(1));
    assert_eq!(Value::U32(1).shl(Value::U32(31)), Value::U32(1 << 31));
}

#[test]
fn zero_and_negative() {
    assert!(Value::U8(0).is_zero());
    assert!(!Value::U8(1).is_zero());
    assert!(!Value::U8(255).is_negative());
    assert!(Value::I8(-1).is_negative());
    assert!(!Value::I8(0).is_negative());
    assert!(Value::I64(i64::MIN).is_negative());
    assert!(Value::MemoryRef(0).is_zero());
    assert!(!Value::MemoryRef(u64::MAX).is_negative());
}

#[test]
fn floating_point_zero_and_negative_follow_ieee() {
    assert!(Value::F32(0.0f32.to_bits()).is_zero());
    assert!(Value::F32((-0.0f32).to_bits()).is_zero());
    assert!(!Value::F32(f32::MIN_POSITIVE.to_bits()).is_zero());
    assert!(!Value::F32(f32::NAN.to_bits()).is_zero());
    assert!(Value::F32((-1.5f32).to_bits()).is_negative());
    assert!(!Value::F32((-0.0f32).to_bits()).is_negative());
    assert!(!Value::F32(f32::NAN.to_bits()).is_negative());
    assert!(!Value::F32((-f32::NAN).to_bits()).is_negative());
    assert!(Value::F32(f32::NEG_INFINITY.to_bits()).is_negative());
    assert!(Value::F64(0.0f64.to_bits()).is_zero());
    assert!(Value::F64((-0.0f64).to_bits()).is_zero());
    assert!(Value::F64((-2.0f64).to_bits()).is_negative());
    assert!(!Value::F64(f64::INFINITY.to_bits()).is_negative());
    assert!(!Value::F64(f64::NAN.to_bits()).is_negative());
}

#[test]
fn floating_point_order_follows_ieee() {
    let samples: [f64; 11] = [
        0.0,
        -0.0,
        1.0,
        -1.0,
        1.5,
        -1.5,
        f64::MAX,
        f64::MIN,
        f64::INFINITY,
        f64::NEG_INFINITY,
        f64::NAN,
    ];
    for a in samples {
        for b in samples {
            let left = Value::F64(a.to_bits());
            let right = Value::F64(b.to_bits());
            assert_eq!(left.is_equal_to(&right), a == b);
            assert_eq!(left.is_less_than(&right), a < b);
            let left = Value::F32((a as f32).to_bits());
            let right = Value::F32((b as f32).to_bits());
            assert_eq!(left.is_equal_to(&right), (a as f32) == (b as f32));
            assert_eq!(left.is_less_than(&right), (a as f32) < (b as f32));
        }
    }
}

#[test]
fn integer_order() {
    assert!(Value::I8(-1).is_less_than(&Value::I8(0)));
    assert!(!Value::U8(255).is_less_than(&Value::U8(0)));
    assert!(Value::U64(1).is_less_than(&Value::U64(u64::MAX)));
    assert!(Value::I64(i64::MIN).is_less_than(&Value::I64(i64::MAX)));
    assert!(Value::U32(3).is_equal_to(&Value::U32(3)));
    assert!(!Value::U32(3).is_equal_to(&Value::U32(4)));
}

#[test]
fn to_usize_takes_indices_only() {
    assert_eq!(Value::U8(7).to_usize(), Some(7));
    assert_eq!(Value::I64(7).to_usize(), Some(7));
    assert_eq!(Value::I64(-1).to_usize(), None);
    assert_eq!(Value::MemoryRef(9).to_usize(), Some(9));
    assert_eq!(Value::StringRef(9).to_usize(), None);
    assert_eq!(Value::F32(1).to_usize(), None);
    assert_eq!(Value::U64(u64::MAX).to_usize(), usize::try_from(u64::MAX).ok());
}

#[test]
fn bytes_are_little_endian() {
    assert_eq!(Value::U8(0xab).to_bytes(), vec![0xab]);
    assert_eq!(Value::I8(-1).to_bytes(), vec![0xff]);
    assert_eq!(Value::U16(0x0102).to_bytes(), vec![0x02, 0x01]);
    assert_eq!(Value::I16(-2).to_bytes(), (-2i16).to_le_bytes().to_vec());
    assert_eq!(Value::U32(0x0102_0304).to_bytes(), vec![0x04, 0x03, 0x02, 0x01]);
    assert_eq!(Value::I32(i32::MIN).to_bytes(), i32::MIN.to_le_bytes().to_vec());
    assert_eq!(
        Value::U64(0x0102_0304_0506_0708).to_bytes(),
        vec![0x08, 0x07, 0x06, 0x05, 0x04, 0x03, 0x02, 0x01]
    );
    assert_eq!(Value::I64(-1).to_bytes(), vec![0xff; 8]);
    assert_eq!(Value::F32(1.5f32.to_bits()).to_bytes(), 1.5f32.to_le_bytes().to_vec());
    assert_eq!(Value::F64((-2.25f64).to_bits()).to_bytes(), (-2.25f64).to_le_bytes().to_vec());
    assert_eq!(Value::MemoryRef(5).to_bytes(), 5u64.to_le_bytes().to_vec());
}

#[test]
fn values_come_back_from_their_bytes() {
    let values = [
        Value::U8(200),
        Value::I8(-100),
        Value::U16(60000),
        Value::I16(-30000),
        Value::U32(4_000_000_000),
        Value::I32(-2_000_000_000),
        Value::U64(u64::MAX - 3),
        Value::I64(i64::MIN + 3),
        Value::F32(3.25f32.to_bits()),
        Value::F64(f64::NAN.to_bits()),
        Value::MemoryRef(77),
        Value::ObjectRef(78),
        Value::StringRef(79),
        Value::ArrayRef(80),
    ];
    for value in values {
        let bytes = value.to_bytes();
        assert_eq!(bytes.len(), value.get_type().get_size());
        assert_eq!(Value::from_bytes(value.get_type(), &bytes), value);
    }
    assert_eq!(Value::from_bytes(ValueType::I8, &vec![0xff]), Value::I8(-1));
    assert_eq!(Value::from_bytes(ValueType::U16, &vec![0x34, 0x12]), Value::U16(0x1234));
    assert_eq!(Value::from_bytes(ValueType::I32, &vec![0xfe, 0xff, 0xff, 0xff]), Value::I32(-2));
}

#[test]
fn integers_convert_to_the_variant_of_their_type() {
    assert_eq!(Value::from(7u8), Value::U8(7));
    assert_eq!(Value::from(-7i8), Value::I8(-7));
    assert_eq!(Value::from(7u16), Value::U16(7));
    assert_eq!(Value::from(-7i16), Value::I16(-7));
    assert_eq!(Value::from(7u32), Value::U32(7));
    assert_eq!(Value::from(-7i32), Value::I32(-7));
    assert_eq!(Value::from(7u64), Value::U64(7));
    assert_eq!(Value::from(-7i64), Value::I64(-7));
    let value: Value = 9u64.into();
    assert_eq!(value, Value::U64(9));
}
