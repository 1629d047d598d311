use std::cmp::Ordering;

use classic_bitfield::{
    bitfield_enum, AttrError, BitfieldEnum, ExpandError, Flags, ReprType, UnknownVariant, Variant,
};

fn plain(name: &str) -> Variant {
    Variant { name: name.to_string(), repr: None }
}

fn tokens(t: &[&str]) -> Vec<String> {
    t.iter().map(|s| s.to_string()).collect()
}

fn permissions() -> BitfieldEnum {
    let variants = vec![
        plain("EXECUTE"),
        plain("WRITE"),
        plain("READ"),
        Variant { name: "READ_AND_WRITE".to_string(), repr: Some(0o6) },
    ];
    bitfield_enum(&tokens(&["as", "u8"]), "Permissions".to_string(), variants).expect("expands")
}

#[test]
fn empty_attribute_selects_u64() {
    assert_eq!(ReprType::parse(&Vec::new()), Ok(ReprType::U64));
    let e = bitfield_enum(&Vec::new(), "Mode".to_string(), vec![plain("A"), plain("B")]).unwrap();
    assert_eq!(e.repr(), ReprType::U64);
    assert_eq!(e.constant(1).bits(), 2);
}

#[test]
fn attribute_errors() {
    assert_eq!(ReprType::parse(&tokens(&["u8"])), Err(AttrError::Malformed));
    assert_eq!(ReprType::parse(&tokens(&["as"])), Err(AttrError::Malformed));
    assert_eq!(ReprType::parse(&tokens(&["as", "u8", "u8"])), Err(AttrError::Malformed));
    assert_eq!(ReprType::parse(&tokens(&["as", "String"])), Err(AttrError::UnsupportedType));
    assert_eq!(ReprType::parse(&tokens(&["as", "i128"])), Ok(ReprType::I128));
    let r = bitfield_enum(&tokens(&["as", "f32"]), "X".to_string(), vec![plain("A")]);
    assert!(matches!(r, Err(ExpandError::Attr(AttrError::UnsupportedType))));
}

#[test]
fn explicit_value_out_of_range() {
    let variants = vec![plain("A"), Variant { name: "B".to_string(), repr: Some(256) }];
    let r = bitfield_enum(&tokens(&["as", "u8"]), "X".to_string(), variants);
    assert!(matches!(r, Err(ExpandError::ValueOutOfRange { index: 1 })));
}

#[test]
fn too_many_variants() {
    let names: Vec<Variant> = (0..9).map(|i| plain(&format!("V{i}"))).collect();
    let r = bitfield_enum(&tokens(&["as", "u8"]), "X".to_string(), names);
    assert!(matches!(r, Err(ExpandError::TooManyVariants { index: 8 })));
    // the sign bit of a signed type is no single-bit constant
    let names: Vec<Variant> = (0..8).map(|i| plain(&format!("V{i}"))).collect();
    let r = bitfield_enum(&tokens(&["as", "i8"]), "X".to_string(), names);
    assert!(matches!(r, Err(ExpandError::TooManyVariants { index: 7 })));
    // beyond bit 63 even for u128
    let names: Vec<Variant> = (0..65).map(|i| plain(&format!("V{i}"))).collect();
    let r = bitfield_enum(&tokens(&["as", "u128"]), "X".to_string(), names);
    assert!(matches!(r, Err(ExpandError::TooManyVariants { index: 64 })));
    let names: Vec<Variant> = (0..64).map(|i| plain(&format!("V{i}"))).collect();
    let e = bitfield_enum(&tokens(&["as", "u64"]), "X".to_string(), names).unwrap();
    assert_eq!(e.constant(63).bits(), 1u128 << 63);
}

#[test]
fn constant_names_are_upper_case() {
    let e = bitfield_enum(&Vec::new(), "X".to_string(), vec![plain("Read"), plain("write")]).unwrap();
    assert_eq!(e.variant_names(), &["READ", "WRITE"]);
    assert_eq!(e.has_method_name(0), "has_read");
    assert_eq!(e.has_method_name(1), "has_write");
}

#[test]
fn all_set_and_not() {
    let e = permissions();
    let all = e.all_set();
    assert_eq!(all.bits(), 7);
    assert_eq!(all.not().bits(), 0xf8);
    assert_eq!(e.constant(0).not().bits(), 0xfe);
}

#[test]
fn debug_of_empty_value() {
    let e = permissions();
    assert_eq!(e.debug_text(Flags::empty(ReprType::U8)), "Permissions(0)");
    assert_eq!(e.debug_text(Flags::from_bits(ReprType::U8, 0x40)), "Permissions(64)");
    let s = bitfield_enum(&tokens(&["as", "i8"]), "S".to_string(), vec![plain("A")]).unwrap();
    assert_eq!(s.debug_text(Flags::from_bits(ReprType::I8, 0xfe)), "S(-2)");
    assert_eq!(s.debug_text(Flags::from_bits(ReprType::I8, 0x80)), "S(-128)");
    assert_eq!(s.debug_text(Flags::from_bits(ReprType::I8, 0x81)), "S::A");
}

#[test]
fn names_read_back() {
    let e = permissions();
    let v = e.from_names(&tokens(&["EXECUTE", "READ"])).unwrap();
    assert_eq!(v.bits(), 5);
    assert_eq!(e.from_names(&Vec::new()).unwrap().bits(), 0);
    assert_eq!(e.from_names(&tokens(&["READ", "EXEC", "NOPE"])), Err(UnknownVariant { position: 1 }));
    let v = e.from_names(&tokens(&["READ_AND_WRITE"])).unwrap();
    assert_eq!(e.names_of_set_variants(v), &["WRITE", "READ", "READ_AND_WRITE"]);
}

#[test]
fn serde_names() {
    let e = permissions();
    assert_eq!(e.serde_module_name(), "permissions_serde");
    let t = bitfield_enum(&Vec::new(), "TestEnum".to_string(), vec![plain("A")]).unwrap();
    assert_eq!(t.serde_module_name(), "test_enum_serde");
    assert_eq!(
        ReprType::U8.maybe_convertible_types(),
        vec![
            ReprType::U16,
            ReprType::U32,
            ReprType::U64,
            ReprType::I8,
            ReprType::I16,
            ReprType::I32,
            ReprType::I64
        ]
    );
    assert_eq!(ReprType::U128.maybe_convertible_types().len(), 8);
}

#[test]
fn numeric_conversions() {
    assert_eq!(Flags::from_unsigned(ReprType::U8, 255).map(|f| f.bits()), Some(255));
    assert_eq!(Flags::from_unsigned(ReprType::U8, 256), None);
    assert_eq!(Flags::from_unsigned(ReprType::I8, 128), None);
    assert_eq!(Flags::from_signed(ReprType::I8, -1).map(|f| f.bits()), Some(0xff));
    assert_eq!(Flags::from_signed(ReprType::I8, -128).map(|f| f.bits()), Some(0x80));
    assert_eq!(Flags::from_signed(ReprType::I8, -129), None);
    assert_eq!(Flags::from_signed(ReprType::U16, -1), None);
    assert_eq!(Flags::from_signed(ReprType::I128, i128::MIN).map(|f| f.bits()), Some(1u128 << 127));
    assert_eq!(Flags::from_signed(ReprType::I16, -2).unwrap().value_text(), "-2");
    assert_eq!(Flags::from_unsigned(ReprType::U128, u128::MAX).unwrap().value_text(), u128::MAX.to_string());
}

#[test]
fn compare_with_repr() {
    let v = Flags::from_bits(ReprType::I8, 0xff); // -1
    assert_eq!(v.cmp_repr(1), Ordering::Less);
    assert_eq!(v.cmp_repr(0x80), Ordering::Greater);
    assert_eq!(v.cmp_repr(0xff), Ordering::Equal);
    let u = Flags::from_bits(ReprType::U8, 0xff);
    assert_eq!(u.cmp_repr(1), Ordering::Greater);
    assert!(u.eq_repr(255));
}

#[test]
fn decimal_text_read_back() {
    let bits = |r: ReprType, s: &str| Flags::from_decimal(r, s).map(|f| f.bits());
    assert_eq!(bits(ReprType::U8, "255"), Some(255));
    assert_eq!(bits(ReprType::U8, "+7"), Some(7));
    assert_eq!(bits(ReprType::U8, "007"), Some(7));
    assert_eq!(bits(ReprType::U8, "256"), None);
    assert_eq!(bits(ReprType::U8, "-0"), None);
    assert_eq!(bits(ReprType::U8, " 1"), None);
    assert_eq!(bits(ReprType::U8, ""), None);
    assert_eq!(bits(ReprType::U8, "+"), None);
    assert_eq!(bits(ReprType::I8, "-128"), Some(0x80));
    assert_eq!(bits(ReprType::I8, "128"), None);
    assert_eq!(bits(ReprType::I32, "-1"), Some(0xffff_ffff));
    let v = Flags::from_decimal(ReprType::I16, "-300").unwrap();
    assert_eq!(v.value_text(), "-300");
}

#[test]
fn serde_method_names() {
    assert_eq!(ReprType::U8.serialize_method(), "serialize_u8");
    assert_eq!(ReprType::I64.deserialize_method(), "deserialize_i64");
    assert_eq!(ReprType::U128.visit_method(), "visit_u128");
    assert_eq!(ReprType::I16.name(), "i16");
    assert_eq!(ReprType::from_name("u32"), Some(ReprType::U32));
    assert_eq!(ReprType::from_name("usize"), None);
}

#[test]
fn duplicate_constant_names() {
    let r = bitfield_enum(&Vec::new(), "X".to_string(), vec![plain("A"), plain("B"), plain("a")]);
    assert!(matches!(r, Err(ExpandError::DuplicateName { index: 2 })));
    // a value that does not fit is reported before a repeated name
    let variants = vec![plain("A"), Variant { name: "A".to_string(), repr: Some(300) }];
    let r = bitfield_enum(&tokens(&["as", "u8"]), "X".to_string(), variants);
    assert!(matches!(r, Err(ExpandError::ValueOutOfRange { index: 1 })));
}

#[test]
fn names_round_trip() {
    let e = permissions();
    // bit 6 belongs to no variant and is not written
    let v = Flags::from_bits(ReprType::U8, 0b0100_0110);
    let names = e.names_of_set_variants(v);
    assert_eq!(names, &["WRITE", "READ", "READ_AND_WRITE"]);
    let back = e.from_names(&names).unwrap();
    assert_eq!(back.bits(), 0b110);
    assert!(e.has(back.with(e.constant(0)), 0));
    assert!(!e.has(v.without(e.constant(1)), 1));
}
