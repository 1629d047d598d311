use std::collections::BTreeMap;

use classic_bitfield::{bitfield_enum, BitfieldEnum, Flags, ReprType, Variant};

fn plain(name: &str) -> Variant {
    Variant { name: name.to_string(), repr: None }
}

/// `#[bitfield_enum(as u8)] enum TestEnum { ONE, TWO, THREE, #[repr(0b101)] ONE_AND_THREE }`
fn test_enum() -> BitfieldEnum {
    let attr = vec!["as".to_string(), "u8".to_string()];
    let variants = vec![
        plain("ONE"),
        plain("TWO"),
        plain("THREE"),
        Variant { name: "ONE_AND_THREE".to_string(), repr: Some(0b101) },
    ];
    bitfield_enum(&attr, "TestEnum".to_string(), variants).expect("expands")
}

const ONE: usize = 0;
const TWO: usize = 1;
const THREE: usize = 2;
const ONE_AND_THREE: usize = 3;

fn c(e: &BitfieldEnum, i: usize) -> Flags {
    e.constant(i)
}

#[test]
fn test_combo_variant() {
    let e = test_enum();
    let subject = c(&e, ONE_AND_THREE);
    assert!(e.has(subject, ONE));
    assert!(!e.has(subject, TWO));
    assert!(e.has(subject, THREE));
}

#[test]
fn basic_test() {
    let e = test_enum();
    let subject = c(&e, ONE).bitor(c(&e, TWO));
    assert!(e.has(subject, ONE));
    assert!(e.has(subject, TWO));
    assert!(subject.eq_repr(3));
    assert!(!e.has(subject, ONE_AND_THREE));
}

#[test]
fn debug_output() {
    let e = test_enum();
    let subject = c(&e, ONE);
    assert_eq!(e.debug_text(subject), "TestEnum::ONE");
    let subject = subject.bitor(c(&e, TWO));
    assert_eq!(e.debug_text(subject), "TestEnum::ONE | TestEnum::TWO");
    let subject = subject.bitor(c(&e, THREE));
    assert_eq!(
        e.debug_text(subject),
        "TestEnum::ONE | TestEnum::TWO | TestEnum::THREE | TestEnum::ONE_AND_THREE"
    );
}

#[test]
fn test_with_and_without() {
    let e = test_enum();
    let subject = c(&e, ONE).with(c(&e, TWO));
    assert_eq!(subject.bits(), 3);
    let subject = subject.without_repr(1);
    assert_eq!(subject.bits(), 2);
    let subject = c(&e, TWO).bitor(c(&e, THREE));
    assert_eq!(subject.bits(), 6);
    let subject = subject.without(c(&e, ONE_AND_THREE));
    // note that removing ONE redundantly here is fine.
    assert_eq!(subject.bits(), 2);
}

#[test]
fn test_assigns() {
    let e = test_enum();
    let mut subject = c(&e, ONE);
    subject.bitor_assign(c(&e, TWO));
    assert_eq!(subject.bits(), 3);
    subject.bitand_assign(c(&e, ONE_AND_THREE));
    assert_eq!(subject.bits(), 1);
}

#[test]
fn test_list_names_and_values() {
    let e = test_enum();
    assert_eq!(e.variant_names(), &["ONE", "TWO", "THREE", "ONE_AND_THREE"]);
    assert_eq!(
        e.variant_values(),
        &[c(&e, ONE), c(&e, TWO), c(&e, THREE), c(&e, ONE_AND_THREE)]
    );
    let pairs = e.variant_pairs();
    let expected = [
        ("ONE", c(&e, ONE)),
        ("TWO", c(&e, TWO)),
        ("THREE", c(&e, THREE)),
        ("ONE_AND_THREE", c(&e, ONE_AND_THREE)),
    ];
    assert_eq!(pairs.len(), expected.len());
    for (got, want) in pairs.iter().zip(expected.iter()) {
        assert_eq!(got.0, want.0);
        assert_eq!(got.1, want.1);
    }
    let subject = c(&e, ONE).bitor(c(&e, TWO));
    assert_eq!(e.names_of_set_variants(subject), &["ONE", "TWO"]);
}

#[test]
fn test_serde_as_number() {
    let e = test_enum();
    let subject = c(&e, ONE_AND_THREE);
    let mut t: BTreeMap<String, u8> = BTreeMap::new();
    t.insert("v".to_string(), subject.bits() as u8);
    assert_eq!(serde_json::to_string(&t).expect("serialize"), r#"{"v":5}"#);
    let t: BTreeMap<String, u8> = serde_json::from_str(r#"{"v": 5}"#).expect("deserialize");
    let v = Flags::from_unsigned(ReprType::U8, t["v"] as u128).expect("deserialize");
    assert!(e.has(v, ONE_AND_THREE));
}

#[test]
fn test_serde_as_names() {
    let e = test_enum();
    let subject = c(&e, ONE_AND_THREE);
    let mut t: BTreeMap<String, Vec<String>> = BTreeMap::new();
    t.insert("v".to_string(), e.names_of_set_variants(subject));
    assert_eq!(
        serde_json::to_string(&t).expect("serialize"),
        r#"{"v":["ONE","THREE","ONE_AND_THREE"]}"#
    );
    let t: BTreeMap<String, Vec<String>> =
        serde_json::from_str(r#"{"v": ["ONE", "THREE"]}"#).expect("deserialize");
    let v = e.from_names(&t["v"]).expect("deserialize");
    assert!(e.has(v, ONE_AND_THREE));
}
