use vstd::prelude::*;

use crate::flags::{lemma_or_within, Flags, FlagsView};
use crate::repr::{parse_spec, AttrError, ReprType};
use crate::text::{
    lower_of, same_text, signed_decimal, snake_of, to_lower, to_snake, to_upper, upper_of,
};

verus! {

/// A variant of the annotated enumeration: its name, and the bit pattern
/// written in its `#[repr(..)]` attribute, if it has one.
#[derive(Clone, Debug)]
pub struct Variant {
    pub name: String,
    pub repr: Option<u128>,
}

/// Why an annotated enumeration cannot be expanded.
#[derive(Clone, Copy, Debug, PartialEq, Eq, Structural)]
pub enum ExpandError {
    /// The attribute's arguments are not understood.
    Attr(AttrError),
    /// The explicit value of the variant at `index` does not fit the type.
    ValueOutOfRange { index: usize },
    /// The variant at `index` has no explicit value, and its single bit
    /// `1 << index` does not fit the type (or lies beyond bit 63).
    TooManyVariants { index: usize },
    /// The constant of the variant at `index` has the name of an earlier one.
    DuplicateName { index: usize },
}

/// A name read back that is not the name of any variant's constant.
#[derive(Clone, Copy, Debug, PartialEq, Eq, Structural)]
pub struct UnknownVariant {
    /// Where the name stands in the list that was read.
    pub position: usize,
}

/// The value type that an annotated enumeration expands to.
pub struct BitfieldEnum {
    ident: String,
    repr: ReprType,
    names: Vec<String>,
    consts: Vec<String>,
    values: Vec<u128>,
}

/// What a [`BitfieldEnum`] is: the type's name and representation, and for each
/// variant its name, the name of its constant and the constant's bits.
pub ghost struct BitfieldView {
    pub ident: Seq<char>,
    pub repr: ReprType,
    pub names: Seq<Seq<char>>,
    pub consts: Seq<Seq<char>>,
    pub values: Seq<u128>,
}

impl View for BitfieldEnum {
    type V = BitfieldView;

    closed spec fn view(&self) -> BitfieldView {
        BitfieldView {
            ident: self.ident@,
            repr: self.repr,
            names: self.names@.map_values(|s: String| s@),
            consts: self.consts@.map_values(|s: String| s@),
            values: self.values@,
        }
    }
}

/// The bits of the variant at `index` without an explicit value.
pub open spec fn single_bit(index: nat) -> u128 {
    (1u128 << index) as u128
}

/// Whether the variant `v`, at `index`, gets a constant that fits type `r`.
pub open spec fn variant_fits(r: ReprType, v: Variant, index: nat) -> bool {
    match v.repr {
        Some(b) => b <= r.mask_spec(),
        None => index < 64 && single_bit(index) <= r.max_int(),
    }
}

/// Whether the constant of the variant at `i` is named unlike every earlier one.
pub open spec fn name_is_new(variants: Seq<Variant>, i: int) -> bool {
    forall|j: int| 0 <= j < i ==> upper_of(variants[j].name@) != upper_of(variants[i].name@)
}

/// Whether the variant at `i` gets a constant of its own that fits type `r`.
pub open spec fn variant_ok(r: ReprType, variants: Seq<Variant>, i: int) -> bool {
    variant_fits(r, variants[i], i as nat) && name_is_new(variants, i)
}

/// The error for the variant at `index`, which is not ok.
pub open spec fn variant_error(r: ReprType, variants: Seq<Variant>, index: int) -> ExpandError {
    if variant_fits(r, variants[index], index as nat) {
        ExpandError::DuplicateName { index: index as usize }
    } else {
        match variants[index].repr {
            Some(_) => ExpandError::ValueOutOfRange { index: index as usize },
            None => ExpandError::TooManyVariants { index: index as usize },
        }
    }
}

/// The bits of the constant of the variant `v` at `index`: its explicit value,
/// or else the next single bit.
pub open spec fn constant_value(v: Variant, index: nat) -> u128 {
    match v.repr {
        Some(b) => b,
        None => single_bit(index),
    }
}

/// What the enumeration `variants` named `ident` expands to, once the
/// attribute has selected `r` and every variant fits.
pub open spec fn expansion(ident: Seq<char>, r: ReprType, variants: Seq<Variant>) -> BitfieldView {
    BitfieldView {
        ident,
        repr: r,
        names: variants.map_values(|v: Variant| v.name@),
        consts: variants.map_values(|v: Variant| upper_of(v.name@)),
        values: Seq::new(variants.len(), |i: int| constant_value(variants[i], i as nat)),
    }
}

/// The outcome of expanding the enumeration: the attribute's error, else the
/// error of the first variant that does not fit or repeats a constant name,
/// else the value type.
pub open spec fn expand_spec(
    attr: Seq<Seq<char>>,
    ident: Seq<char>,
    variants: Seq<Variant>,
) -> Result<BitfieldView, ExpandError> {
    match parse_spec(attr) {
        Err(e) => Err(ExpandError::Attr(e)),
        Ok(r) => if exists|i: int| 0 <= i < variants.len() && !variant_ok(r, variants, i) {
            let i = choose|i: int|
                0 <= i < variants.len() && !variant_ok(r, variants, i) && forall|j: int|
                    0 <= j < i ==> variant_ok(r, variants, j);
            Err(variant_error(r, variants, i))
        } else {
            Ok(expansion(ident, r, variants))
        },
    }
}

impl BitfieldView {
    /// Every variant has a name, a constant name and a value, no two constants
    /// share a name, and each value fits the type.
    pub open spec fn wf(self) -> bool {
        &&& self.consts.len() == self.names.len()
        &&& self.values.len() == self.names.len()
        &&& forall|i: int| 0 <= i < self.values.len() ==> self.values[i] <= self.repr.mask_spec()
        &&& forall|i: int, j: int|
            0 <= i < j < self.consts.len() ==> #[trigger] self.consts[i] != #[trigger] self.consts[j]
    }

    pub open spec fn len(self) -> nat {
        self.names.len()
    }

    /// Whether the value with bits `bits` has every bit of the variant at `i`.
    pub open spec fn has(self, bits: u128, i: int) -> bool {
        bits & self.values[i] == self.values[i]
    }
}

proof fn lemma_max_within_mask(r: ReprType)
    ensures
        0 <= r.max_int() <= r.mask_spec(),
{
}

/// Expands the enumeration named `ident` with the variants `variants`,
/// annotated with the attribute whose argument tokens are `attr`.
pub fn bitfield_enum(attr: &Vec<String>, ident: String, variants: Vec<Variant>) -> (r: Result<
    BitfieldEnum,
    ExpandError,
>)
    ensures
        match r {
            Ok(e) => expand_spec(attr@.map_values(|t: String| t@), ident@, variants@) == Ok::<
                BitfieldView,
                ExpandError,
            >(e@) && e@.wf(),
            Err(err) => expand_spec(attr@.map_values(|t: String| t@), ident@, variants@) == Err::<
                BitfieldView,
                ExpandError,
            >(err),
        },
{
    let repr = match ReprType::parse(attr) {
        Ok(r) => r,
        Err(e) => return Err(ExpandError::Attr(e)),
    };
    let max: u128 = if repr.is_signed() {
        repr.sign_bit() - 1
    } else {
        repr.mask()
    };
    let mut names: Vec<String> = Vec::new();
    let mut consts: Vec<String> = Vec::new();
    let mut values: Vec<u128> = Vec::new();
    let n = variants.len();
    let mut i: usize = 0;
    while i < n
        invariant
            n == variants@.len(),
            i <= n,
            max == repr.max_int(),
            parse_spec(attr@.map_values(|t: String| t@)) == Ok::<ReprType, AttrError>(repr),
            forall|j: int| 0 <= j < i ==> variant_ok(repr, variants@, j),
            names@.len() == i,
            consts@.len() == i,
            values@.len() == i,
            forall|j: int| 0 <= j < i ==> (#[trigger] names@[j])@ == variants@[j].name@,
            forall|j: int| 0 <= j < i ==> (#[trigger] consts@[j])@ == upper_of(variants@[j].name@),
            forall|j: int| 0 <= j < i ==> #[trigger] values@[j] == constant_value(variants@[j], j as nat),
            forall|j: int| 0 <= j < i ==> #[trigger] values@[j] <= repr.mask_spec(),
        decreases n - i,
    {
        let v = &variants[i];
        let bits: u128 = match v.repr {
            Some(b) => {
                if b > repr.mask() {
                    proof {
                        assert(!variant_ok(repr, variants@, i as int));
                    }
                    return Err(ExpandError::ValueOutOfRange { index: i });
                }
                b
            },
            None => {
                if i >= 64 {
                    proof {
                        assert(!variant_ok(repr, variants@, i as int));
                    }
                    return Err(ExpandError::TooManyVariants { index: i });
                }
                let b = 1u128 << i;
                if b > max {
                    proof {
                        assert(!variant_ok(repr, variants@, i as int));
                    }
                    return Err(ExpandError::TooManyVariants { index: i });
                }
                proof {
                    lemma_max_within_mask(repr);
                }
                b
            },
        };
        let upper = to_upper(v.name.as_str());
        assert(variant_fits(repr, variants@[i as int], i as nat));
        let mut j: usize = 0;
        while j < i
            invariant
                variant_fits(repr, variants@[i as int], i as nat),
                forall|k: int| 0 <= k < i ==> variant_ok(repr, variants@, k),
                parse_spec(attr@.map_values(|t: String| t@)) == Ok::<ReprType, AttrError>(repr),
                i < n,
                n == variants@.len(),
                j <= i,
                consts@.len() == i,
                upper@ == upper_of(variants@[i as int].name@),
                forall|k: int| 0 <= k < i ==> (#[trigger] consts@[k])@ == upper_of(variants@[k].name@),
                forall|k: int| 0 <= k < j ==> upper_of(variants@[k].name@) != upper@,
            decreases i - j,
        {
            if same_text(consts[j].as_str(), upper.as_str()) {
                proof {
                    assert(!name_is_new(variants@, i as int));
                    assert(!variant_ok(repr, variants@, i as int));
                }
                return Err(ExpandError::DuplicateName { index: i });
            }
            j = j + 1;
        }
        names.push(v.name.clone());
        consts.push(upper);
        values.push(bits);
        i = i + 1;
    }
    let e = BitfieldEnum { ident, repr, names, consts, values };
    proof {
        assert forall|a: int, b: int|
            0 <= a < b < e@.consts.len() implies #[trigger] e@.consts[a] != #[trigger] e@.consts[b] by {
            assert(variant_ok(repr, variants@, b));
        }
        assert(e@.names =~= expansion(ident@, repr, variants@).names);
        assert(e@.consts =~= expansion(ident@, repr, variants@).consts);
        assert(e@.values =~= expansion(ident@, repr, variants@).values);
    }
    Ok(e)
}

/// The bits of the constants of the first `n` variants, combined.
pub open spec fn or_upto(values: Seq<u128>, n: nat) -> u128
    decreases n,
{
    if n == 0 {
        0
    } else {
        or_upto(values, (n - 1) as nat) | values[n - 1]
    }
}

/// The constant names of the first `n` variants whose bits are all set in `bits`.
pub open spec fn set_names_upto(e: BitfieldView, bits: u128, n: nat) -> Seq<Seq<char>>
    decreases n,
{
    if n == 0 {
        seq![]
    } else if e.has(bits, n - 1) {
        set_names_upto(e, bits, (n - 1) as nat).push(e.consts[n - 1])
    } else {
        set_names_upto(e, bits, (n - 1) as nat)
    }
}

/// `Type::Variant` for each of the first `n` variants whose bits are all set in
/// `bits`.
pub open spec fn debug_parts_upto(e: BitfieldView, bits: u128, n: nat) -> Seq<Seq<char>>
    decreases n,
{
    if n == 0 {
        seq![]
    } else if e.has(bits, n - 1) {
        debug_parts_upto(e, bits, (n - 1) as nat).push(e.ident + "::"@ + e.names[n - 1])
    } else {
        debug_parts_upto(e, bits, (n - 1) as nat)
    }
}

/// The texts `parts`, with `sep` between each two.
pub open spec fn join(parts: Seq<Seq<char>>, sep: Seq<char>) -> Seq<char>
    decreases parts.len(),
{
    if parts.len() == 0 {
        seq![]
    } else if parts.len() == 1 {
        parts[0]
    } else {
        join(parts.drop_last(), sep) + sep + parts.last()
    }
}

/// The debug text of a value: each variant that it has, as `Type::Variant`,
/// joined by ` | `; or, where it has none, `Type(n)` with its integer value.
pub open spec fn debug_spec(e: BitfieldView, v: FlagsView) -> Seq<char> {
    let parts = debug_parts_upto(e, v.bits, e.len());
    if parts.len() == 0 {
        e.ident + "("@ + signed_decimal(v.int_value()) + ")"@
    } else {
        join(parts, " | "@)
    }
}

/// `k` is the first place of `m` in `s`.
pub open spec fn is_first(s: Seq<Seq<char>>, m: Seq<char>, k: int) -> bool {
    &&& 0 <= k < s.len()
    &&& s[k] == m
    &&& forall|j: int| 0 <= j < k ==> s[j] != m
}

/// The bits of the first constant named `m`.
pub open spec fn value_named(e: BitfieldView, m: Seq<char>) -> u128 {
    e.values[choose|k: int| is_first(e.consts, m, k)]
}

/// The bits of the constants named in `members`, combined.
pub open spec fn names_value(e: BitfieldView, members: Seq<Seq<char>>) -> u128
    decreases members.len(),
{
    if members.len() == 0 {
        0
    } else {
        names_value(e, members.drop_last()) | value_named(e, members.last())
    }
}

/// The value read back from the list of constant names `members`: the first
/// name that no constant has, or else the bits of all the named constants.
pub open spec fn from_names_spec(e: BitfieldView, members: Seq<Seq<char>>) -> Result<
    FlagsView,
    UnknownVariant,
> {
    if exists|i: int| 0 <= i < members.len() && !e.consts.contains(members[i]) {
        let i = choose|i: int|
            0 <= i < members.len() && !e.consts.contains(members[i]) && forall|j: int|
                0 <= j < i ==> e.consts.contains(members[j]);
        Err(UnknownVariant { position: i as usize })
    } else {
        Ok(FlagsView { repr: e.repr, bits: names_value(e, members) })
    }
}

/// The bits of the first `n` variants that `bits` has, combined.
pub open spec fn set_value_upto(e: BitfieldView, bits: u128, n: nat) -> u128
    decreases n,
{
    if n == 0 {
        0
    } else if e.has(bits, n - 1) {
        set_value_upto(e, bits, (n - 1) as nat) | e.values[n - 1]
    } else {
        set_value_upto(e, bits, (n - 1) as nat)
    }
}

proof fn lemma_names_round_trip_upto(e: BitfieldView, bits: u128, n: nat)
    requires
        e.wf(),
        n <= e.len(),
    ensures
        forall|i: int|
            0 <= i < set_names_upto(e, bits, n).len() ==> e.consts.contains(
                #[trigger] set_names_upto(e, bits, n)[i],
            ),
        names_value(e, set_names_upto(e, bits, n)) == set_value_upto(e, bits, n),
        bits & set_value_upto(e, bits, n) == set_value_upto(e, bits, n),
    decreases n,
{
    if n == 0 {
        assert(bits & 0 == 0) by (bit_vector);
    } else {
        let k = n - 1;
        lemma_names_round_trip_upto(e, bits, k as nat);
        let prev = set_names_upto(e, bits, k as nat);
        let a = set_value_upto(e, bits, k as nat);
        if e.has(bits, k) {
            let cur = prev.push(e.consts[k]);
            assert(cur.drop_last() =~= prev);
            assert(is_first(e.consts, e.consts[k], k));
            lemma_first_unique(e.consts, e.consts[k], k);
            assert(value_named(e, e.consts[k]) == e.values[k]);
            assert forall|i: int| 0 <= i < cur.len() implies e.consts.contains(#[trigger] cur[i]) by {
                if i == prev.len() {
                    assert(e.consts[k] == cur[i]);
                } else {
                    assert(cur[i] == prev[i]);
                }
            }
            let v = e.values[k];
            assert(bits & a == a && bits & v == v ==> bits & (a | v) == a | v) by (bit_vector);
        }
    }
}

/// The names written for any value read back without error, to the bits of the
/// variants that the value has, all of which the value holds.
pub proof fn lemma_names_round_trip(e: BitfieldView, bits: u128)
    requires
        e.wf(),
    ensures
        from_names_spec(e, set_names_upto(e, bits, e.len())) == Ok::<FlagsView, UnknownVariant>(
            FlagsView { repr: e.repr, bits: set_value_upto(e, bits, e.len()) },
        ),
        bits & set_value_upto(e, bits, e.len()) == set_value_upto(e, bits, e.len()),
{
    lemma_names_round_trip_upto(e, bits, e.len());
}

/// A value combined with the constant of the variant at `i` has that variant.
pub proof fn lemma_with_has(e: BitfieldView, bits: u128, i: int)
    requires
        e.wf(),
        0 <= i < e.len(),
    ensures
        e.has(bits | e.values[i], i),
{
    let v = e.values[i];
    assert((bits | v) & v == v) by (bit_vector);
}

/// A value with the constant of the variant at `i` taken out lacks that
/// variant, unless the variant's value has no bit set.
pub proof fn lemma_without_lacks(e: BitfieldView, bits: u128, i: int)
    requires
        e.wf(),
        0 <= i < e.len(),
    ensures
        e.has(bits & (!e.values[i] & e.repr.mask_spec()), i) <==> e.values[i] == 0,
{
    let v = e.values[i];
    let m = e.repr.mask_spec();
    assert(v <= m ==> ((bits & (!v & m)) & v == v <==> v == 0)) by (bit_vector);
}

proof fn lemma_first_unique(s: Seq<Seq<char>>, m: Seq<char>, k: int)
    requires
        is_first(s, m, k),
    ensures
        forall|k2: int| is_first(s, m, k2) ==> k2 == k,
{
    assert forall|k2: int| is_first(s, m, k2) implies k2 == k by {
        if k2 < k {
            assert(s[k2] == m);
        } else if k < k2 {
            assert(s[k] == m);
        }
    }
}

proof fn lemma_or_upto_within(values: Seq<u128>, n: nat, r: ReprType)
    requires
        n <= values.len(),
        forall|i: int| 0 <= i < values.len() ==> values[i] <= r.mask_spec(),
    ensures
        or_upto(values, n) <= r.mask_spec(),
    decreases n,
{
    if n > 0 {
        lemma_or_upto_within(values, (n - 1) as nat, r);
        lemma_or_within(or_upto(values, (n - 1) as nat), values[n - 1], r);
    }
}

impl BitfieldEnum {
    /// The name of the type.
    pub fn ident(&self) -> (r: String)
        ensures
            r@ == self@.ident,
    {
        self.ident.clone()
    }

    pub fn repr(&self) -> (r: ReprType)
        ensures
            r == self@.repr,
    {
        self.repr
    }

    /// The number of variants.
    pub fn len(&self) -> (r: usize)
        requires
            self@.wf(),
        ensures
            r == self@.len(),
    {
        self.names.len()
    }

    /// The constant of the variant at `i`.
    pub fn constant(&self, i: usize) -> (r: Flags)
        requires
            self@.wf(),
            i < self@.len(),
        ensures
            r@ == (FlagsView { repr: self@.repr, bits: self@.values[i as int] }),
            r@.wf(),
    {
        Flags::from_bits(self.repr, self.values[i])
    }

    /// The name of each variant's constant.
    pub fn variant_names(&self) -> (r: Vec<String>)
        requires
            self@.wf(),
        ensures
            r@.map_values(|s: String| s@) == self@.consts,
    {
        let mut out: Vec<String> = Vec::new();
        let mut i: usize = 0;
        while i < self.consts.len()
            invariant
                self@.wf(),
                i <= self@.len(),
                out@.len() == i,
                forall|j: int| 0 <= j < i ==> (#[trigger] out@[j])@ == self@.consts[j],
            decreases self@.len() - i,
        {
            out.push(self.consts[i].clone());
            i = i + 1;
        }
        assert(out@.map_values(|s: String| s@) =~= self@.consts);
        out
    }

    /// The value of each variant's constant.
    pub fn variant_values(&self) -> (r: Vec<Flags>)
        requires
            self@.wf(),
        ensures
            r@.len() == self@.len(),
            forall|j: int|
                0 <= j < self@.len() ==> (#[trigger] r@[j])@ == (FlagsView {
                    repr: self@.repr,
                    bits: self@.values[j],
                }),
    {
        let mut out: Vec<Flags> = Vec::new();
        let mut i: usize = 0;
        while i < self.values.len()
            invariant
                self@.wf(),
                i <= self@.len(),
                out@.len() == i,
                forall|j: int|
                    0 <= j < i ==> (#[trigger] out@[j])@ == (FlagsView {
                        repr: self@.repr,
                        bits: self@.values[j],
                    }),
            decreases self@.len() - i,
        {
            out.push(self.constant(i));
            i = i + 1;
        }
        out
    }

    /// The name of each variant's constant, with the constant's value.
    pub fn variant_pairs(&self) -> (r: Vec<(String, Flags)>)
        requires
            self@.wf(),
        ensures
            r@.len() == self@.len(),
            forall|j: int|
                0 <= j < self@.len() ==> (#[trigger] r@[j]).0@ == self@.consts[j] && r@[j].1@ == (
                FlagsView { repr: self@.repr, bits: self@.values[j] }),
    {
        let mut out: Vec<(String, Flags)> = Vec::new();
        let mut i: usize = 0;
        while i < self.values.len()
            invariant
                self@.wf(),
                i <= self@.len(),
                out@.len() == i,
                forall|j: int|
                    0 <= j < i ==> (#[trigger] out@[j]).0@ == self@.consts[j] && out@[j].1@ == (
                    FlagsView { repr: self@.repr, bits: self@.values[j] }),
            decreases self@.len() - i,
        {
            out.push((self.consts[i].clone(), self.constant(i)));
            i = i + 1;
        }
        out
    }

    /// Whether `v` has every bit of the variant at `i`.
    pub fn has(&self, v: Flags, i: usize) -> (r: bool)
        requires
            self@.wf(),
            i < self@.len(),
            v@.repr == self@.repr,
        ensures
            r == self@.has(v@.bits, i as int),
    {
        let c = self.constant(i);
        v.contains(c)
    }

    /// The name of the method that asks whether the variant at `i` is set:
    /// `has_` and the variant's name in lower case.
    pub fn has_method_name(&self, i: usize) -> (r: String)
        requires
            self@.wf(),
            i < self@.len(),
        ensures
            r@ == "has_"@ + lower_of(self@.names[i as int]),
    {
        let lower = to_lower(self.names[i].as_str());
        let mut out = String::from_str("has_");
        out.append(lower.as_str());
        out
    }

    /// The value with the bits of every variant set.
    pub fn all_set(&self) -> (r: Flags)
        requires
            self@.wf(),
        ensures
            r@ == (FlagsView { repr: self@.repr, bits: or_upto(self@.values, self@.len()) }),
            r@.wf(),
    {
        let mut acc = Flags::empty(self.repr);
        let mut i: usize = 0;
        while i < self.values.len()
            invariant
                self@.wf(),
                i <= self@.len(),
                acc@ == (FlagsView { repr: self@.repr, bits: or_upto(self@.values, i as nat) }),
                acc@.wf(),
            decreases self@.len() - i,
        {
            acc = acc.bitor(self.constant(i));
            i = i + 1;
        }
        acc
    }

    /// The constant names of the variants whose bits are all set in `v`.
    pub fn names_of_set_variants(&self, v: Flags) -> (r: Vec<String>)
        requires
            self@.wf(),
            v@.repr == self@.repr,
        ensures
            r@.map_values(|s: String| s@) == set_names_upto(self@, v@.bits, self@.len()),
    {
        let mut out: Vec<String> = Vec::new();
        let mut i: usize = 0;
        while i < self.values.len()
            invariant
                self@.wf(),
                v@.repr == self@.repr,
                i <= self@.len(),
                out@.map_values(|s: String| s@) == set_names_upto(self@, v@.bits, i as nat),
            decreases self@.len() - i,
        {
            if self.has(v, i) {
                let name = self.consts[i].clone();
                proof {
                    assert(out@.push(name).map_values(|s: String| s@) =~= out@.map_values(
                        |s: String| s@,
                    ).push(name@));
                }
                out.push(name);
            }
            i = i + 1;
        }
        out
    }

    /// The debug text of `v`: `Type::A | Type::B` for the variants it has, or
    /// `Type(n)` where it has none.
    pub fn debug_text(&self, v: Flags) -> (r: String)
        requires
            self@.wf(),
            v@.wf(),
            v@.repr == self@.repr,
        ensures
            r@ == debug_spec(self@, v@),
    {
        proof {
            reveal_strlit("::");
            reveal_strlit(" | ");
            reveal_strlit("(");
            reveal_strlit(")");
        }
        let mut out = String::new();
        let mut at_least_one = false;
        let mut i: usize = 0;
        while i < self.values.len()
            invariant
                self@.wf(),
                v@.repr == self@.repr,
                i <= self@.len(),
                at_least_one == (debug_parts_upto(self@, v@.bits, i as nat).len() > 0),
                out@ == join(debug_parts_upto(self@, v@.bits, i as nat), " | "@),
            decreases self@.len() - i,
        {
            if self.has(v, i) {
                let ghost before = debug_parts_upto(self@, v@.bits, i as nat);
                if at_least_one {
                    out.append(" | ");
                }
                at_least_one = true;
                out.append(self.ident.as_str());
                out.append("::");
                out.append(self.names[i].as_str());
                proof {
                    let part = self@.ident + "::"@ + self@.names[i as int];
                    let after = before.push(part);
                    assert(after.drop_last() =~= before);
                    assert(out@ =~= join(after, " | "@));
                }
            }
            i = i + 1;
        }
        if !at_least_one {
            out.append(self.ident.as_str());
            out.append("(");
            let digits = v.value_text();
            out.append(digits.as_str());
            out.append(")");
            assert(out@ =~= debug_spec(self@, v@));
        }
        out
    }

    /// The value named by the list of constant names `members`, as a list of
    /// names is read back: the bits of every named constant, combined; or the
    /// place of the first name that is not a constant's.
    pub fn from_names(&self, members: &Vec<String>) -> (r: Result<Flags, UnknownVariant>)
        requires
            self@.wf(),
        ensures
            match r {
                Ok(v) => from_names_spec(self@, members@.map_values(|s: String| s@)) == Ok::<
                    FlagsView,
                    UnknownVariant,
                >(v@) && v@.wf(),
                Err(e) => from_names_spec(self@, members@.map_values(|s: String| s@)) == Err::<
                    FlagsView,
                    UnknownVariant,
                >(e),
            },
    {
        let ghost ms = members@.map_values(|s: String| s@);
        let mut value = Flags::empty(self.repr);
        let mut i: usize = 0;
        while i < members.len()
            invariant
                self@.wf(),
                ms == members@.map_values(|s: String| s@),
                i <= members@.len(),
                forall|j: int| 0 <= j < i ==> self@.consts.contains(#[trigger] ms[j]),
                value@ == (FlagsView { repr: self@.repr, bits: names_value(self@, ms.subrange(0, i as int)) }),
                value@.wf(),
            decreases members@.len() - i,
        {
            let m = members[i].as_str();
            let mut k: usize = 0;
            let mut found = false;
            while k < self.consts.len()
                invariant_except_break
                    !found,
                invariant
                    self@.wf(),
                    k <= self@.len(),
                    i < ms.len(),
                    m@ == ms[i as int],
                    forall|j: int| 0 <= j < k ==> self@.consts[j] != m@,
                ensures
                    found ==> is_first(self@.consts, m@, k as int),
                    !found ==> k == self@.len(),
                    forall|j: int| 0 <= j < k ==> self@.consts[j] != m@,
                decreases self@.len() - k,
            {
                if same_text(self.consts[k].as_str(), m) {
                    found = true;
                    break;
                }
                k = k + 1;
            }
            if !found {
                proof {
                    assert(!self@.consts.contains(ms[i as int]));
                }
                return Err(UnknownVariant { position: i });
            }
            proof {
                lemma_first_unique(self@.consts, m@, k as int);
                assert(self@.consts.contains(ms[i as int]));
                assert(ms.subrange(0, i + 1).drop_last() =~= ms.subrange(0, i as int));
            }
            value = value.bitor(self.constant(k));
            i = i + 1;
        }
        proof {
            assert(ms.subrange(0, i as int) =~= ms);
        }
        Ok(value)
    }

    /// The name of the module that holds the value's serialization adapters:
    /// the type's name in snake case, then `_serde`.
    pub fn serde_module_name(&self) -> (r: String)
        ensures
            r@ == snake_of(self@.ident) + "_serde"@,
    {
        let snake = to_snake(self.ident.as_str());
        let mut out = snake;
        out.append("_serde");
        out
    }
}

} // verus!
