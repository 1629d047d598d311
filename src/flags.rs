use vstd::prelude::*;

use core::cmp::Ordering;

use crate::repr::ReprType;
use crate::text::{
    parse_i128, parse_u128, signed_decimal, signed_text_value, u128_text, unsigned_text_value,
};

verus! {

/// A value of a bitfield type: a bit pattern of its representation type.
#[derive(Clone, Copy, Debug, PartialEq, Eq, Structural)]
pub struct Flags {
    repr: ReprType,
    bits: u128,
}

/// What a [`Flags`] value is: its representation type and its bit pattern.
pub ghost struct FlagsView {
    pub repr: ReprType,
    pub bits: u128,
}

impl View for Flags {
    type V = FlagsView;

    closed spec fn view(&self) -> FlagsView {
        FlagsView { repr: self.repr, bits: self.bits }
    }
}

/// Bits that fit a type stay within it when combined by `|`.
pub(crate) proof fn lemma_or_within(a: u128, b: u128, r: ReprType)
    requires
        a <= r.mask_spec(),
        b <= r.mask_spec(),
    ensures
        a | b <= r.mask_spec(),
{
    match r {
        ReprType::U8 | ReprType::I8 => {
            assert(a <= 0xff && b <= 0xff ==> a | b <= 0xff) by (bit_vector);
        },
        ReprType::U16 | ReprType::I16 => {
            assert(a <= 0xffff && b <= 0xffff ==> a | b <= 0xffff) by (bit_vector);
        },
        ReprType::U32 | ReprType::I32 => {
            assert(a <= 0xffff_ffff && b <= 0xffff_ffff ==> a | b <= 0xffff_ffff) by (bit_vector);
        },
        ReprType::U64 | ReprType::I64 => {
            assert(a <= 0xffff_ffff_ffff_ffff && b <= 0xffff_ffff_ffff_ffff ==> a | b
                <= 0xffff_ffff_ffff_ffff) by (bit_vector);
        },
        ReprType::U128 | ReprType::I128 => {},
    }
}

proof fn lemma_and_within(a: u128, b: u128)
    ensures
        a & b <= a,
        a & b <= b,
{
    assert(a & b <= a) by (bit_vector);
    assert(a & b <= b) by (bit_vector);
}

proof fn lemma_masked_within(a: u128, m: u128)
    ensures
        a & m <= m,
{
    assert(a & m <= m) by (bit_vector);
}

impl FlagsView {
    /// The bits fit the representation type.
    pub open spec fn wf(self) -> bool {
        self.bits <= self.repr.mask_spec()
    }

    /// The integer that the value holds in its representation type.
    pub open spec fn int_value(self) -> int {
        self.repr.int_of(self.bits)
    }
}

impl Flags {
    /// The value of type `repr` with the bit pattern `bits`.
    pub fn from_bits(repr: ReprType, bits: u128) -> (r: Flags)
        requires
            bits <= repr.mask_spec(),
        ensures
            r@ == (FlagsView { repr, bits }),
    {
        Flags { repr, bits }
    }

    /// The value of type `repr` with no bit set.
    pub fn empty(repr: ReprType) -> (r: Flags)
        ensures
            r@ == (FlagsView { repr, bits: 0 }),
    {
        Flags { repr, bits: 0 }
    }

    /// The bit pattern of this value.
    pub fn bits(&self) -> (r: u128)
        ensures
            r == self@.bits,
    {
        self.bits
    }

    pub fn repr(&self) -> (r: ReprType)
        ensures
            r == self@.repr,
    {
        self.repr
    }

    /// The bits set in either value.
    pub fn bitor(self, rhs: Flags) -> (r: Flags)
        requires
            self@.wf(),
            rhs@.wf(),
            rhs@.repr == self@.repr,
        ensures
            r@ == (FlagsView { repr: self@.repr, bits: self@.bits | rhs@.bits }),
            r@.wf(),
    {
        proof {
            lemma_or_within(self.bits, rhs.bits, self.repr);
        }
        Flags { repr: self.repr, bits: self.bits | rhs.bits }
    }

    /// The bits set in this value or in the pattern `rhs` of its type.
    pub fn bitor_repr(self, rhs: u128) -> (r: Flags)
        requires
            self@.wf(),
            rhs <= self@.repr.mask_spec(),
        ensures
            r@ == (FlagsView { repr: self@.repr, bits: self@.bits | rhs }),
            r@.wf(),
    {
        proof {
            lemma_or_within(self.bits, rhs, self.repr);
        }
        Flags { repr: self.repr, bits: self.bits | rhs }
    }

    /// The bits set in both values.
    pub fn bitand(self, rhs: Flags) -> (r: Flags)
        requires
            self@.wf(),
            rhs@.repr == self@.repr,
        ensures
            r@ == (FlagsView { repr: self@.repr, bits: self@.bits & rhs@.bits }),
            r@.wf(),
    {
        proof {
            lemma_and_within(self.bits, rhs.bits);
        }
        Flags { repr: self.repr, bits: self.bits & rhs.bits }
    }

    /// The bits set both in this value and in the pattern `rhs`.
    pub fn bitand_repr(self, rhs: u128) -> (r: Flags)
        requires
            self@.wf(),
        ensures
            r@ == (FlagsView { repr: self@.repr, bits: self@.bits & rhs }),
            r@.wf(),
    {
        proof {
            lemma_and_within(self.bits, rhs);
        }
        Flags { repr: self.repr, bits: self.bits & rhs }
    }

    /// Sets in place the bits of `rhs`.
    pub fn bitor_assign(&mut self, rhs: Flags)
        requires
            old(self)@.wf(),
            rhs@.wf(),
            rhs@.repr == old(self)@.repr,
        ensures
            final(self)@ == (FlagsView { repr: old(self)@.repr, bits: old(self)@.bits | rhs@.bits }),
            final(self)@.wf(),
    {
        *self = self.bitor(rhs);
    }

    /// Keeps in place only the bits that `rhs` has too.
    pub fn bitand_assign(&mut self, rhs: Flags)
        requires
            old(self)@.wf(),
            rhs@.repr == old(self)@.repr,
        ensures
            final(self)@ == (FlagsView { repr: old(self)@.repr, bits: old(self)@.bits & rhs@.bits }),
            final(self)@.wf(),
    {
        *self = self.bitand(rhs);
    }

    /// Every bit of the type flipped.
    pub fn not(self) -> (r: Flags)
        ensures
            r@ == (FlagsView { repr: self@.repr, bits: !self@.bits & self@.repr.mask_spec() }),
            r@.wf(),
    {
        let m = self.repr.mask();
        proof {
            lemma_masked_within(!self.bits, m);
        }
        Flags { repr: self.repr, bits: !self.bits & m }
    }

    /// This value with the bits of `other` set as well.
    pub fn with(self, other: Flags) -> (r: Flags)
        requires
            self@.wf(),
            other@.wf(),
            other@.repr == self@.repr,
        ensures
            r@ == (FlagsView { repr: self@.repr, bits: self@.bits | other@.bits }),
            r@.wf(),
    {
        self.bitor(other)
    }

    /// This value with the bits of `other` unset.
    pub fn without(self, other: Flags) -> (r: Flags)
        requires
            self@.wf(),
            other@.repr == self@.repr,
        ensures
            r@ == (FlagsView {
                repr: self@.repr,
                bits: self@.bits & (!other@.bits & self@.repr.mask_spec()),
            }),
            r@.wf(),
    {
        self.bitand(other.not())
    }

    /// This value with the bits of the pattern `other` set as well.
    pub fn with_repr(self, other: u128) -> (r: Flags)
        requires
            self@.wf(),
            other <= self@.repr.mask_spec(),
        ensures
            r@ == (FlagsView { repr: self@.repr, bits: self@.bits | other }),
            r@.wf(),
    {
        self.bitor(Flags::from_bits(self.repr, other))
    }

    /// This value with the bits of the pattern `other` unset.
    pub fn without_repr(self, other: u128) -> (r: Flags)
        requires
            self@.wf(),
            other <= self@.repr.mask_spec(),
        ensures
            r@ == (FlagsView {
                repr: self@.repr,
                bits: self@.bits & (!other & self@.repr.mask_spec()),
            }),
            r@.wf(),
    {
        self.without(Flags::from_bits(self.repr, other))
    }

    /// Whether every bit of `other` is set here.
    pub fn contains(self, other: Flags) -> (r: bool)
        requires
            other@.repr == self@.repr,
        ensures
            r == (self@.bits & other@.bits == other@.bits),
    {
        self.bits & other.bits == other.bits
    }

    /// Whether this value holds the pattern `other` of its type.
    pub fn eq_repr(&self, other: u128) -> (r: bool)
        ensures
            r == (self@.bits == other),
    {
        self.bits == other
    }

    /// How this value compares, as an integer of its type, with the pattern
    /// `other` read in the same type.
    pub fn cmp_repr(&self, other: u128) -> (r: Ordering)
        requires
            self@.wf(),
            other <= self@.repr.mask_spec(),
        ensures
            r == Ordering::Less <==> self@.int_value() < self@.repr.int_of(other),
            r == Ordering::Equal <==> self@.int_value() == self@.repr.int_of(other),
            r == Ordering::Greater <==> self@.int_value() > self@.repr.int_of(other),
    {
        let top = self.repr.sign_bit();
        if self.repr.is_signed() {
            let neg_a = self.bits >= top;
            let neg_b = other >= top;
            if neg_a && !neg_b {
                return Ordering::Less;
            }
            if neg_b && !neg_a {
                return Ordering::Greater;
            }
        }
        if self.bits < other {
            Ordering::Less
        } else if self.bits == other {
            Ordering::Equal
        } else {
            Ordering::Greater
        }
    }

    /// The value of type `repr` that holds the unsigned integer `v`, if `v`
    /// fits the type.
    pub fn from_unsigned(repr: ReprType, v: u128) -> (r: Option<Flags>)
        ensures
            r is Some <==> v <= repr.max_int(),
            r is Some ==> r->0@ == (FlagsView { repr, bits: v }),
            r is Some ==> r->0@.int_value() == v,
    {
        let max: u128 = if repr.is_signed() {
            repr.sign_bit() - 1
        } else {
            repr.mask()
        };
        if v <= max {
            Some(Flags { repr, bits: v })
        } else {
            None
        }
    }

    /// The value of type `repr` that holds the integer `v`, if `v` fits the
    /// type; a negative one is held in two's complement.
    pub fn from_signed(repr: ReprType, v: i128) -> (r: Option<Flags>)
        ensures
            r is Some <==> repr.min_int() <= v <= repr.max_int(),
            r is Some ==> r->0@ == (FlagsView {
                repr,
                bits: if v >= 0 {
                    v as u128
                } else {
                    (repr.mask_spec() + 1 + v) as u128
                },
            }),
            r is Some ==> r->0@.wf() && r->0@.int_value() == v,
    {
        if v >= 0 {
            let u = v as u128;
            return Flags::from_unsigned(repr, u);
        }
        if !repr.is_signed() {
            return None;
        }
        let top = repr.sign_bit();
        let magnitude = (-(v + 1)) as u128;
        if magnitude >= top {
            return None;
        }
        let m = repr.mask();
        Some(Flags { repr, bits: m - magnitude })
    }

    /// The decimal text of the integer that this value holds.
    pub fn value_text(&self) -> (r: String)
        requires
            self@.wf(),
        ensures
            r@ == signed_decimal(self@.int_value()),
    {
        let top = self.repr.sign_bit();
        if self.repr.is_signed() && self.bits >= top {
            let m = self.repr.mask();
            let magnitude = m - self.bits + 1;
            let digits = u128_text(magnitude);
            let mut out = String::from_str("-");
            proof {
                reveal_strlit("-");
            }
            out.append(digits.as_str());
            assert(out@ =~= signed_decimal(self@.int_value()));
            out
        } else {
            u128_text(self.bits)
        }
    }

    /// The value of type `repr` written as the decimal text `s`: an optional
    /// sign (`-` only for a signed type) and digits, whose value fits the type.
    pub fn from_decimal(repr: ReprType, s: &str) -> (r: Option<Flags>)
        ensures
            r is Some <==> (if repr.signed() {
                signed_text_value(s@) matches Some(v) && repr.min_int() <= v <= repr.max_int()
            } else {
                unsigned_text_value(s@) matches Some(v) && v <= repr.max_int()
            }),
            r is Some ==> r->0@.repr == repr && r->0@.wf() && Some(r->0@.int_value()) == (if repr.signed() {
                signed_text_value(s@)
            } else {
                match unsigned_text_value(s@) {
                    Some(v) => Some(v as int),
                    None => None,
                }
            }),
    {
        if repr.is_signed() {
            match parse_i128(s) {
                Some(v) => Flags::from_signed(repr, v),
                None => None,
            }
        } else {
            match parse_u128(s) {
                Some(v) => Flags::from_unsigned(repr, v),
                None => None,
            }
        }
    }
}

} // verus!
