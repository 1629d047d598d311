use vstd::prelude::*;

use crate::text::same_text;

verus! {

/// The integer type that holds the bits of a bitfield.
#[derive(Clone, Copy, Debug, PartialEq, Eq, Structural)]
pub enum ReprType {
    U8,
    U16,
    U32,
    U64,
    U128,
    I8,
    I16,
    I32,
    I64,
    I128,
}

/// Why the attribute's arguments could not be read.
#[derive(Clone, Copy, Debug, PartialEq, Eq, Structural)]
pub enum AttrError {
    /// The arguments are neither empty nor `as T`.
    Malformed,
    /// `T` in `as T` is not a primitive integer type.
    UnsupportedType,
}

/// The name of each representation type, in source form.
pub open spec fn repr_name(r: ReprType) -> Seq<char> {
    match r {
        ReprType::U8 => "u8"@,
        ReprType::U16 => "u16"@,
        ReprType::U32 => "u32"@,
        ReprType::U64 => "u64"@,
        ReprType::U128 => "u128"@,
        ReprType::I8 => "i8"@,
        ReprType::I16 => "i16"@,
        ReprType::I32 => "i32"@,
        ReprType::I64 => "i64"@,
        ReprType::I128 => "i128"@,
    }
}

/// The representation type whose source name is `s`, if any.
pub open spec fn repr_named(s: Seq<char>) -> Option<ReprType> {
    if exists|r: ReprType| repr_name(r) == s {
        Some(choose|r: ReprType| repr_name(r) == s)
    } else {
        None
    }
}

/// What the attribute's tokens select: nothing selects `u64`, `as T` selects `T`.
pub open spec fn parse_spec(tokens: Seq<Seq<char>>) -> Result<ReprType, AttrError> {
    if tokens.len() == 0 {
        Ok(ReprType::U64)
    } else if tokens.len() != 2 || tokens[0] != "as"@ {
        Err(AttrError::Malformed)
    } else {
        match repr_named(tokens[1]) {
            Some(r) => Ok(r),
            None => Err(AttrError::UnsupportedType),
        }
    }
}

/// The integer types, unsigned first, of widths 8 to 64, that a value may be
/// converted from; `r` itself is left out.
pub open spec fn convertible_from(r: ReprType) -> Seq<ReprType> {
    seq![
        ReprType::U8,
        ReprType::U16,
        ReprType::U32,
        ReprType::U64,
        ReprType::I8,
        ReprType::I16,
        ReprType::I32,
        ReprType::I64,
    ].filter(other_than(r))
}

/// Holds of every representation type but `r`.
pub open spec fn other_than(r: ReprType) -> spec_fn(ReprType) -> bool {
    |t: ReprType| t != r
}

impl ReprType {
    /// Number of bits.
    pub open spec fn width(self) -> nat {
        match self {
            ReprType::U8 | ReprType::I8 => 8,
            ReprType::U16 | ReprType::I16 => 16,
            ReprType::U32 | ReprType::I32 => 32,
            ReprType::U64 | ReprType::I64 => 64,
            ReprType::U128 | ReprType::I128 => 128,
        }
    }

    pub open spec fn signed(self) -> bool {
        match self {
            ReprType::I8 | ReprType::I16 | ReprType::I32 | ReprType::I64 | ReprType::I128 => true,
            _ => false,
        }
    }

    /// All bits of the type set, as an unsigned pattern.
    pub open spec fn mask_spec(self) -> u128 {
        match self {
            ReprType::U8 | ReprType::I8 => 0xff,
            ReprType::U16 | ReprType::I16 => 0xffff,
            ReprType::U32 | ReprType::I32 => 0xffff_ffff,
            ReprType::U64 | ReprType::I64 => 0xffff_ffff_ffff_ffff,
            ReprType::U128 | ReprType::I128 => 0xffff_ffff_ffff_ffff_ffff_ffff_ffff_ffff,
        }
    }

    /// The highest bit of the type, which is the sign bit of a signed type.
    pub open spec fn top_bit(self) -> u128 {
        match self {
            ReprType::U8 | ReprType::I8 => 0x80,
            ReprType::U16 | ReprType::I16 => 0x8000,
            ReprType::U32 | ReprType::I32 => 0x8000_0000,
            ReprType::U64 | ReprType::I64 => 0x8000_0000_0000_0000,
            ReprType::U128 | ReprType::I128 => 0x8000_0000_0000_0000_0000_0000_0000_0000,
        }
    }

    /// The least value of the type.
    pub open spec fn min_int(self) -> int {
        if self.signed() {
            -(self.top_bit() as int)
        } else {
            0
        }
    }

    /// The greatest value of the type.
    pub open spec fn max_int(self) -> int {
        if self.signed() {
            self.top_bit() - 1
        } else {
            self.mask_spec() as int
        }
    }

    /// The integer that the bit pattern `bits` stands for in this type.
    pub open spec fn int_of(self, bits: u128) -> int {
        if self.signed() && bits >= self.top_bit() {
            bits - (self.mask_spec() + 1)
        } else {
            bits as int
        }
    }

    pub fn bits(&self) -> (r: u32)
        ensures
            r == self.width(),
    {
        match self {
            ReprType::U8 | ReprType::I8 => 8,
            ReprType::U16 | ReprType::I16 => 16,
            ReprType::U32 | ReprType::I32 => 32,
            ReprType::U64 | ReprType::I64 => 64,
            ReprType::U128 | ReprType::I128 => 128,
        }
    }

    pub fn is_signed(&self) -> (r: bool)
        ensures
            r == self.signed(),
    {
        match self {
            ReprType::I8 | ReprType::I16 | ReprType::I32 | ReprType::I64 | ReprType::I128 => true,
            _ => false,
        }
    }

    pub fn mask(&self) -> (r: u128)
        ensures
            r == self.mask_spec(),
    {
        match self {
            ReprType::U8 | ReprType::I8 => 0xff,
            ReprType::U16 | ReprType::I16 => 0xffff,
            ReprType::U32 | ReprType::I32 => 0xffff_ffff,
            ReprType::U64 | ReprType::I64 => 0xffff_ffff_ffff_ffff,
            ReprType::U128 | ReprType::I128 => 0xffff_ffff_ffff_ffff_ffff_ffff_ffff_ffff,
        }
    }

    pub fn sign_bit(&self) -> (r: u128)
        ensures
            r == self.top_bit(),
    {
        match self {
            ReprType::U8 | ReprType::I8 => 0x80,
            ReprType::U16 | ReprType::I16 => 0x8000,
            ReprType::U32 | ReprType::I32 => 0x8000_0000,
            ReprType::U64 | ReprType::I64 => 0x8000_0000_0000_0000,
            ReprType::U128 | ReprType::I128 => 0x8000_0000_0000_0000_0000_0000_0000_0000,
        }
    }

    /// The type's name in source form, such as `u8`.
    pub fn name(&self) -> (r: &'static str)
        ensures
            r@ == repr_name(*self),
    {
        proof {
            reveal_strlit("u8");
            reveal_strlit("u16");
            reveal_strlit("u32");
            reveal_strlit("u64");
            reveal_strlit("u128");
            reveal_strlit("i8");
            reveal_strlit("i16");
            reveal_strlit("i32");
            reveal_strlit("i64");
            reveal_strlit("i128");
        }
        match self {
            ReprType::U8 => "u8",
            ReprType::U16 => "u16",
            ReprType::U32 => "u32",
            ReprType::U64 => "u64",
            ReprType::U128 => "u128",
            ReprType::I8 => "i8",
            ReprType::I16 => "i16",
            ReprType::I32 => "i32",
            ReprType::I64 => "i64",
            ReprType::I128 => "i128",
        }
    }

    /// The representation type named `s`, if it is a primitive integer type.
    pub fn from_name(s: &str) -> (r: Option<ReprType>)
        ensures
            r == repr_named(s@),
    {
        let all = [
            ReprType::U8,
            ReprType::U16,
            ReprType::U32,
            ReprType::U64,
            ReprType::U128,
            ReprType::I8,
            ReprType::I16,
            ReprType::I32,
            ReprType::I64,
            ReprType::I128,
        ];
        let mut i: usize = 0;
        while i < 10
            invariant
                all@ == seq![
                    ReprType::U8,
                    ReprType::U16,
                    ReprType::U32,
                    ReprType::U64,
                    ReprType::U128,
                    ReprType::I8,
                    ReprType::I16,
                    ReprType::I32,
                    ReprType::I64,
                    ReprType::I128,
                ],
                i <= 10,
                forall|k: int| 0 <= k < i ==> repr_name(#[trigger] all@[k]) != s@,
            decreases 10 - i,
        {
            let t = all[i];
            if same_text(t.name(), s) {
                proof {
                    lemma_names_distinct(t);
                }
                return Some(t);
            }
            i = i + 1;
        }
        proof {
            assert forall|r: ReprType| repr_name(r) != s@ by {
                match r {
                    ReprType::U8 => assert(all@[0] == r),
                    ReprType::U16 => assert(all@[1] == r),
                    ReprType::U32 => assert(all@[2] == r),
                    ReprType::U64 => assert(all@[3] == r),
                    ReprType::U128 => assert(all@[4] == r),
                    ReprType::I8 => assert(all@[5] == r),
                    ReprType::I16 => assert(all@[6] == r),
                    ReprType::I32 => assert(all@[7] == r),
                    ReprType::I64 => assert(all@[8] == r),
                    ReprType::I128 => assert(all@[9] == r),
                }
            }
        }
        None
    }

    /// Reads the attribute's arguments, given as tokens: none gives `u64`, and
    /// `as T` gives `T`.
    pub fn parse(tokens: &Vec<String>) -> (r: Result<ReprType, AttrError>)
        ensures
            r == parse_spec(tokens@.map_values(|t: String| t@)),
    {
        let ghost toks = tokens@.map_values(|t: String| t@);
        if tokens.len() == 0 {
            return Ok(ReprType::U64);
        }
        proof {
            reveal_strlit("as");
        }
        if tokens.len() != 2 || !same_text(tokens[0].as_str(), "as") {
            return Err(AttrError::Malformed);
        }
        match ReprType::from_name(tokens[1].as_str()) {
            Some(r) => Ok(r),
            None => Err(AttrError::UnsupportedType),
        }
    }

    /// The name of the serializer method that writes a value of this type:
    /// `serialize_` and the type's name.
    pub fn serialize_method(&self) -> (r: String)
        ensures
            r@ == "serialize_"@ + repr_name(*self),
    {
        let mut out = String::from_str("serialize_");
        out.append(self.name());
        out
    }

    /// The name of the deserializer method that asks for a value of this type:
    /// `deserialize_` and the type's name.
    pub fn deserialize_method(&self) -> (r: String)
        ensures
            r@ == "deserialize_"@ + repr_name(*self),
    {
        let mut out = String::from_str("deserialize_");
        out.append(self.name());
        out
    }

    /// The name of the visitor method that receives a value of this type:
    /// `visit_` and the type's name.
    pub fn visit_method(&self) -> (r: String)
        ensures
            r@ == "visit_"@ + repr_name(*self),
    {
        let mut out = String::from_str("visit_");
        out.append(self.name());
        out
    }

    /// The integer types of widths 8 to 64 other than this one, unsigned first:
    /// the types that a value may be converted from when it is read.
    pub fn maybe_convertible_types(&self) -> (r: Vec<ReprType>)
        ensures
            r@ == convertible_from(*self),
    {
        let all = [
            ReprType::U8,
            ReprType::U16,
            ReprType::U32,
            ReprType::U64,
            ReprType::I8,
            ReprType::I16,
            ReprType::I32,
            ReprType::I64,
        ];
        let ghost s = seq![
            ReprType::U8,
            ReprType::U16,
            ReprType::U32,
            ReprType::U64,
            ReprType::I8,
            ReprType::I16,
            ReprType::I32,
            ReprType::I64,
        ];
        let ghost keep = other_than(*self);
        let mut out: Vec<ReprType> = Vec::new();
        let mut i: usize = 0;
        while i < 8
            invariant
                all@ == s,
                i <= 8,
                out@ == s.subrange(0, i as int).filter(keep),
                keep == other_than(*self),
            decreases 8 - i,
        {
            let t = all[i];
            proof {
                reveal(Seq::filter);
                assert(s.subrange(0, i + 1).drop_last() =~= s.subrange(0, i as int));
            }
            if t != *self {
                out.push(t);
            }
            i = i + 1;
        }
        assert(s.subrange(0, 8) =~= s);
        out
    }
}

/// Distinct representation types have distinct names.
proof fn lemma_names_distinct(t: ReprType)
    ensures
        forall|r: ReprType| repr_name(r) == repr_name(t) ==> r == t,
{
    reveal_strlit("u8");
    reveal_strlit("u16");
    reveal_strlit("u32");
    reveal_strlit("u64");
    reveal_strlit("u128");
    reveal_strlit("i8");
    reveal_strlit("i16");
    reveal_strlit("i32");
    reveal_strlit("i64");
    reveal_strlit("i128");
    assert forall|r: ReprType| repr_name(r) == repr_name(t) implies r == t by {
        if r != t {
            match r {
                ReprType::U8 | ReprType::I8 => assert(repr_name(r).len() == 2),
                _ => {},
            }
            assert(repr_name(r).len() != repr_name(t).len() || repr_name(r)[0] != repr_name(t)[0]
                || repr_name(r)[1] != repr_name(t)[1] || repr_name(r)[2] != repr_name(t)[2]
                || repr_name(r)[3] != repr_name(t)[3]);
        }
    }
}

} // verus!
