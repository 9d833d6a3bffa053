//! Program input values: the shapes an input file may hold, whether a
//! value matches the declared ABI type, and parsing of field elements from
//! decimal or hexadecimal strings.

use vstd::prelude::*;
use num_traits::Num;
use crate::field_element::{
    bytes_value, lemma_bytes_prefix_lt, lemma_bytes_value_bound, lemma_bytes_value_front,
    lemma_bytes_value_zero, lemma_pow256_monotonic, pow256, spec_modulus, spec_num_bits,
    FieldElement,
};

verus! {

/// Why an input string was rejected.
#[derive(Clone, PartialEq, Eq, Debug)]
pub enum InputParserError {
    ParseStr(String),
}

#[derive(Clone, Copy, PartialEq, Eq, Structural, Debug)]
pub enum Sign {
    Unsigned,
    Signed,
}

/// A type of the program ABI.
#[derive(PartialEq, Eq, Debug)]
pub enum AbiType {
    Field,
    Array { length: u64, typ: Box<AbiType> },
    Integer { sign: Sign, width: u32 },
    Boolean,
    Struct { path: String, fields: Vec<(String, AbiType)> },
    Tuple { fields: Vec<AbiType> },
    String { length: u64 },
}

/// What every input format eventually parses into.
#[derive(PartialEq, Eq, Debug)]
pub enum InputValue {
    Field(FieldElement),
    String(String),
    Vec(Vec<InputValue>),
    Struct(Vec<(String, InputValue)>),
}

/// The input formats supported for initial witness values.
#[derive(Clone, Copy, PartialEq, Eq, Structural, Debug)]
pub enum Format {
    Json,
    Toml,
}

impl Format {
    /// The file extension of this format.
    pub fn ext(&self) -> (r: &'static str)
        ensures
            *self is Json ==> r@ == "json"@,
            *self is Toml ==> r@ == "toml"@,
    {
        match self {
            Format::Json => "json",
            Format::Toml => "toml",
        }
    }
}

// ---------------------------------------------------------------------------
// Matching values against ABI types
// ---------------------------------------------------------------------------

pub open spec fn iv_size(v: InputValue) -> nat
    decreases v,
{
    match v {
        InputValue::Vec(elems) => 1 + iv_seq_size(elems@),
        InputValue::Struct(entries) => 1 + iv_entries_size(entries@),
        _ => 1,
    }
}

pub open spec fn iv_seq_size(s: Seq<InputValue>) -> nat
    decreases s,
{
    if s.len() == 0 {
        0
    } else {
        iv_size(s[0]) + iv_seq_size(s.drop_first())
    }
}

pub open spec fn iv_entries_size(s: Seq<(String, InputValue)>) -> nat
    decreases s,
{
    if s.len() == 0 {
        0
    } else {
        iv_size(s[0].1) + iv_entries_size(s.drop_first())
    }
}

pub proof fn lemma_iv_seq_size_elem(s: Seq<InputValue>, i: int)
    requires
        0 <= i < s.len(),
    ensures
        iv_size(s[i]) <= iv_seq_size(s),
    decreases s.len(),
{
    if i > 0 {
        lemma_iv_seq_size_elem(s.drop_first(), i - 1);
    }
}

pub proof fn lemma_iv_entries_size_elem(s: Seq<(String, InputValue)>, i: int)
    requires
        0 <= i < s.len(),
    ensures
        iv_size(s[i].1) <= iv_entries_size(s),
    decreases s.len(),
{
    if i > 0 {
        lemma_iv_entries_size_elem(s.drop_first(), i - 1);
    }
}

/// The ABI field with the given name, if any. When a name repeats, the
/// last entry wins, as in a name-to-type map built from the fields in
/// order.
pub open spec fn spec_field_type(fields: Seq<(String, AbiType)>, name: Seq<char>) -> Option<
    AbiType,
>
    decreases fields.len(),
{
    if fields.len() == 0 {
        None
    } else if fields.last().0@ == name {
        Some(fields.last().1)
    } else {
        spec_field_type(fields.drop_last(), name)
    }
}

/// Whether a value has the declared ABI type, in shape and in arity: field
/// elements fit `Field` always, an integer type when they fit its width,
/// and `Boolean` when zero or one; arrays, tuples and structs must agree
/// in length and recursively in every element and field; strings must have
/// the declared length in UTF-8 bytes.
pub open spec fn spec_matches_abi(v: InputValue, t: AbiType) -> bool
    decreases iv_size(v), 0int, 0int,
{
    match (v, t) {
        (InputValue::Field(_), AbiType::Field) => true,
        (InputValue::Field(f), AbiType::Integer { sign, width }) => f.bytes@.len() <= 32
            && spec_num_bits(f.bytes@) <= width,
        (InputValue::Field(f), AbiType::Boolean) => bytes_value(f.bytes@) == 1 || bytes_value(
            f.bytes@,
        ) == 0,
        (InputValue::Vec(elems), AbiType::Array { length, typ }) => {
            &&& elems@.len() == length
            &&& spec_all_match(elems@, *typ)
        },
        (InputValue::String(s), AbiType::String { length }) => vstd::utf8::encode_utf8(s@).len()
            == length,
        (InputValue::Struct(entries), AbiType::Struct { path, fields }) => {
            &&& entries@.len() == fields@.len()
            &&& spec_entries_match(entries@, fields@)
        },
        (InputValue::Vec(elems), AbiType::Tuple { fields }) => {
            &&& elems@.len() == fields@.len()
            &&& spec_zip_match(elems@, fields@)
        },
        _ => false,
    }
}

pub open spec fn spec_all_match(elems: Seq<InputValue>, t: AbiType) -> bool
    decreases iv_seq_size(elems), elems.len(), 1int,
{
    if elems.len() == 0 {
        true
    } else {
        spec_matches_abi(elems[0], t) && spec_all_match(elems.drop_first(), t)
    }
}

pub open spec fn spec_entries_match(
    entries: Seq<(String, InputValue)>,
    fields: Seq<(String, AbiType)>,
) -> bool
    decreases iv_entries_size(entries), entries.len(), 1int,
{
    if entries.len() == 0 {
        true
    } else {
        let ft = spec_field_type(fields, entries[0].0@);
        &&& ft is Some
        &&& spec_matches_abi(entries[0].1, ft->0)
        &&& spec_entries_match(entries.drop_first(), fields)
    }
}

pub open spec fn spec_zip_match(elems: Seq<InputValue>, fields: Seq<AbiType>) -> bool
    decreases iv_seq_size(elems), elems.len(), 1int,
{
    if elems.len() == 0 {
        true
    } else if fields.len() == 0 {
        true
    } else {
        spec_matches_abi(elems[0], fields[0]) && spec_zip_match(
            elems.drop_first(),
            fields.drop_first(),
        )
    }
}

impl InputValue {
    /// Checks whether this value has the declared ABI type, including
    /// arity of arrays, tuples and structs.
    pub fn matches_abi(&self, abi_param: &AbiType) -> (r: bool)
        ensures
            r == spec_matches_abi(*self, *abi_param),
        decreases iv_size(*self), 0int, 0int,
    {
        match (self, abi_param) {
            (InputValue::Field(_), AbiType::Field) => true,
            (InputValue::Field(field_element), AbiType::Integer { width, .. }) => {
                // Only canonically sized elements can fit an integer type.
                if field_element.bytes.len() <= 32 {
                    field_element.num_bits() <= *width
                } else {
                    false
                }
            },
            (InputValue::Field(field_element), AbiType::Boolean) => {
                field_element.is_one() || field_element.is_zero()
            },
            (InputValue::Vec(array_elements), AbiType::Array { length, typ, .. }) => {
                if array_elements.len() as u64 != *length {
                    return false;
                }
                Self::all_match(array_elements, typ)
            },
            (InputValue::String(string), AbiType::String { length }) => {
                // The declared length counts UTF-8 bytes, not characters.
                let bytes: &[u8] = string.as_str().as_bytes();
                proof {
                    vstd::slice::axiom_spec_len(bytes);
                }
                bytes.len() as u64 == *length
            },
            (InputValue::Struct(map), AbiType::Struct { fields, .. }) => {
                if map.len() != fields.len() {
                    return false;
                }
                Self::entries_match(map, fields)
            },
            (InputValue::Vec(vec_elements), AbiType::Tuple { fields }) => {
                if vec_elements.len() != fields.len() {
                    return false;
                }
                Self::zip_match(vec_elements, fields)
            },
            // All other value/type combinations are fundamentally
            // incompatible.
            _ => false,
        }
    }

    fn all_match(elems: &Vec<InputValue>, t: &AbiType) -> (r: bool)
        ensures
            r == spec_all_match(elems@, *t),
        decreases iv_seq_size(elems@), elems@.len(), 1int,
    {
        let n = elems.len();
        let mut i: usize = 0;
        proof {
            assert(elems@.skip(0) =~= elems@);
        }
        while i < n
            invariant
                i <= n,
                n == elems@.len(),
                spec_all_match(elems@, *t) == spec_all_match(elems@.skip(i as int), *t),
            decreases n - i,
        {
            proof {
                assert(elems@.skip(i as int)[0] == elems@[i as int]);
                assert(elems@.skip(i as int).drop_first() =~= elems@.skip(i as int + 1));
                lemma_iv_seq_size_elem(elems@, i as int);
            }
            if !elems[i].matches_abi(t) {
                return false;
            }
            i = i + 1;
        }
        proof {
            assert(elems@.skip(n as int).len() == 0);
        }
        true
    }

    fn entries_match(entries: &Vec<(String, InputValue)>, fields: &Vec<(String, AbiType)>) -> (r:
        bool)
        ensures
            r == spec_entries_match(entries@, fields@),
        decreases iv_entries_size(entries@), entries@.len(), 1int,
    {
        let n = entries.len();
        let mut i: usize = 0;
        proof {
            assert(entries@.skip(0) =~= entries@);
        }
        while i < n
            invariant
                i <= n,
                n == entries@.len(),
                spec_entries_match(entries@, fields@) == spec_entries_match(
                    entries@.skip(i as int),
                    fields@,
                ),
            decreases n - i,
        {
            proof {
                assert(entries@.skip(i as int)[0] == entries@[i as int]);
                assert(entries@.skip(i as int).drop_first() =~= entries@.skip(i as int + 1));
                lemma_iv_entries_size_elem(entries@, i as int);
            }
            let ft = Self::field_type_of(fields, &entries[i].0);
            match ft {
                Some(idx) => {
                    if !entries[i].1.matches_abi(&fields[idx].1) {
                        return false;
                    }
                },
                None => {
                    return false;
                },
            }
            i = i + 1;
        }
        proof {
            assert(entries@.skip(n as int).len() == 0);
        }
        true
    }

    /// The index of the ABI field with the given name, the last one when a
    /// name repeats.
    fn field_type_of(fields: &Vec<(String, AbiType)>, name: &String) -> (r: Option<usize>)
        ensures
            match r {
                Some(i) => i < fields@.len() && spec_field_type(fields@, name@) == Some(
                    fields@[i as int].1,
                ),
                None => spec_field_type(fields@, name@) is None,
            },
    {
        let n = fields.len();
        let mut i: usize = 0;
        let mut found: Option<usize> = None;
        while i < n
            invariant
                i <= n,
                n == fields@.len(),
                match found {
                    Some(k) => k < i && spec_field_type(fields@.take(i as int), name@) == Some(
                        fields@[k as int].1,
                    ),
                    None => spec_field_type(fields@.take(i as int), name@) is None,
                },
            decreases n - i,
        {
            proof {
                assert(fields@.take(i as int + 1).drop_last() =~= fields@.take(i as int));
                assert(fields@.take(i as int + 1).last() == fields@[i as int]);
            }
            if fields[i].0 == *name {
                found = Some(i);
            }
            i = i + 1;
        }
        proof {
            assert(fields@.take(n as int) =~= fields@);
        }
        found
    }

    fn zip_match(elems: &Vec<InputValue>, fields: &Vec<AbiType>) -> (r: bool)
        requires
            elems@.len() == fields@.len(),
        ensures
            r == spec_zip_match(elems@, fields@),
        decreases iv_seq_size(elems@), elems@.len(), 1int,
    {
        let n = elems.len();
        let mut i: usize = 0;
        proof {
            assert(elems@.skip(0) =~= elems@);
            assert(fields@.skip(0) =~= fields@);
        }
        while i < n
            invariant
                i <= n,
                n == elems@.len(),
                n == fields@.len(),
                spec_zip_match(elems@, fields@) == spec_zip_match(
                    elems@.skip(i as int),
                    fields@.skip(i as int),
                ),
            decreases n - i,
        {
            proof {
                assert(elems@.skip(i as int)[0] == elems@[i as int]);
                assert(elems@.skip(i as int).drop_first() =~= elems@.skip(i as int + 1));
                assert(fields@.skip(i as int)[0] == fields@[i as int]);
                assert(fields@.skip(i as int).drop_first() =~= fields@.skip(i as int + 1));
                lemma_iv_seq_size_elem(elems@, i as int);
            }
            if !elems[i].matches_abi(&fields[i]) {
                return false;
            }
            i = i + 1;
        }
        proof {
            assert(elems@.skip(n as int).len() == 0);
        }
        true
    }
}


// ---------------------------------------------------------------------------
// Parsing field elements from strings
// ---------------------------------------------------------------------------

/// The numeric value of a digit character, or an out-of-range marker for
/// everything that is not a digit (digits beyond nine are letters of
/// either case).
pub open spec fn spec_digit_value(c: char) -> int {
    if '0' <= c && c <= '9' {
        c as int - '0' as int
    } else if 'a' <= c && c <= 'z' {
        c as int - 'a' as int + 10
    } else if 'A' <= c && c <= 'Z' {
        c as int - 'A' as int + 10
    } else {
        99
    }
}

/// One leading plus sign is ignored, unless it is doubled.
pub open spec fn spec_strip_plus(s: Seq<char>) -> Seq<char> {
    if s.len() >= 1 && s[0] == '+' && !(s.len() >= 2 && s[1] == '+') {
        s.drop_first()
    } else {
        s
    }
}

/// An acceptable digit string body: nonempty, not starting with an
/// underscore, and made of digits below the radix with underscores allowed
/// as separators.
pub open spec fn spec_digits_ok(s: Seq<char>, radix: int) -> bool {
    &&& s.len() > 0
    &&& s[0] != '_'
    &&& forall|i: int| 0 <= i < s.len() ==> (s[i] == '_' || spec_digit_value(s[i]) < radix)
}

/// The value of a digit string, underscores skipped.
pub open spec fn spec_digits_value(s: Seq<char>, radix: int) -> nat
    decreases s.len(),
{
    if s.len() == 0 {
        0
    } else if s.last() == '_' {
        spec_digits_value(s.drop_last(), radix)
    } else {
        spec_digits_value(s.drop_last(), radix) * (radix as nat) + (spec_digit_value(s.last())
            as nat)
    }
}

/// An unsigned number string under one radix: an optional plus, then digits.
pub open spec fn spec_uint_str_ok(s: Seq<char>, radix: int) -> bool {
    spec_digits_ok(spec_strip_plus(s), radix)
}

pub open spec fn spec_uint_str_value(s: Seq<char>, radix: int) -> nat {
    spec_digits_value(spec_strip_plus(s), radix)
}

/// What parsing an unsigned value accepts: a `0x` prefix selects
/// hexadecimal for the rest of the string, otherwise the whole string is
/// read as decimal.
pub open spec fn spec_parse_unsigned(s: Seq<char>) -> Option<nat> {
    if s.len() >= 2 && s[0] == '0' && s[1] == 'x' {
        if spec_uint_str_ok(s.skip(2), 16) {
            Some(spec_uint_str_value(s.skip(2), 16))
        } else {
            None
        }
    } else {
        if spec_uint_str_ok(s, 10) {
            Some(spec_uint_str_value(s, 10))
        } else {
            None
        }
    }
}

/// A signed number body under one radix: one minus sign may precede the
/// unsigned grammar; the result is the sign (negative only for nonzero
/// magnitudes) and the magnitude.
pub open spec fn spec_int_body(body: Seq<char>, radix: int) -> Option<(bool, nat)> {
    if body.len() >= 1 && body[0] == '-' && !(body.len() >= 2 && body[1] == '+') {
        if spec_uint_str_ok(body.drop_first(), radix) {
            let v = spec_uint_str_value(body.drop_first(), radix);
            Some((v != 0, v))
        } else {
            None
        }
    } else if body.len() >= 1 && body[0] == '-' {
        None
    } else {
        if spec_uint_str_ok(body, radix) {
            Some((false, spec_uint_str_value(body, radix)))
        } else {
            None
        }
    }
}

/// What parsing a signed value accepts: a `0x` prefix selects hexadecimal
/// for the rest of the string, otherwise the whole string is read as
/// decimal.
pub open spec fn spec_parse_signed(s: Seq<char>) -> Option<(bool, nat)> {
    if s.len() >= 2 && s[0] == '0' && s[1] == 'x' {
        spec_int_body(s.skip(2), 16)
    } else {
        spec_int_body(s, 10)
    }
}

/// A minimal big-endian byte string: what the big-integer library emits.
pub open spec fn spec_minimal_bytes(s: Seq<u8>) -> bool {
    &&& s.len() >= 1
    &&& (s.len() > 1 ==> s[0] != 0)
}

pub open spec fn spec_pow2(n: nat) -> nat
    decreases n,
{
    if n == 0 {
        1
    } else {
        2 * spec_pow2((n - 1) as nat)
    }
}

/// Splits off a leading `0x`, the marker that selects hexadecimal.
fn strip_hex_prefix<'a>(value: &'a str) -> (r: Option<&'a str>)
    ensures
        r is Some <==> value@.len() >= 2 && value@[0] == '0' && value@[1] == 'x',
        r is Some ==> r->0@ == value@.skip(2),
{
    let n = value.unicode_len();
    if n >= 2 && value.get_char(0) == '0' && value.get_char(1) == 'x' {
        let rest = value.substring_char(2, n);
        proof {
            assert(rest@ =~= value@.skip(2));
        }
        Some(rest)
    } else {
        None
    }
}

/// Relies on num-bigint's `BigUint::from_str_radix` in base 10 (one
/// optional leading plus; decimal digits with underscore separators;
/// rejects empty strings and leading underscores) and `to_bytes_be`
/// (minimal big-endian form, a single zero byte for zero).
#[verifier::external_body]
fn biguint_parse_dec(body: &str) -> (r: Option<Vec<u8>>)
    ensures
        r is Some <==> spec_uint_str_ok(body@, 10),
        r is Some ==> spec_minimal_bytes(r->0@) && bytes_value(r->0@) == spec_uint_str_value(
            body@,
            10,
        ),
{
    num_bigint::BigUint::from_str_radix(body, 10).ok().map(|b| b.to_bytes_be())
}

/// Relies on num-bigint's `BigUint::from_str_radix` in base 16 (as in the
/// decimal form, with hexadecimal digits of either case) and `to_bytes_be`.
#[verifier::external_body]
fn biguint_parse_hex(body: &str) -> (r: Option<Vec<u8>>)
    ensures
        r is Some <==> spec_uint_str_ok(body@, 16),
        r is Some ==> spec_minimal_bytes(r->0@) && bytes_value(r->0@) == spec_uint_str_value(
            body@,
            16,
        ),
{
    num_bigint::BigUint::from_str_radix(body, 16).ok().map(|b| b.to_bytes_be())
}

/// Relies on num-bigint's `BigInt::from_str_radix` in base 10 (one
/// optional leading minus before the unsigned grammar; a negative zero
/// normalizes to an unsigned zero) together with `sign` and `magnitude`.
#[verifier::external_body]
fn bigint_parse_dec(body: &str) -> (r: Option<(bool, Vec<u8>)>)
    ensures
        r is Some <==> spec_int_body(body@, 10) is Some,
        r is Some ==> ({
            let p = r->0;
            let q = spec_int_body(body@, 10)->0;
            &&& p.0 == q.0
            &&& spec_minimal_bytes(p.1@)
            &&& bytes_value(p.1@) == q.1
        }),
{
    num_bigint::BigInt::from_str_radix(body, 10).ok().map(
        |b|
            {
                let negative = b.sign() == num_bigint::Sign::Minus;
                (negative, b.magnitude().to_bytes_be())
            },
    )
}

/// Relies on num-bigint's `BigInt::from_str_radix` in base 16 (as in the
/// decimal form) together with `sign` and `magnitude`.
#[verifier::external_body]
fn bigint_parse_hex(body: &str) -> (r: Option<(bool, Vec<u8>)>)
    ensures
        r is Some <==> spec_int_body(body@, 16) is Some,
        r is Some ==> ({
            let p = r->0;
            let q = spec_int_body(body@, 16)->0;
            &&& p.0 == q.0
            &&& spec_minimal_bytes(p.1@)
            &&& bytes_value(p.1@) == q.1
        }),
{
    num_bigint::BigInt::from_str_radix(body, 16).ok().map(
        |b|
            {
                let negative = b.sign() == num_bigint::Sign::Minus;
                (negative, b.magnitude().to_bytes_be())
            },
    )
}

/// Reads an unsigned big integer: a `0x` prefix selects hexadecimal for
/// the rest of the string, otherwise the whole string is read as decimal.
fn biguint_parse(value: &str) -> (r: Option<Vec<u8>>)
    ensures
        r is Some <==> spec_parse_unsigned(value@) is Some,
        r is Some ==> spec_minimal_bytes(r->0@) && bytes_value(r->0@) == spec_parse_unsigned(
            value@,
        )->0,
{
    match strip_hex_prefix(value) {
        Some(body) => biguint_parse_hex(body),
        None => biguint_parse_dec(value),
    }
}

/// Reads a signed big integer, with the `0x` prefix handled as in the
/// unsigned form.
fn bigint_parse(value: &str) -> (r: Option<(bool, Vec<u8>)>)
    ensures
        r is Some <==> spec_parse_signed(value@) is Some,
        r is Some ==> ({
            let p = r->0;
            let q = spec_parse_signed(value@)->0;
            &&& p.0 == q.0
            &&& spec_minimal_bytes(p.1@)
            &&& bytes_value(p.1@) == q.1
        }),
{
    match strip_hex_prefix(value) {
        Some(body) => bigint_parse_hex(body),
        None => bigint_parse_dec(value),
    }
}

/// The bytes of two to the given power, in minimal big-endian form: a
/// leading byte of two to `width mod 8`, then `width div 8` zero bytes.
fn pow2_bytes(width: u32) -> (r: Vec<u8>)
    ensures
        spec_minimal_bytes(r@),
        bytes_value(r@) == spec_pow2(width as nat),
{
    let rem: u32 = width % 8;
    let first: u8 = if rem == 0 {
        1
    } else if rem == 1 {
        2
    } else if rem == 2 {
        4
    } else if rem == 3 {
        8
    } else if rem == 4 {
        16
    } else if rem == 5 {
        32
    } else if rem == 6 {
        64
    } else {
        128
    };
    proof {
        lemma_small_pow2_values();
        assert(first as nat == spec_pow2(rem as nat));
    }
    let zeros: usize = (width / 8) as usize;
    let mut out: Vec<u8> = Vec::new();
    out.push(first);
    let mut i: usize = 0;
    while i < zeros
        invariant
            i <= zeros,
            out@.len() == 1 + i,
            out@[0] == first,
            forall|j: int| 1 <= j < out@.len() ==> out@[j] == 0,
        decreases zeros - i,
    {
        out.push(0);
        i = i + 1;
    }
    proof {
        lemma_bytes_value_front(out@);
        lemma_bytes_value_zero(out@.drop_first());
        assert(forall|j: int|
            0 <= j < out@.drop_first().len() ==> out@.drop_first()[j] == 0) by {
            assert(forall|j: int| 0 <= j < out@.drop_first().len() ==> out@.drop_first()[j]
                == out@[j + 1]);
        }
        assert(bytes_value(out@) == first * pow256(zeros as nat));
        lemma_pow256_is_pow2(zeros as nat);
        lemma_pow2_mul(rem as nat, (8 * zeros) as nat);
        assert(rem as nat + (8 * zeros) as nat == width as nat);
        assert(first * pow256(zeros as nat) == spec_pow2(rem as nat) * spec_pow2(
            (8 * zeros) as nat,
        ));
    }
    out
}

/// Relies on num-bigint's subtraction and byte conversions: the difference
/// of the two values, in minimal big-endian form. The library's
/// subtraction does not return on underflow, so the smaller value must be
/// on the right.
#[verifier::external_body]
fn sub_bytes(a: &Vec<u8>, b: &Vec<u8>) -> (r: Vec<u8>)
    requires
        crate::field_element::bytes_value(b@) <= crate::field_element::bytes_value(a@),
    ensures
        spec_minimal_bytes(r@),
        crate::field_element::bytes_value(r@) == crate::field_element::bytes_value(a@)
            - crate::field_element::bytes_value(b@),
{
    let big = num_bigint::BigUint::from_bytes_be(a.as_slice()) - num_bigint::BigUint::from_bytes_be(
        b.as_slice(),
    );
    big.to_bytes_be()
}

fn parse_error() -> (r: InputParserError)
    ensures
        r is ParseStr,
{
    InputParserError::ParseStr("value must be a decimal or 0x-prefixed hexadecimal integer below the field modulus".to_owned())
}

/// Parses a field element from a decimal or `0x`-prefixed hexadecimal
/// string; values at or above the field modulus are rejected.
pub fn parse_str_to_field(value: &str) -> (r: Result<FieldElement, InputParserError>)
    ensures
        match spec_parse_unsigned(value@) {
            Some(v) => {
                if v < spec_modulus() {
                    r is Ok && r->Ok_0.wf() && r->Ok_0.spec_value() == v
                } else {
                    r is Err && r->Err_0 is ParseStr
                }
            },
            None => r is Err && r->Err_0 is ParseStr,
        },
{
    let bytes = match biguint_parse(value) {
        Some(b) => b,
        None => {
            return Err(parse_error());
        },
    };
    match FieldElement::from_be_bytes(&bytes) {
        Some(f) => Ok(f),
        None => Err(parse_error()),
    }
}

/// Parses a signed value of the given bit width into a field element: a
/// negative value `-m` is read as `2^width - m` (two's complement), and
/// the result must lie below the field modulus.
pub fn parse_str_to_signed(value: &str, width: u32) -> (r: Result<FieldElement, InputParserError>)
    ensures
        match spec_parse_signed(value@) {
            Some((negative, m)) => {
                let v: int = if negative {
                    spec_pow2(width as nat) - m
                } else {
                    m as int
                };
                if negative && m > spec_pow2(width as nat) {
                    r is Err && r->Err_0 is ParseStr
                } else if v < spec_modulus() {
                    r is Ok && r->Ok_0.wf() && r->Ok_0.spec_value() == v
                } else {
                    r is Err && r->Err_0 is ParseStr
                }
            },
            None => r is Err && r->Err_0 is ParseStr,
        },
{
    let (negative, magnitude) = match bigint_parse(value) {
        Some(p) => p,
        None => {
            return Err(parse_error());
        },
    };
    let value_bytes = if negative {
        let p2 = pow2_bytes(width);
        if lt_minimal(&p2, &magnitude) {
            return Err(parse_error());
        }
        sub_bytes(&p2, &magnitude)
    } else {
        magnitude
    };
    match FieldElement::from_be_bytes(&value_bytes) {
        Some(f) => Ok(f),
        None => Err(parse_error()),
    }
}

/// Whether `a < b` numerically, for minimal big-endian byte strings: a
/// shorter minimal string is the smaller number; equal lengths compare
/// lexicographically.
fn lt_minimal(a: &Vec<u8>, b: &Vec<u8>) -> (r: bool)
    requires
        spec_minimal_bytes(a@),
        spec_minimal_bytes(b@),
    ensures
        r == (bytes_value(a@) < bytes_value(b@)),
{
    if a.len() < b.len() {
        proof {
            lemma_minimal_shorter_smaller(a@, b@);
        }
        return true;
    }
    if a.len() > b.len() {
        proof {
            lemma_minimal_shorter_smaller(b@, a@);
        }
        return false;
    }
    let n = a.len();
    let mut i: usize = 0;
    while i < n
        invariant
            i <= n,
            n == a@.len(),
            a@.len() == b@.len(),
            forall|j: int| 0 <= j < i as int ==> a@[j] == b@[j],
        decreases n - i,
    {
        if a[i] < b[i] {
            proof {
                lemma_bytes_prefix_lt(a@, b@, i as int);
            }
            return true;
        }
        if a[i] > b[i] {
            proof {
                lemma_bytes_prefix_lt(b@, a@, i as int);
            }
            return false;
        }
        i = i + 1;
    }
    proof {
        assert(a@ =~= b@);
    }
    false
}

/// A minimal big-endian string shorter than another minimal one holds the
/// smaller number.
pub proof fn lemma_minimal_shorter_smaller(a: Seq<u8>, b: Seq<u8>)
    requires
        spec_minimal_bytes(a),
        spec_minimal_bytes(b),
        a.len() < b.len(),
    ensures
        bytes_value(a) < bytes_value(b),
{
    lemma_bytes_value_bound(a);
    lemma_bytes_value_front(b);
    lemma_pow256_monotonic(a.len(), (b.len() - 1) as nat);
    assert(b.len() > 1);
    assert(b[0] >= 1);
    assert(b[0] * pow256((b.len() - 1) as nat) >= pow256((b.len() - 1) as nat))
        by (nonlinear_arith)
        requires
            b[0] >= 1,
            pow256((b.len() - 1) as nat) > 0,
    ;
}


// ---------------------------------------------------------------------------
// What the bit length means numerically
// ---------------------------------------------------------------------------

proof fn lemma_pow2_mul(a: nat, b: nat)
    ensures
        spec_pow2(a) * spec_pow2(b) == spec_pow2(a + b),
        spec_pow2(a) >= 1,
    decreases a,
{
    if a == 0 {
        assert(spec_pow2(0) == 1);
    } else {
        lemma_pow2_mul((a - 1) as nat, b);
        assert(spec_pow2(a) == 2 * spec_pow2((a - 1) as nat));
        assert(spec_pow2(a + b) == 2 * spec_pow2((a - 1) as nat + b));
        assert((2 * spec_pow2((a - 1) as nat)) * spec_pow2(b) == 2 * (spec_pow2((a - 1) as nat)
            * spec_pow2(b))) by (nonlinear_arith);
    }
}

proof fn lemma_pow256_is_pow2(n: nat)
    ensures
        pow256(n) == spec_pow2(8 * n),
    decreases n,
{
    if n > 0 {
        lemma_pow256_is_pow2((n - 1) as nat);
        let m = (8 * (n - 1)) as nat;
        assert(spec_pow2(m + 8) == 2 * spec_pow2(m + 7));
        assert(spec_pow2(m + 7) == 2 * spec_pow2(m + 6));
        assert(spec_pow2(m + 6) == 2 * spec_pow2(m + 5));
        assert(spec_pow2(m + 5) == 2 * spec_pow2(m + 4));
        assert(spec_pow2(m + 4) == 2 * spec_pow2(m + 3));
        assert(spec_pow2(m + 3) == 2 * spec_pow2(m + 2));
        assert(spec_pow2(m + 2) == 2 * spec_pow2(m + 1));
        assert(spec_pow2(m + 1) == 2 * spec_pow2(m));
        assert(8 * n == m + 8);
    }
}

proof fn lemma_small_pow2_values()
    ensures
        spec_pow2(0) == 1,
        spec_pow2(1) == 2,
        spec_pow2(2) == 4,
        spec_pow2(3) == 8,
        spec_pow2(4) == 16,
        spec_pow2(5) == 32,
        spec_pow2(6) == 64,
        spec_pow2(7) == 128,
        spec_pow2(8) == 256,
{
    assert(spec_pow2(0) == 1);
    assert(spec_pow2(1) == 2 * spec_pow2(0));
    assert(spec_pow2(2) == 2 * spec_pow2(1));
    assert(spec_pow2(3) == 2 * spec_pow2(2));
    assert(spec_pow2(4) == 2 * spec_pow2(3));
    assert(spec_pow2(5) == 2 * spec_pow2(4));
    assert(spec_pow2(6) == 2 * spec_pow2(5));
    assert(spec_pow2(7) == 2 * spec_pow2(6));
    assert(spec_pow2(8) == 2 * spec_pow2(7));
}

proof fn lemma_byte_bits_bounds(b: u8)
    ensures
        (b as nat) < spec_pow2(crate::field_element::spec_byte_bits(b) as nat),
        b > 0 ==> (b as nat) >= spec_pow2((crate::field_element::spec_byte_bits(b) - 1) as nat),
{
    lemma_small_pow2_values();
}

/// The bit length measures the value: every byte string holds a value
/// below two to its bit length, and a nonzero one holds at least two to
/// one less. (Bounded to field-sized strings so the bit count is exact.)
pub proof fn lemma_num_bits_bounds(s: Seq<u8>)
    requires
        s.len() <= 32,
    ensures
        bytes_value(s) < spec_pow2(spec_num_bits(s) as nat),
        spec_num_bits(s) > 0 ==> bytes_value(s) >= spec_pow2((spec_num_bits(s) - 1) as nat),
    decreases s.len(),
{
    if s.len() == 0 {
        assert(spec_pow2(0) == 1);
    } else if s[0] == 0 {
        lemma_bytes_value_front(s);
        lemma_num_bits_bounds(s.drop_first());
    } else {
        let bits0 = crate::field_element::spec_byte_bits(s[0]);
        let rest_bits = (8 * (s.len() - 1)) as nat;
        let p = pow256((s.len() - 1) as nat);
        lemma_bytes_value_front(s);
        lemma_bytes_value_bound(s.drop_first());
        lemma_pow256_is_pow2((s.len() - 1) as nat);
        lemma_byte_bits_bounds(s[0]);
        lemma_pow2_mul(bits0 as nat, rest_bits);
        assert(spec_num_bits(s) == bits0 + rest_bits);
        // Upper bound: s[0]*p + rest < (s[0]+1)*p <= pow2(bits0)*p.
        assert(s[0] * p + bytes_value(s.drop_first()) < (s[0] + 1) * p) by (nonlinear_arith)
            requires
                bytes_value(s.drop_first()) < p,
                p > 0,
        ;
        assert((s[0] + 1) * p <= spec_pow2(bits0 as nat) * p) by (nonlinear_arith)
            requires
                (s[0] as nat) < spec_pow2(bits0 as nat),
                p > 0,
        ;
        // Lower bound: s[0]*p >= pow2(bits0-1)*p.
        lemma_pow2_mul((bits0 - 1) as nat, rest_bits);
        assert(s[0] * p >= spec_pow2((bits0 - 1) as nat) * p) by (nonlinear_arith)
            requires
                (s[0] as nat) >= spec_pow2((bits0 - 1) as nat),
                p > 0,
        ;
        assert(bits0 + rest_bits - 1 == (bits0 - 1) as nat + rest_bits);
    }
}

} // verus!
