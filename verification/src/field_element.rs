//! Field elements of the proving system's scalar field, held canonically as
//! 32 big-endian bytes strictly below the field modulus.

use vstd::prelude::*;

verus! {

/// The value of a big-endian byte string.
pub open spec fn bytes_value(s: Seq<u8>) -> nat
    decreases s.len(),
{
    if s.len() == 0 {
        0
    } else {
        bytes_value(s.drop_last()) * 256 + s.last() as nat
    }
}

pub open spec fn pow256(n: nat) -> nat
    decreases n,
{
    if n == 0 {
        1
    } else {
        256 * pow256((n - 1) as nat)
    }
}

/// The field modulus, as 32 big-endian bytes.
pub open spec fn spec_modulus_bytes() -> Seq<u8> {
    seq![
        0x30u8, 0x64u8, 0x4eu8, 0x72u8, 0xe1u8, 0x31u8, 0xa0u8, 0x29u8,
        0xb8u8, 0x50u8, 0x45u8, 0xb6u8, 0x81u8, 0x81u8, 0x58u8, 0x5du8,
        0x28u8, 0x33u8, 0xe8u8, 0x48u8, 0x79u8, 0xb9u8, 0x70u8, 0x91u8,
        0x43u8, 0xe1u8, 0xf5u8, 0x93u8, 0xf0u8, 0x00u8, 0x00u8, 0x01u8,
    ]
}

/// The field modulus as a number.
pub open spec fn spec_modulus() -> nat {
    bytes_value(spec_modulus_bytes())
}

pub proof fn lemma_bytes_value_bound(s: Seq<u8>)
    ensures
        bytes_value(s) < pow256(s.len()),
    decreases s.len(),
{
    if s.len() > 0 {
        lemma_bytes_value_bound(s.drop_last());
        assert(bytes_value(s.drop_last()) * 256 + s.last() < pow256((s.len() - 1) as nat) * 256)
            by (nonlinear_arith)
            requires
                bytes_value(s.drop_last()) < pow256((s.len() - 1) as nat),
                s.last() < 256,
        ;
        assert(pow256((s.len() - 1) as nat) * 256 == pow256(s.len())) by {
            assert(pow256(s.len()) == 256 * pow256((s.len() - 1) as nat));
        }
    }
}

/// Front decomposition of the big-endian value: the first byte weighs
/// `256^(len-1)`.
pub proof fn lemma_bytes_value_front(s: Seq<u8>)
    requires
        s.len() > 0,
    ensures
        bytes_value(s) == s[0] * pow256((s.len() - 1) as nat) + bytes_value(s.drop_first()),
    decreases s.len(),
{
    if s.len() == 1 {
        assert(s.drop_last().len() == 0);
        assert(s.drop_first().len() == 0);
        assert(bytes_value(s.drop_last()) == 0);
        assert(bytes_value(s) == 0 * 256 + s.last() as nat);
        assert(s.last() == s[0]);
        assert(s[0] * pow256(0) == s[0] * 1);
    } else {
        let d = s.drop_last();
        lemma_bytes_value_front(d);
        assert(d[0] == s[0]);
        assert(d.drop_first() =~= s.drop_first().drop_last());
        assert(bytes_value(s) == bytes_value(d) * 256 + s.last());
        assert(bytes_value(d) == s[0] * pow256((d.len() - 1) as nat) + bytes_value(
            s.drop_first().drop_last(),
        ));
        assert((s[0] * pow256((d.len() - 1) as nat) + bytes_value(s.drop_first().drop_last()))
            * 256 == s[0] * (pow256((d.len() - 1) as nat) * 256) + bytes_value(
            s.drop_first().drop_last(),
        ) * 256) by (nonlinear_arith);
        assert(pow256((d.len() - 1) as nat) * 256 == pow256((s.len() - 1) as nat)) by {
            assert(pow256((s.len() - 1) as nat) == 256 * pow256((s.len() - 2) as nat));
        }
        assert(s.drop_first().last() == s.last());
        assert(bytes_value(s.drop_first()) == bytes_value(s.drop_first().drop_last()) * 256
            + s.last());
    }
}

/// For equal-length byte strings, an earlier smaller byte after an equal
/// prefix decides the numeric order.
pub proof fn lemma_bytes_prefix_lt(a: Seq<u8>, b: Seq<u8>, i: int)
    requires
        a.len() == b.len(),
        0 <= i < a.len(),
        forall|j: int| 0 <= j < i ==> a[j] == b[j],
        a[i] < b[i],
    ensures
        bytes_value(a) < bytes_value(b),
    decreases i,
{
    if i == 0 {
        lemma_bytes_value_front(a);
        lemma_bytes_value_front(b);
        lemma_bytes_value_bound(a.drop_first());
        let p = pow256((a.len() - 1) as nat);
        assert(a[0] * p + bytes_value(a.drop_first()) < b[0] * p) by (nonlinear_arith)
            requires
                a[0] < b[0],
                bytes_value(a.drop_first()) < p,
                p > 0,
        ;
        assert(b[0] * p <= b[0] * p + bytes_value(b.drop_first()));
    } else {
        lemma_bytes_value_front(a);
        lemma_bytes_value_front(b);
        assert(forall|j: int| 0 <= j < i - 1 ==> a.drop_first()[j] == b.drop_first()[j]);
        assert(a.drop_first()[i - 1] == a[i]);
        assert(b.drop_first()[i - 1] == b[i]);
        lemma_bytes_prefix_lt(a.drop_first(), b.drop_first(), i - 1);
        assert(a[0] == b[0]);
    }
}

/// A byte string of zeros has value zero, and conversely.
pub proof fn lemma_bytes_value_zero(s: Seq<u8>)
    ensures
        bytes_value(s) == 0 <==> (forall|j: int| 0 <= j < s.len() ==> s[j] == 0),
    decreases s.len(),
{
    if s.len() > 0 {
        lemma_bytes_value_zero(s.drop_last());
        assert(forall|j: int| 0 <= j < s.len() - 1 ==> s.drop_last()[j] == s[j]);
        if bytes_value(s) == 0 {
            assert(bytes_value(s.drop_last()) == 0);
            assert(s.last() == 0);
            assert(forall|j: int| 0 <= j < s.len() ==> s[j] == 0) by {
                assert(forall|j: int| 0 <= j < s.len() - 1 ==> s[j] == s.drop_last()[j]);
                assert(s[s.len() - 1] == s.last());
            }
        }
        if forall|j: int| 0 <= j < s.len() ==> s[j] == 0 {
            assert(s.last() == 0);
        }
    }
}

/// A byte string has value one exactly when its last byte is one and the
/// rest are zero.
pub proof fn lemma_bytes_value_one(s: Seq<u8>)
    requires
        s.len() > 0,
    ensures
        bytes_value(s) == 1 <==> (s.last() == 1 && forall|j: int| 0 <= j < s.len() - 1 ==> s[j]
            == 0),
{
    lemma_bytes_value_zero(s.drop_last());
    assert(forall|j: int| 0 <= j < s.len() - 1 ==> s.drop_last()[j] == s[j]);
    if bytes_value(s) == 1 {
        assert(bytes_value(s.drop_last()) * 256 + s.last() == 1);
        assert(bytes_value(s.drop_last()) == 0 && s.last() == 1) by (nonlinear_arith)
            requires
                bytes_value(s.drop_last()) * 256 + s.last() == 1,
                s.last() < 256,
        ;
    }
    if s.last() == 1 && forall|j: int| 0 <= j < s.len() - 1 ==> s[j] == 0 {
        assert(forall|j: int| 0 <= j < s.drop_last().len() ==> s.drop_last()[j] == 0);
        assert(bytes_value(s.drop_last()) == 0);
    }
}

/// An element of the scalar field: 32 big-endian bytes, strictly below the
/// modulus.
#[derive(Clone, PartialEq, Eq, Debug)]
pub struct FieldElement {
    pub bytes: Vec<u8>,
}

impl FieldElement {
    /// Canonical form: exactly 32 bytes, value below the modulus.
    pub open spec fn wf(self) -> bool {
        &&& self.bytes@.len() == 32
        &&& bytes_value(self.bytes@) < spec_modulus()
    }

    pub open spec fn spec_value(self) -> nat {
        bytes_value(self.bytes@)
    }

    /// The field modulus as big-endian bytes.
    pub fn modulus_be_bytes() -> (r: Vec<u8>)
        ensures
            r@ == spec_modulus_bytes(),
    {
        let r: Vec<u8> = vec![
            0x30u8, 0x64u8, 0x4eu8, 0x72u8, 0xe1u8, 0x31u8, 0xa0u8, 0x29u8,
            0xb8u8, 0x50u8, 0x45u8, 0xb6u8, 0x81u8, 0x81u8, 0x58u8, 0x5du8,
            0x28u8, 0x33u8, 0xe8u8, 0x48u8, 0x79u8, 0xb9u8, 0x70u8, 0x91u8,
            0x43u8, 0xe1u8, 0xf5u8, 0x93u8, 0xf0u8, 0x00u8, 0x00u8, 0x01u8,
        ];
        proof {
            assert(r@ =~= spec_modulus_bytes());
        }
        r
    }

    pub fn zero() -> (r: FieldElement)
        ensures
            r.wf(),
            r.spec_value() == 0,
    {
        let mut bytes: Vec<u8> = Vec::new();
        let mut i: usize = 0;
        while i < 32
            invariant
                i <= 32,
                bytes@.len() == i,
                forall|j: int| 0 <= j < i as int ==> bytes@[j] == 0,
            decreases 32 - i,
        {
            bytes.push(0);
            i = i + 1;
        }
        proof {
            lemma_bytes_value_zero(bytes@);
            modulus_value_positive();
        }
        FieldElement { bytes }
    }

    pub fn one() -> (r: FieldElement)
        ensures
            r.wf(),
            r.spec_value() == 1,
    {
        let mut bytes: Vec<u8> = Vec::new();
        let mut i: usize = 0;
        while i < 31
            invariant
                i <= 31,
                bytes@.len() == i,
                forall|j: int| 0 <= j < i as int ==> bytes@[j] == 0,
            decreases 31 - i,
        {
            bytes.push(0);
            i = i + 1;
        }
        bytes.push(1);
        proof {
            assert(bytes@.last() == 1);
            lemma_bytes_value_one(bytes@);
            lemma_one_below_modulus();
        }
        FieldElement { bytes }
    }

    /// Whether `a < b` numerically, for equal-length big-endian strings.
    fn lt_bytes(a: &Vec<u8>, b: &Vec<u8>) -> (r: bool)
        requires
            a@.len() == b@.len(),
        ensures
            r == (bytes_value(a@) < bytes_value(b@)),
    {
        let n = a.len();
        let mut i: usize = 0;
        while i < n
            invariant
                i <= n,
                n == a@.len(),
                a@.len() == b@.len(),
                forall|j: int| 0 <= j < i as int ==> a@[j] == b@[j],
            decreases n - i,
        {
            if a[i] < b[i] {
                proof {
                    lemma_bytes_prefix_lt(a@, b@, i as int);
                }
                return true;
            }
            if a[i] > b[i] {
                proof {
                    lemma_bytes_prefix_lt(b@, a@, i as int);
                }
                return false;
            }
            i = i + 1;
        }
        proof {
            assert(a@ =~= b@);
        }
        false
    }

    /// Builds a field element from big-endian bytes of any length, when
    /// their value lies below the modulus; `None` otherwise.
    pub fn from_be_bytes(input: &Vec<u8>) -> (r: Option<FieldElement>)
        ensures
            match r {
                Some(f) => f.wf() && f.spec_value() == bytes_value(input@) && bytes_value(input@)
                    < spec_modulus(),
                None => bytes_value(input@) >= spec_modulus(),
            },
    {
        // Strip leading zeros.
        let mut start: usize = 0;
        while start < input.len() && input[start] == 0
            invariant
                start <= input@.len(),
                forall|j: int| 0 <= j < start as int ==> input@[j] == 0,
            decreases input@.len() - start,
        {
            start = start + 1;
        }
        proof {
            lemma_bytes_drop_leading_zeros(input@, start as int);
        }
        let significant = input.len() - start;
        if significant > 32 {
            proof {
                let tail = input@.skip(start as int);
                lemma_bytes_value_front(tail);
                lemma_pow256_monotonic(32, (tail.len() - 1) as nat);
                lemma_modulus_below_pow32();
                assert(tail[0] >= 1);
                assert(tail[0] * pow256((tail.len() - 1) as nat) >= pow256(
                    (tail.len() - 1) as nat,
                )) by (nonlinear_arith)
                    requires
                        tail[0] >= 1,
                        pow256((tail.len() - 1) as nat) > 0,
                ;
            }
            return None;
        }
        let mut bytes: Vec<u8> = Vec::new();
        let mut i: usize = 0;
        let pad = 32 - significant;
        while i < pad
            invariant
                i <= pad,
                bytes@.len() == i,
                forall|j: int| 0 <= j < i as int ==> bytes@[j] == 0,
            decreases pad - i,
        {
            bytes.push(0);
            i = i + 1;
        }
        let mut k: usize = start;
        while k < input.len()
            invariant
                start <= k <= input@.len(),
                pad == 32 - (input@.len() - start),
                bytes@.len() == pad + (k - start),
                forall|j: int| 0 <= j < pad as int ==> bytes@[j] == 0,
                forall|j: int|
                    pad as int <= j < bytes@.len() ==> bytes@[j] == input@[j - pad + start],
            decreases input@.len() - k,
        {
            bytes.push(input[k]);
            k = k + 1;
        }
        proof {
            assert(bytes@.len() == 32);
            lemma_bytes_drop_leading_zeros(bytes@, pad as int);
            assert(bytes@.skip(pad as int) =~= input@.skip(start as int));
        }
        let modulus = Self::modulus_be_bytes();
        if Self::lt_bytes(&bytes, &modulus) {
            Some(FieldElement { bytes })
        } else {
            None
        }
    }

    /// The canonical big-endian byte form of this element.
    pub fn to_be_bytes(&self) -> (r: Vec<u8>)
        ensures
            r@ == self.bytes@,
    {
        let mut r: Vec<u8> = Vec::new();
        let mut i: usize = 0;
        while i < self.bytes.len()
            invariant
                i <= self.bytes@.len(),
                r@ == self.bytes@.take(i as int),
            decreases self.bytes@.len() - i,
        {
            r.push(self.bytes[i]);
            proof {
                assert(self.bytes@.take(i as int).push(self.bytes@[i as int]) =~= self.bytes@
                    .take(i as int + 1));
            }
            i = i + 1;
        }
        proof {
            assert(self.bytes@.take(self.bytes@.len() as int) =~= self.bytes@);
        }
        r
    }

    /// True when this element is zero.
    pub fn is_zero(&self) -> (r: bool)
        ensures
            r == (self.spec_value() == 0),
    {
        let n = self.bytes.len();
        let mut i: usize = 0;
        while i < n
            invariant
                i <= n,
                n == self.bytes@.len(),
                forall|j: int| 0 <= j < i as int ==> self.bytes@[j] == 0,
            decreases n - i,
        {
            if self.bytes[i] != 0 {
                proof {
                    lemma_bytes_value_zero(self.bytes@);
                }
                return false;
            }
            i = i + 1;
        }
        proof {
            lemma_bytes_value_zero(self.bytes@);
        }
        true
    }

    /// True when this element is one.
    pub fn is_one(&self) -> (r: bool)
        ensures
            r == (self.spec_value() == 1),
    {
        let n = self.bytes.len();
        if n == 0 {
            return false;
        }
        let mut i: usize = 0;
        while i < n - 1
            invariant
                n == self.bytes@.len(),
                n >= 1,
                i <= n - 1,
                forall|j: int| 0 <= j < i as int ==> self.bytes@[j] == 0,
            decreases n - i,
        {
            if self.bytes[i] != 0 {
                proof {
                    lemma_bytes_value_one(self.bytes@);
                }
                return false;
            }
            i = i + 1;
        }
        let r = self.bytes[n - 1] == 1;
        proof {
            assert(self.bytes@.last() == self.bytes@[n - 1]);
            lemma_bytes_value_one(self.bytes@);
        }
        r
    }

    /// The bit length of this element: zero for zero, else the position of
    /// the highest set bit plus one.
    pub fn num_bits(&self) -> (r: u32)
        requires
            self.bytes@.len() <= 32,
        ensures
            r == spec_num_bits(self.bytes@),
    {
        let n = self.bytes.len();
        let mut i: usize = 0;
        proof {
            assert(self.bytes@.skip(0) =~= self.bytes@);
        }
        while i < n
            invariant
                i <= n,
                n == self.bytes@.len(),
                n <= 32,
                forall|j: int| 0 <= j < i as int ==> self.bytes@[j] == 0,
                spec_num_bits(self.bytes@) == spec_num_bits(self.bytes@.skip(i as int)),
            decreases n - i,
        {
            proof {
                assert(self.bytes@.skip(i as int)[0] == self.bytes@[i as int]);
                assert(self.bytes@.skip(i as int).drop_first() =~= self.bytes@.skip(i as int + 1));
            }
            if self.bytes[i] != 0 {
                let rest = (n - 1 - i) as u32;
                return byte_bit_length(self.bytes[i]) + 8 * rest;
            }
            i = i + 1;
        }
        proof {
            assert(self.bytes@.skip(n as int).len() == 0);
        }
        0
    }
}

/// The bit length of one byte.
pub open spec fn spec_byte_bits(b: u8) -> u32 {
    if b >= 128 {
        8
    } else if b >= 64 {
        7
    } else if b >= 32 {
        6
    } else if b >= 16 {
        5
    } else if b >= 8 {
        4
    } else if b >= 4 {
        3
    } else if b >= 2 {
        2
    } else if b >= 1 {
        1
    } else {
        0
    }
}

/// The bit length of a big-endian byte string: leading zero bytes carry
/// nothing; the first nonzero byte contributes its bit length plus eight
/// bits for each byte after it.
pub open spec fn spec_num_bits(s: Seq<u8>) -> u32
    decreases s.len(),
{
    if s.len() == 0 {
        0
    } else if s[0] == 0 {
        spec_num_bits(s.drop_first())
    } else {
        (spec_byte_bits(s[0]) + 8 * (s.len() - 1)) as u32
    }
}

fn byte_bit_length(b: u8) -> (r: u32)
    ensures
        r == spec_byte_bits(b),
{
    if b >= 128 {
        8
    } else if b >= 64 {
        7
    } else if b >= 32 {
        6
    } else if b >= 16 {
        5
    } else if b >= 8 {
        4
    } else if b >= 4 {
        3
    } else if b >= 2 {
        2
    } else if b >= 1 {
        1
    } else {
        0
    }
}

/// Dropping leading zero bytes preserves the value.
pub proof fn lemma_bytes_drop_leading_zeros(s: Seq<u8>, k: int)
    requires
        0 <= k <= s.len(),
        forall|j: int| 0 <= j < k ==> s[j] == 0,
    ensures
        bytes_value(s) == bytes_value(s.skip(k)),
    decreases k,
{
    if k > 0 {
        lemma_bytes_value_front(s);
        assert(s[0] == 0);
        assert(bytes_value(s) == bytes_value(s.drop_first()));
        assert(forall|j: int| 0 <= j < k - 1 ==> s.drop_first()[j] == s[j + 1]);
        lemma_bytes_drop_leading_zeros(s.drop_first(), k - 1);
        assert(s.drop_first().skip(k - 1) =~= s.skip(k));
    } else {
        assert(s.skip(0) =~= s);
    }
}

pub proof fn lemma_pow256_pos(n: nat)
    ensures
        pow256(n) > 0,
    decreases n,
{
    if n > 0 {
        lemma_pow256_pos((n - 1) as nat);
        assert(256 * pow256((n - 1) as nat) > 0) by (nonlinear_arith)
            requires
                pow256((n - 1) as nat) > 0,
        ;
    }
}

pub proof fn lemma_pow256_monotonic(a: nat, b: nat)
    requires
        a <= b,
    ensures
        pow256(a) <= pow256(b),
        pow256(a) > 0,
    decreases b,
{
    lemma_pow256_pos(a);
    if a < b {
        lemma_pow256_monotonic(a, (b - 1) as nat);
        assert(pow256(b) == 256 * pow256((b - 1) as nat));
        assert(256 * pow256((b - 1) as nat) >= pow256((b - 1) as nat)) by (nonlinear_arith)
            requires
                pow256((b - 1) as nat) > 0,
        ;
    }
}

/// The modulus is positive.
pub proof fn modulus_value_positive()
    ensures
        spec_modulus() > 0,
{
    assert(spec_modulus_bytes().last() == 1);
    assert(spec_modulus() == bytes_value(spec_modulus_bytes().drop_last()) * 256 + 1);
}

/// One is below the modulus.
pub proof fn lemma_one_below_modulus()
    ensures
        spec_modulus() > 1,
{
    assert(spec_modulus_bytes()[0] == 0x30);
    lemma_bytes_prefix_lt(
        seq![
            0u8, 0u8, 0u8, 0u8, 0u8, 0u8, 0u8, 0u8, 0u8, 0u8, 0u8, 0u8, 0u8, 0u8, 0u8, 0u8, 0u8,
            0u8, 0u8, 0u8, 0u8, 0u8, 0u8, 0u8, 0u8, 0u8, 0u8, 0u8, 0u8, 0u8, 0u8, 2u8,
        ],
        spec_modulus_bytes(),
        0,
    );
    let two = seq![
        0u8, 0u8, 0u8, 0u8, 0u8, 0u8, 0u8, 0u8, 0u8, 0u8, 0u8, 0u8, 0u8, 0u8, 0u8, 0u8, 0u8, 0u8,
        0u8, 0u8, 0u8, 0u8, 0u8, 0u8, 0u8, 0u8, 0u8, 0u8, 0u8, 0u8, 0u8, 2u8,
    ];
    lemma_bytes_value_zero(two.drop_last());
    assert(two.last() == 2);
    assert(bytes_value(two) == bytes_value(two.drop_last()) * 256 + 2);
    assert(bytes_value(two) == 2);
}

/// The modulus fits in 32 bytes.
pub proof fn lemma_modulus_below_pow32()
    ensures
        spec_modulus() < pow256(32),
{
    lemma_bytes_value_bound(spec_modulus_bytes());
}


/// The lowercase hexadecimal digit for a value below sixteen.
pub open spec fn spec_hex_char(n: int) -> char {
    if n == 0 {
        '0'
    } else if n == 1 {
        '1'
    } else if n == 2 {
        '2'
    } else if n == 3 {
        '3'
    } else if n == 4 {
        '4'
    } else if n == 5 {
        '5'
    } else if n == 6 {
        '6'
    } else if n == 7 {
        '7'
    } else if n == 8 {
        '8'
    } else if n == 9 {
        '9'
    } else if n == 10 {
        'a'
    } else if n == 11 {
        'b'
    } else if n == 12 {
        'c'
    } else if n == 13 {
        'd'
    } else if n == 14 {
        'e'
    } else {
        'f'
    }
}

/// The lowercase hexadecimal form of a big-endian byte string: two digits
/// per byte.
pub open spec fn spec_hex_of(s: Seq<u8>) -> Seq<char>
    decreases s.len(),
{
    if s.len() == 0 {
        Seq::empty()
    } else {
        spec_hex_of(s.drop_last()) + seq![
            spec_hex_char(s.last() as int / 16),
            spec_hex_char(s.last() as int % 16),
        ]
    }
}

fn hex_digit_str(n: u8) -> (r: &'static str)
    requires
        n < 16,
    ensures
        r@ == seq![spec_hex_char(n as int)],
{
    let r: &'static str = if n == 0 {
        "0"
    } else if n == 1 {
        "1"
    } else if n == 2 {
        "2"
    } else if n == 3 {
        "3"
    } else if n == 4 {
        "4"
    } else if n == 5 {
        "5"
    } else if n == 6 {
        "6"
    } else if n == 7 {
        "7"
    } else if n == 8 {
        "8"
    } else if n == 9 {
        "9"
    } else if n == 10 {
        "a"
    } else if n == 11 {
        "b"
    } else if n == 12 {
        "c"
    } else if n == 13 {
        "d"
    } else if n == 14 {
        "e"
    } else {
        "f"
    };
    proof {
        reveal_strlit("0");
        reveal_strlit("1");
        reveal_strlit("2");
        reveal_strlit("3");
        reveal_strlit("4");
        reveal_strlit("5");
        reveal_strlit("6");
        reveal_strlit("7");
        reveal_strlit("8");
        reveal_strlit("9");
        reveal_strlit("a");
        reveal_strlit("b");
        reveal_strlit("c");
        reveal_strlit("d");
        reveal_strlit("e");
        reveal_strlit("f");
        assert(r@ =~= seq![spec_hex_char(n as int)]);
    }
    r
}

impl FieldElement {
    /// The lowercase hexadecimal form of this element's canonical bytes.
    pub fn to_hex(&self) -> (r: String)
        ensures
            r@ == spec_hex_of(self.bytes@),
    {
        let mut out = String::new();
        let n = self.bytes.len();
        let mut i: usize = 0;
        while i < n
            invariant
                i <= n,
                n == self.bytes@.len(),
                out@ == spec_hex_of(self.bytes@.take(i as int)),
            decreases n - i,
        {
            let b = self.bytes[i];
            out.append(hex_digit_str(b / 16));
            out.append(hex_digit_str(b % 16));
            proof {
                assert(self.bytes@.take(i as int + 1).drop_last() =~= self.bytes@.take(i as int));
                assert(self.bytes@.take(i as int + 1).last() == self.bytes@[i as int]);
                assert(out@ =~= spec_hex_of(self.bytes@.take(i as int + 1)));
            }
            i = i + 1;
        }
        proof {
            assert(self.bytes@.take(n as int) =~= self.bytes@);
        }
        out
    }
}

} // verus!
