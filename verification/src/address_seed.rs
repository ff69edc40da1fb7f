//! The address seed of a zkLogin account: a 32-byte big-endian integer,
//! written in decimal.
use vstd::prelude::*;
use vstd::slice::slice_subrange;

verus! {

/// The error of `num_bigint` when a string is not a number.
#[verifier::external_type_specification]
#[verifier::external_body]
pub struct ExParseBigIntError(num_bigint::ParseBigIntError);

/// The minimal big-endian bytes of the number that the decimal string `s`
/// denotes, when `s` denotes one (as `num_bigint` parses it).
pub uninterp spec fn decimal_be_bytes(s: Seq<char>) -> Option<Seq<u8>>;

/// The decimal digits of the number whose big-endian bytes are `b` (as
/// `num_bigint` prints it).
pub uninterp spec fn decimal_of_be_bytes(b: Seq<u8>) -> Seq<char>;

/// A decimal number written as `to_str_radix(10)` writes it: digits only,
/// and no leading zero but in "0" itself.
pub open spec fn canonical_decimal(s: Seq<char>) -> bool {
    &&& s.len() >= 1
    &&& forall|i: int| 0 <= i < s.len() ==> '0' <= #[trigger] s[i] <= '9'
    &&& (s.len() == 1 || s[0] != '0')
}

/// The shortest big-endian bytes of the number with bytes `b`: without
/// leading zero bytes, and a single zero byte for zero.
pub open spec fn minimal_be(b: Seq<u8>) -> Seq<u8> {
    if leading_zeros(b) == b.len() {
        seq![0u8]
    } else {
        b.skip(leading_zeros(b))
    }
}

/// Parses `s` as a decimal number with `num_bigint::BigUint::from_str_radix`
/// (radix 10) and gives its big-endian bytes (`BigUint::to_bytes_be`): `Ok`
/// exactly when the name is defined. The bytes are the shortest ones (as
/// `to_bytes_be` gives them), and a number written as `to_str_radix` writes
/// it is written back the same by `decimal_of_be_bytes`.
#[verifier::external_body]
fn parse_decimal_be_bytes(s: &str) -> (r: Result<Vec<u8>, num_bigint::ParseBigIntError>)
    ensures
        r is Ok <==> decimal_be_bytes(s@) is Some,
        r matches Ok(v) ==> decimal_be_bytes(s@) == Some(v@),
        r matches Ok(v) ==> v@ == minimal_be(v@),
        r matches Ok(v) ==> (canonical_decimal(s@) ==> decimal_of_be_bytes(v@) == s@),
{
    match <num_bigint::BigUint as num_traits::Num>::from_str_radix(s, 10) {
        Ok(n) => Ok(n.to_bytes_be()),
        Err(e) => Err(e),
    }
}

/// Prints the number with big-endian bytes `bytes` in decimal, with
/// `num_bigint::BigUint::from_bytes_be` and `to_str_radix(10)`: the text is
/// named by `decimal_of_be_bytes`; leading zero bytes do not change it
/// (`from_bytes_be` reads the same number); it is canonical, and parsing it
/// gives the shortest bytes of the same number.
#[verifier::external_body]
fn be_bytes_to_decimal(bytes: &[u8]) -> (r: String)
    ensures
        r@ == decimal_of_be_bytes(bytes@),
        r@ == decimal_of_be_bytes(minimal_be(bytes@)),
        canonical_decimal(r@),
        decimal_be_bytes(r@) == Some(minimal_be(bytes@)),
{
    num_bigint::BigUint::from_bytes_be(bytes).to_str_radix(10)
}

/// The decimal text of the number whose big-endian bytes are `bytes`
/// (leading zero bytes allowed, as `num_bigint::BigUint::from_bytes_be`
/// reads them): canonical, and it parses back to the number's shortest
/// bytes.
pub fn decimal_of_bytes(bytes: &[u8]) -> (r: String)
    ensures
        r@ == decimal_of_be_bytes(bytes@),
        r@ == decimal_of_be_bytes(minimal_be(bytes@)),
        canonical_decimal(r@),
        decimal_be_bytes(r@) == Some(minimal_be(bytes@)),
{
    be_bytes_to_decimal(bytes)
}

/// The shortest bytes of a number are no longer than any of its byte
/// strings, and are their own shortest bytes.
pub proof fn lemma_minimal_be(b: Seq<u8>)
    requires
        b.len() >= 1,
    ensures
        minimal_be(b).len() <= b.len(),
        minimal_be(minimal_be(b)) == minimal_be(b),
{
    lemma_leading_zeros(b);
    let k = leading_zeros(b);
    if k == b.len() {
        assert(leading_zeros(seq![0u8]) == 1) by {
            assert(seq![0u8].drop_first() =~= Seq::<u8>::empty());
            assert(leading_zeros(Seq::<u8>::empty()) == 0);
        }
    } else {
        let t = b.skip(k);
        assert(t[0] == b[k]);
        assert(leading_zeros(t) == 0);
        assert(t.skip(0) =~= t);
    }
}

/// The decimal text of the big-endian bytes of a number of at most 32 bytes
/// (leading zero bytes included) parses into the seed of that number: its
/// shortest bytes, left-padded with zeros to 32 bytes; and that seed is
/// written as the same text. With `decimal_of_bytes`, `from_decimal_str` and
/// `to_display_string`, this is the round trip from bytes through text to a
/// seed and back to text.
pub proof fn decimal_round_trip_from_bytes(b: Seq<u8>, s: Seq<char>)
    requires
        1 <= b.len() <= 32,
        s == decimal_of_be_bytes(minimal_be(b)),
        decimal_be_bytes(s) == Some(minimal_be(b)),
    ensures
        decimal_be_bytes(s) matches Some(m) && m.len() <= 32 && left_padded(m).len() == 32
            && decimal_of_be_bytes(spec_unpadded(left_padded(m))) == s,
{
    lemma_minimal_be(b);
    let m = minimal_be(b);
    lemma_unpadded_left_padded(m);
}

/// An address seed: 32 bytes, big-endian.
#[derive(Clone, Copy, Debug, PartialEq, Eq)]
pub struct AddressSeed(pub [u8; 32]);

/// Why a string is not an address seed.
#[derive(Debug, PartialEq, Eq)]
pub enum AddressSeedParseError {
    /// Not a decimal number.
    Parse(num_bigint::ParseBigIntError),
    /// The number does not fit in 32 bytes.
    TooBig,
}

/// The position of the first non-zero byte, or the length when all are zero.
pub open spec fn leading_zeros(s: Seq<u8>) -> int
    decreases s.len(),
{
    if s.len() == 0 {
        0
    } else if s[0] != 0 {
        0
    } else {
        1 + leading_zeros(s.drop_first())
    }
}

/// The bytes of a seed without its leading zero bytes; the single last byte
/// when all bytes are zero.
pub open spec fn spec_unpadded(s: Seq<u8>) -> Seq<u8> {
    let k = leading_zeros(s);
    if k == s.len() {
        s.subrange(s.len() - 1, s.len() as int)
    } else {
        s.subrange(k, s.len() as int)
    }
}

/// What `leading_zeros` counts: zero bytes, up to the first non-zero one.
pub proof fn lemma_leading_zeros(s: Seq<u8>)
    ensures
        0 <= leading_zeros(s) <= s.len(),
        forall|j: int| 0 <= j < leading_zeros(s) ==> s[j] == 0,
        leading_zeros(s) < s.len() ==> s[leading_zeros(s)] != 0,
    decreases s.len(),
{
    if s.len() > 0 && s[0] == 0 {
        lemma_leading_zeros(s.drop_first());
        assert forall|j: int| 0 <= j < leading_zeros(s) implies s[j] == 0 by {
            if j > 0 {
                assert(s[j] == s.drop_first()[j - 1]);
            }
        }
    }
}

/// The seed bytes of a parsed number: zeros, then the number's bytes.
pub open spec fn left_padded(b: Seq<u8>) -> Seq<u8> {
    Seq::new((32 - b.len()) as nat, |i: int| 0u8) + b
}

/// The unpadded bytes of a seed are its shortest bytes.
pub proof fn lemma_unpadded_minimal(s: Seq<u8>)
    requires
        s.len() == 32,
    ensures
        spec_unpadded(s) == minimal_be(s),
        minimal_be(spec_unpadded(s)) == spec_unpadded(s),
        spec_unpadded(s).len() <= 32,
{
    lemma_leading_zeros(s);
    let k = leading_zeros(s);
    if k == s.len() {
        assert(s.subrange(31, 32) =~= seq![0u8]);
        assert(leading_zeros(seq![0u8]) == 1) by {
            assert(seq![0u8].drop_first() =~= Seq::<u8>::empty());
            assert(leading_zeros(Seq::<u8>::empty()) == 0);
        }
    } else {
        assert(s.subrange(k, 32) =~= s.skip(k));
        let t = s.skip(k);
        assert(t[0] != 0);
        assert(leading_zeros(t) == 0);
        assert(t.skip(0) =~= t);
    }
}

/// Padding the unpadded bytes of a seed gives the seed.
pub proof fn lemma_left_padded_unpadded(s: Seq<u8>)
    requires
        s.len() == 32,
    ensures
        left_padded(spec_unpadded(s)) == s,
{
    lemma_leading_zeros(s);
    let k = leading_zeros(s);
    let u = spec_unpadded(s);
    assert forall|i: int| 0 <= i < 32 implies #[trigger] left_padded(u)[i] == s[i] by {
        if k == s.len() {
            if i < 31 {
                assert(s[i] == 0);
            }
        } else {
            if i < k {
                assert(s[i] == 0);
            }
        }
    }
    assert(left_padded(u) =~= s);
}

/// The zeros that pad a number's shortest bytes are dropped again.
pub proof fn lemma_unpadded_left_padded(b: Seq<u8>)
    requires
        b.len() <= 32,
        b == minimal_be(b),
    ensures
        spec_unpadded(left_padded(b)) == b,
{
    let p = left_padded(b);
    let z = (32 - b.len()) as int;
    lemma_leading_zeros(b);
    lemma_leading_zeros(p);
    let kb = leading_zeros(b);
    if kb == b.len() {
        assert(b =~= seq![0u8]);
    } else {
        assert(b.skip(kb).len() == b.len() - kb);
        assert(kb == 0) by {
            if kb > 0 {
                assert(b.skip(kb).len() < b.len());
            }
        }
    }
    assert(b[0] != 0 || b =~= seq![0u8]);
    let kp = leading_zeros(p);
    if b[0] != 0 {
        assert(p[z] == b[0]);
        assert forall|j: int| 0 <= j < z implies p[j] == 0 by {}
        assert(kp == z) by {
            if kp < z {
                assert(p[kp] == 0);
            }
            if kp > z {
                assert(p[z] == 0);
            }
        }
        assert(p.subrange(z, 32) =~= b);
    } else {
        assert forall|j: int| 0 <= j < 32 implies p[j] == 0 by {}
        assert(kp == 32) by {
            if kp < 32 {
                assert(p[kp] == 0);
            }
        }
        assert(p.subrange(31, 32) =~= b);
    }
}

impl AddressSeed {
    /// The seed without its leading zero bytes (a single zero byte for zero).
    pub fn unpadded(&self) -> (r: &[u8])
        ensures
            r@ == spec_unpadded(self.0@),
    {
        let buf: &[u8] = self.0.as_slice();
        let mut k: usize = 0;
        proof {
            lemma_leading_zeros(self.0@);
        }
        while k < buf.len() && buf[k] == 0
            invariant
                buf@ == self.0@,
                k <= buf@.len(),
                k <= leading_zeros(self.0@),
                0 <= leading_zeros(self.0@) <= self.0@.len(),
                forall|j: int| 0 <= j < leading_zeros(self.0@) ==> self.0@[j] == 0,
                leading_zeros(self.0@) < self.0@.len() ==> self.0@[leading_zeros(self.0@)] != 0,
            decreases buf@.len() - k,
        {
            k = k + 1;
        }
        if k == buf.len() {
            slice_subrange(buf, 31, 32)
        } else {
            slice_subrange(buf, k, 32)
        }
    }

    /// All 32 bytes of the seed.
    pub fn padded(&self) -> (r: &[u8])
        ensures
            r@ == self.0@,
    {
        self.0.as_slice()
    }

    /// The seed written in decimal. Parsing the text gives the seed back.
    pub fn to_display_string(&self) -> (r: String)
        ensures
            r@ == decimal_of_be_bytes(spec_unpadded(self.0@)),
            canonical_decimal(r@),
            decimal_be_bytes(r@) matches Some(b) && b.len() <= 32 && left_padded(b) == self.0@,
    {
        let r = be_bytes_to_decimal(self.unpadded());
        proof {
            lemma_unpadded_minimal(self.0@);
            lemma_left_padded_unpadded(self.0@);
        }
        r
    }

    /// Parses a decimal number into a seed: the number's big-endian bytes,
    /// left-padded with zeros to 32 bytes.
    pub fn from_decimal_str(s: &str) -> (r: Result<Self, AddressSeedParseError>)
        ensures
            decimal_be_bytes(s@) is None <==> r matches Err(AddressSeedParseError::Parse(_)),
            r matches Err(AddressSeedParseError::TooBig) <==> (decimal_be_bytes(s@) matches Some(
                b,
            ) && b.len() > 32),
            r matches Ok(seed) ==> (decimal_be_bytes(s@) matches Some(b) && b.len() <= 32
                && seed.0@ == left_padded(b)),
            r matches Ok(seed) ==> (canonical_decimal(s@) ==> decimal_of_be_bytes(
                spec_unpadded(seed.0@),
            ) == s@),
    {
        let be_bytes = match parse_decimal_be_bytes(s) {
            Ok(b) => b,
            Err(e) => {
                return Err(AddressSeedParseError::Parse(e));
            },
        };
        let len = be_bytes.len();
        let mut buf = [0u8; 32];
        if len > 32 {
            return Err(AddressSeedParseError::TooBig);
        }
        let start: usize = 32 - len;
        let mut i: usize = 0;
        while i < len
            invariant
                len == be_bytes@.len(),
                len <= 32,
                start == 32 - len,
                i <= len,
                forall|j: int| 0 <= j < start ==> buf@[j] == 0,
                forall|j: int| 0 <= j < i ==> buf@[start + j] == be_bytes@[j],
            decreases len - i,
        {
            buf[start + i] = be_bytes[i];
            i = i + 1;
        }
        let seed = AddressSeed(buf);
        proof {
            assert(seed.0@ =~= left_padded(be_bytes@));
            lemma_unpadded_left_padded(be_bytes@);
        }
        Ok(seed)
    }
}

impl std::str::FromStr for AddressSeed {
    type Err = AddressSeedParseError;

    /// Parses a decimal number into a seed, as `from_decimal_str` does.
    fn from_str(s: &str) -> (r: Result<Self, Self::Err>)
        ensures
            decimal_be_bytes(s@) is None <==> r matches Err(AddressSeedParseError::Parse(_)),
            r matches Err(AddressSeedParseError::TooBig) <==> (decimal_be_bytes(s@) matches Some(
                b,
            ) && b.len() > 32),
            r matches Ok(seed) ==> (decimal_be_bytes(s@) matches Some(b) && b.len() <= 32
                && seed.0@ == left_padded(b)),
            r matches Ok(seed) ==> (canonical_decimal(s@) ==> decimal_of_be_bytes(
                spec_unpadded(seed.0@),
            ) == s@),
    {
        AddressSeed::from_decimal_str(s)
    }
}

} // verus!
