//! Visiting a BCS-serialized Move value by its layout, with a visitor that
//! builds a value from it. Drivers expose the vectors and structs being
//! visited, and let the visitor go on into their elements and fields or skip
//! them; whatever the visitor does, a visit consumes exactly one encoded value.
use vstd::prelude::*;
use vstd::std_specs::convert::FromSpec;
use vstd::slice::slice_subrange;
use leb128::read::Error as Leb128Error;

use crate::base_types::IotaAddress;
use crate::move_types::StructTag;

verus! {

/// A 256-bit unsigned integer, as its 32 little-endian bytes.
#[derive(Clone, Copy, Debug, PartialEq, Eq)]
pub struct U256(pub [u8; 32]);

impl U256 {
    /// The integer with these little-endian bytes.
    pub fn from_le_bytes(bytes: &[u8; 32]) -> (r: U256)
        ensures
            r.0 == *bytes,
    {
        U256(*bytes)
    }
}

/// The layout of a Move value: how it is serialized.
#[derive(Debug, PartialEq, Eq)]
pub enum MoveTypeLayout {
    Bool,
    U8,
    U64,
    U128,
    Address,
    Vector(Box<MoveTypeLayout>),
    Struct(Box<MoveStructLayout>),
    Signer,
    U16,
    U32,
    U256,
}

/// The layout of a Move struct: its type and its fields in order.
#[derive(Debug, PartialEq, Eq)]
pub struct MoveStructLayout {
    pub type_: StructTag,
    pub fields: Vec<MoveFieldLayout>,
}

/// A field of a struct: its name and layout.
#[derive(Debug, PartialEq, Eq)]
pub struct MoveFieldLayout {
    pub name: String,
    pub layout: MoveTypeLayout,
}

/// Errors of the traversal itself.
#[derive(Clone, Copy, Debug, PartialEq, Eq)]
pub enum Error {
    /// The input ended inside a value.
    UnexpectedEof,
    /// A byte that no value of the layout can hold there.
    UnexpectedByte(u8),
    /// Bytes are left over after the value.
    TrailingBytes(usize),
}

/// The traversal that does nothing: visiting with it only skips values.
pub struct NullTraversal;

/// The error of the `leb128` crate.
#[verifier::external_type_specification]
#[verifier::external_body]
pub struct ExLeb128ReadError(Leb128Error);

/// Reading LEB128 from byte `i` on, with `acc` holding the bits read so far
/// and `shift` the place of the next seven: the number and the count of bytes
/// read, or `None` when the input ends first or the tenth byte carries more
/// than the 64th bit.
pub open spec fn uleb128_read_from(bytes: Seq<u8>, i: nat, shift: nat, acc: nat) -> Option<(nat, nat)>
    decreases bytes.len() - i,
{
    if i >= bytes.len() {
        None
    } else {
        let b = bytes[i as int];
        if shift == 63 && b != 0 && b != 1 {
            None
        } else {
            let acc2 = acc + (b % 128) as nat * vstd::arithmetic::power2::pow2(shift);
            if b < 128 {
                Some((acc2, (i + 1) as nat))
            } else {
                uleb128_read_from(bytes, (i + 1) as nat, shift + 7, acc2)
            }
        }
    }
}

/// What `leb128::read::unsigned` reads from the front of `bytes`: the number
/// and how many bytes it takes; `None` when it fails (the input ends inside
/// the number, or the number exceeds 64 bits).
#[verifier::opaque]
pub open spec fn uleb128_decode(bytes: Seq<u8>) -> Option<(u64, nat)> {
    match uleb128_read_from(bytes, 0, 0, 0) {
        Some((v, k)) => Some((v as u64, k)),
        None => None,
    }
}

/// Reads an unsigned LEB128 number from the front of `bytes` with
/// `leb128::read::unsigned`, which reads the slice byte by byte, seven bits
/// per byte, least significant first, until a byte without its high bit. The
/// contract gives the number and the count of bytes read as `uleb128_decode`
/// states them, and that on success exactly those bytes, at least one, are
/// consumed from the front. What is left of the slice after an error is not
/// stated.
#[verifier::external_body]
fn read_uleb128(bytes: &mut &[u8]) -> (r: Result<u64, Leb128Error>)
    ensures
        r is Ok <==> uleb128_decode(old(bytes)@) is Some,
        r matches Ok(v) ==> ({
            let (n, k) = uleb128_decode(old(bytes)@).unwrap();
            &&& v == n
            &&& 1 <= k <= old(bytes)@.len()
            &&& final(bytes)@ == old(bytes)@.skip(k as int)
        }),
{
    leb128::read::unsigned(bytes)
}

/// The number of bytes a fixed-size layout takes; 0 for vectors and structs.
pub open spec fn fixed_size(layout: MoveTypeLayout) -> nat {
    match layout {
        MoveTypeLayout::Bool => 1,
        MoveTypeLayout::U8 => 1,
        MoveTypeLayout::U16 => 2,
        MoveTypeLayout::U32 => 4,
        MoveTypeLayout::U64 => 8,
        MoveTypeLayout::U128 => 16,
        MoveTypeLayout::U256 => 32,
        MoveTypeLayout::Address => 32,
        MoveTypeLayout::Signer => 32,
        _ => 0,
    }
}

/// The length of the encoding of a value of `layout` at the front of
/// `bytes`, or the error a traversal meets: booleans are one byte, 0 or 1;
/// integers and addresses are their fixed number of bytes; a vector is its
/// LEB128 length followed by its elements; a struct is its fields in order.
pub open spec fn value_len(layout: MoveTypeLayout, bytes: Seq<u8>) -> Result<nat, Error>
    decreases layout, 0nat,
{
    match layout {
        MoveTypeLayout::Bool => if bytes.len() < 1 {
            Err(Error::UnexpectedEof)
        } else if bytes[0] == 0 || bytes[0] == 1 {
            Ok(1)
        } else {
            Err(Error::UnexpectedByte(bytes[0]))
        },
        MoveTypeLayout::Vector(l) => match uleb128_decode(bytes) {
            None => Err(Error::UnexpectedEof),
            Some((n, k)) => if k > bytes.len() {
                Err(Error::UnexpectedEof)
            } else {
                match elems_len(*l, n as nat, bytes.skip(k as int)) {
                    Ok(m) => Ok(k + m),
                    Err(e) => Err(e),
                }
            },
        },
        MoveTypeLayout::Struct(s) => fields_len(s.fields@, bytes),
        _ => if bytes.len() < fixed_size(layout) {
            Err(Error::UnexpectedEof)
        } else {
            Ok(fixed_size(layout))
        },
    }
}

/// The length of the encodings of `n` values of `layout`, one after the other.
pub open spec fn elems_len(layout: MoveTypeLayout, n: nat, bytes: Seq<u8>) -> Result<nat, Error>
    decreases layout, n,
{
    if n == 0 {
        Ok(0)
    } else {
        match value_len(layout, bytes) {
            Ok(k) => match elems_len(layout, (n - 1) as nat, bytes.skip(k as int)) {
                Ok(m) => Ok(k + m),
                Err(e) => Err(e),
            },
            Err(e) => Err(e),
        }
    }
}

/// The length of the encodings of the fields, one after the other.
pub open spec fn fields_len(fields: Seq<MoveFieldLayout>, bytes: Seq<u8>) -> Result<nat, Error>
    decreases fields, 0nat,
{
    if fields.len() == 0 {
        Ok(0)
    } else {
        match value_len(fields[0].layout, bytes) {
            Ok(k) => match fields_len(fields.drop_first(), bytes.skip(k as int)) {
                Ok(m) => Ok(k + m),
                Err(e) => Err(e),
            },
            Err(e) => Err(e),
        }
    }
}

/// An encoding fits in the bytes it is read from.
pub proof fn lemma_value_len_bound(layout: MoveTypeLayout, bytes: Seq<u8>)
    ensures
        value_len(layout, bytes) matches Ok(k) ==> k <= bytes.len(),
    decreases layout, 0nat,
{
    match layout {
        MoveTypeLayout::Vector(l) => {
            if let Some((n, k)) = uleb128_decode(bytes) {
                lemma_elems_len_bound(*l, n as nat, bytes.skip(k as int));
            }
        },
        MoveTypeLayout::Struct(s) => {
            lemma_fields_len_bound(s.fields@, bytes);
        },
        _ => {},
    }
}

proof fn lemma_elems_len_bound(layout: MoveTypeLayout, n: nat, bytes: Seq<u8>)
    ensures
        elems_len(layout, n, bytes) matches Ok(k) ==> k <= bytes.len(),
    decreases layout, n,
{
    if n > 0 {
        lemma_value_len_bound(layout, bytes);
        if let Ok(k) = value_len(layout, bytes) {
            lemma_elems_len_bound(layout, (n - 1) as nat, bytes.skip(k as int));
        }
    }
}

proof fn lemma_fields_len_bound(fields: Seq<MoveFieldLayout>, bytes: Seq<u8>)
    ensures
        fields_len(fields, bytes) matches Ok(k) ==> k <= bytes.len(),
    decreases fields, 0nat,
{
    if fields.len() > 0 {
        lemma_value_len_bound(fields[0].layout, bytes);
        if let Ok(k) = value_len(fields[0].layout, bytes) {
            lemma_fields_len_bound(fields.drop_first(), bytes.skip(k as int));
        }
    }
}

/// A failure of reading the encoding itself: the input ended, or a byte was
/// out of place. Trailing bytes are never such a failure.
pub open spec fn is_decoding_error(e: Error) -> bool {
    e is UnexpectedEof || e is UnexpectedByte
}

/// Reading the encoding of a value fails only where the input ends or a byte
/// is out of place, never on bytes left after it.
pub proof fn lemma_value_len_errors(layout: MoveTypeLayout, bytes: Seq<u8>)
    ensures
        value_len(layout, bytes) matches Err(e) ==> is_decoding_error(e),
    decreases layout, 0nat,
{
    match layout {
        MoveTypeLayout::Vector(l) => {
            if let Some((n, k)) = uleb128_decode(bytes) {
                lemma_elems_len_errors(*l, n as nat, bytes.skip(k as int));
            }
        },
        MoveTypeLayout::Struct(s) => {
            lemma_fields_len_errors(s.fields@, bytes);
        },
        _ => {},
    }
}

proof fn lemma_elems_len_errors(layout: MoveTypeLayout, n: nat, bytes: Seq<u8>)
    ensures
        elems_len(layout, n, bytes) matches Err(e) ==> is_decoding_error(e),
    decreases layout, n,
{
    if n > 0 {
        lemma_value_len_errors(layout, bytes);
        if let Ok(k) = value_len(layout, bytes) {
            lemma_elems_len_errors(layout, (n - 1) as nat, bytes.skip(k as int));
        }
    }
}

proof fn lemma_fields_len_errors(fields: Seq<MoveFieldLayout>, bytes: Seq<u8>)
    ensures
        fields_len(fields, bytes) matches Err(e) ==> is_decoding_error(e),
    decreases fields, 0nat,
{
    if fields.len() > 0 {
        lemma_value_len_errors(fields[0].layout, bytes);
        if let Ok(k) = value_len(fields[0].layout, bytes) {
            lemma_fields_len_errors(fields.drop_first(), bytes.skip(k as int));
        }
    }
}

/// One more element after `n` elements: its encoding follows theirs.
proof fn lemma_elems_len_step(layout: MoveTypeLayout, n: nat, bytes: Seq<u8>, k: nat)
    requires
        elems_len(layout, n, bytes) == Ok::<nat, Error>(k),
    ensures
        elems_len(layout, n + 1, bytes) == match value_len(layout, bytes.skip(k as int)) {
            Ok(j) => Ok::<nat, Error>(k + j),
            Err(e) => Err(e),
        },
    decreases n,
{
    lemma_elems_len_bound(layout, n, bytes);
    if n > 0 {
        let k0 = value_len(layout, bytes)->Ok_0;
        lemma_value_len_bound(layout, bytes);
        let rest = bytes.skip(k0 as int);
        assert(rest.skip((k - k0) as int) =~= bytes.skip(k as int));
        lemma_elems_len_step(layout, (n - 1) as nat, rest, (k - k0) as nat);
    } else {
        assert(bytes.skip(0) =~= bytes);
        if let Ok(j) = value_len(layout, bytes) {
            assert(elems_len(layout, 0, bytes.skip(j as int)) == Ok::<nat, Error>(0));
        }
    }
}

/// A failure among the first `m` elements is the failure of any longer run.
proof fn lemma_elems_len_err(layout: MoveTypeLayout, m: nat, n: nat, bytes: Seq<u8>)
    requires
        m <= n,
        elems_len(layout, m, bytes) is Err,
    ensures
        elems_len(layout, n, bytes) == elems_len(layout, m, bytes),
    decreases m,
{
    if let Ok(k) = value_len(layout, bytes) {
        lemma_elems_len_err(layout, (m - 1) as nat, (n - 1) as nat, bytes.skip(k as int));
    }
}

/// One more field after the first `n` fields: its encoding follows theirs.
proof fn lemma_fields_len_step(fields: Seq<MoveFieldLayout>, n: int, bytes: Seq<u8>, k: nat)
    requires
        0 <= n < fields.len(),
        fields_len(fields.take(n), bytes) == Ok::<nat, Error>(k),
    ensures
        fields_len(fields.take(n + 1), bytes) == match value_len(
            fields[n].layout,
            bytes.skip(k as int),
        ) {
            Ok(j) => Ok::<nat, Error>(k + j),
            Err(e) => Err(e),
        },
    decreases n,
{
    lemma_fields_len_bound(fields.take(n), bytes);
    if n > 0 {
        let k0 = value_len(fields[0].layout, bytes)->Ok_0;
        assert(fields.take(n)[0] == fields[0]);
        lemma_value_len_bound(fields[0].layout, bytes);
        let rest = bytes.skip(k0 as int);
        assert(rest.skip((k - k0) as int) =~= bytes.skip(k as int));
        assert(fields.take(n).drop_first() =~= fields.drop_first().take(n - 1));
        assert(fields.take(n + 1).drop_first() =~= fields.drop_first().take(n));
        assert(fields.drop_first()[n - 1] == fields[n]);
        lemma_fields_len_step(fields.drop_first(), n - 1, rest, (k - k0) as nat);
        assert(fields.take(n + 1)[0] == fields[0]);
    } else {
        assert(bytes.skip(0) =~= bytes);
        assert(fields.take(1)[0] == fields[0]);
        assert(fields.take(1).drop_first() =~= Seq::<MoveFieldLayout>::empty());
        if let Ok(j) = value_len(fields[0].layout, bytes) {
            assert(fields_len(Seq::<MoveFieldLayout>::empty(), bytes.skip(j as int)) == Ok::<
                nat,
                Error,
            >(0));
        }
    }
}

/// A failure among the first `m` fields is the failure of the whole struct.
proof fn lemma_fields_len_err(fields: Seq<MoveFieldLayout>, m: int, bytes: Seq<u8>)
    requires
        0 <= m <= fields.len(),
        fields_len(fields.take(m), bytes) is Err,
    ensures
        fields_len(fields, bytes) == fields_len(fields.take(m), bytes),
    decreases m,
{
    assert(fields.take(m)[0] == fields[0]);
    if let Ok(k) = value_len(fields[0].layout, bytes) {
        assert(fields.take(m).drop_first() =~= fields.drop_first().take(m - 1));
        lemma_fields_len_err(fields.drop_first(), m - 1, bytes.skip(k as int));
    }
}

/// The whole of a sequence of fields is its longest prefix.
proof fn lemma_take_all(fields: Seq<MoveFieldLayout>)
    ensures
        fields.take(fields.len() as int) == fields,
{
    assert(fields.take(fields.len() as int) =~= fields);
}

/// Skipping `a` bytes, then `b`, skips `a + b`.
proof fn lemma_skip_skip(s: Seq<u8>, a: int, b: int)
    requires
        0 <= a,
        0 <= b,
        a + b <= s.len(),
    ensures
        s.skip(a).skip(b) == s.skip(a + b),
{
    assert(s.skip(a).skip(b) =~= s.skip(a + b));
}

/// The number with these little-endian bytes.
pub open spec fn le_nat(s: Seq<u8>) -> nat
    decreases s.len(),
{
    if s.len() == 0 {
        0
    } else {
        (s[0] + 256 * le_nat(s.drop_first())) as nat
    }
}

/// `256` to the power `n`.
pub open spec fn pow256(n: nat) -> nat
    decreases n,
{
    if n == 0 {
        1
    } else {
        256 * pow256((n - 1) as nat)
    }
}

/// A number of `n` bytes is below `256` to the power `n`.
proof fn lemma_le_nat_bound(s: Seq<u8>)
    ensures
        le_nat(s) < pow256(s.len()),
    decreases s.len(),
{
    if s.len() > 0 {
        lemma_le_nat_bound(s.drop_first());
        let x = le_nat(s.drop_first());
        let p = pow256(s.drop_first().len());
        assert(s[0] + 256 * x < 256 * p) by (nonlinear_arith)
            requires
                x < p,
                s[0] < 256,
        ;
    }
}

/// The number with the little-endian bytes `bytes` (at most 16 of them).
fn le_u128(bytes: &[u8]) -> (r: u128)
    requires
        bytes@.len() <= 16,
    ensures
        r == le_nat(bytes@),
{
    let n = bytes.len();
    let mut acc: u128 = 0;
    let mut i: usize = n;
    assert(bytes@.skip(n as int) =~= Seq::<u8>::empty());
    while i > 0
        invariant
            i <= n,
            n == bytes@.len(),
            n <= 16,
            acc == le_nat(bytes@.skip(i as int)),
        decreases i,
    {
        let ghost rest = bytes@.skip(i as int);
        assert(bytes@.skip(i - 1).drop_first() =~= rest);
        proof {
            lemma_le_nat_bound(rest);
            lemma_pow256_15(rest.len());
            assert(256 * acc + 255 <= u128::MAX) by (nonlinear_arith)
                requires
                    acc < pow256(rest.len()),
                    pow256(rest.len()) <= pow256(15),
                    pow256(15) == 0x1_0000_0000_0000_0000_0000_0000_0000_00u128,
            ;
        }
        i = i - 1;
        acc = bytes[i] as u128 + 256 * acc;
    }
    assert(bytes@.skip(0) =~= bytes@);
    acc
}

/// Powers of 256 grow, up to the fifteenth.
proof fn lemma_pow256_15(n: nat)
    requires
        n <= 15,
    ensures
        pow256(n) <= pow256(15),
        pow256(15) == 0x1_0000_0000_0000_0000_0000_0000_0000_00u128,
    decreases 15 - n,
{
    reveal_with_fuel(pow256, 16);
    if n < 15 {
        lemma_pow256_15(n + 1);
    }
}

/// Reads the first `N` bytes and consumes them; when fewer are left, fails
/// and consumes all.
fn read_exact<const N: usize>(bytes: &mut &[u8]) -> (r: Result<[u8; N], Error>)
    ensures
        old(bytes)@.len() >= N ==> (r matches Ok(buf) && buf@ == old(bytes)@.take(N as int)
            && final(bytes)@ == old(bytes)@.skip(N as int)),
        old(bytes)@.len() < N ==> r == Err::<[u8; N], Error>(Error::UnexpectedEof),
{
    let b: &[u8] = *bytes;
    if b.len() < N {
        *bytes = slice_subrange(b, b.len(), b.len());
        return Err(Error::UnexpectedEof);
    }
    let mut buf = [0u8; N];
    let mut i: usize = 0;
    while i < N
        invariant
            i <= N,
            N <= b@.len(),
            buf@.len() == N,
            forall|j: int| 0 <= j < i ==> buf@[j] == b@[j],
        decreases N - i,
    {
        buf[i] = b[i];
        i = i + 1;
    }
    let rest = slice_subrange(b, N, b.len());
    assert(buf@ =~= b@.take(N as int));
    assert(rest@ =~= b@.skip(N as int));
    *bytes = rest;
    Ok(buf)
}

/// Skips one encoded value of `layout` (what visiting it with the null
/// traversal does). On failure, gives the error of the encoding.
pub fn skip_value(bytes: &mut &[u8], layout: &MoveTypeLayout) -> (r: Result<(), Error>)
    ensures
        match value_len(*layout, old(bytes)@) {
            Ok(k) => r is Ok && final(bytes)@ == old(bytes)@.skip(k as int),
            Err(e) => r == Err::<(), Error>(e),
        },
        r matches Err(e) ==> is_decoding_error(e),
    decreases *layout, 0nat,
{
    proof {
        lemma_value_len_errors(*layout, old(bytes)@);
    }
    match layout {
        MoveTypeLayout::Bool => match read_exact::<1>(bytes) {
            Ok(b) => {
                if b[0] == 0 || b[0] == 1 {
                    Ok(())
                } else {
                    Err(Error::UnexpectedByte(b[0]))
                }
            },
            Err(e) => Err(e),
        },
        MoveTypeLayout::U8 => match read_exact::<1>(bytes) {
            Ok(_) => Ok(()),
            Err(e) => Err(e),
        },
        MoveTypeLayout::U16 => match read_exact::<2>(bytes) {
            Ok(_) => Ok(()),
            Err(e) => Err(e),
        },
        MoveTypeLayout::U32 => match read_exact::<4>(bytes) {
            Ok(_) => Ok(()),
            Err(e) => Err(e),
        },
        MoveTypeLayout::U64 => match read_exact::<8>(bytes) {
            Ok(_) => Ok(()),
            Err(e) => Err(e),
        },
        MoveTypeLayout::U128 => match read_exact::<16>(bytes) {
            Ok(_) => Ok(()),
            Err(e) => Err(e),
        },
        MoveTypeLayout::U256 | MoveTypeLayout::Address | MoveTypeLayout::Signer => match read_exact::<
            32,
        >(bytes) {
            Ok(_) => Ok(()),
            Err(e) => Err(e),
        },
        MoveTypeLayout::Vector(l) => {
            let len = match read_uleb128(bytes) {
                Ok(n) => n,
                Err(_) => {
                    return Err(Error::UnexpectedEof);
                },
            };
            let ghost start = bytes@;
            let mut driver = VecDriver::new(*bytes, &**l, len);
            assert(decreases_to!(*layout => driver.spec_layout()));
            loop
                invariant
                    driver.wf(),
                    driver.spec_layout() == **l,
                    driver.spec_len() == len,
                    driver.spec_start() == start,
                    decreases_to!(*layout => driver.spec_layout()),
                    *layout == MoveTypeLayout::Vector(*l),
                    uleb128_decode(old(bytes)@) matches Some((n, k)) && n == len && k <= old(
                        bytes,
                    )@.len() && start == old(bytes)@.skip(k as int),
                ensures
                    driver.wf(),
                    driver.spec_start() == start,
                    driver.spec_off() == len,
                decreases driver.spec_len() - driver.spec_off(),
            {
                match driver.skip_element() {
                    Ok(true) => {},
                    Ok(false) => {
                        break ;
                    },
                    Err(e) => {
                        proof {
                            lemma_elems_len_err(
                                **l,
                                (driver.spec_off() + 1) as nat,
                                len as nat,
                                start,
                            );
                            lemma_value_len_errors(*layout, old(bytes)@);
                        }
                        return Err(e);
                    },
                }
            }
            proof {
                let (n, k) = uleb128_decode(old(bytes)@).unwrap();
                let m = elems_len(**l, len as nat, start)->Ok_0;
                lemma_elems_len_bound(**l, len as nat, start);
                lemma_skip_skip(old(bytes)@, k as int, m as int);
            }
            *bytes = driver.bytes;
            Ok(())
        },
        MoveTypeLayout::Struct(s) => skip_struct(bytes, &**s),
    }
}

/// Skips one encoded struct of the layout.
pub fn skip_struct(bytes: &mut &[u8], layout: &MoveStructLayout) -> (r: Result<(), Error>)
    ensures
        match fields_len(layout.fields@, old(bytes)@) {
            Ok(k) => r is Ok && final(bytes)@ == old(bytes)@.skip(k as int),
            Err(e) => r == Err::<(), Error>(e),
        },
    decreases *layout, 2nat,
{
    let mut driver = StructDriver::new(*bytes, layout);
    loop
        invariant
            driver.wf(),
            driver.spec_layout() == *layout,
            driver.spec_start() == old(bytes)@,
        ensures
            driver.wf(),
            driver.spec_layout() == *layout,
            driver.spec_start() == old(bytes)@,
            driver.spec_off() == layout.fields@.len(),
        decreases layout.fields@.len() - driver.spec_off(),
    {
        match driver.skip_field() {
            Ok(Some(_)) => {},
            Ok(None) => {
                break ;
            },
            Err(e) => {
                proof {
                    lemma_fields_len_err(layout.fields@, driver.spec_off() + 1int, old(bytes)@);
                }
                return Err(e);
            },
        }
    }
    proof {
        lemma_take_all(layout.fields@);
    }
    *bytes = driver.bytes;
    Ok(())
}

/// Exposes a vector being visited: the layout of its elements and their
/// number; lets the visitor visit or skip its elements in turn.
pub struct VecDriver<'b, 'l> {
    bytes: &'b [u8],
    layout: &'l MoveTypeLayout,
    len: u64,
    off: u64,
    /// The input at the first element.
    start: Ghost<Seq<u8>>,
}

impl<'b, 'l> VecDriver<'b, 'l> {
    /// The input left after the elements visited.
    pub closed spec fn spec_bytes(&self) -> Seq<u8> {
        self.bytes@
    }

    /// The layout of the elements.
    pub closed spec fn spec_layout(&self) -> MoveTypeLayout {
        *self.layout
    }

    /// The number of elements.
    pub closed spec fn spec_len(&self) -> u64 {
        self.len
    }

    /// The number of elements visited or skipped.
    pub closed spec fn spec_off(&self) -> u64 {
        self.off
    }

    /// The input at the first element.
    pub closed spec fn spec_start(&self) -> Seq<u8> {
        self.start@
    }

    /// The elements visited so far are well encoded, and the input left
    /// starts after them.
    pub open spec fn wf(&self) -> bool {
        &&& self.spec_off() <= self.spec_len()
        &&& elems_len(self.spec_layout(), self.spec_off() as nat, self.spec_start()) matches Ok(k)
        &&& self.spec_bytes() == self.spec_start().skip(k as int)
    }

    /// The same vector: layout, number of elements and start unchanged.
    pub open spec fn same_vector(&self, other: Self) -> bool {
        &&& self.spec_layout() == other.spec_layout()
        &&& self.spec_len() == other.spec_len()
        &&& self.spec_start() == other.spec_start()
    }

    fn new(bytes: &'b [u8], layout: &'l MoveTypeLayout, len: u64) -> (r: Self)
        ensures
            r.wf(),
            r.spec_layout() == *layout,
            r.spec_len() == len,
            r.spec_off() == 0,
            r.spec_start() == bytes@,
    {
        let r = VecDriver { bytes, layout, len, off: 0, start: Ghost(bytes@) };
        assert(bytes@.skip(0) =~= bytes@);
        r
    }

    /// The layout of the elements.
    pub fn element_layout(&self) -> (r: &'l MoveTypeLayout)
        ensures
            *r == self.spec_layout(),
    {
        self.layout
    }

    /// The number of elements of the vector.
    pub fn len(&self) -> (r: u64)
        ensures
            r == self.spec_len(),
    {
        self.len
    }

    /// Whether elements are left to visit.
    pub fn has_element(&self) -> (r: bool)
        ensures
            r == (self.spec_off() < self.spec_len()),
    {
        self.off < self.len
    }

    /// Visits the next element with the visitor: `None` when none is left.
    pub fn next_element<V: Visitor>(&mut self, visitor: &mut V) -> (r: Result<
        Option<V::Value>,
        V::Error,
    >)
        requires
            old(self).wf(),
        ensures
            final(self).wf(),
            final(self).same_vector(*old(self)),
            match r {
                Ok(None) => old(self).spec_off() >= old(self).spec_len() && final(self).spec_off()
                    == old(self).spec_off(),
                Ok(Some(_)) => old(self).spec_off() < old(self).spec_len() && final(self).spec_off()
                    == old(self).spec_off() + 1,
                Err(_) => final(self).spec_off() == old(self).spec_off(),
            },
            old(self).spec_off() >= old(self).spec_len() ==> (r matches Ok(None)),
            old(self).spec_off() >= old(self).spec_len() ==> *final(visitor) == *old(visitor),
            r matches Ok(Some(v)) ==> visited(
                *old(visitor),
                old(self).spec_layout(),
                old(self).spec_bytes(),
                Ok::<V::Value, V::Error>(v),
            ),
            r matches Err(e) ==> old(self).spec_off() < old(self).spec_len() && visited(
                *old(visitor),
                old(self).spec_layout(),
                old(self).spec_bytes(),
                Err::<V::Value, V::Error>(e),
            ),
            old(visitor).infallible() ==> final(visitor).infallible() && (old(self).spec_off()
                < old(self).spec_len() ==> (r matches Ok(Some(_)) <==> elems_len(
                old(self).spec_layout(),
                (old(self).spec_off() + 1) as nat,
                old(self).spec_start(),
            ) is Ok)),
    {
        if self.off >= self.len {
            return Ok(None);
        }
        let mut b: &'b [u8] = self.bytes;
        proof {
            let k = elems_len(*self.layout, self.off as nat, self.start@)->Ok_0;
            lemma_elems_len_step(*self.layout, self.off as nat, self.start@, k);
        }
        let res = match visit_value(&mut b, self.layout, visitor) {
            Ok(v) => v,
            Err(e) => {
                return Err(e);
            },
        };
        proof {
            let k = elems_len(*self.layout, self.off as nat, self.start@)->Ok_0;
            lemma_elems_len_step(*self.layout, self.off as nat, self.start@, k);
            lemma_elems_len_bound(*self.layout, self.off as nat, self.start@);
            let j = value_len(*self.layout, self.bytes@)->Ok_0;
            lemma_value_len_bound(*self.layout, self.bytes@);
            lemma_skip_skip(self.start@, k as int, j as int);
        }
        self.bytes = b;
        self.off = self.off + 1;
        Ok(Some(res))
    }

    /// Skips the next element: whether there was one.
    pub fn skip_element(&mut self) -> (r: Result<bool, Error>)
        requires
            old(self).wf(),
        ensures
            final(self).wf(),
            final(self).same_vector(*old(self)),
            match r {
                Ok(false) => old(self).spec_off() >= old(self).spec_len() && final(self).spec_off()
                    == old(self).spec_off(),
                Ok(true) => old(self).spec_off() < old(self).spec_len() && final(self).spec_off()
                    == old(self).spec_off() + 1,
                Err(e) => old(self).spec_off() < old(self).spec_len() && final(self).spec_off()
                    == old(self).spec_off() && elems_len(
                    old(self).spec_layout(),
                    (old(self).spec_off() + 1) as nat,
                    old(self).spec_start(),
                ) == Err::<nat, Error>(e),
            },
        decreases old(self).spec_layout(), 1nat,
    {
        if self.off >= self.len {
            return Ok(false);
        }
        let mut b: &'b [u8] = self.bytes;
        proof {
            let k = elems_len(*self.layout, self.off as nat, self.start@)->Ok_0;
            lemma_elems_len_step(*self.layout, self.off as nat, self.start@, k);
            lemma_elems_len_bound(*self.layout, self.off as nat, self.start@);
        }
        match skip_value(&mut b, self.layout) {
            Ok(()) => {},
            Err(e) => {
                return Err(e);
            },
        }
        proof {
            let k = elems_len(*self.layout, self.off as nat, self.start@)->Ok_0;
            let j = value_len(*self.layout, self.bytes@)->Ok_0;
            lemma_value_len_bound(*self.layout, self.bytes@);
            lemma_skip_skip(self.start@, k as int, j as int);
        }
        self.bytes = b;
        self.off = self.off + 1;
        Ok(true)
    }
}

/// Exposes a struct being visited: its layout and the next field; lets the
/// visitor visit or skip its fields in turn.
pub struct StructDriver<'b, 'l> {
    bytes: &'b [u8],
    layout: &'l MoveStructLayout,
    off: usize,
    /// The input at the first field.
    start: Ghost<Seq<u8>>,
}

impl<'b, 'l> StructDriver<'b, 'l> {
    /// The input left after the fields visited.
    pub closed spec fn spec_bytes(&self) -> Seq<u8> {
        self.bytes@
    }

    /// The layout of the struct.
    pub closed spec fn spec_layout(&self) -> MoveStructLayout {
        *self.layout
    }

    /// The number of fields visited or skipped.
    pub closed spec fn spec_off(&self) -> nat {
        self.off as nat
    }

    /// The input at the first field.
    pub closed spec fn spec_start(&self) -> Seq<u8> {
        self.start@
    }

    /// The fields visited so far are well encoded, and the input left starts
    /// after them.
    pub open spec fn wf(&self) -> bool {
        &&& self.spec_off() <= self.spec_layout().fields@.len()
        &&& fields_len(self.spec_layout().fields@.take(self.spec_off() as int), self.spec_start())
            matches Ok(k)
        &&& self.spec_bytes() == self.spec_start().skip(k as int)
    }

    /// The same struct: layout and start unchanged.
    pub open spec fn same_struct(&self, other: Self) -> bool {
        &&& self.spec_layout() == other.spec_layout()
        &&& self.spec_start() == other.spec_start()
    }

    fn new(bytes: &'b [u8], layout: &'l MoveStructLayout) -> (r: Self)
        ensures
            r.wf(),
            r.spec_layout() == *layout,
            r.spec_off() == 0,
            r.spec_start() == bytes@,
    {
        let r = StructDriver { bytes, layout, off: 0, start: Ghost(bytes@) };
        assert(bytes@.skip(0) =~= bytes@);
        assert(layout.fields@.take(0) =~= Seq::<MoveFieldLayout>::empty());
        r
    }

    /// The layout of the struct being visited.
    pub fn struct_layout(&self) -> (r: &'l MoveStructLayout)
        ensures
            *r == self.spec_layout(),
    {
        self.layout
    }

    /// The layout of the next field to visit, if any is left.
    pub fn peek_field(&self) -> (r: Option<&'l MoveFieldLayout>)
        ensures
            match r {
                Some(f) => self.spec_off() < self.spec_layout().fields@.len() && *f
                    == self.spec_layout().fields@[self.spec_off() as int],
                None => self.spec_off() >= self.spec_layout().fields@.len(),
            },
    {
        let layout: &'l MoveStructLayout = self.layout;
        if self.off < layout.fields.len() {
            Some(&layout.fields[self.off])
        } else {
            None
        }
    }

    /// Visits the next field with the visitor: the field's layout and the
    /// visitor's value, or `None` when no field is left.
    pub fn next_field<V: Visitor>(&mut self, visitor: &mut V) -> (r: Result<
        Option<(&'l MoveFieldLayout, V::Value)>,
        V::Error,
    >)
        requires
            old(self).wf(),
        ensures
            final(self).wf(),
            final(self).same_struct(*old(self)),
            match r {
                Ok(None) => old(self).spec_off() >= old(self).spec_layout().fields@.len()
                    && final(self).spec_off() == old(self).spec_off(),
                Ok(Some((f, _))) => old(self).spec_off() < old(self).spec_layout().fields@.len()
                    && *f == old(self).spec_layout().fields@[old(self).spec_off() as int]
                    && final(self).spec_off() == old(self).spec_off() + 1,
                Err(_) => final(self).spec_off() == old(self).spec_off(),
            },
            old(self).spec_off() >= old(self).spec_layout().fields@.len() ==> (r matches Ok(None)),
            old(self).spec_off() >= old(self).spec_layout().fields@.len() ==> *final(visitor)
                == *old(visitor),
            r matches Ok(Some((_, v))) ==> visited(
                *old(visitor),
                old(self).spec_layout().fields@[old(self).spec_off() as int].layout,
                old(self).spec_bytes(),
                Ok::<V::Value, V::Error>(v),
            ),
            r matches Err(e) ==> old(self).spec_off() < old(self).spec_layout().fields@.len()
                && visited(
                *old(visitor),
                old(self).spec_layout().fields@[old(self).spec_off() as int].layout,
                old(self).spec_bytes(),
                Err::<V::Value, V::Error>(e),
            ),
            old(visitor).infallible() ==> final(visitor).infallible() && (old(self).spec_off()
                < old(self).spec_layout().fields@.len() ==> (r matches Ok(Some(_)) <==> fields_len(
                old(self).spec_layout().fields@.take(old(self).spec_off() + 1int),
                old(self).spec_start(),
            ) is Ok)),
    {
        let field = match self.peek_field() {
            Some(f) => f,
            None => {
                return Ok(None);
            },
        };
        let mut b: &'b [u8] = self.bytes;
        assert(self.layout.fields@.len() == self.layout.fields.len());
        proof {
            let fs = self.layout.fields@;
            let k = fields_len(fs.take(self.off as int), self.start@)->Ok_0;
            lemma_fields_len_step(fs, self.off as int, self.start@, k);
        }
        let res = match visit_value(&mut b, &field.layout, visitor) {
            Ok(v) => v,
            Err(e) => {
                return Err(e);
            },
        };
        proof {
            let fs = self.layout.fields@;
            let k = fields_len(fs.take(self.off as int), self.start@)->Ok_0;
            lemma_fields_len_step(fs, self.off as int, self.start@, k);
            lemma_fields_len_bound(fs.take(self.off as int), self.start@);
            let j = value_len(fs[self.off as int].layout, self.bytes@)->Ok_0;
            lemma_value_len_bound(fs[self.off as int].layout, self.bytes@);
            lemma_skip_skip(self.start@, k as int, j as int);
        }
        self.bytes = b;
        self.off = self.off + 1;
        Ok(Some((field, res)))
    }

    /// Skips the next field: its layout, or `None` when no field is left.
    pub fn skip_field(&mut self) -> (r: Result<Option<&'l MoveFieldLayout>, Error>)
        requires
            old(self).wf(),
        ensures
            final(self).wf(),
            final(self).same_struct(*old(self)),
            match r {
                Ok(None) => old(self).spec_off() >= old(self).spec_layout().fields@.len()
                    && final(self).spec_off() == old(self).spec_off(),
                Ok(Some(f)) => old(self).spec_off() < old(self).spec_layout().fields@.len() && *f
                    == old(self).spec_layout().fields@[old(self).spec_off() as int]
                    && final(self).spec_off() == old(self).spec_off() + 1,
                Err(e) => old(self).spec_off() < old(self).spec_layout().fields@.len()
                    && final(self).spec_off() == old(self).spec_off() && fields_len(
                    old(self).spec_layout().fields@.take(old(self).spec_off() + 1int),
                    old(self).spec_start(),
                ) == Err::<nat, Error>(e),
            },
            r matches Err(e) ==> is_decoding_error(e),
        decreases old(self).spec_layout(), 1nat,
    {
        let field = match self.peek_field() {
            Some(f) => f,
            None => {
                return Ok(None);
            },
        };
        let mut b: &'b [u8] = self.bytes;
        proof {
            lemma_value_len_errors(field.layout, b@);
        }
        assert(self.layout.fields@.len() == self.layout.fields.len());
        proof {
            let fs = self.layout.fields@;
            let k = fields_len(fs.take(self.off as int), self.start@)->Ok_0;
            lemma_fields_len_step(fs, self.off as int, self.start@, k);
            lemma_fields_len_bound(fs.take(self.off as int), self.start@);
        }
        match skip_value(&mut b, &field.layout) {
            Ok(()) => {},
            Err(e) => {
                return Err(e);
            },
        }
        proof {
            let fs = self.layout.fields@;
            let k = fields_len(fs.take(self.off as int), self.start@)->Ok_0;
            let j = value_len(fs[self.off as int].layout, self.bytes@)->Ok_0;
            lemma_value_len_bound(fs[self.off as int].layout, self.bytes@);
            lemma_skip_skip(self.start@, k as int, j as int);
        }
        self.bytes = b;
        self.off = self.off + 1;
        Ok(Some(field))
    }
}

/// Builds values out of serialized Move values. Implementations progress
/// through vectors and structs only by the driver's methods, which keep the
/// driver on the same value; the contracts of `visit_vector` and
/// `visit_struct` state that, and are believed of every implementation.
pub trait Visitor {
    type Value;

    /// Errors of the visitor, which can hold an error of the traversal.
    type Error: From<Error>;

    /// The visitor never fails: each of its methods returns `Ok`, and leaves
    /// it never failing. No visitor is taken to be so unless its
    /// implementation says it is.
    open spec fn infallible(&self) -> bool {
        false
    }

    /// What visiting a `u8` may give, as an implementation states it
    /// (anything, unless it says more).
    open spec fn visit_u8_post(&self, value: u8, r: Result<Self::Value, Self::Error>) -> bool {
        true
    }

    fn visit_u8(&mut self, value: u8) -> (r: Result<Self::Value, Self::Error>)
        ensures
            old(self).infallible() ==> r is Ok && final(self).infallible(),
            old(self).visit_u8_post(value, r),
    ;

    /// What visiting a `u16` may give, as an implementation states it
    /// (anything, unless it says more).
    open spec fn visit_u16_post(&self, value: u16, r: Result<Self::Value, Self::Error>) -> bool {
        true
    }

    fn visit_u16(&mut self, value: u16) -> (r: Result<Self::Value, Self::Error>)
        ensures
            old(self).infallible() ==> r is Ok && final(self).infallible(),
            old(self).visit_u16_post(value, r),
    ;

    /// What visiting a `u32` may give, as an implementation states it
    /// (anything, unless it says more).
    open spec fn visit_u32_post(&self, value: u32, r: Result<Self::Value, Self::Error>) -> bool {
        true
    }

    fn visit_u32(&mut self, value: u32) -> (r: Result<Self::Value, Self::Error>)
        ensures
            old(self).infallible() ==> r is Ok && final(self).infallible(),
            old(self).visit_u32_post(value, r),
    ;

    /// What visiting a `u64` may give, as an implementation states it
    /// (anything, unless it says more).
    open spec fn visit_u64_post(&self, value: u64, r: Result<Self::Value, Self::Error>) -> bool {
        true
    }

    fn visit_u64(&mut self, value: u64) -> (r: Result<Self::Value, Self::Error>)
        ensures
            old(self).infallible() ==> r is Ok && final(self).infallible(),
            old(self).visit_u64_post(value, r),
    ;

    /// What visiting a `u128` may give, as an implementation states it
    /// (anything, unless it says more).
    open spec fn visit_u128_post(&self, value: u128, r: Result<Self::Value, Self::Error>) -> bool {
        true
    }

    fn visit_u128(&mut self, value: u128) -> (r: Result<Self::Value, Self::Error>)
        ensures
            old(self).infallible() ==> r is Ok && final(self).infallible(),
            old(self).visit_u128_post(value, r),
    ;

    /// What visiting a `U256` may give, as an implementation states it
    /// (anything, unless it says more).
    open spec fn visit_u256_post(&self, value: U256, r: Result<Self::Value, Self::Error>) -> bool {
        true
    }

    fn visit_u256(&mut self, value: U256) -> (r: Result<Self::Value, Self::Error>)
        ensures
            old(self).infallible() ==> r is Ok && final(self).infallible(),
            old(self).visit_u256_post(value, r),
    ;

    /// What visiting a `bool` may give, as an implementation states it
    /// (anything, unless it says more).
    open spec fn visit_bool_post(&self, value: bool, r: Result<Self::Value, Self::Error>) -> bool {
        true
    }

    fn visit_bool(&mut self, value: bool) -> (r: Result<Self::Value, Self::Error>)
        ensures
            old(self).infallible() ==> r is Ok && final(self).infallible(),
            old(self).visit_bool_post(value, r),
    ;

    /// What visiting a `IotaAddress` may give, as an implementation states it
    /// (anything, unless it says more).
    open spec fn visit_address_post(&self, value: IotaAddress, r: Result<Self::Value, Self::Error>) -> bool {
        true
    }

    fn visit_address(&mut self, value: IotaAddress) -> (r: Result<Self::Value, Self::Error>)
        ensures
            old(self).infallible() ==> r is Ok && final(self).infallible(),
            old(self).visit_address_post(value, r),
    ;

    /// What visiting a `IotaAddress` may give, as an implementation states it
    /// (anything, unless it says more).
    open spec fn visit_signer_post(&self, value: IotaAddress, r: Result<Self::Value, Self::Error>) -> bool {
        true
    }

    fn visit_signer(&mut self, value: IotaAddress) -> (r: Result<Self::Value, Self::Error>)
        ensures
            old(self).infallible() ==> r is Ok && final(self).infallible(),
            old(self).visit_signer_post(value, r),
    ;

    /// What visiting a vector of `len` elements of `layout`, encoded from
    /// the front of `bytes`, may give, as an implementation states it
    /// (anything, unless it says more).
    open spec fn visit_vector_post(
        &self,
        layout: MoveTypeLayout,
        len: u64,
        bytes: Seq<u8>,
        r: Result<Self::Value, Self::Error>,
    ) -> bool {
        true
    }

    fn visit_vector(&mut self, driver: &mut VecDriver<'_, '_>) -> (r: Result<Self::Value, Self::Error>)
        requires
            old(driver).wf(),
        ensures
            final(driver).wf(),
            final(driver).same_vector(*old(driver)),
            old(self).infallible() ==> r is Ok && final(self).infallible(),
            old(driver).spec_off() == 0 ==> old(self).visit_vector_post(
                old(driver).spec_layout(),
                old(driver).spec_len(),
                old(driver).spec_start(),
                r,
            ),
    ;

    /// What visiting a struct of `layout`, encoded from the front of
    /// `bytes`, may give, as an implementation states it (anything, unless
    /// it says more).
    open spec fn visit_struct_post(
        &self,
        layout: MoveStructLayout,
        bytes: Seq<u8>,
        r: Result<Self::Value, Self::Error>,
    ) -> bool {
        true
    }

    fn visit_struct(&mut self, driver: &mut StructDriver<'_, '_>) -> (r: Result<
        Self::Value,
        Self::Error,
    >)
        requires
            old(driver).wf(),
        ensures
            final(driver).wf(),
            final(driver).same_struct(*old(driver)),
            old(self).infallible() ==> r is Ok && final(self).infallible(),
            old(driver).spec_off() == 0 ==> old(self).visit_struct_post(
                old(driver).spec_layout(),
                old(driver).spec_start(),
                r,
            ),
    ;
}

impl Visitor for NullTraversal {
    type Value = ();

    type Error = Error;

    open spec fn infallible(&self) -> bool {
        true
    }

    open spec fn visit_u8_post(&self, value: u8, r: Result<(), Error>) -> bool {
        r == Ok::<(), Error>(())
    }

    open spec fn visit_u16_post(&self, value: u16, r: Result<(), Error>) -> bool {
        r == Ok::<(), Error>(())
    }

    open spec fn visit_u32_post(&self, value: u32, r: Result<(), Error>) -> bool {
        r == Ok::<(), Error>(())
    }

    open spec fn visit_u64_post(&self, value: u64, r: Result<(), Error>) -> bool {
        r == Ok::<(), Error>(())
    }

    open spec fn visit_u128_post(&self, value: u128, r: Result<(), Error>) -> bool {
        r == Ok::<(), Error>(())
    }

    open spec fn visit_u256_post(&self, value: U256, r: Result<(), Error>) -> bool {
        r == Ok::<(), Error>(())
    }

    open spec fn visit_bool_post(&self, value: bool, r: Result<(), Error>) -> bool {
        r == Ok::<(), Error>(())
    }

    open spec fn visit_address_post(&self, value: IotaAddress, r: Result<(), Error>) -> bool {
        r == Ok::<(), Error>(())
    }

    open spec fn visit_signer_post(&self, value: IotaAddress, r: Result<(), Error>) -> bool {
        r == Ok::<(), Error>(())
    }

    open spec fn visit_vector_post(
        &self,
        layout: MoveTypeLayout,
        len: u64,
        bytes: Seq<u8>,
        r: Result<(), Error>,
    ) -> bool {
        r == Ok::<(), Error>(())
    }

    open spec fn visit_struct_post(
        &self,
        layout: MoveStructLayout,
        bytes: Seq<u8>,
        r: Result<(), Error>,
    ) -> bool {
        r == Ok::<(), Error>(())
    }

    fn visit_u8(&mut self, value: u8) -> (r: Result<(), Error>) {
        Ok(())
    }

    fn visit_u16(&mut self, value: u16) -> (r: Result<(), Error>) {
        Ok(())
    }

    fn visit_u32(&mut self, value: u32) -> (r: Result<(), Error>) {
        Ok(())
    }

    fn visit_u64(&mut self, value: u64) -> (r: Result<(), Error>) {
        Ok(())
    }

    fn visit_u128(&mut self, value: u128) -> (r: Result<(), Error>) {
        Ok(())
    }

    fn visit_u256(&mut self, value: U256) -> (r: Result<(), Error>) {
        Ok(())
    }

    fn visit_bool(&mut self, value: bool) -> (r: Result<(), Error>) {
        Ok(())
    }

    fn visit_address(&mut self, value: IotaAddress) -> (r: Result<(), Error>) {
        Ok(())
    }

    fn visit_signer(&mut self, value: IotaAddress) -> (r: Result<(), Error>) {
        Ok(())
    }

    /// Leaves the elements to be skipped.
    fn visit_vector(&mut self, driver: &mut VecDriver<'_, '_>) -> (r: Result<(), Error>) {
        Ok(())
    }

    /// Leaves the fields to be skipped.
    fn visit_struct(&mut self, driver: &mut StructDriver<'_, '_>) -> (r: Result<(), Error>) {
        Ok(())
    }
}

/// The visit failed on a malformed encoding with the traversal's error `e`,
/// made into the visitor's error type.
pub open spec fn traversal_failed<V: Visitor>(r: Result<V::Value, V::Error>, e: Error) -> bool {
    &&& r is Err
    &&& <V::Error as FromSpec<Error>>::obeys_from_spec() ==> r == Err::<V::Value, V::Error>(
        <V::Error as FromSpec<Error>>::from_spec(e),
    )
}

/// What visiting a struct of `layout` at the front of `bytes` gives: the
/// visitor's result, unless it succeeded on malformed fields, which then
/// fail the visit.
pub open spec fn visited_struct<V: Visitor>(
    visitor: V,
    layout: MoveStructLayout,
    bytes: Seq<u8>,
    r: Result<V::Value, V::Error>,
) -> bool {
    exists|v: Result<V::Value, V::Error>|
        #![trigger visitor.visit_struct_post(layout, bytes, v)]
        visitor.visit_struct_post(layout, bytes, v) && match v {
            Err(_) => r == v,
            Ok(_) => match fields_len(layout.fields@, bytes) {
                Ok(_) => r == v,
                Err(e) => traversal_failed::<V>(r, e),
            },
        }
}

/// The value fails before any of it is handed to the visitor: the input is
/// shorter than a fixed-size value, a boolean byte is neither 0 nor 1, or a
/// vector's length cannot be read.
pub open spec fn header_fails(layout: MoveTypeLayout, bytes: Seq<u8>) -> bool {
    ||| bytes.len() < fixed_size(layout)
    ||| layout is Bool && bytes.len() >= 1 && bytes[0] != 0 && bytes[0] != 1
    ||| layout is Vector && (uleb128_decode(bytes) matches Some((n, k)) ==> k > bytes.len())
}

/// What visiting a value of `layout` at the front of `bytes` gives: a bool,
/// an integer (little-endian) or an address is read and handed to the
/// visitor, whose result it is; a vector (after its LEB128 length) or a
/// struct is handed to the visitor, whose result it is unless it succeeded
/// on malformed elements or fields; an encoding cut short, or a boolean
/// byte other than 0 and 1, fails with the traversal's error.
pub open spec fn visited<V: Visitor>(
    visitor: V,
    layout: MoveTypeLayout,
    bytes: Seq<u8>,
    r: Result<V::Value, V::Error>,
) -> bool {
    if bytes.len() < fixed_size(layout) {
        traversal_failed::<V>(r, Error::UnexpectedEof)
    } else {
        match layout {
            MoveTypeLayout::Bool => if bytes[0] == 0 {
                visitor.visit_bool_post(false, r)
            } else if bytes[0] == 1 {
                visitor.visit_bool_post(true, r)
            } else {
                traversal_failed::<V>(r, Error::UnexpectedByte(bytes[0]))
            },
            MoveTypeLayout::U8 => visitor.visit_u8_post(bytes[0], r),
            MoveTypeLayout::U16 => visitor.visit_u16_post(le_nat(bytes.take(2)) as u16, r),
            MoveTypeLayout::U32 => visitor.visit_u32_post(le_nat(bytes.take(4)) as u32, r),
            MoveTypeLayout::U64 => visitor.visit_u64_post(le_nat(bytes.take(8)) as u64, r),
            MoveTypeLayout::U128 => visitor.visit_u128_post(le_nat(bytes.take(16)) as u128, r),
            MoveTypeLayout::U256 => exists|u: U256|
                u.0@ == bytes.take(32) && #[trigger] visitor.visit_u256_post(u, r),
            MoveTypeLayout::Address => exists|a: IotaAddress|
                a.0@ == bytes.take(32) && #[trigger] visitor.visit_address_post(a, r),
            MoveTypeLayout::Signer => exists|a: IotaAddress|
                a.0@ == bytes.take(32) && #[trigger] visitor.visit_signer_post(a, r),
            MoveTypeLayout::Vector(l) => match uleb128_decode(bytes) {
                None => traversal_failed::<V>(r, Error::UnexpectedEof),
                Some((n, k)) => if k > bytes.len() {
                    traversal_failed::<V>(r, Error::UnexpectedEof)
                } else {
                    exists|v: Result<V::Value, V::Error>|
                        #![trigger visitor.visit_vector_post(*l, n, bytes.skip(k as int), v)]
                        visitor.visit_vector_post(*l, n, bytes.skip(k as int), v) && match v {
                            Err(_) => r == v,
                            Ok(_) => match elems_len(*l, n as nat, bytes.skip(k as int)) {
                                Ok(_) => r == v,
                                Err(e) => traversal_failed::<V>(r, e),
                            },
                        }
                },
            },
            MoveTypeLayout::Struct(st) => visited_struct(visitor, *st, bytes, r),
        }
    }
}

/// Visits a serialized Move value of `layout` held at the front of `bytes`,
/// building a value with the visitor. When it succeeds, the input was a well
/// encoded value and exactly its bytes were consumed, whatever the visitor
/// looked at; a malformed value always fails.
pub fn visit_value<V: Visitor>(bytes: &mut &[u8], layout: &MoveTypeLayout, visitor: &mut V) -> (r:
    Result<V::Value, V::Error>)
    ensures
        r is Ok ==> (value_len(*layout, old(bytes)@) matches Ok(k) && final(bytes)@ == old(
            bytes,
        )@.skip(k as int)),
        old(visitor).infallible() ==> (r is Ok <==> value_len(*layout, old(bytes)@) is Ok)
            && final(visitor).infallible(),
        visited(*old(visitor), *layout, old(bytes)@, r),
        header_fails(*layout, old(bytes)@) ==> *final(visitor) == *old(visitor),
{
    match layout {
        MoveTypeLayout::Bool => match read_exact::<1>(bytes) {
            Ok(b) => {
                if b[0] == 0 {
                    visitor.visit_bool(false)
                } else if b[0] == 1 {
                    visitor.visit_bool(true)
                } else {
                    Err(V::Error::from(Error::UnexpectedByte(b[0])))
                }
            },
            Err(e) => Err(V::Error::from(e)),
        },
        MoveTypeLayout::U8 => match read_exact::<1>(bytes) {
            Ok(b) => visitor.visit_u8(b[0]),
            Err(e) => Err(V::Error::from(e)),
        },
        MoveTypeLayout::U16 => match read_exact::<2>(bytes) {
            Ok(b) => {
                let v = le_u128(b.as_slice());
                proof {
                    lemma_le_nat_bound(b@);
                    reveal_with_fuel(pow256, 3);
                }
                visitor.visit_u16(v as u16)
            },
            Err(e) => Err(V::Error::from(e)),
        },
        MoveTypeLayout::U32 => match read_exact::<4>(bytes) {
            Ok(b) => {
                let v = le_u128(b.as_slice());
                proof {
                    lemma_le_nat_bound(b@);
                    reveal_with_fuel(pow256, 5);
                }
                visitor.visit_u32(v as u32)
            },
            Err(e) => Err(V::Error::from(e)),
        },
        MoveTypeLayout::U64 => match read_exact::<8>(bytes) {
            Ok(b) => {
                let v = le_u128(b.as_slice());
                proof {
                    lemma_le_nat_bound(b@);
                    reveal_with_fuel(pow256, 9);
                }
                visitor.visit_u64(v as u64)
            },
            Err(e) => Err(V::Error::from(e)),
        },
        MoveTypeLayout::U128 => match read_exact::<16>(bytes) {
            Ok(b) => visitor.visit_u128(le_u128(b.as_slice())),
            Err(e) => Err(V::Error::from(e)),
        },
        MoveTypeLayout::U256 => match read_exact::<32>(bytes) {
            Ok(b) => visitor.visit_u256(U256::from_le_bytes(&b)),
            Err(e) => Err(V::Error::from(e)),
        },
        MoveTypeLayout::Address => match read_exact::<32>(bytes) {
            Ok(b) => visitor.visit_address(IotaAddress(b)),
            Err(e) => Err(V::Error::from(e)),
        },
        MoveTypeLayout::Signer => match read_exact::<32>(bytes) {
            Ok(b) => visitor.visit_signer(IotaAddress(b)),
            Err(e) => Err(V::Error::from(e)),
        },
        MoveTypeLayout::Vector(l) => {
            let len = match read_uleb128(bytes) {
                Ok(n) => n,
                Err(_) => {
                    return Err(V::Error::from(Error::UnexpectedEof));
                },
            };
            let ghost start = bytes@;
            let mut driver = VecDriver::new(*bytes, &**l, len);
            assert(decreases_to!(*layout => driver.spec_layout()));
            let res = visitor.visit_vector(&mut driver)?;
            loop
                invariant
                    driver.wf(),
                    driver.spec_layout() == **l,
                    driver.spec_len() == len,
                    driver.spec_start() == start,
                    decreases_to!(*layout => driver.spec_layout()),
                    *layout == MoveTypeLayout::Vector(*l),
                    uleb128_decode(old(bytes)@) matches Some((n, k)) && n == len && k <= old(
                        bytes,
                    )@.len() && start == old(bytes)@.skip(k as int),
                    old(visitor).infallible() ==> visitor.infallible(),
                    old(visitor).visit_vector_post(**l, len, start, Ok::<V::Value, V::Error>(res)),
                ensures
                    driver.wf(),
                    driver.spec_start() == start,
                    driver.spec_off() == len,
                decreases driver.spec_len() - driver.spec_off(),
            {
                match driver.skip_element() {
                    Ok(true) => {},
                    Ok(false) => {
                        break ;
                    },
                    Err(e) => {
                        proof {
                            lemma_elems_len_err(
                                **l,
                                (driver.spec_off() + 1) as nat,
                                len as nat,
                                start,
                            );
                        }
                        return Err(V::Error::from(e));
                    },
                }
            }
            proof {
                let (n, k) = uleb128_decode(old(bytes)@).unwrap();
                let m = elems_len(**l, len as nat, start)->Ok_0;
                lemma_elems_len_bound(**l, len as nat, start);
                lemma_skip_skip(old(bytes)@, k as int, m as int);
            }
            *bytes = driver.bytes;
            Ok(res)
        },
        MoveTypeLayout::Struct(l) => visit_struct(bytes, &**l, visitor),
    }
}

/// Like `visit_value`, for a value known to be a struct of the layout.
pub fn visit_struct<V: Visitor>(
    bytes: &mut &[u8],
    layout: &MoveStructLayout,
    visitor: &mut V,
) -> (r: Result<V::Value, V::Error>)
    ensures
        r is Ok ==> (fields_len(layout.fields@, old(bytes)@) matches Ok(k) && final(bytes)@ == old(
            bytes,
        )@.skip(k as int)),
        old(visitor).infallible() ==> (r is Ok <==> fields_len(layout.fields@, old(bytes)@) is Ok)
            && final(visitor).infallible(),
        visited_struct(*old(visitor), *layout, old(bytes)@, r),
{
    let mut driver = StructDriver::new(*bytes, layout);
    let res = visitor.visit_struct(&mut driver)?;
    loop
        invariant
            driver.wf(),
            driver.spec_layout() == *layout,
            driver.spec_start() == old(bytes)@,
            old(visitor).infallible() ==> visitor.infallible(),
            old(visitor).visit_struct_post(*layout, old(bytes)@, Ok::<V::Value, V::Error>(res)),
        ensures
            driver.wf(),
            driver.spec_layout() == *layout,
            driver.spec_start() == old(bytes)@,
            driver.spec_off() == layout.fields@.len(),
        decreases layout.fields@.len() - driver.spec_off(),
    {
        match driver.skip_field() {
            Ok(Some(_)) => {},
            Ok(None) => {
                break ;
            },
            Err(e) => {
                proof {
                    lemma_fields_len_err(layout.fields@, driver.spec_off() + 1int, old(bytes)@);
                }
                return Err(V::Error::from(e));
            },
        }
    }
    proof {
        lemma_take_all(layout.fields@);
    }
    *bytes = driver.bytes;
    Ok(res)
}

} // verus!
