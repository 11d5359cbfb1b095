//! Identities: account addresses and loan identifiers, held as plain bytes.
use vstd::prelude::*;

verus! {

/// Equality that verified code can decide: `same` holds exactly when the
/// two values are equal.
pub trait Key: Sized + Copy {
    fn same(&self, other: &Self) -> (r: bool)
        ensures
            r == (*self == *other),
    ;
}

/// Decides equality of two byte arrays of the same length.
fn bytes_equal<const N: usize>(a: &[u8; N], b: &[u8; N]) -> (r: bool)
    ensures
        r == (*a == *b),
{
    let mut i: usize = 0;
    while i < N
        invariant
            0 <= i <= N,
            forall|j: int| 0 <= j < i ==> a@[j] == b@[j],
        decreases N - i,
    {
        if a[i] != b[i] {
            assert(a@[i as int] != b@[i as int]);
            return false;
        }
        i = i + 1;
    }
    proof {
        assert(a@ =~= b@);
        vstd::array::axiom_array_ext_equal(*a, *b);
    }
    true
}

/// A 20-byte account address.
#[derive(Clone, Copy, Debug, Hash)]
pub struct Address {
    pub bytes: [u8; 20],
}

impl Address {
    pub fn from_bytes(bytes: [u8; 20]) -> (r: Address)
        ensures
            r.bytes == bytes,
    {
        Address { bytes }
    }
}

impl Key for Address {
    fn same(&self, other: &Self) -> (r: bool) {
        bytes_equal(&self.bytes, &other.bytes)
    }
}

impl PartialEq for Address {
    fn eq(&self, other: &Address) -> (r: bool) {
        bytes_equal(&self.bytes, &other.bytes)
    }
}

impl vstd::std_specs::cmp::PartialEqSpecImpl for Address {
    open spec fn obeys_eq_spec() -> bool {
        true
    }

    open spec fn eq_spec(&self, other: &Address) -> bool {
        *self == *other
    }
}

impl Eq for Address {
}

/// A 32-byte loan identifier.
#[derive(Clone, Copy, Debug, Hash)]
pub struct LoanId {
    pub bytes: [u8; 32],
}

impl Key for LoanId {
    fn same(&self, other: &Self) -> (r: bool) {
        bytes_equal(&self.bytes, &other.bytes)
    }
}

impl PartialEq for LoanId {
    fn eq(&self, other: &LoanId) -> (r: bool) {
        bytes_equal(&self.bytes, &other.bytes)
    }
}

impl vstd::std_specs::cmp::PartialEqSpecImpl for LoanId {
    open spec fn obeys_eq_spec() -> bool {
        true
    }

    open spec fn eq_spec(&self, other: &LoanId) -> bool {
        *self == *other
    }
}

impl Eq for LoanId {
}

/// The eight big-endian bytes of `n`.
pub open spec fn be_bytes(n: u64) -> Seq<u8> {
    seq![
        ((n >> 56u64) & 0xff) as u8,
        ((n >> 48u64) & 0xff) as u8,
        ((n >> 40u64) & 0xff) as u8,
        ((n >> 32u64) & 0xff) as u8,
        ((n >> 24u64) & 0xff) as u8,
        ((n >> 16u64) & 0xff) as u8,
        ((n >> 8u64) & 0xff) as u8,
        (n & 0xff) as u8,
    ]
}

/// Distinct numbers have distinct big-endian bytes.
pub proof fn lemma_be_bytes_injective(n: u64, m: u64)
    requires
        be_bytes(n) == be_bytes(m),
    ensures
        n == m,
{
    let a = be_bytes(n);
    let b = be_bytes(m);
    assert(a[0] == b[0] && a[1] == b[1] && a[2] == b[2] && a[3] == b[3]);
    assert(a[4] == b[4] && a[5] == b[5] && a[6] == b[6] && a[7] == b[7]);
    assert(((n >> 56u64) & 0xff) < 256 && ((m >> 56u64) & 0xff) < 256) by (bit_vector);
    assert(((n >> 48u64) & 0xff) < 256 && ((m >> 48u64) & 0xff) < 256) by (bit_vector);
    assert(((n >> 40u64) & 0xff) < 256 && ((m >> 40u64) & 0xff) < 256) by (bit_vector);
    assert(((n >> 32u64) & 0xff) < 256 && ((m >> 32u64) & 0xff) < 256) by (bit_vector);
    assert(((n >> 24u64) & 0xff) < 256 && ((m >> 24u64) & 0xff) < 256) by (bit_vector);
    assert(((n >> 16u64) & 0xff) < 256 && ((m >> 16u64) & 0xff) < 256) by (bit_vector);
    assert(((n >> 8u64) & 0xff) < 256 && ((m >> 8u64) & 0xff) < 256) by (bit_vector);
    assert((n & 0xff) < 256 && (m & 0xff) < 256) by (bit_vector);
    assert(n == m) by (bit_vector)
        requires
            (n >> 56u64) & 0xff == (m >> 56u64) & 0xff,
            (n >> 48u64) & 0xff == (m >> 48u64) & 0xff,
            (n >> 40u64) & 0xff == (m >> 40u64) & 0xff,
            (n >> 32u64) & 0xff == (m >> 32u64) & 0xff,
            (n >> 24u64) & 0xff == (m >> 24u64) & 0xff,
            (n >> 16u64) & 0xff == (m >> 16u64) & 0xff,
            (n >> 8u64) & 0xff == (m >> 8u64) & 0xff,
            n & 0xff == m & 0xff,
    ;
}

/// Appends the eight big-endian bytes of `n` to `out`.
pub fn push_be_bytes(out: &mut Vec<u8>, n: u64)
    ensures
        final(out)@ == old(out)@ + be_bytes(n),
{
    out.push(((n >> 56u64) & 0xff) as u8);
    out.push(((n >> 48u64) & 0xff) as u8);
    out.push(((n >> 40u64) & 0xff) as u8);
    out.push(((n >> 32u64) & 0xff) as u8);
    out.push(((n >> 24u64) & 0xff) as u8);
    out.push(((n >> 16u64) & 0xff) as u8);
    out.push(((n >> 8u64) & 0xff) as u8);
    out.push((n & 0xff) as u8);
    assert(out@ =~= old(out)@ + be_bytes(n));
}

/// Appends the bytes of `a` to `out`.
pub fn push_address_bytes(out: &mut Vec<u8>, a: &Address)
    ensures
        final(out)@ == old(out)@ + a.bytes@,
{
    for i in 0..20
        invariant
            out@ == old(out)@ + a.bytes@.subrange(0, i as int),
    {
        out.push(a.bytes[i]);
        assert(out@ =~= old(out)@ + a.bytes@.subrange(0, i + 1));
    }
    assert(a.bytes@.subrange(0, 20) =~= a.bytes@);
}

/// Whether `a` is among the addresses of `v`.
pub fn contains_address(v: &Vec<Address>, a: &Address) -> (r: bool)
    ensures
        r == v@.contains(*a),
{
    let mut i: usize = 0;
    while i < v.len()
        invariant
            i <= v.len(),
            forall|j: int| 0 <= j < i ==> v@[j] != *a,
        decreases v.len() - i,
    {
        if v[i].same(a) {
            assert(v@[i as int] == *a);
            return true;
        }
        i = i + 1;
    }
    false
}

} // verus!
