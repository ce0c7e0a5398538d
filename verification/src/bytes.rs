//! Small byte-string helpers: concatenation, comparison and big-endian
//! encoding of 32-bit integers.

use vstd::prelude::*;

verus! {

/// Appends `s` to `v`.
pub fn push_all(v: &mut Vec<u8>, s: &[u8])
    ensures
        final(v)@ == old(v)@ + s@,
{
    let n = s.len();
    let ghost start = v@;
    for i in 0..n
        invariant
            n == s@.len(),
            v@ =~= start + s@.subrange(0, i as int),
    {
        v.push(s[i]);
    }
}

/// `a` followed by `b`.
pub fn concat2(a: &[u8], b: &[u8]) -> (r: Vec<u8>)
    ensures
        r@ == a@ + b@,
{
    let mut v: Vec<u8> = Vec::new();
    push_all(&mut v, a);
    push_all(&mut v, b);
    assert(v@ =~= a@ + b@);
    v
}

/// `a`, `b` and `c` in order.
pub fn concat3(a: &[u8], b: &[u8], c: &[u8]) -> (r: Vec<u8>)
    ensures
        r@ == a@ + b@ + c@,
{
    let mut v: Vec<u8> = Vec::new();
    push_all(&mut v, a);
    push_all(&mut v, b);
    push_all(&mut v, c);
    assert(v@ =~= a@ + b@ + c@);
    v
}

/// `a`, `b`, `c` and `d` in order.
pub fn concat4(a: &[u8], b: &[u8], c: &[u8], d: &[u8]) -> (r: Vec<u8>)
    ensures
        r@ == a@ + b@ + c@ + d@,
{
    let mut v: Vec<u8> = Vec::new();
    push_all(&mut v, a);
    push_all(&mut v, b);
    push_all(&mut v, c);
    push_all(&mut v, d);
    assert(v@ =~= a@ + b@ + c@ + d@);
    v
}

/// Whether two byte strings are equal.
pub fn bytes_eq(a: &[u8], b: &[u8]) -> (r: bool)
    ensures
        r == (a@ == b@),
{
    if a.len() != b.len() {
        return false;
    }
    let n = a.len();
    for i in 0..n
        invariant
            n == a@.len(),
            n == b@.len(),
            forall|k: int| 0 <= k < i ==> #[trigger] a@[k] == b@[k],
    {
        if a[i] != b[i] {
            return false;
        }
    }
    assert(a@ =~= b@);
    true
}

/// The big-endian bytes of a 32-bit integer (`i32::to_be_bytes`).
pub open spec fn be_bytes_spec(x: i32) -> Seq<u8> {
    let u = x as u32;
    seq![(u / 16777216) as u8, ((u / 65536) % 256) as u8, ((u / 256) % 256) as u8, (u % 256) as u8]
}

/// The 32-bit integer with the given big-endian bytes (`i32::from_be_bytes`).
pub open spec fn from_be_spec(b0: u8, b1: u8, b2: u8, b3: u8) -> i32 {
    (b0 as u32 * 16777216 + b1 as u32 * 65536 + b2 as u32 * 256 + b3 as u32) as u32 as i32
}

/// `i32::to_be_bytes`.
pub fn be_bytes(x: i32) -> (r: [u8; 4])
    ensures
        r@ == be_bytes_spec(x),
{
    let u = x as u32;
    let r = [(u / 16777216) as u8, ((u / 65536) % 256) as u8, ((u / 256) % 256) as u8, (u % 256) as u8];
    assert(r@ =~= be_bytes_spec(x));
    r
}

/// `i32::from_be_bytes`.
pub fn from_be(b0: u8, b1: u8, b2: u8, b3: u8) -> (r: i32)
    ensures
        r == from_be_spec(b0, b1, b2, b3),
{
    let u: u32 = b0 as u32 * 16777216 + b1 as u32 * 65536 + b2 as u32 * 256 + b3 as u32;
    u as i32
}

/// `s[from..from + N]` as an array of 16 bytes.
pub fn take16(s: &[u8], from: usize) -> (r: [u8; 16])
    requires
        from + 16 <= s@.len(),
    ensures
        r@ == s@.subrange(from as int, from + 16),
{
    let n = s.len();
    let mut r = [0u8; 16];
    for i in 0..16
        invariant
            n == s@.len(),
            from + 16 <= n,
            forall|k: int| 0 <= k < i ==> #[trigger] r@[k] == s@[from + k],
    {
        r[i] = s[from + i];
    }
    assert(r@ =~= s@.subrange(from as int, from + 16));
    r
}

/// Big-endian encoding and decoding of a 32-bit integer are inverse: the
/// sequence number read from the session's IV bytes is the one its bytes
/// encode.
pub proof fn law_be_bytes_roundtrip(x: i32)
    ensures
        ({
            let b = be_bytes_spec(x);
            from_be_spec(b[0], b[1], b[2], b[3]) == x
        }),
{
    let u = x as u32;
    let c0 = u / 16777216;
    let c1 = (u / 65536) % 256;
    let c2 = (u / 256) % 256;
    let c3 = u % 256;
    assert(c0 < 256);
    assert(c0 * 16777216 + c1 * 65536 + c2 * 256 + c3 == u);
    assert((c0 as u8) as u32 == c0);
    assert((c1 as u8) as u32 == c1);
    assert((c2 as u8) as u32 == c2);
    assert((c3 as u8) as u32 == c3);
    assert((x as u32) as i32 == x) by (bit_vector);
}

} // verus!
