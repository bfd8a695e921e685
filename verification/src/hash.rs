//! The FNV-1a hash by which content is compared.
use vstd::prelude::*;

verus! {

/// FNV-1a's offset basis.
pub const FNV_OFFSET: u64 = 0xcbf2_9ce4_8422_2325;

/// FNV-1a's prime, as the hash multiplies by it.
pub const FNV_PRIME: u64 = 0x1_0000_01b3;

/// The FNV-1a hash of `bytes`.
pub open spec fn fnv(bytes: Seq<u8>) -> u64
    decreases bytes.len(),
{
    if bytes.len() == 0 {
        FNV_OFFSET
    } else {
        (fnv(bytes.drop_last()) ^ bytes.last() as u64).wrapping_mul(FNV_PRIME)
    }
}

/// The FNV-1a hash of `bytes[from..to]`.
pub fn fnv_range(bytes: &[u8], from: usize, to: usize) -> (r: u64)
    requires
        from <= to <= bytes@.len(),
    ensures
        r == fnv(bytes@.subrange(from as int, to as int)),
{
    let mut hash: u64 = FNV_OFFSET;
    let mut i: usize = from;
    while i < to
        invariant
            from <= i <= to <= bytes@.len(),
            hash == fnv(bytes@.subrange(from as int, i as int)),
        decreases to - i,
    {
        hash = (hash ^ bytes[i] as u64).wrapping_mul(FNV_PRIME);
        assert(bytes@.subrange(from as int, i + 1).drop_last() =~= bytes@.subrange(
            from as int,
            i as int,
        ));
        i = i + 1;
    }
    hash
}

/// The FNV-1a hash of `bytes`.
pub fn fnv1a(bytes: &[u8]) -> (r: u64)
    ensures
        r == fnv(bytes@),
{
    assert(bytes@.subrange(0, bytes@.len() as int) =~= bytes@);
    fnv_range(bytes, 0, bytes.len())
}

/// The FNV-1a hash of a text's UTF-8 bytes.
pub open spec fn text_hash(s: Seq<char>) -> u64 {
    fnv(vstd::utf8::encode_utf8(s))
}

/// The FNV-1a hash of a text's UTF-8 bytes.
pub fn hash_text(s: &str) -> (r: u64)
    ensures
        r == text_hash(s@),
{
    fnv1a(s.as_bytes())
}

// ---------------------------------------------------------------------------
// What the hash tells apart
// ---------------------------------------------------------------------------

/// One step of the hash.
pub open spec fn mixed(hash: u64, byte: u8) -> u64 {
    (hash ^ byte as u64).wrapping_mul(FNV_PRIME)
}

/// Whether two sequences of bytes differ in the byte at `i` and nowhere else.
pub open spec fn one_byte_apart(a: Seq<u8>, b: Seq<u8>, i: int) -> bool {
    &&& a.len() == b.len()
    &&& 0 <= i < a.len()
    &&& a[i] != b[i]
    &&& forall|j: int| 0 <= j < a.len() && j != i ==> a[j] == b[j]
}

/// Two numbers below `m` that a multiple of `m` parts are one.
proof fn lemma_parted_by_multiple(a: int, b: int, m: int, k: int)
    requires
        0 <= a < m,
        0 <= b < m,
        a - b == m * k,
    ensures
        a == b,
{
    assert(k == 0) by (nonlinear_arith)
        requires
            0 <= a < m,
            0 <= b < m,
            a - b == m * k,
    ;
    assert(m * k == 0) by (nonlinear_arith)
        requires
            k == 0,
    ;
}

/// Multiplying by the prime tells any two numbers apart: the prime is odd, so it
/// has an inverse.
proof fn lemma_multiplied_apart(a: u64, b: u64)
    requires
        a != b,
    ensures
        a.wrapping_mul(FNV_PRIME) != b.wrapping_mul(FNV_PRIME),
{
    let m: int = 0x1_0000_0000_0000_0000;
    let p: int = FNV_PRIME as int;
    let inverse: int = 0xb153003eaff6957b;
    let over: int = 0xb153016c;
    assert(p * inverse == over * m + 1);
    if a.wrapping_mul(FNV_PRIME) == b.wrapping_mul(FNV_PRIME) {
        let x = a as int * p;
        let y = b as int * p;
        vstd::arithmetic::div_mod::lemma_fundamental_div_mod(x, m);
        vstd::arithmetic::div_mod::lemma_fundamental_div_mod(y, m);
        let d = a as int - b as int;
        let q = x / m - y / m;
        assert(x - y == m * q) by (nonlinear_arith)
            requires
                x == m * (x / m) + x % m,
                y == m * (y / m) + y % m,
                x % m == y % m,
                q == x / m - y / m,
        ;
        assert(d * p == m * q) by (nonlinear_arith)
            requires
                x - y == m * q,
                x == a as int * p,
                y == b as int * p,
                d == a as int - b as int,
        ;
        assert(d == m * (q * inverse - d * over)) by (nonlinear_arith)
            requires
                d * p == m * q,
                p * inverse == over * m + 1,
        ;
        lemma_parted_by_multiple(a as int, b as int, m, q * inverse - d * over);
    }
}

/// A step tells two hashes apart.
proof fn lemma_hashes_stay_apart(g: u64, h: u64, byte: u8)
    requires
        g != h,
    ensures
        mixed(g, byte) != mixed(h, byte),
{
    let b = byte as u64;
    assert(g != h ==> g ^ b != h ^ b) by (bit_vector);
    lemma_multiplied_apart(g ^ b, h ^ b);
}

/// A step tells two bytes apart.
proof fn lemma_bytes_told_apart(hash: u64, x: u8, y: u8)
    requires
        x != y,
    ensures
        mixed(hash, x) != mixed(hash, y),
{
    let b = x as u64;
    let c = y as u64;
    assert(b != c ==> hash ^ b != hash ^ c) by (bit_vector);
    lemma_multiplied_apart(hash ^ b, hash ^ c);
}

/// One byte that changes alone always changes the hash.
pub proof fn law_one_byte_changes_the_hash(a: Seq<u8>, b: Seq<u8>, i: int)
    requires
        one_byte_apart(a, b, i),
    ensures
        fnv(a) != fnv(b),
    decreases a.len(),
{
    let c = a.drop_last();
    let d = b.drop_last();
    if i == a.len() - 1 {
        assert(c =~= d);
        lemma_bytes_told_apart(fnv(c), a.last(), b.last());
    } else {
        assert(one_byte_apart(c, d, i));
        law_one_byte_changes_the_hash(c, d, i);
        assert(a.last() == b.last());
        lemma_hashes_stay_apart(fnv(c), fnv(d), a.last());
    }
}

} // verus!
