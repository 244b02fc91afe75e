use vstd::prelude::*;

verus! {

/// 256 to the n-th power: the count of values of an n-byte big-endian field.
pub open spec fn pow256(n: nat) -> nat
    decreases n,
{
    if n == 0 {
        1
    } else {
        256 * pow256((n - 1) as nat)
    }
}

/// The unsigned value of a big-endian byte sequence.
pub open spec fn be_uint(s: Seq<u8>) -> nat
    decreases s.len(),
{
    if s.len() == 0 {
        0
    } else {
        (be_uint(s.drop_last()) * 256 + s.last()) as nat
    }
}

/// The two's-complement value of a big-endian byte sequence.
pub open spec fn be_sint(s: Seq<u8>) -> int {
    if 2 * be_uint(s) >= pow256(s.len()) {
        be_uint(s) - pow256(s.len())
    } else {
        be_uint(s) as int
    }
}

pub proof fn lemma_be_uint_bound(s: Seq<u8>)
    ensures
        be_uint(s) < pow256(s.len()),
    decreases s.len(),
{
    if s.len() > 0 {
        lemma_be_uint_bound(s.drop_last());
    }
}

/// Big-endian read of `n` bytes at `off`, for fields up to 8 bytes wide.
pub fn read_be(buf: &[u8], off: usize, n: usize) -> (r: u64)
    requires
        n <= 8,
        off + n <= buf@.len(),
    ensures
        r == be_uint(buf@.subrange(off as int, off as int + n as int)),
{
    let mut r: u64 = 0;
    let mut i: usize = 0;
    let blen: usize = buf.len();
    proof {
        assert(buf@.subrange(off as int, off as int) =~= Seq::<u8>::empty());
    }
    while i < n
        invariant
            i <= n,
            n <= 8,
            off + n <= buf@.len(),
            buf@.len() == blen,
            r == be_uint(buf@.subrange(off as int, off as int + i as int)),
            r < pow256(i as nat),
        decreases n - i,
    {
        proof {
            let prev = buf@.subrange(off as int, off as int + i as int);
            let next = buf@.subrange(off as int, off as int + i as int + 1);
            assert(next.drop_last() =~= prev);
            assert(next.last() == buf@[off as int + i as int]);
            assert(pow256((i + 1) as nat) == 256 * pow256(i as nat));
            reveal_with_fuel(pow256, 9);
            assert(pow256(8nat) == 0x1_0000_0000_0000_0000);
            crate::bytes::lemma_pow256_increases(i as nat + 1, 8nat);
        }
        r = r * 256 + (buf[off + i] as u64);
        i = i + 1;
    }
    r
}

pub proof fn lemma_pow256_increases(m: nat, n: nat)
    requires
        m <= n,
    ensures
        pow256(m) <= pow256(n),
    decreases n,
{
    if m < n {
        lemma_pow256_increases(m, (n - 1) as nat);
    }
}

/// Big-endian read of the 2-byte fields of headers and cell pointers.
pub fn read_be16(buf: &[u8], off: usize) -> (r: u16)
    requires
        off + 2 <= buf@.len(),
    ensures
        r == be_uint(buf@.subrange(off as int, off as int + 2)),
{
    let v = read_be(buf, off, 2);
    proof {
        lemma_be_uint_bound(buf@.subrange(off as int, off as int + 2));
        reveal_with_fuel(pow256, 3);
        assert(pow256(2nat) == 0x1_0000);
    }
    v as u16
}

/// Big-endian read of the 4-byte fields of headers and page numbers.
pub fn read_be32(buf: &[u8], off: usize) -> (r: u32)
    requires
        off + 4 <= buf@.len(),
    ensures
        r == be_uint(buf@.subrange(off as int, off as int + 4)),
{
    let v = read_be(buf, off, 4);
    proof {
        lemma_be_uint_bound(buf@.subrange(off as int, off as int + 4));
        reveal_with_fuel(pow256, 5);
        assert(pow256(4nat) == 0x1_0000_0000);
    }
    v as u32
}

/// An owned copy of a byte range.
pub fn copy_bytes(v: &[u8]) -> (r: Vec<u8>)
    ensures
        r@ == v@,
{
    vstd::slice::slice_to_vec(v)
}

/// The character sequence that lossy single-byte text decoding yields for
/// a given byte sequence: a function of the bytes alone.
pub uninterp spec fn utf8_lossy_of(bytes: Seq<u8>) -> Seq<char>;

/// Relies on String::from_utf8_lossy: decodes UTF-8 bytes to characters,
/// replacing invalid sequences; the result depends on the bytes alone.
#[verifier::external_body]
pub fn utf8_lossy(bytes: &[u8]) -> (r: String)
    ensures
        r@ == utf8_lossy_of(bytes@),
        bytes@.len() == 0 ==> r@.len() == 0,
{
    String::from_utf8_lossy(bytes).to_string()
}

} // verus!
