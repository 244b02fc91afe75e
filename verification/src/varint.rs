use vstd::prelude::*;
use crate::error::SQLiteError;

verus! {

/// 128 to the n-th power: the count of values of n seven-bit groups.
pub open spec fn pow128(n: nat) -> nat
    decreases n,
{
    if n == 0 {
        1
    } else {
        128 * pow128((n - 1) as nat)
    }
}

/// Byte count of the varint at the start of `s`, scanned from index `i`:
/// the first of the leading eight bytes with its high bit clear ends the
/// varint there; otherwise it is nine bytes long. A byte missing from `s`
/// counts as if it continued, so the size can exceed `s.len()`.
pub open spec fn varint_size_from(s: Seq<u8>, i: nat) -> nat
    decreases 8 - i,
    when i <= 8
{
    if i >= 8 {
        9
    } else if i < s.len() && s[i as int] < 0x80 {
        i + 1
    } else {
        varint_size_from(s, i + 1)
    }
}

/// Byte count of the varint at the start of `s`.
pub open spec fn varint_size(s: Seq<u8>) -> nat {
    varint_size_from(s, 0)
}

/// Whether `s` holds a whole varint at its start.
pub open spec fn varint_complete(s: Seq<u8>) -> bool {
    varint_size(s) <= s.len()
}

/// The value of the first `n` bytes of `s` read as seven-bit groups,
/// most significant first.
pub open spec fn varint_prefix(s: Seq<u8>, n: nat) -> nat
    decreases n,
{
    if n == 0 {
        0
    } else {
        (varint_prefix(s, (n - 1) as nat) * 0x80 + (s[n - 1] % 0x80)) as nat
    }
}

/// The value of the varint at the start of `s`: seven bits from each byte,
/// except that a ninth byte contributes all eight of its bits.
pub open spec fn varint_value(s: Seq<u8>) -> nat {
    let n = varint_size(s);
    if n <= 8 {
        (varint_prefix(s, (n - 1) as nat) * 0x80 + s[n - 1]) as nat
    } else {
        (varint_prefix(s, 8) * 0x100 + s[8]) as nat
    }
}

pub proof fn lemma_varint_prefix_bound(s: Seq<u8>, n: nat)
    ensures
        varint_prefix(s, n) < pow128(n),
    decreases n,
{
    if n > 0 {
        lemma_varint_prefix_bound(s, (n - 1) as nat);
    }
}

pub proof fn lemma_varint_size_range(s: Seq<u8>, i: nat)
    requires
        i <= 8,
    ensures
        i + 1 <= varint_size_from(s, i) <= 9,
    decreases 8 - i,
{
    if i < 8 && !(i < s.len() && s[i as int] < 0x80) {
        lemma_varint_size_range(s, i + 1);
    }
}

/// Scanning past the end of `s` never finds a terminator, so the varint
/// runs the full nine bytes.
proof fn lemma_varint_size_past_end(s: Seq<u8>, i: nat)
    requires
        i <= 8,
        i >= s.len(),
    ensures
        varint_size_from(s, i) == 9,
    decreases 8 - i,
{
    if i < 8 {
        lemma_varint_size_past_end(s, i + 1);
    }
}

/// A varint's value always fits 64 bits: eight 7-bit groups and one full
/// byte make exactly 64.
pub proof fn lemma_varint_value_fits(s: Seq<u8>)
    ensures
        varint_value(s) < 0x1_0000_0000_0000_0000,
{
    lemma_varint_size_range(s, 0);
    lemma_varint_prefix_bound(s, (varint_size(s) - 1) as nat);
    lemma_varint_prefix_bound(s, 8);
    reveal_with_fuel(pow128, 9);
    lemma_pow128_increases((varint_size(s) - 1) as nat, 8nat);
}

proof fn lemma_pow128_increases(m: nat, n: nat)
    requires
        m <= n,
    ensures
        pow128(m) <= pow128(n),
    decreases n,
{
    if m < n {
        lemma_pow128_increases(m, (n - 1) as nat);
    }
}

/// Read the variable-length integer at `pos`: a value of up to 64 bits in
/// one to nine bytes, and the count of bytes it occupied. Fails exactly
/// when the buffer ends before the varint does.
pub fn read_varint(buf: &[u8], pos: usize) -> (r: Result<(u64, usize), SQLiteError>)
    requires
        pos <= buf@.len(),
    ensures
        match r {
            Ok(vn) => {
                &&& varint_complete(buf@.skip(pos as int))
                &&& vn.1 == varint_size(buf@.skip(pos as int))
                &&& vn.0 == varint_value(buf@.skip(pos as int))
                &&& pos + vn.1 <= buf@.len()
            },
            Err(e) => {
                &&& e == SQLiteError::OutOfBounds
                &&& !varint_complete(buf@.skip(pos as int))
            },
        },
{
    let ghost s = buf@.skip(pos as int);
    let blen: usize = buf.len();
    let rest: usize = blen - pos;
    let mut v: u64 = 0;
    let mut i: usize = 0;
    while i < 8
        invariant
            i <= 8,
            pos <= blen,
            blen == buf@.len(),
            rest == blen - pos,
            s == buf@.skip(pos as int),
            s.len() == rest,
            varint_size_from(s, 0) == varint_size_from(s, i as nat),
            v == varint_prefix(s, i as nat),
            v < pow128(i as nat),
        decreases 8 - i,
    {
        if i >= rest {
            proof {
                lemma_varint_size_past_end(s, i as nat);
            }
            return Err(SQLiteError::OutOfBounds);
        }
        let b = buf[pos + i];
        proof {
            assert(s[i as int] == b);
            reveal_with_fuel(pow128, 9);
            lemma_pow128_increases(i as nat + 1, 8nat);
        }
        if b < 0x80 {
            proof {
                assert(varint_size_from(s, i as nat) == i + 1);
                assert(varint_prefix(s, i as nat + 1) == (v * 0x80 + (b % 0x80)) as nat);
            }
            let out = v * 0x80 + b as u64;
            return Ok((out, i + 1));
        }
        proof {
            assert(varint_size_from(s, i as nat) == varint_size_from(s, i as nat + 1));
            assert(s[i as int] % 0x80 == b - 0x80);
        }
        v = v * 0x80 + (b - 0x80) as u64;
        i = i + 1;
    }
    if 8 >= rest {
        proof {
            lemma_varint_size_past_end(s, 8nat);
        }
        return Err(SQLiteError::OutOfBounds);
    }
    let b = buf[pos + 8];
    proof {
        assert(s[8] == b);
        assert(varint_size_from(s, 8nat) == 9);
        reveal_with_fuel(pow128, 9);
    }
    let out = v * 0x100 + b as u64;
    Ok((out, 9))
}

} // verus!
