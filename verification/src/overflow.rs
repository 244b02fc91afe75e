use vstd::prelude::*;
use crate::bytes::{be_uint, read_be32};
use crate::error::SQLiteError;

verus! {

/// Greatest payload length a cell stores wholly in its own page: for a
/// table leaf the whole usable space less the per-cell minimum, otherwise
/// the fraction of usable space the header's maximum-fraction byte allows.
pub open spec fn spec_max_local(usable: int, max_frac: u8, leaf_table: bool) -> int {
    if leaf_table {
        usable - 35
    } else {
        (usable - 12) * max_frac / 255 - 23
    }
}

/// Least payload length a spilling cell keeps in its own page, from the
/// header's minimum-fraction byte.
pub open spec fn spec_min_local(usable: int, min_frac: u8) -> int {
    (usable - 12) * min_frac / 255 - 23
}

/// How a declared payload is divided: the byte count kept in the cell's
/// page and whether the rest spills to an overflow chain. A payload within
/// the maximum stays whole; a larger one keeps the minimum plus whatever
/// remainder makes the spilled part fill overflow pages evenly, unless
/// that lands above the maximum, in which case only the minimum stays.
/// Fraction bytes that put the minimum above the maximum, or below zero,
/// are a structural failure.
pub open spec fn spec_payload_split(
    usable: int,
    max_frac: u8,
    min_frac: u8,
    payload_size: u64,
    leaf_table: bool,
) -> Result<(int, bool), SQLiteError> {
    let mx = spec_max_local(usable, max_frac, leaf_table);
    let mn = spec_min_local(usable, min_frac);
    if !(0 <= mn && mn <= mx) {
        Err(SQLiteError::InvalidPayloadFractions)
    } else if payload_size <= mx {
        Ok((payload_size as int, false))
    } else {
        let k = mn + (payload_size - mn) % (usable - 4);
        if k <= mx {
            Ok((k, true))
        } else {
            Ok((mn, true))
        }
    }
}

/// Divide a declared payload size into its local byte count and whether
/// it spills, per the format's fraction arithmetic.
pub fn payload_split(
    usable: u32,
    max_frac: u8,
    min_frac: u8,
    payload_size: u64,
    leaf_table: bool,
) -> (r: Result<(u32, bool), SQLiteError>)
    requires
        512 <= usable <= 0x10000,
    ensures
        match r {
            Ok(lb) => {
                &&& spec_payload_split(
                    usable as int,
                    max_frac,
                    min_frac,
                    payload_size,
                    leaf_table,
                ) matches Ok(sp) && sp.0 == lb.0 && sp.1 == lb.1
                &&& lb.0 <= payload_size
                &&& lb.0 < usable
                &&& (!lb.1 ==> lb.0 == payload_size)
                &&& (lb.1 <==> payload_size > spec_max_local(usable as int, max_frac, leaf_table))
            },
            Err(e) => spec_payload_split(usable as int, max_frac, min_frac, payload_size, leaf_table)
                == Err::<(int, bool), SQLiteError>(e),
        },
{
    proof {
        assert((usable - 12) * (max_frac as int) <= 0x10000 * 255 && (usable - 12) * (
        max_frac as int) >= 0 && (usable - 12) * (min_frac as int) <= 0x10000 * 255 && (usable
            - 12) * (min_frac as int) >= 0) by (nonlinear_arith)
            requires
                512 <= usable <= 0x10000,
                max_frac <= 255,
                min_frac <= 255,
        ;
    }
    let mx: i64 = if leaf_table {
        usable as i64 - 35
    } else {
        (usable as i64 - 12) * (max_frac as i64) / 255 - 23
    };
    let mn: i64 = (usable as i64 - 12) * (min_frac as i64) / 255 - 23;
    if !(0 <= mn && mn <= mx) {
        return Err(SQLiteError::InvalidPayloadFractions);
    }
    proof {
        assert((usable - 12) * (max_frac as int) / 255 <= usable - 12) by (nonlinear_arith)
            requires
                512 <= usable <= 0x10000,
                max_frac <= 255,
        ;
        assert(mx < usable);
    }
    if payload_size <= mx as u64 {
        Ok((payload_size as u32, false))
    } else {
        let base: u64 = usable as u64 - 4;
        let k: u64 = mn as u64 + (payload_size - mn as u64) % base;
        proof {
            vstd::arithmetic::div_mod::lemma_mod_bound(payload_size - mn as u64, base as int);
            vstd::arithmetic::div_mod::lemma_mod_decreases(
                (payload_size - mn as u64) as nat,
                base as nat,
            );
        }
        if k <= mx as u64 {
            Ok((k as u32, true))
        } else {
            Ok((mn as u32, true))
        }
    }
}

/// How many pages an overflow chain may sanely hold: one per page the
/// buffer has room for.
pub open spec fn chain_fuel(buf_len: int, ps: int) -> nat {
    (buf_len / ps + 1) as nat
}

/// The bytes an overflow chain contributes, followed from `page_no` until
/// `needed` bytes are gathered: each overflow page begins with the 4-byte
/// number of the next page (zero ends the chain) and fills the rest with
/// payload. A chain that ends early is truncated; one that outruns the
/// buffer's page count can only be a cycle or corruption.
pub open spec fn spec_chain(
    buf: Seq<u8>,
    ps: int,
    page_no: u32,
    needed: int,
    fuel: nat,
) -> Result<Seq<u8>, SQLiteError>
    decreases fuel,
{
    if needed <= 0 {
        Ok(Seq::empty())
    } else if page_no == 0 {
        Err(SQLiteError::OverflowChainTruncated)
    } else if fuel == 0 {
        Err(SQLiteError::OverflowChainTooLong)
    } else if page_no * ps > buf.len() {
        Err(SQLiteError::OutOfBounds)
    } else {
        let start = (page_no - 1) * ps;
        let next = be_uint(buf.subrange(start, start + 4)) as u32;
        let avail = ps - 4;
        let take = if needed < avail {
            needed
        } else {
            avail
        };
        match spec_chain(buf, ps, next, needed - take, (fuel - 1) as nat) {
            Ok(rest) => Ok(buf.subrange(start + 4, start + 4 + take) + rest),
            Err(e) => Err(e),
        }
    }
}

/// A successful chain yields exactly the bytes it was asked for.
pub proof fn lemma_spec_chain_len(buf: Seq<u8>, ps: int, page_no: u32, needed: int, fuel: nat)
    requires
        ps >= 5,
        spec_chain(buf, ps, page_no, needed, fuel) is Ok,
    ensures
        spec_chain(buf, ps, page_no, needed, fuel).unwrap().len() == if needed >= 0 {
            needed
        } else {
            0
        },
    decreases fuel,
{
    if needed > 0 && page_no != 0 && fuel != 0 && page_no * ps <= buf.len() {
        let start = (page_no - 1) * ps;
        let next = be_uint(buf.subrange(start, start + 4)) as u32;
        let avail = ps - 4;
        let take = if needed < avail {
            needed
        } else {
            avail
        };
        assert(start + ps == page_no * ps) by (nonlinear_arith)
            requires
                start == (page_no - 1) * ps,
        ;
        assert(start >= 0) by (nonlinear_arith)
            requires
                page_no >= 1,
                ps >= 5,
                start == (page_no - 1) * ps,
        ;
        lemma_spec_chain_len(buf, ps, next, needed - take, (fuel - 1) as nat);
    }
}

/// Reassemble a cell's full payload: the local bytes already at hand,
/// completed from the overflow chain starting at `first_overflow` until
/// the declared payload size is reached exactly.
pub fn resolve_payload(
    buf: &[u8],
    page_size: usize,
    local: &[u8],
    first_overflow: u32,
    payload_size: u64,
) -> (r: Result<Vec<u8>, SQLiteError>)
    requires
        512 <= page_size <= 0x10000,
        local@.len() <= payload_size,
    ensures
        match r {
            Ok(v) => {
                &&& spec_chain(
                    buf@,
                    page_size as int,
                    first_overflow,
                    payload_size - local@.len(),
                    chain_fuel(buf@.len() as int, page_size as int),
                ) matches Ok(rest) && v@ == local@ + rest
                &&& v@.len() == payload_size
            },
            Err(e) => spec_chain(
                buf@,
                page_size as int,
                first_overflow,
                payload_size - local@.len(),
                chain_fuel(buf@.len() as int, page_size as int),
            ) == Err::<Seq<u8>, SQLiteError>(e),
        },
{
    let ghost ps = page_size as int;
    let ghost needed0: int = payload_size - local@.len();
    let ghost fuel0: nat = chain_fuel(buf@.len() as int, ps);
    let blen: usize = buf.len();
    let mut out: Vec<u8> = crate::bytes::copy_bytes(local);
    let mut page_no: u32 = first_overflow;
    proof {
        vstd::arithmetic::div_mod::lemma_div_is_ordered_by_denominator(
            blen as int,
            512,
            page_size as int,
        );
        vstd::arithmetic::div_mod::lemma_div_is_ordered(
            blen as int,
            usize::MAX as int,
            512,
        );
    }
    let mut fuel: usize = blen / page_size + 1;
    let ghost mut prefix: Seq<u8> = Seq::empty();
    proof {
        assert(local@ + prefix =~= local@);
        assert(fuel == fuel0);
    }
    while (out.len() as u64) < payload_size
        invariant
            512 <= page_size <= 0x10000,
            blen == buf@.len(),
            ps == page_size as int,
            needed0 == payload_size - local@.len(),
            fuel0 == chain_fuel(buf@.len() as int, ps),
            out@ == local@ + prefix,
            out@.len() <= payload_size,
            fuel <= fuel0,
            match spec_chain(buf@, ps, page_no, payload_size - out@.len(), fuel as nat) {
                Ok(rest) => spec_chain(buf@, ps, first_overflow, needed0, fuel0) == Ok::<
                    Seq<u8>,
                    SQLiteError,
                >(prefix + rest),
                Err(e) => spec_chain(buf@, ps, first_overflow, needed0, fuel0) == Err::<
                    Seq<u8>,
                    SQLiteError,
                >(e),
            },
        decreases fuel,
    {
        let ghost needed: int = payload_size - out@.len();
        if page_no == 0 {
            return Err(SQLiteError::OverflowChainTruncated);
        }
        if fuel == 0 {
            return Err(SQLiteError::OverflowChainTooLong);
        }
        proof {
            assert((page_no as int) * (page_size as int) < 0x1_0000_0000_0000 && (page_no as int)
                * (page_size as int) >= 0) by (nonlinear_arith)
                requires
                    1 <= page_no < 0x1_0000_0000,
                    512 <= page_size <= 0x10000,
            ;
        }
        if (page_no as u64) * (page_size as u64) > blen as u64 {
            return Err(SQLiteError::OutOfBounds);
        }
        proof {
            assert((page_no - 1) * (page_size as int) + page_size == (page_no as int) * (
            page_size as int)) by (nonlinear_arith);
            assert((page_no - 1) * (page_size as int) >= 0) by (nonlinear_arith)
                requires
                    page_no >= 1,
                    page_size >= 1,
            ;
        }
        let start: usize = (page_no as usize - 1) * page_size;
        let next = read_be32(buf, start);
        let avail: usize = page_size - 4;
        let rem: u64 = payload_size - out.len() as u64;
        let take: usize = if rem < avail as u64 {
            rem as usize
        } else {
            avail
        };
        let seg = vstd::slice::slice_subrange(buf, start + 4, start + 4 + take);
        out.extend_from_slice(seg);
        proof {
            let old_prefix = prefix;
            prefix = prefix + buf@.subrange(start as int + 4, start as int + 4 + take as int);
            assert(out@ =~= local@ + prefix);
            assert(forall|rest: Seq<u8>|
                old_prefix + (buf@.subrange(start as int + 4, start as int + 4 + take as int)
                    + rest) =~= prefix + rest);
        }
        page_no = next;
        fuel = fuel - 1;
    }
    proof {
        assert(spec_chain(buf@, ps, page_no, payload_size - out@.len(), fuel as nat) == Ok::<
            Seq<u8>,
            SQLiteError,
        >(Seq::<u8>::empty()));
        assert(prefix + Seq::<u8>::empty() =~= prefix);
    }
    Ok(out)
}

} // verus!
