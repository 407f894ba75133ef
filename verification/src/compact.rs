//! The variable-width length prefix that precedes a byte payload on the wire.
//!
//! A length below 2^6 takes one byte, below 2^14 two, below 2^30 four; the
//! two low bits of the first byte tell which. Larger lengths, up to
//! `u32::MAX`, take a marker byte followed by four little-endian bytes. Every
//! length has exactly one accepted encoding: a wider form holding a value
//! that fits a narrower one is rejected.

use vstd::prelude::*;

verus! {

/// Why a byte sequence could not be read.
#[derive(Clone, Copy, Debug, PartialEq, Eq, Structural)]
pub enum DecodeError {
    /// The input ended before the value was complete.
    Truncated,
    /// The input holds a length prefix that no encoder produces.
    Corrupt,
}

/// The largest length that a prefix can carry.
pub const MAX_LEN: usize = 0xffff_ffff;

/// Byte `k` of `v`, counted from the least significant one.
pub open spec fn byte_of(v: nat, k: nat) -> u8 {
    if k == 0 {
        (v % 256) as u8
    } else if k == 1 {
        (v / 0x100 % 256) as u8
    } else if k == 2 {
        (v / 0x1_0000 % 256) as u8
    } else {
        (v / 0x100_0000 % 256) as u8
    }
}

/// The number whose four bytes, least significant first, stand in `data`
/// from `at` on.
pub open spec fn le_value(data: Seq<u8>, at: int) -> nat {
    data[at] as nat + 0x100 * (data[at + 1] as nat) + 0x1_0000 * (data[at + 2] as nat)
        + 0x100_0000 * (data[at + 3] as nat)
}

/// The bytes that stand for the length `n`, for `n <= MAX_LEN`.
pub open spec fn prefix_of(n: nat) -> Seq<u8> {
    if n < 0x40 {
        seq![byte_of(4 * n, 0)]
    } else if n < 0x4000 {
        seq![byte_of(4 * n + 1, 0), byte_of(4 * n + 1, 1)]
    } else if n < 0x4000_0000 {
        seq![
            byte_of(4 * n + 2, 0),
            byte_of(4 * n + 2, 1),
            byte_of(4 * n + 2, 2),
            byte_of(4 * n + 2, 3),
        ]
    } else {
        seq![3u8, byte_of(n, 0), byte_of(n, 1), byte_of(n, 2), byte_of(n, 3)]
    }
}

/// What a reader finds at the start of `data`: the length and the number of
/// bytes its prefix took, or the reason why there is none.
pub open spec fn parse_prefix(data: Seq<u8>) -> Result<(nat, nat), DecodeError> {
    if data.len() < 1 {
        Err(DecodeError::Truncated)
    } else if data[0] % 4 == 0 {
        Ok(((data[0] / 4) as nat, 1))
    } else if data[0] % 4 == 1 {
        if data.len() < 2 {
            Err(DecodeError::Truncated)
        } else if (data[0] as nat + 0x100 * (data[1] as nat)) / 4 < 0x40 {
            Err(DecodeError::Corrupt)
        } else {
            Ok(((data[0] as nat + 0x100 * (data[1] as nat)) / 4, 2))
        }
    } else if data[0] % 4 == 2 {
        if data.len() < 4 {
            Err(DecodeError::Truncated)
        } else if le_value(data, 0) / 4 < 0x4000 {
            Err(DecodeError::Corrupt)
        } else {
            Ok((le_value(data, 0) / 4, 4))
        }
    } else if data[0] / 4 != 0 {
        Err(DecodeError::Corrupt)
    } else if data.len() < 5 {
        Err(DecodeError::Truncated)
    } else if le_value(data, 1) < 0x4000_0000 {
        Err(DecodeError::Corrupt)
    } else {
        Ok((le_value(data, 1), 5))
    }
}

proof fn lemma_bytes_split(v: nat)
    requires
        v < 0x1_0000_0000,
    ensures
        v == byte_of(v, 0) as nat + 0x100 * (byte_of(v, 1) as nat) + 0x1_0000 * (byte_of(
            v,
            2,
        ) as nat) + 0x100_0000 * (byte_of(v, 3) as nat),
        v < 0x1_0000 ==> byte_of(v, 2) == 0 && byte_of(v, 3) == 0,
        v < 0x100 ==> byte_of(v, 1) == 0,
{
    let w: u64 = v as u64;
    assert(w == w % 256 + 0x100 * (w / 0x100 % 256) + 0x1_0000 * (w / 0x1_0000 % 256) + 0x100_0000
        * (w / 0x100_0000 % 256)) by (bit_vector)
        requires
            w < 0x1_0000_0000,
    ;
}

proof fn lemma_bytes_join(b0: u8, b1: u8, b2: u8, b3: u8)
    ensures
        ({
            let v = b0 as nat + 0x100 * (b1 as nat) + 0x1_0000 * (b2 as nat) + 0x100_0000 * (
            b3 as nat);
            &&& v < 0x1_0000_0000
            &&& byte_of(v, 0) == b0
            &&& byte_of(v, 1) == b1
            &&& byte_of(v, 2) == b2
            &&& byte_of(v, 3) == b3
        }),
{
    let x0: u64 = b0 as u64;
    let x1: u64 = b1 as u64;
    let x2: u64 = b2 as u64;
    let x3: u64 = b3 as u64;
    let w: u64 = (x0 + 0x100 * x1 + 0x1_0000 * x2 + 0x100_0000 * x3) as u64;
    assert(w % 256 == x0 && w / 0x100 % 256 == x1 && w / 0x1_0000 % 256 == x2 && w / 0x100_0000
        % 256 == x3) by (bit_vector)
        requires
            x0 < 256,
            x1 < 256,
            x2 < 256,
            x3 < 256,
            w == x0 + 0x100 * x1 + 0x1_0000 * x2 + 0x100_0000 * x3,
    ;
}

/// A prefix is one, two, four or five bytes long.
pub proof fn lemma_prefix_len(n: nat)
    ensures
        1 <= prefix_of(n).len() <= 5,
        n < 0x40 ==> prefix_of(n).len() == 1,
        0x40 <= n < 0x4000 ==> prefix_of(n).len() == 2,
        0x4000 <= n < 0x4000_0000 ==> prefix_of(n).len() == 4,
        0x4000_0000 <= n ==> prefix_of(n).len() == 5,
{
}

/// Reading what was written gives the length back, whatever follows it.
pub proof fn lemma_parse_prefix_of(n: nat, rest: Seq<u8>)
    requires
        n <= MAX_LEN,
    ensures
        parse_prefix(prefix_of(n) + rest) == Ok::<(nat, nat), DecodeError>(
            (n, prefix_of(n).len()),
        ),
{
    let p = prefix_of(n);
    let data = p + rest;
    if n < 0x40 {
        lemma_bytes_split(4 * n);
        assert(data[0] == p[0]);
    } else if n < 0x4000 {
        lemma_bytes_split(4 * n + 1);
        assert(data[0] == p[0] && data[1] == p[1]);
    } else if n < 0x4000_0000 {
        lemma_bytes_split(4 * n + 2);
        assert(data[0] == p[0] && data[1] == p[1] && data[2] == p[2] && data[3] == p[3]);
    } else {
        lemma_bytes_split(n);
        assert(data[0] == p[0] && data[1] == p[1] && data[2] == p[2] && data[3] == p[3]
            && data[4] == p[4]);
    }
}

proof fn lemma_tagged(b0: u8, b1: u8, b2: u8, b3: u8)
    ensures
        ({
            let v = b0 as nat + 0x100 * (b1 as nat) + 0x1_0000 * (b2 as nat) + 0x100_0000 * (
            b3 as nat);
            v == 4 * (v / 4) + (b0 % 4) as nat
        }),
{
    let hi = 0x40 * (b1 as int) + 0x4000 * (b2 as int) + 0x40_0000 * (b3 as int);
    let v = b0 as int + 4 * hi;
    assert(v % 4 == b0 as int % 4) by {
        vstd::arithmetic::div_mod::lemma_mod_multiples_vanish(hi, b0 as int, 4);
    }
}

/// Whatever a reader accepts is the one encoding of the length it reports.
pub proof fn lemma_parse_prefix_canonical(data: Seq<u8>)
    requires
        parse_prefix(data) is Ok,
    ensures
        parse_prefix(data)->Ok_0.0 <= MAX_LEN,
        parse_prefix(data)->Ok_0.1 == prefix_of(parse_prefix(data)->Ok_0.0).len(),
        parse_prefix(data)->Ok_0.1 <= data.len(),
        data.subrange(0, parse_prefix(data)->Ok_0.1 as int) == prefix_of(
            parse_prefix(data)->Ok_0.0,
        ),
{
    let n = parse_prefix(data)->Ok_0.0;
    let k = parse_prefix(data)->Ok_0.1;
    let head = data.subrange(0, k as int);
    if data[0] % 4 == 0 {
        lemma_bytes_join(data[0], 0, 0, 0);
        lemma_tagged(data[0], 0, 0, 0);
        assert(4 * n == data[0]);
        assert(head =~= prefix_of(n));
    } else if data[0] % 4 == 1 {
        lemma_bytes_join(data[0], data[1], 0, 0);
        lemma_tagged(data[0], data[1], 0, 0);
        assert(4 * n + 1 == data[0] as nat + 0x100 * (data[1] as nat));
        assert(head =~= prefix_of(n));
    } else if data[0] % 4 == 2 {
        lemma_bytes_join(data[0], data[1], data[2], data[3]);
        lemma_tagged(data[0], data[1], data[2], data[3]);
        assert(4 * n + 2 == le_value(data, 0));
        assert(head =~= prefix_of(n));
    } else {
        lemma_bytes_join(data[1], data[2], data[3], data[4]);
        assert(data[0] == 3);
        assert(head =~= prefix_of(n));
    }
}

/// Appends the prefix for the length `n` to `out`.
pub fn write_prefix(out: &mut Vec<u8>, n: usize)
    requires
        n <= MAX_LEN,
    ensures
        final(out)@ == old(out)@ + prefix_of(n as nat),
{
    let ghost before = out@;
    let v: u64 = n as u64;
    if v < 0x40 {
        out.push((4 * v % 256) as u8);
    } else if v < 0x4000 {
        let w: u64 = 4 * v + 1;
        out.push((w % 256) as u8);
        out.push((w / 0x100 % 256) as u8);
    } else if v < 0x4000_0000 {
        let w: u64 = 4 * v + 2;
        out.push((w % 256) as u8);
        out.push((w / 0x100 % 256) as u8);
        out.push((w / 0x1_0000 % 256) as u8);
        out.push((w / 0x100_0000 % 256) as u8);
    } else {
        out.push(3u8);
        out.push((v % 256) as u8);
        out.push((v / 0x100 % 256) as u8);
        out.push((v / 0x1_0000 % 256) as u8);
        out.push((v / 0x100_0000 % 256) as u8);
    }
    assert(out@ =~= before + prefix_of(n as nat));
}

/// Reads the prefix at the start of `data`: the length that it stands for
/// and the number of bytes that it takes.
pub fn read_prefix(data: &[u8]) -> (r: Result<(usize, usize), DecodeError>)
    ensures
        match r {
            Ok((n, used)) => parse_prefix(data@) == Ok::<(nat, nat), DecodeError>(
                (n as nat, used as nat),
            ),
            Err(e) => parse_prefix(data@) == Err::<(nat, nat), DecodeError>(e),
        },
{
    let left: usize = data.len();
    if left < 1 {
        return Err(DecodeError::Truncated);
    }
    let first: u8 = data[0];
    let mode: u8 = first % 4;
    if mode == 0 {
        return Ok(((first / 4) as usize, 1));
    }
    if mode == 1 {
        if left < 2 {
            return Err(DecodeError::Truncated);
        }
        let x: u64 = (first as u64 + 0x100 * (data[1] as u64)) / 4;
        if x < 0x40 {
            return Err(DecodeError::Corrupt);
        }
        return Ok((x as usize, 2));
    }
    if mode == 2 {
        if left < 4 {
            return Err(DecodeError::Truncated);
        }
        let x: u64 = (first as u64 + 0x100 * (data[1] as u64) + 0x1_0000 * (data[2] as u64)
            + 0x100_0000 * (data[3] as u64)) / 4;
        if x < 0x4000 {
            return Err(DecodeError::Corrupt);
        }
        return Ok((x as usize, 4));
    }
    if first / 4 != 0 {
        return Err(DecodeError::Corrupt);
    }
    if left < 5 {
        return Err(DecodeError::Truncated);
    }
    let x: u64 = data[1] as u64 + 0x100 * (data[2] as u64) + 0x1_0000 * (data[3] as u64)
        + 0x100_0000 * (data[4] as u64);
    if x < 0x4000_0000 {
        return Err(DecodeError::Corrupt);
    }
    Ok((x as usize, 5))
}

} // verus!
