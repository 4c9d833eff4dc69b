//! Little-endian integers and the compact length prefix used by the
//! versioned wallet encoding.
//!
//! Each shape is described three ways: a spec serializer, a spec parser, and
//! executable readers and writers whose contracts tie them to those spec
//! functions. Round-trip lemmas connect serializer and parser.

use vstd::prelude::*;

use crate::errors::KeyError;

verus! {

/// The value of a little-endian byte string.
pub open spec fn le_val(s: Seq<u8>) -> int
    decreases s.len(),
{
    if s.len() == 0 {
        0
    } else {
        s[0] + 256 * le_val(s.drop_first())
    }
}

/// The `n`-byte little-endian encoding of `v`.
pub open spec fn le_bytes(v: int, n: nat) -> Seq<u8>
    decreases n,
{
    if n == 0 {
        Seq::empty()
    } else {
        seq![(v % 256) as u8] + le_bytes(v / 256, (n - 1) as nat)
    }
}

/// `256 ^ n`.
pub open spec fn pow256(n: nat) -> int
    decreases n,
{
    if n == 0 {
        1
    } else {
        256 * pow256((n - 1) as nat)
    }
}

pub proof fn lemma_le_bytes_len(v: int, n: nat)
    ensures
        le_bytes(v, n).len() == n,
    decreases n,
{
    if n > 0 {
        lemma_le_bytes_len(v / 256, (n - 1) as nat);
    }
}

pub proof fn lemma_pow256_pos(n: nat)
    ensures
        pow256(n) >= 1,
    decreases n,
{
    if n > 0 {
        lemma_pow256_pos((n - 1) as nat);
    }
}

/// Encoding then decoding an `n`-byte value gives the value back.
pub proof fn lemma_le_round_trip(v: int, n: nat)
    requires
        0 <= v < pow256(n),
    ensures
        le_val(le_bytes(v, n)) == v,
    decreases n,
{
    if n == 0 {
    } else {
        let lo = v % 256;
        let hi = v / 256;
        vstd::arithmetic::div_mod::lemma_fundamental_div_mod(v, 256);
        lemma_pow256_pos((n - 1) as nat);
        assert(0 <= hi && hi < pow256((n - 1) as nat)) by (nonlinear_arith)
            requires
                v == 256 * hi + lo,
                0 <= lo < 256,
                v >= 0,
                v < 256 * pow256((n - 1) as nat),
                pow256((n - 1) as nat) >= 1;
        lemma_le_round_trip(hi, (n - 1) as nat);
        let s = le_bytes(v, n);
        lemma_le_bytes_len(v, n);
        assert(s.drop_first() =~= le_bytes(hi, (n - 1) as nat));
    }
}

/// A byte string is the little-endian encoding of its own value.
pub proof fn lemma_le_bytes_of_val(s: Seq<u8>)
    ensures
        le_bytes(le_val(s), s.len()) == s,
    decreases s.len(),
{
    if s.len() == 0 {
        assert(le_bytes(0, 0) =~= s);
    } else {
        let rest = s.drop_first();
        lemma_le_val_bound(rest);
        lemma_le_bytes_of_val(rest);
        let v = le_val(s);
        vstd::arithmetic::div_mod::lemma_fundamental_div_mod(v, 256);
        assert(v / 256 == le_val(rest) && v % 256 == s[0]) by (nonlinear_arith)
            requires
                v == 256 * (v / 256) + (v % 256),
                0 <= v % 256 < 256,
                v == s[0] + 256 * le_val(rest),
                0 <= s[0] < 256,
                0 <= le_val(rest);
        assert(le_bytes(v, s.len()) =~= s);
    }
}

/// The value of an `n`-byte string is below `256 ^ n`.
pub proof fn lemma_le_val_bound(s: Seq<u8>)
    ensures
        0 <= le_val(s) < pow256(s.len()),
    decreases s.len(),
{
    if s.len() == 0 {
    } else {
        lemma_le_val_bound(s.drop_first());
    }
}

/// Reads `n` little-endian bytes as an unsigned value.
pub fn read_le(bytes: &Vec<u8>, pos: usize, n: usize) -> (r: u64)
    requires
        pos + n <= bytes@.len(),
        n <= 8,
    ensures
        r == le_val(bytes@.subrange(pos as int, pos + n)),
        r < pow256(n as nat),
    decreases n,
{
    proof {
        lemma_pow256_pos(n as nat);
    }
    let blen = bytes.len();
    if n == 0 {
        assert(bytes@.subrange(pos as int, pos as int) =~= Seq::<u8>::empty());
        0
    } else {
        let b = bytes[pos];
        let rest = read_le(bytes, pos + 1, n - 1);
        proof {
            let s = bytes@.subrange(pos as int, pos + n);
            assert(s.drop_first() =~= bytes@.subrange(pos + 1, pos + 1 + (n - 1)));
            assert(rest < pow256((n - 1) as nat));
            assert(256 * pow256((n - 1) as nat) == pow256(n as nat));
            assert(b + 256 * rest < pow256(n as nat)) by (nonlinear_arith)
                requires
                    b < 256,
                    rest < pow256((n - 1) as nat),
                    rest >= 0,
                    256 * pow256((n - 1) as nat) == pow256(n as nat);
            assert(pow256(8) == 0x10000000000000000) by {
                reveal_with_fuel(pow256, 9);
            }
            assert(pow256(n as nat) <= pow256(8)) by {
                lemma_pow256_mono(n as nat, 8);
            }
        }
        b as u64 + 256 * rest
    }
}

pub proof fn lemma_pow256_mono(a: nat, b: nat)
    requires
        a <= b,
    ensures
        pow256(a) <= pow256(b),
    decreases b,
{
    if a < b {
        lemma_pow256_mono(a, (b - 1) as nat);
        lemma_pow256_pos((b - 1) as nat);
    }
}

/// Appends the `n`-byte little-endian encoding of `v`.
pub fn write_le(out: &mut Vec<u8>, v: u64, n: usize) -> (r: ())
    ensures
        final(out)@ == old(out)@ + le_bytes(v as int, n as nat),
    decreases n,
{
    if n == 0 {
        assert(out@ =~= out@ + le_bytes(v as int, 0));
    } else {
        let b: u8 = (v % 256) as u8;
        out.push(b);
        write_le(out, v / 256, n - 1);
        assert(out@ =~= old(out)@ + le_bytes(v as int, n as nat));
    }
}

/// The canonical compact encoding of a length or count.
///
/// Values below 253 are one byte; larger values use a marker byte followed
/// by a 2-, 4- or 8-byte little-endian integer, always the shortest form.
pub open spec fn spec_compact(v: u64) -> Seq<u8> {
    if v < 253 {
        seq![v as u8]
    } else if v <= 0xFFFF {
        seq![253u8] + le_bytes(v as int, 2)
    } else if v <= 0xFFFFFFFF {
        seq![254u8] + le_bytes(v as int, 4)
    } else {
        seq![255u8] + le_bytes(v as int, 8)
    }
}

/// Parses a compact length prefix, returning the value and the number of
/// bytes consumed; rejects truncated input and non-minimal encodings.
pub open spec fn parse_compact(s: Seq<u8>) -> Option<(u64, int)> {
    if s.len() < 1 {
        None
    } else if s[0] < 253 {
        Some((s[0] as u64, 1))
    } else if s[0] == 253 {
        if s.len() >= 3 {
            let v = le_val(s.subrange(1, 3));
            if v >= 253 { Some((v as u64, 3)) } else { None }
        } else {
            None
        }
    } else if s[0] == 254 {
        if s.len() >= 5 {
            let v = le_val(s.subrange(1, 5));
            if v >= 0x10000 { Some((v as u64, 5)) } else { None }
        } else {
            None
        }
    } else {
        if s.len() >= 9 {
            let v = le_val(s.subrange(1, 9));
            if v >= 0x100000000 { Some((v as u64, 9)) } else { None }
        } else {
            None
        }
    }
}

/// A canonical compact encoding followed by anything parses back to the
/// encoded value.
pub proof fn lemma_compact_round_trip(v: u64, rest: Seq<u8>)
    ensures
        parse_compact(spec_compact(v) + rest) == Some((v, spec_compact(v).len() as int)),
{
    let s = spec_compact(v) + rest;
    if v < 253 {
        assert(s[0] == v as u8);
    } else if v <= 0xFFFF {
        lemma_le_bytes_len(v as int, 2);
        assert(s[0] == 253);
        assert(s.subrange(1, 3) =~= le_bytes(v as int, 2));
        assert(pow256(2) == 0x10000) by {
            reveal_with_fuel(pow256, 3);
        }
        lemma_le_round_trip(v as int, 2);
    } else if v <= 0xFFFFFFFF {
        lemma_le_bytes_len(v as int, 4);
        assert(s[0] == 254);
        assert(s.subrange(1, 5) =~= le_bytes(v as int, 4));
        assert(pow256(4) == 0x100000000) by {
            reveal_with_fuel(pow256, 5);
        }
        lemma_le_round_trip(v as int, 4);
    } else {
        lemma_le_bytes_len(v as int, 8);
        assert(s[0] == 255);
        assert(s.subrange(1, 9) =~= le_bytes(v as int, 8));
        assert(pow256(8) == 0x10000000000000000) by {
            reveal_with_fuel(pow256, 9);
        }
        lemma_le_round_trip(v as int, 8);
    }
}

/// Appends the compact encoding of `v`.
pub fn write_compact(out: &mut Vec<u8>, v: u64)
    ensures
        final(out)@ == old(out)@ + spec_compact(v),
{
    if v < 253 {
        out.push(v as u8);
        assert(out@ =~= old(out)@ + spec_compact(v));
    } else if v <= 0xFFFF {
        out.push(253u8);
        write_le(out, v, 2);
        assert(out@ =~= old(out)@ + spec_compact(v));
    } else if v <= 0xFFFFFFFF {
        out.push(254u8);
        write_le(out, v, 4);
        assert(out@ =~= old(out)@ + spec_compact(v));
    } else {
        out.push(255u8);
        write_le(out, v, 8);
        assert(out@ =~= old(out)@ + spec_compact(v));
    }
}

/// Reads a compact length prefix at `pos`.
pub fn read_compact(bytes: &Vec<u8>, pos: usize) -> (r: Result<(u64, usize), KeyError>)
    requires
        pos <= bytes@.len(),
    ensures
        match r {
            Ok((v, p)) => {
                &&& parse_compact(bytes@.skip(pos as int)) == Some((v, p - pos))
                &&& pos < p <= bytes@.len()
            },
            Err(e) => {
                &&& parse_compact(bytes@.skip(pos as int)) is None
                &&& e == KeyError::CorruptEncoding
            },
        },
{
    let ghost tail = bytes@.skip(pos as int);
    if pos >= bytes.len() {
        return Err(KeyError::CorruptEncoding);
    }
    let tag = bytes[pos];
    assert(tail[0] == tag);
    if tag < 253 {
        Ok((tag as u64, pos + 1))
    } else if tag == 253 {
        if bytes.len() - pos < 3 {
            return Err(KeyError::CorruptEncoding);
        }
        let v = read_le(bytes, pos + 1, 2);
        assert(tail.subrange(1, 3) =~= bytes@.subrange(pos + 1, pos + 3));
        if v >= 253 {
            Ok((v, pos + 3))
        } else {
            Err(KeyError::CorruptEncoding)
        }
    } else if tag == 254 {
        if bytes.len() - pos < 5 {
            return Err(KeyError::CorruptEncoding);
        }
        let v = read_le(bytes, pos + 1, 4);
        assert(tail.subrange(1, 5) =~= bytes@.subrange(pos + 1, pos + 5));
        if v >= 0x10000 {
            Ok((v, pos + 5))
        } else {
            Err(KeyError::CorruptEncoding)
        }
    } else {
        if bytes.len() - pos < 9 {
            return Err(KeyError::CorruptEncoding);
        }
        let v = read_le(bytes, pos + 1, 8);
        assert(tail.subrange(1, 9) =~= bytes@.subrange(pos + 1, pos + 9));
        if v >= 0x100000000 {
            Ok((v, pos + 9))
        } else {
            Err(KeyError::CorruptEncoding)
        }
    }
}

/// Returns a fresh vector with the same contents.
pub fn copy_bytes(v: &Vec<u8>) -> (r: Vec<u8>)
    ensures
        r@ == v@,
{
    let mut r: Vec<u8> = Vec::new();
    let mut i: usize = 0;
    while i < v.len()
        invariant
            i <= v@.len(),
            r@ == v@.subrange(0, i as int),
        decreases v@.len() - i,
    {
        r.push(v[i]);
        assert(r@ =~= v@.subrange(0, i + 1));
        i = i + 1;
    }
    assert(r@ =~= v@);
    r
}

/// Returns whether two byte vectors hold the same bytes.
pub fn bytes_eq(a: &Vec<u8>, b: &Vec<u8>) -> (r: bool)
    ensures
        r == (a@ == b@),
{
    if a.len() != b.len() {
        assert(a@ != b@);
        return false;
    }
    let mut i: usize = 0;
    while i < a.len()
        invariant
            a@.len() == b@.len(),
            i <= a@.len(),
            forall|j: int| 0 <= j < i ==> a@[j] == b@[j],
        decreases a@.len() - i,
    {
        if a[i] != b[i] {
            return false;
        }
        i = i + 1;
    }
    assert(a@ =~= b@);
    true
}

/// Appends all of `src` to `out`.
pub fn extend_bytes(out: &mut Vec<u8>, src: &Vec<u8>)
    ensures
        final(out)@ == old(out)@ + src@,
{
    let mut i: usize = 0;
    while i < src.len()
        invariant
            i <= src@.len(),
            out@ == old(out)@ + src@.subrange(0, i as int),
        decreases src@.len() - i,
    {
        out.push(src[i]);
        assert(out@ =~= old(out)@ + src@.subrange(0, i + 1));
        i = i + 1;
    }
    assert(out@ =~= old(out)@ + src@);
}

/// Reads `n` raw bytes at `pos` into a fresh vector.
pub fn read_bytes(bytes: &Vec<u8>, pos: usize, n: usize) -> (r: Result<(Vec<u8>, usize), KeyError>)
    requires
        pos <= bytes@.len(),
    ensures
        match r {
            Ok((v, p)) => {
                &&& pos + n <= bytes@.len()
                &&& v@ == bytes@.subrange(pos as int, pos + n)
                &&& p == pos + n
            },
            Err(e) => {
                &&& pos + n > bytes@.len()
                &&& e == KeyError::CorruptEncoding
            },
        },
{
    let blen = bytes.len();
    if n > blen - pos {
        return Err(KeyError::CorruptEncoding);
    }
    let mut v: Vec<u8> = Vec::new();
    let mut i: usize = 0;
    while i < n
        invariant
            pos + n <= blen,
            blen == bytes@.len(),
            i <= n,
            v@ == bytes@.subrange(pos as int, pos + i),
        decreases n - i,
    {
        v.push(bytes[pos + i]);
        assert(v@ =~= bytes@.subrange(pos as int, pos + i + 1));
        i = i + 1;
    }
    Ok((v, pos + n))
}

} // verus!
