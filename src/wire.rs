use vstd::prelude::*;
use vstd::arithmetic::div_mod::{lemma_mod_breakdown, lemma_small_mod};
use byteorder::{BigEndian, ByteOrder, LittleEndian};
use crate::error::{DecodeFailure, EwkbError};

verus! {

/// The value of bytes read least significant first.
pub open spec fn le_value(b: Seq<u8>) -> nat
    decreases b.len(),
{
    if b.len() == 0 {
        0
    } else {
        b[0] as nat + 256 * le_value(b.drop_first())
    }
}

/// The value of bytes read most significant first.
pub open spec fn be_value(b: Seq<u8>) -> nat
    decreases b.len(),
{
    if b.len() == 0 {
        0
    } else {
        be_value(b.drop_last()) * 256 + b.last() as nat
    }
}

/// The `n` lowest bytes of `v`, least significant first.
pub open spec fn le_bytes(v: nat, n: nat) -> Seq<u8>
    decreases n,
{
    if n == 0 {
        Seq::empty()
    } else {
        seq![(v % 256) as u8] + le_bytes(v / 256, (n - 1) as nat)
    }
}

/// The `n` lowest bytes of `v`, most significant first.
pub open spec fn be_bytes(v: nat, n: nat) -> Seq<u8>
    decreases n,
{
    if n == 0 {
        Seq::empty()
    } else {
        be_bytes(v / 256, (n - 1) as nat).push((v % 256) as u8)
    }
}

pub open spec fn bytes_value(b: Seq<u8>, little: bool) -> nat {
    if little {
        le_value(b)
    } else {
        be_value(b)
    }
}

pub open spec fn int_bytes(v: nat, n: nat, little: bool) -> Seq<u8> {
    if little {
        le_bytes(v, n)
    } else {
        be_bytes(v, n)
    }
}

/// A 32-bit word as it stands on the wire in the given byte order.
pub open spec fn word_bytes(v: u32, little: bool) -> Seq<u8> {
    int_bytes(v as nat, 4, little)
}

/// A 64-bit value as it stands on the wire in the given byte order.
pub open spec fn long_bytes(v: u64, little: bool) -> Seq<u8> {
    int_bytes(v as nat, 8, little)
}

pub open spec fn pow256(n: nat) -> nat
    decreases n,
{
    if n == 0 {
        1
    } else {
        256 * pow256((n - 1) as nat)
    }
}

proof fn lemma_pow256_pos(n: nat)
    ensures
        pow256(n) > 0,
    decreases n,
{
    if n > 0 {
        lemma_pow256_pos((n - 1) as nat);
    }
}

/// Reading back `n` bytes written from `v` gives `v` modulo 256^n.
pub proof fn lemma_int_bytes(v: nat, n: nat, little: bool)
    ensures
        int_bytes(v, n, little).len() == n,
        bytes_value(int_bytes(v, n, little), little) == v % pow256(n),
    decreases n,
{
    if n == 0 {
        assert(v % 1 == 0);
    } else {
        let m = (n - 1) as nat;
        lemma_int_bytes(v / 256, m, little);
        lemma_pow256_pos(m);
        lemma_mod_breakdown(v as int, 256, pow256(m) as int);
        if little {
            let b = le_bytes(v, n);
            assert(b.drop_first() =~= le_bytes(v / 256, m));
        } else {
            let b = be_bytes(v, n);
            assert(b.drop_last() =~= be_bytes(v / 256, m));
        }
    }
}

/// A 32-bit word survives being written and read back in either byte order.
pub proof fn lemma_word_bytes(v: u32, little: bool)
    ensures
        word_bytes(v, little).len() == 4,
        bytes_value(word_bytes(v, little), little) == v as nat,
{
    lemma_int_bytes(v as nat, 4, little);
    reveal_with_fuel(pow256, 5);
    assert(pow256(4) == 0x1_0000_0000nat);
    lemma_small_mod(v as nat, pow256(4));
}

/// A 64-bit value survives being written and read back in either byte order.
pub proof fn lemma_long_bytes(v: u64, little: bool)
    ensures
        long_bytes(v, little).len() == 8,
        bytes_value(long_bytes(v, little), little) == v as nat,
{
    lemma_int_bytes(v as nat, 8, little);
    reveal_with_fuel(pow256, 9);
    assert(pow256(8) == 0x1_0000_0000_0000_0000nat);
    lemma_small_mod(v as nat, pow256(8));
}

/// Relies on byteorder's `LittleEndian::read_u32`: the first four bytes, least
/// significant first.
#[verifier::external_body]
fn read_u32_le(buf: &[u8], pos: usize) -> (r: u32)
    requires
        pos + 4 <= buf@.len(),
    ensures
        r as nat == le_value(buf@.subrange(pos as int, pos + 4)),
{
    LittleEndian::read_u32(&buf[pos..])
}

/// Relies on byteorder's `BigEndian::read_u32`: the first four bytes, most
/// significant first.
#[verifier::external_body]
fn read_u32_be(buf: &[u8], pos: usize) -> (r: u32)
    requires
        pos + 4 <= buf@.len(),
    ensures
        r as nat == be_value(buf@.subrange(pos as int, pos + 4)),
{
    BigEndian::read_u32(&buf[pos..])
}

/// Relies on byteorder's `LittleEndian::read_u64`: the first eight bytes, least
/// significant first.
#[verifier::external_body]
fn read_u64_le(buf: &[u8], pos: usize) -> (r: u64)
    requires
        pos + 8 <= buf@.len(),
    ensures
        r as nat == le_value(buf@.subrange(pos as int, pos + 8)),
{
    LittleEndian::read_u64(&buf[pos..])
}

/// Relies on byteorder's `BigEndian::read_u64`: the first eight bytes, most
/// significant first.
#[verifier::external_body]
fn read_u64_be(buf: &[u8], pos: usize) -> (r: u64)
    requires
        pos + 8 <= buf@.len(),
    ensures
        r as nat == be_value(buf@.subrange(pos as int, pos + 8)),
{
    BigEndian::read_u64(&buf[pos..])
}

/// Relies on byteorder's `LittleEndian::write_u32`: the four bytes of `n`, least
/// significant first.
#[verifier::external_body]
fn u32_to_le(n: u32) -> (r: [u8; 4])
    ensures
        r@ == le_bytes(n as nat, 4),
{
    let mut b = [0u8; 4];
    LittleEndian::write_u32(&mut b, n);
    b
}

/// Relies on byteorder's `LittleEndian::write_u64`: the eight bytes of `n`, least
/// significant first.
#[verifier::external_body]
fn u64_to_le(n: u64) -> (r: [u8; 8])
    ensures
        r@ == le_bytes(n as nat, 8),
{
    let mut b = [0u8; 8];
    LittleEndian::write_u64(&mut b, n);
    b
}

/// The outcome of reading from position `i`: a value and the next position, or a failure.
pub type Parsed<T> = Result<(T, int), DecodeFailure>;

pub open spec fn parse_u32(s: Seq<u8>, i: int, little: bool) -> Parsed<u32> {
    if 0 <= i && i + 4 <= s.len() {
        Ok((bytes_value(s.subrange(i, i + 4), little) as u32, i + 4))
    } else {
        Err(DecodeFailure::UnexpectedEnd)
    }
}

pub open spec fn parse_u64(s: Seq<u8>, i: int, little: bool) -> Parsed<u64> {
    if 0 <= i && i + 8 <= s.len() {
        Ok((bytes_value(s.subrange(i, i + 8), little) as u64, i + 8))
    } else {
        Err(DecodeFailure::UnexpectedEnd)
    }
}

/// Passing over `n` bytes whose content is not needed.
pub open spec fn parse_skip(s: Seq<u8>, i: int, n: int) -> Result<int, DecodeFailure> {
    if 0 <= i && i + n <= s.len() {
        Ok(i + n)
    } else {
        Err(DecodeFailure::UnexpectedEnd)
    }
}

/// An exec result agrees with a parse outcome: same value and position, or same failure.
pub open spec fn agrees<T>(r: Result<T, EwkbError>, pos: usize, p: Parsed<T>) -> bool {
    match p {
        Ok((v, j)) => r == Ok::<T, EwkbError>(v) && pos == j,
        Err(e) => r is Err && r->Err_0@ == e,
    }
}

/// As `agrees`, comparing the value read through its view.
pub open spec fn agrees_view<T: View>(r: Result<T, EwkbError>, pos: usize, p: Parsed<T::V>) -> bool {
    match p {
        Ok((v, j)) => r is Ok && r->Ok_0@ == v && pos == j,
        Err(e) => r is Err && r->Err_0@ == e,
    }
}

/// An exec result agrees with the outcome of a whole decode.
pub open spec fn outcome<T>(r: Result<T, EwkbError>, d: Result<T, DecodeFailure>) -> bool {
    match d {
        Ok(v) => r == Ok::<T, EwkbError>(v),
        Err(e) => r is Err && r->Err_0@ == e,
    }
}

/// As `outcome`, comparing the value decoded through its view.
pub open spec fn outcome_view<T: View>(r: Result<T, EwkbError>, d: Result<T::V, DecodeFailure>) -> bool {
    match d {
        Ok(v) => r is Ok && r->Ok_0@ == v,
        Err(e) => r is Err && r->Err_0@ == e,
    }
}

/// The value of a parse, without the position it ends at.
pub open spec fn value_of<T>(p: Parsed<T>) -> Result<T, DecodeFailure> {
    match p {
        Ok((v, _)) => Ok(v),
        Err(e) => Err(e),
    }
}

pub fn read_u32(buf: &[u8], pos: &mut usize, little: bool) -> (r: Result<u32, EwkbError>)
    requires
        *old(pos) <= buf@.len(),
    ensures
        *final(pos) <= buf@.len(),
        *old(pos) <= *final(pos),
        agrees(r, *final(pos), parse_u32(buf@, *old(pos) as int, little)),
{
    if buf.len() - *pos < 4 {
        return Err(EwkbError::UnexpectedEnd);
    }
    let v = if little {
        read_u32_le(buf, *pos)
    } else {
        read_u32_be(buf, *pos)
    };
    *pos = *pos + 4;
    Ok(v)
}

pub fn read_u64(buf: &[u8], pos: &mut usize, little: bool) -> (r: Result<u64, EwkbError>)
    requires
        *old(pos) <= buf@.len(),
    ensures
        *final(pos) <= buf@.len(),
        *old(pos) <= *final(pos),
        agrees(r, *final(pos), parse_u64(buf@, *old(pos) as int, little)),
{
    if buf.len() - *pos < 8 {
        return Err(EwkbError::UnexpectedEnd);
    }
    let v = if little {
        read_u64_le(buf, *pos)
    } else {
        read_u64_be(buf, *pos)
    };
    *pos = *pos + 8;
    Ok(v)
}

pub fn skip(buf: &[u8], pos: &mut usize, n: usize) -> (r: Result<(), EwkbError>)
    requires
        *old(pos) <= buf@.len(),
    ensures
        *final(pos) <= buf@.len(),
        *old(pos) <= *final(pos),
        match parse_skip(buf@, *old(pos) as int, n as int) {
            Ok(j) => r is Ok && *final(pos) == j,
            Err(e) => r is Err && r->Err_0@ == e,
        },
{
    if buf.len() - *pos < n {
        return Err(EwkbError::UnexpectedEnd);
    }
    *pos = *pos + n;
    Ok(())
}

pub fn write_u32(out: &mut Vec<u8>, n: u32)
    ensures
        final(out)@ == old(out)@ + word_bytes(n, true),
{
    let b = u32_to_le(n);
    let mut i: usize = 0;
    while i < 4
        invariant
            i <= 4,
            b@ == le_bytes(n as nat, 4),
            le_bytes(n as nat, 4).len() == 4,
            out@ == old(out)@ + b@.subrange(0, i as int),
        decreases 4 - i,
    {
        out.push(b[i]);
        i = i + 1;
        assert(out@ =~= old(out)@ + b@.subrange(0, i as int));
    }
    assert(b@.subrange(0, 4) =~= b@);
}

pub fn write_u64(out: &mut Vec<u8>, n: u64)
    ensures
        final(out)@ == old(out)@ + long_bytes(n, true),
{
    let b = u64_to_le(n);
    proof {
        lemma_int_bytes(n as nat, 8, true);
    }
    let mut i: usize = 0;
    while i < 8
        invariant
            i <= 8,
            b@ == le_bytes(n as nat, 8),
            b@.len() == 8,
            out@ == old(out)@ + b@.subrange(0, i as int),
        decreases 8 - i,
    {
        out.push(b[i]);
        i = i + 1;
        assert(out@ =~= old(out)@ + b@.subrange(0, i as int));
    }
    assert(b@.subrange(0, 8) =~= b@);
}

} // verus!
