//! The binary wire encoding of the bootstrap discovery protocol: the
//! MessagePack subset the protocol's payloads use.  Encoders produce the
//! canonical (minimal-length) form; decoders accept exactly that form, so
//! decoding is the inverse of encoding and every decoded value re-encodes
//! to the bytes it came from.
//!
//! Layout, spec-level: `spec_enc_*` give the exact bytes of a value,
//! `spec_dec_*` give the value and the number of bytes consumed from the
//! front of a byte sequence (or `None` for malformed input).  Every
//! executable encoder and decoder is proved equal to its spec twin.

use vstd::prelude::*;

use crate::error::{KitsuneError, KitsuneResult};

verus! {

/// Big-endian bytes of the low 16 bits of `v`.
pub open spec fn be2(v: u64) -> Seq<u8> {
    seq![((v >> 8) & 0xff) as u8, (v & 0xff) as u8]
}

/// Big-endian bytes of the low 32 bits of `v`.
pub open spec fn be4(v: u64) -> Seq<u8> {
    seq![
        ((v >> 24) & 0xff) as u8,
        ((v >> 16) & 0xff) as u8,
        ((v >> 8) & 0xff) as u8,
        (v & 0xff) as u8,
    ]
}

/// Big-endian bytes of `v`.
pub open spec fn be8(v: u64) -> Seq<u8> {
    seq![
        ((v >> 56) & 0xff) as u8,
        ((v >> 48) & 0xff) as u8,
        ((v >> 40) & 0xff) as u8,
        ((v >> 32) & 0xff) as u8,
        ((v >> 24) & 0xff) as u8,
        ((v >> 16) & 0xff) as u8,
        ((v >> 8) & 0xff) as u8,
        (v & 0xff) as u8,
    ]
}

fn push_be2(out: &mut Vec<u8>, v: u64)
    ensures
        final(out)@ == old(out)@ + be2(v),
{
    out.push(((v >> 8) & 0xff) as u8);
    out.push((v & 0xff) as u8);
    assert(out@ =~= old(out)@ + be2(v));
}

fn push_be4(out: &mut Vec<u8>, v: u64)
    ensures
        final(out)@ == old(out)@ + be4(v),
{
    out.push(((v >> 24) & 0xff) as u8);
    out.push(((v >> 16) & 0xff) as u8);
    out.push(((v >> 8) & 0xff) as u8);
    out.push((v & 0xff) as u8);
    assert(out@ =~= old(out)@ + be4(v));
}

fn push_be8(out: &mut Vec<u8>, v: u64)
    ensures
        final(out)@ == old(out)@ + be8(v),
{
    out.push(((v >> 56) & 0xff) as u8);
    out.push(((v >> 48) & 0xff) as u8);
    out.push(((v >> 40) & 0xff) as u8);
    out.push(((v >> 32) & 0xff) as u8);
    out.push(((v >> 24) & 0xff) as u8);
    out.push(((v >> 16) & 0xff) as u8);
    out.push(((v >> 8) & 0xff) as u8);
    out.push((v & 0xff) as u8);
    assert(out@ =~= old(out)@ + be8(v));
}

/// Canonical encoding of an unsigned integer: the shortest MessagePack
/// form that holds the value.
pub open spec fn spec_enc_uint(v: u64) -> Seq<u8> {
    if v <= 0x7f {
        seq![v as u8]
    } else if v <= 0xff {
        seq![0xccu8, v as u8]
    } else if v <= 0xffff {
        seq![0xcdu8] + be2(v)
    } else if v <= 0xffff_ffff {
        seq![0xceu8] + be4(v)
    } else {
        seq![0xcfu8] + be8(v)
    }
}

/// Decode an unsigned integer from the front of `s`: the value and the
/// bytes consumed.  Only the canonical form is accepted.
pub open spec fn spec_dec_uint(s: Seq<u8>) -> Option<(u64, int)> {
    if s.len() < 1 {
        None
    } else {
        let b = s[0];
        if b <= 0x7f {
            Some((b as u64, 1int))
        } else if b == 0xcc {
            if s.len() >= 2 && s[1] > 0x7f {
                Some((s[1] as u64, 2int))
            } else {
                None
            }
        } else if b == 0xcd {
            if s.len() >= 3 {
                let v = (s[1] as u64) << 8 | (s[2] as u64);
                if v > 0xff {
                    Some((v, 3int))
                } else {
                    None
                }
            } else {
                None
            }
        } else if b == 0xce {
            if s.len() >= 5 {
                let v = (s[1] as u64) << 24 | (s[2] as u64) << 16 | (s[3] as u64) << 8 | (
                s[4] as u64);
                if v > 0xffff {
                    Some((v, 5int))
                } else {
                    None
                }
            } else {
                None
            }
        } else if b == 0xcf {
            if s.len() >= 9 {
                let v = (s[1] as u64) << 56 | (s[2] as u64) << 48 | (s[3] as u64) << 40 | (
                s[4] as u64) << 32 | (s[5] as u64) << 24 | (s[6] as u64) << 16 | (s[7] as u64) << 8
                    | (s[8] as u64);
                if v > 0xffff_ffff {
                    Some((v, 9int))
                } else {
                    None
                }
            } else {
                None
            }
        } else {
            None
        }
    }
}

/// Decoding inverts encoding: the canonical bytes of `v`, followed by
/// anything, decode to `v`, consuming exactly those bytes.
pub proof fn lemma_dec_enc_uint(v: u64, rest: Seq<u8>)
    ensures
        spec_dec_uint(spec_enc_uint(v) + rest) == Some((v, spec_enc_uint(v).len() as int)),
{
    let s = spec_enc_uint(v) + rest;
    if v <= 0x7f {
        assert(s[0] == v as u8);
        assert((v as u8) as u64 == v) by (bit_vector)
            requires
                v <= 0x7f,
        ;
    } else if v <= 0xff {
        assert(s[0] == 0xccu8 && s[1] == v as u8);
        assert((v as u8) as u64 == v && (v as u8) > 0x7f) by (bit_vector)
            requires
                0x7f < v <= 0xff,
        ;
    } else if v <= 0xffff {
        assert(s[0] == 0xcdu8 && s[1] == ((v >> 8) & 0xff) as u8 && s[2] == (v & 0xff) as u8);
        assert(((((v >> 8) & 0xff) as u8) as u64) << 8 | (((v & 0xff) as u8) as u64) == v) by (bit_vector)
            requires
                v <= 0xffff,
        ;
    } else if v <= 0xffff_ffff {
        assert(s[0] == 0xceu8 && s[1] == ((v >> 24) & 0xff) as u8 && s[2] == ((v >> 16) & 0xff) as u8
            && s[3] == ((v >> 8) & 0xff) as u8 && s[4] == (v & 0xff) as u8);
        assert(((((v >> 24) & 0xff) as u8) as u64) << 24 | ((((v >> 16) & 0xff) as u8) as u64) << 16
            | ((((v >> 8) & 0xff) as u8) as u64) << 8 | (((v & 0xff) as u8) as u64) == v) by (bit_vector)
            requires
                v <= 0xffff_ffff,
        ;
    } else {
        assert(s[0] == 0xcfu8 && s[1] == ((v >> 56) & 0xff) as u8 && s[2] == ((v >> 48) & 0xff) as u8
            && s[3] == ((v >> 40) & 0xff) as u8 && s[4] == ((v >> 32) & 0xff) as u8 && s[5] == ((v
            >> 24) & 0xff) as u8 && s[6] == ((v >> 16) & 0xff) as u8 && s[7] == ((v >> 8)
            & 0xff) as u8 && s[8] == (v & 0xff) as u8);
        assert(((((v >> 56) & 0xff) as u8) as u64) << 56 | ((((v >> 48) & 0xff) as u8) as u64) << 48
            | ((((v >> 40) & 0xff) as u8) as u64) << 40 | ((((v >> 32) & 0xff) as u8) as u64) << 32
            | ((((v >> 24) & 0xff) as u8) as u64) << 24 | ((((v >> 16) & 0xff) as u8) as u64) << 16
            | ((((v >> 8) & 0xff) as u8) as u64) << 8 | (((v & 0xff) as u8) as u64) == v) by (bit_vector)
            requires
                v > 0xffff_ffff,
        ;
    }
}

/// Append the canonical encoding of `v` to `out`.
pub fn enc_uint(out: &mut Vec<u8>, v: u64)
    ensures
        final(out)@ == old(out)@ + spec_enc_uint(v),
{
    if v <= 0x7f {
        out.push(v as u8);
        assert(out@ =~= old(out)@ + spec_enc_uint(v));
    } else if v <= 0xff {
        out.push(0xcc);
        out.push(v as u8);
        assert(out@ =~= old(out)@ + spec_enc_uint(v));
    } else if v <= 0xffff {
        out.push(0xcd);
        push_be2(out, v);
        assert(out@ =~= old(out)@ + spec_enc_uint(v));
    } else if v <= 0xffff_ffff {
        out.push(0xce);
        push_be4(out, v);
        assert(out@ =~= old(out)@ + spec_enc_uint(v));
    } else {
        out.push(0xcf);
        push_be8(out, v);
        assert(out@ =~= old(out)@ + spec_enc_uint(v));
    }
}

/// Decode an unsigned integer at `pos`; returns the value and the
/// position just past it.  Exactly the inputs `spec_dec_uint` accepts
/// decode; everything else is an `EncodingError`.
pub fn dec_uint(buf: &Vec<u8>, pos: usize) -> (r: KitsuneResult<(u64, usize)>)
    requires
        pos <= buf@.len(),
    ensures
        spec_dec_uint(buf@.skip(pos as int)) matches Some(p) ==> (r matches Ok(q) && q.0 == p.0
            && q.1 == pos + p.1),
        spec_dec_uint(buf@.skip(pos as int)) is None ==> r == Err::<(u64, usize), KitsuneError>(
            KitsuneError::EncodingError,
        ),
{
    let ghost s = buf@.skip(pos as int);
    if pos >= buf.len() {
        return Err(KitsuneError::EncodingError);
    }
    let b = buf[pos];
    assert(b == s[0]);
    if b <= 0x7f {
        Ok((b as u64, pos + 1))
    } else if b == 0xcc {
        if buf.len() - pos >= 2 && buf[pos + 1] > 0x7f {
            assert(buf@[pos + 1] == s[1]);
            Ok((buf[pos + 1] as u64, pos + 2))
        } else {
            assert(s.len() >= 2 ==> s[1] == buf@[pos + 1]);
            Err(KitsuneError::EncodingError)
        }
    } else if b == 0xcd {
        if buf.len() - pos >= 3 {
            assert(buf@[pos + 1] == s[1] && buf@[pos + 2] == s[2]);
            let v = (buf[pos + 1] as u64) << 8 | (buf[pos + 2] as u64);
            if v > 0xff {
                Ok((v, pos + 3))
            } else {
                Err(KitsuneError::EncodingError)
            }
        } else {
            Err(KitsuneError::EncodingError)
        }
    } else if b == 0xce {
        if buf.len() - pos >= 5 {
            assert(buf@[pos + 1] == s[1] && buf@[pos + 2] == s[2] && buf@[pos + 3] == s[3] && buf@[
                pos + 4] == s[4]);
            let v = (buf[pos + 1] as u64) << 24 | (buf[pos + 2] as u64) << 16 | (buf[pos
                + 3] as u64) << 8 | (buf[pos + 4] as u64);
            if v > 0xffff {
                Ok((v, pos + 5))
            } else {
                Err(KitsuneError::EncodingError)
            }
        } else {
            Err(KitsuneError::EncodingError)
        }
    } else if b == 0xcf {
        if buf.len() - pos >= 9 {
            assert(buf@[pos + 1] == s[1] && buf@[pos + 2] == s[2] && buf@[pos + 3] == s[3] && buf@[
                pos + 4] == s[4] && buf@[pos + 5] == s[5] && buf@[pos + 6] == s[6] && buf@[pos + 7]
                == s[7] && buf@[pos + 8] == s[8]);
            let v = (buf[pos + 1] as u64) << 56 | (buf[pos + 2] as u64) << 48 | (buf[pos
                + 3] as u64) << 40 | (buf[pos + 4] as u64) << 32 | (buf[pos + 5] as u64) << 24 | (
            buf[pos + 6] as u64) << 16 | (buf[pos + 7] as u64) << 8 | (buf[pos + 8] as u64);
            if v > 0xffff_ffff {
                Ok((v, pos + 9))
            } else {
                Err(KitsuneError::EncodingError)
            }
        } else {
            Err(KitsuneError::EncodingError)
        }
    } else {
        Err(KitsuneError::EncodingError)
    }
}

/// The encoding of "no value": MessagePack nil.
pub open spec fn spec_enc_nil() -> Seq<u8> {
    seq![0xc0u8]
}

/// Decode nil from the front of `s`: the bytes consumed.
pub open spec fn spec_dec_nil(s: Seq<u8>) -> Option<int> {
    if s.len() >= 1 && s[0] == 0xc0 {
        Some(1int)
    } else {
        None
    }
}

/// Append nil to `out`.
pub fn enc_nil(out: &mut Vec<u8>)
    ensures
        final(out)@ == old(out)@ + spec_enc_nil(),
{
    out.push(0xc0);
    assert(out@ =~= old(out)@ + spec_enc_nil());
}

/// Decode nil at `pos`; returns the position just past it.
pub fn dec_nil(buf: &Vec<u8>, pos: usize) -> (r: KitsuneResult<usize>)
    requires
        pos <= buf@.len(),
    ensures
        spec_dec_nil(buf@.skip(pos as int)) matches Some(n) ==> r == Ok::<usize, KitsuneError>(
            (pos + n) as usize,
        ),
        spec_dec_nil(buf@.skip(pos as int)) is None ==> r == Err::<usize, KitsuneError>(
            KitsuneError::EncodingError,
        ),
{
    if pos < buf.len() && buf[pos] == 0xc0 {
        assert(buf@[pos as int] == buf@.skip(pos as int)[0]);
        Ok(pos + 1)
    } else {
        assert(pos < buf@.len() ==> buf@[pos as int] == buf@.skip(pos as int)[0]);
        Err(KitsuneError::EncodingError)
    }
}

/// Canonical encoding of a byte string: the shortest MessagePack bin
/// form.  Meaningful for lengths up to what four big-endian bytes hold.
pub open spec fn spec_enc_bin(b: Seq<u8>) -> Seq<u8> {
    if b.len() <= 0xff {
        seq![0xc4u8, b.len() as u8] + b
    } else if b.len() <= 0xffff {
        seq![0xc5u8] + be2(b.len() as u64) + b
    } else {
        seq![0xc6u8] + be4(b.len() as u64) + b
    }
}

/// Decode a byte string from the front of `s`: the bytes and the count
/// consumed.  Only the canonical form is accepted.
pub open spec fn spec_dec_bin(s: Seq<u8>) -> Option<(Seq<u8>, int)> {
    if s.len() < 1 {
        None
    } else if s[0] == 0xc4 {
        if s.len() >= 2 {
            let n = s[1] as int;
            if s.len() >= 2 + n {
                Some((s.subrange(2, 2 + n), 2 + n))
            } else {
                None
            }
        } else {
            None
        }
    } else if s[0] == 0xc5 {
        if s.len() >= 3 {
            let n = ((s[1] as u64) << 8 | (s[2] as u64)) as int;
            if n > 0xff && s.len() >= 3 + n {
                Some((s.subrange(3, 3 + n), 3 + n))
            } else {
                None
            }
        } else {
            None
        }
    } else if s[0] == 0xc6 {
        if s.len() >= 5 {
            let n = ((s[1] as u64) << 24 | (s[2] as u64) << 16 | (s[3] as u64) << 8 | (
            s[4] as u64)) as int;
            if n > 0xffff && s.len() >= 5 + n {
                Some((s.subrange(5, 5 + n), 5 + n))
            } else {
                None
            }
        } else {
            None
        }
    } else {
        None
    }
}

/// A decoded byte string consumed between 1 and `s.len()` bytes.
pub proof fn lemma_dec_bin_bounds(s: Seq<u8>)
    ensures
        spec_dec_bin(s) matches Some(p) ==> 1 <= p.1 <= s.len(),
{
}

/// Decoding inverts encoding for byte strings.
pub proof fn lemma_dec_enc_bin(b: Seq<u8>, rest: Seq<u8>)
    requires
        b.len() <= 0xffff_ffff,
    ensures
        spec_dec_bin(spec_enc_bin(b) + rest) == Some((b, spec_enc_bin(b).len() as int)),
{
    let s = spec_enc_bin(b) + rest;
    let len = b.len() as u64;
    if b.len() <= 0xff {
        assert(s[0] == 0xc4u8 && s[1] == len as u8);
        assert((len as u8) as int == len as int) by (bit_vector)
            requires
                len <= 0xff,
        ;
        assert(s.subrange(2, 2 + b.len() as int) =~= b);
    } else if b.len() <= 0xffff {
        assert(s[0] == 0xc5u8 && s[1] == ((len >> 8) & 0xff) as u8 && s[2] == (len & 0xff) as u8);
        assert(((((len >> 8) & 0xff) as u8) as u64) << 8 | (((len & 0xff) as u8) as u64) == len
            && len > 0xff) by (bit_vector)
            requires
                0xff < len <= 0xffff,
        ;
        assert(s.subrange(3, 3 + b.len() as int) =~= b);
    } else {
        assert(s[0] == 0xc6u8 && s[1] == ((len >> 24) & 0xff) as u8 && s[2] == ((len >> 16)
            & 0xff) as u8 && s[3] == ((len >> 8) & 0xff) as u8 && s[4] == (len & 0xff) as u8);
        assert(((((len >> 24) & 0xff) as u8) as u64) << 24 | ((((len >> 16) & 0xff) as u8) as u64)
            << 16 | ((((len >> 8) & 0xff) as u8) as u64) << 8 | (((len & 0xff) as u8) as u64) == len
            && len > 0xffff) by (bit_vector)
            requires
                0xffff < len <= 0xffff_ffff,
        ;
        assert(s.subrange(5, 5 + b.len() as int) =~= b);
    }
}

/// Append the canonical encoding of the byte string `b` to `out`.
pub fn enc_bin(out: &mut Vec<u8>, b: &Vec<u8>)
    requires
        b@.len() <= 0xffff_ffff,
    ensures
        final(out)@ == old(out)@ + spec_enc_bin(b@),
{
    let n = b.len();
    if n <= 0xff {
        out.push(0xc4);
        out.push(n as u8);
    } else if n <= 0xffff {
        out.push(0xc5);
        push_be2(out, n as u64);
    } else {
        out.push(0xc6);
        push_be4(out, n as u64);
    }
    out.extend_from_slice(b.as_slice());
    assert(out@ =~= old(out)@ + spec_enc_bin(b@));
}

/// Decode a byte string at `pos`; returns the bytes and the position just
/// past them.
pub fn dec_bin(buf: &Vec<u8>, pos: usize) -> (r: KitsuneResult<(Vec<u8>, usize)>)
    requires
        pos <= buf@.len(),
    ensures
        spec_dec_bin(buf@.skip(pos as int)) matches Some(p) ==> (r matches Ok(q) && q.0@ == p.0
            && q.1 == pos + p.1),
        spec_dec_bin(buf@.skip(pos as int)) is None ==> r == Err::<(Vec<u8>, usize), KitsuneError>(
            KitsuneError::EncodingError,
        ),
{
    let ghost s = buf@.skip(pos as int);
    if pos >= buf.len() {
        return Err(KitsuneError::EncodingError);
    }
    let b = buf[pos];
    assert(b == s[0]);
    let (n, data_pos): (usize, usize) = if b == 0xc4 {
        if buf.len() - pos >= 2 {
            assert(buf@[pos + 1] == s[1]);
            (buf[pos + 1] as usize, pos + 2)
        } else {
            return Err(KitsuneError::EncodingError);
        }
    } else if b == 0xc5 {
        if buf.len() - pos >= 3 {
            assert(buf@[pos + 1] == s[1] && buf@[pos + 2] == s[2]);
            let b1 = buf[pos + 1];
            let b2 = buf[pos + 2];
            let v = (b1 as u64) << 8 | (b2 as u64);
            if v > 0xff {
                assert(v <= 0xffff) by (bit_vector)
                    requires
                        v == (b1 as u64) << 8 | (b2 as u64),
                ;
                (v as usize, pos + 3)
            } else {
                return Err(KitsuneError::EncodingError);
            }
        } else {
            return Err(KitsuneError::EncodingError);
        }
    } else if b == 0xc6 {
        if buf.len() - pos >= 5 {
            assert(buf@[pos + 1] == s[1] && buf@[pos + 2] == s[2] && buf@[pos + 3] == s[3] && buf@[
                pos + 4] == s[4]);
            let b1 = buf[pos + 1];
            let b2 = buf[pos + 2];
            let b3 = buf[pos + 3];
            let b4 = buf[pos + 4];
            let v = (b1 as u64) << 24 | (b2 as u64) << 16 | (b3 as u64) << 8 | (b4 as u64);
            if v > 0xffff {
                assert(v <= 0xffff_ffff) by (bit_vector)
                    requires
                        v == (b1 as u64) << 24 | (b2 as u64) << 16 | (b3 as u64) << 8 | (
                        b4 as u64),
                ;
                (v as usize, pos + 5)
            } else {
                return Err(KitsuneError::EncodingError);
            }
        } else {
            return Err(KitsuneError::EncodingError);
        }
    } else {
        return Err(KitsuneError::EncodingError);
    };
    if n > buf.len() - data_pos {
        return Err(KitsuneError::EncodingError);
    }
    let mut data: Vec<u8> = Vec::new();
    let mut i: usize = 0;
    while i < n
        invariant
            data_pos + n <= buf@.len(),
            buf@.len() <= usize::MAX,
            i <= n,
            data@ == buf@.subrange(data_pos as int, data_pos + i),
        decreases n - i,
    {
        data.push(buf[data_pos + i]);
        i = i + 1;
        assert(data@ =~= buf@.subrange(data_pos as int, data_pos + i));
    }
    assert(data@ =~= buf@.skip(pos as int).subrange(data_pos - pos, data_pos - pos + n));
    Ok((data, data_pos + n))
}

} // verus!

use crate::types::{
    AgentInfo,
    AgentInfoSigned,
    AgentInfoSignedView,
    AgentInfoView,
    KitsuneAgent,
    KitsuneSignature,
    RandomQuery,
};

verus! {

/// Canonical encoding of a UTF-8 string, given as its bytes: the
/// shortest MessagePack str form.
pub open spec fn spec_enc_str(b: Seq<u8>) -> Seq<u8> {
    if b.len() <= 31 {
        seq![(0xa0 + b.len()) as u8] + b
    } else if b.len() <= 0xff {
        seq![0xd9u8, b.len() as u8] + b
    } else if b.len() <= 0xffff {
        seq![0xdau8] + be2(b.len() as u64) + b
    } else {
        seq![0xdbu8] + be4(b.len() as u64) + b
    }
}

/// Append the canonical str encoding of the bytes `b` to `out`.
pub fn enc_str(out: &mut Vec<u8>, b: &Vec<u8>)
    requires
        b@.len() <= 0xffff_ffff,
    ensures
        final(out)@ == old(out)@ + spec_enc_str(b@),
{
    let n = b.len();
    if n <= 31 {
        out.push((0xa0 + n) as u8);
    } else if n <= 0xff {
        out.push(0xd9);
        out.push(n as u8);
    } else if n <= 0xffff {
        out.push(0xda);
        push_be2(out, n as u64);
    } else {
        out.push(0xdb);
        push_be4(out, n as u64);
    }
    out.extend_from_slice(b.as_slice());
    assert(final(out)@ =~= old(out)@ + spec_enc_str(b@));
}

/// Canonical encoding of an array header for `n` elements.
pub open spec fn spec_enc_arr_len(n: nat) -> Seq<u8> {
    if n <= 15 {
        seq![(0x90 + n) as u8]
    } else if n <= 0xffff {
        seq![0xdcu8] + be2(n as u64)
    } else {
        seq![0xddu8] + be4(n as u64)
    }
}

/// Decode an array header from the front of `s`: the element count and
/// the bytes consumed.  Only the canonical form is accepted.
pub open spec fn spec_dec_arr_len(s: Seq<u8>) -> Option<(u64, int)> {
    if s.len() < 1 {
        None
    } else if 0x90 <= s[0] <= 0x9f {
        Some(((s[0] - 0x90) as u64, 1int))
    } else if s[0] == 0xdc {
        if s.len() >= 3 {
            let n = (s[1] as u64) << 8 | (s[2] as u64);
            if n > 15 {
                Some((n, 3int))
            } else {
                None
            }
        } else {
            None
        }
    } else if s[0] == 0xdd {
        if s.len() >= 5 {
            let n = (s[1] as u64) << 24 | (s[2] as u64) << 16 | (s[3] as u64) << 8 | (s[4] as u64);
            if n > 0xffff {
                Some((n, 5int))
            } else {
                None
            }
        } else {
            None
        }
    } else {
        None
    }
}

/// Append the canonical array header for `n` elements to `out`.
pub fn enc_arr_len(out: &mut Vec<u8>, n: usize)
    requires
        n <= 0xffff_ffff,
    ensures
        final(out)@ == old(out)@ + spec_enc_arr_len(n as nat),
{
    if n <= 15 {
        out.push((0x90 + n) as u8);
    } else if n <= 0xffff {
        out.push(0xdc);
        push_be2(out, n as u64);
    } else {
        out.push(0xdd);
        push_be4(out, n as u64);
    }
    assert(final(out)@ =~= old(out)@ + spec_enc_arr_len(n as nat));
}

/// Decoding inverts encoding for array headers.
pub proof fn lemma_dec_enc_arr_len(n: nat, rest: Seq<u8>)
    requires
        n <= 0xffff_ffff,
    ensures
        spec_dec_arr_len(spec_enc_arr_len(n) + rest) == Some(
            (n as u64, spec_enc_arr_len(n).len() as int),
        ),
{
    let s = spec_enc_arr_len(n) + rest;
    let v = n as u64;
    if n <= 15 {
        assert(s[0] == (0x90 + n) as u8);
        assert(0x90 <= ((0x90 + v) as u8) <= 0x9f && (((0x90 + v) as u8) - 0x90) as u64
            == v) by (bit_vector)
            requires
                v <= 15,
        ;
    } else if n <= 0xffff {
        assert(s[0] == 0xdcu8 && s[1] == ((v >> 8) & 0xff) as u8 && s[2] == (v & 0xff) as u8);
        assert(((((v >> 8) & 0xff) as u8) as u64) << 8 | (((v & 0xff) as u8) as u64) == v && v
            > 15) by (bit_vector)
            requires
                15 < v <= 0xffff,
        ;
    } else {
        assert(s[0] == 0xddu8 && s[1] == ((v >> 24) & 0xff) as u8 && s[2] == ((v >> 16)
            & 0xff) as u8 && s[3] == ((v >> 8) & 0xff) as u8 && s[4] == (v & 0xff) as u8);
        assert(((((v >> 24) & 0xff) as u8) as u64) << 24 | ((((v >> 16) & 0xff) as u8) as u64) << 16
            | ((((v >> 8) & 0xff) as u8) as u64) << 8 | (((v & 0xff) as u8) as u64) == v && v
            > 0xffff) by (bit_vector)
            requires
                0xffff < v <= 0xffff_ffff,
        ;
    }
}

/// Decode an array header at `pos`; returns the element count and the
/// position just past the header.
pub fn dec_arr_len(buf: &Vec<u8>, pos: usize) -> (r: KitsuneResult<(usize, usize)>)
    requires
        pos <= buf@.len(),
    ensures
        spec_dec_arr_len(buf@.skip(pos as int)) matches Some(p) ==> (r matches Ok(q) && q.0 == p.0
            && q.1 == pos + p.1),
        spec_dec_arr_len(buf@.skip(pos as int)) is None ==> r == Err::<(usize, usize), KitsuneError>(
            KitsuneError::EncodingError,
        ),
{
    let ghost s = buf@.skip(pos as int);
    if pos >= buf.len() {
        return Err(KitsuneError::EncodingError);
    }
    let b = buf[pos];
    assert(b == s[0]);
    if 0x90 <= b && b <= 0x9f {
        Ok(((b - 0x90) as usize, pos + 1))
    } else if b == 0xdc {
        if buf.len() - pos >= 3 {
            assert(buf@[pos + 1] == s[1] && buf@[pos + 2] == s[2]);
            let b1 = buf[pos + 1];
            let b2 = buf[pos + 2];
            let n = (b1 as u64) << 8 | (b2 as u64);
            if n > 15 {
                assert(n <= 0xffff) by (bit_vector)
                    requires
                        n == (b1 as u64) << 8 | (b2 as u64),
                ;
                Ok((n as usize, pos + 3))
            } else {
                Err(KitsuneError::EncodingError)
            }
        } else {
            Err(KitsuneError::EncodingError)
        }
    } else if b == 0xdd {
        if buf.len() - pos >= 5 {
            assert(buf@[pos + 1] == s[1] && buf@[pos + 2] == s[2] && buf@[pos + 3] == s[3] && buf@[
                pos + 4] == s[4]);
            let b1 = buf[pos + 1];
            let b2 = buf[pos + 2];
            let b3 = buf[pos + 3];
            let b4 = buf[pos + 4];
            let n = (b1 as u64) << 24 | (b2 as u64) << 16 | (b3 as u64) << 8 | (b4 as u64);
            if n > 0xffff {
                assert(n <= 0xffff_ffff) by (bit_vector)
                    requires
                        n == (b1 as u64) << 24 | (b2 as u64) << 16 | (b3 as u64) << 8 | (
                        b4 as u64),
                ;
                Ok((n as usize, pos + 5))
            } else {
                Err(KitsuneError::EncodingError)
            }
        } else {
            Err(KitsuneError::EncodingError)
        }
    } else {
        Err(KitsuneError::EncodingError)
    }
}

} // verus!

verus! {

/// Well-formed for encoding: every byte-string field fits a MessagePack
/// length field.
pub open spec fn ais_wf(a: AgentInfoSignedView) -> bool {
    a.agent.len() <= 0xffff_ffff && a.signature.len() <= 0xffff_ffff && a.agent_info.len()
        <= 0xffff_ffff
}

/// Canonical encoding of a signed agent record: a three-element array of
/// its byte-string fields, in declaration order.
pub open spec fn spec_enc_agent_info_signed(a: AgentInfoSignedView) -> Seq<u8> {
    seq![0x93u8] + spec_enc_bin(a.agent) + spec_enc_bin(a.signature) + spec_enc_bin(a.agent_info)
}

/// Append the canonical encoding of `a` to `out`.
pub fn enc_agent_info_signed(out: &mut Vec<u8>, a: &AgentInfoSigned)
    requires
        ais_wf(a@),
    ensures
        final(out)@ == old(out)@ + spec_enc_agent_info_signed(a@),
{
    out.push(0x93);
    enc_bin(out, &a.agent.0);
    enc_bin(out, &a.signature.0);
    enc_bin(out, &a.agent_info);
    assert(final(out)@ =~= old(out)@ + spec_enc_agent_info_signed(a@));
}

/// Decode a signed agent record from the front of `s`.
pub open spec fn spec_dec_agent_info_signed(s: Seq<u8>) -> Option<(AgentInfoSignedView, int)> {
    if s.len() >= 1 && s[0] == 0x93 {
        match spec_dec_bin(s.skip(1)) {
            Some((agent, n1)) => match spec_dec_bin(s.skip(1 + n1)) {
                Some((signature, n2)) => match spec_dec_bin(s.skip(1 + n1 + n2)) {
                    Some((agent_info, n3)) => Some(
                        (AgentInfoSignedView { agent, signature, agent_info }, 1 + n1 + n2 + n3),
                    ),
                    None => None,
                },
                None => None,
            },
            None => None,
        }
    } else {
        None
    }
}

/// A decoded signed agent record consumed between 1 and `s.len()` bytes.
pub proof fn lemma_dec_agent_info_signed_bounds(s: Seq<u8>)
    ensures
        spec_dec_agent_info_signed(s) matches Some(p) ==> 1 <= p.1 <= s.len(),
{
    if s.len() >= 1 && s[0] == 0x93 {
        lemma_dec_bin_bounds(s.skip(1));
        if let Some((agent, n1)) = spec_dec_bin(s.skip(1)) {
            lemma_dec_bin_bounds(s.skip(1 + n1));
            if let Some((signature, n2)) = spec_dec_bin(s.skip(1 + n1)) {
                lemma_dec_bin_bounds(s.skip(1 + n1 + n2));
            }
        }
    }
}

/// Decoding inverts encoding for signed agent records.
pub proof fn lemma_dec_enc_agent_info_signed(a: AgentInfoSignedView, rest: Seq<u8>)
    requires
        ais_wf(a),
    ensures
        spec_dec_agent_info_signed(spec_enc_agent_info_signed(a) + rest) == Some(
            (a, spec_enc_agent_info_signed(a).len() as int),
        ),
{
    let e1 = spec_enc_bin(a.agent);
    let e2 = spec_enc_bin(a.signature);
    let e3 = spec_enc_bin(a.agent_info);
    let s = spec_enc_agent_info_signed(a) + rest;
    assert(s[0] == 0x93u8);
    assert(s.skip(1) =~= e1 + (e2 + (e3 + rest)));
    lemma_dec_enc_bin(a.agent, e2 + (e3 + rest));
    assert(s.skip(1 + e1.len() as int) =~= e2 + (e3 + rest));
    lemma_dec_enc_bin(a.signature, e3 + rest);
    assert(s.skip(1 + e1.len() as int + e2.len() as int) =~= e3 + rest);
    lemma_dec_enc_bin(a.agent_info, rest);
    assert(spec_enc_agent_info_signed(a).len() == 1 + e1.len() + e2.len() + e3.len());
}

/// Decode a signed agent record at `pos`; returns the record and the
/// position just past it.
pub fn dec_agent_info_signed(buf: &Vec<u8>, pos: usize) -> (r: KitsuneResult<
    (AgentInfoSigned, usize),
>)
    requires
        pos <= buf@.len(),
    ensures
        spec_dec_agent_info_signed(buf@.skip(pos as int)) matches Some(p) ==> (r matches Ok(q)
            && q.0@ == p.0 && q.1 == pos + p.1),
        spec_dec_agent_info_signed(buf@.skip(pos as int)) is None ==> r == Err::<
            (AgentInfoSigned, usize),
            KitsuneError,
        >(KitsuneError::EncodingError),
{
    let ghost s = buf@.skip(pos as int);
    if pos >= buf.len() || buf[pos] != 0x93 {
        assert(s.len() >= 1 ==> s[0] == buf@[pos as int]);
        return Err(KitsuneError::EncodingError);
    }
    assert(s[0] == buf@[pos as int]);
    assert(buf@.skip(pos + 1) =~= s.skip(1));
    let (agent, pos1) = match dec_bin(buf, pos + 1) {
        Ok(p) => p,
        Err(e) => {
            return Err(e);
        },
    };
    proof {
        lemma_dec_bin_bounds(s.skip(1));
    }
    assert(buf@.skip(pos1 as int) =~= s.skip(1 + (pos1 - pos - 1)));
    let (signature, pos2) = match dec_bin(buf, pos1) {
        Ok(p) => p,
        Err(e) => {
            return Err(e);
        },
    };
    proof {
        lemma_dec_bin_bounds(s.skip(pos1 - pos));
    }
    assert(buf@.skip(pos2 as int) =~= s.skip(pos2 - pos));
    let (agent_info, pos3) = match dec_bin(buf, pos2) {
        Ok(p) => p,
        Err(e) => {
            return Err(e);
        },
    };
    let record = AgentInfoSigned {
        agent: KitsuneAgent(agent),
        signature: KitsuneSignature(signature),
        agent_info,
    };
    Ok((record, pos3))
}

/// The mathematical models of a sequence of signed agent records.
pub open spec fn views_of_agents(l: Seq<AgentInfoSigned>) -> Seq<AgentInfoSignedView> {
    l.map_values(|a: AgentInfoSigned| a@)
}

/// Every record in the sequence is well-formed for encoding.
pub open spec fn agents_wf(l: Seq<AgentInfoSignedView>) -> bool {
    forall|i: int| 0 <= i < l.len() ==> ais_wf(#[trigger] l[i])
}

/// The concatenated encodings of the records, in order.
pub open spec fn spec_enc_agents_elems(l: Seq<AgentInfoSignedView>) -> Seq<u8>
    decreases l.len(),
{
    if l.len() == 0 {
        Seq::empty()
    } else {
        spec_enc_agent_info_signed(l[0]) + spec_enc_agents_elems(l.drop_first())
    }
}

/// Canonical encoding of a list of signed agent records: an array header
/// followed by the records.
pub open spec fn spec_enc_agents(l: Seq<AgentInfoSignedView>) -> Seq<u8> {
    spec_enc_arr_len(l.len()) + spec_enc_agents_elems(l)
}

/// Encoding one more record appends its bytes.
pub proof fn lemma_enc_agents_elems_snoc(l: Seq<AgentInfoSignedView>, i: int)
    requires
        0 <= i < l.len(),
    ensures
        spec_enc_agents_elems(l.take(i + 1)) == spec_enc_agents_elems(l.take(i))
            + spec_enc_agent_info_signed(l[i]),
    decreases i,
{
    if i == 0 {
        assert(l.take(1).drop_first() =~= Seq::<AgentInfoSignedView>::empty());
        assert(l.take(0) =~= Seq::<AgentInfoSignedView>::empty());
        assert(spec_enc_agents_elems(l.take(1)) =~= spec_enc_agents_elems(l.take(0))
            + spec_enc_agent_info_signed(l[0]));
    } else {
        lemma_enc_agents_elems_snoc(l.drop_first(), i - 1);
        assert(l.take(i + 1).drop_first() =~= l.drop_first().take(i));
        assert(l.take(i).drop_first() =~= l.drop_first().take(i - 1));
        assert(spec_enc_agents_elems(l.take(i + 1)) =~= spec_enc_agents_elems(l.take(i))
            + spec_enc_agent_info_signed(l[i]));
    }
}

/// Append the canonical encoding of the record list `l` to `out`.
pub fn enc_agents(out: &mut Vec<u8>, l: &Vec<AgentInfoSigned>)
    requires
        l@.len() <= 0xffff_ffff,
        agents_wf(views_of_agents(l@)),
    ensures
        final(out)@ == old(out)@ + spec_enc_agents(views_of_agents(l@)),
{
    let ghost vs = views_of_agents(l@);
    enc_arr_len(out, l.len());
    assert(out@ =~= old(out)@ + spec_enc_arr_len(l@.len()) + spec_enc_agents_elems(vs.take(0)));
    let mut i: usize = 0;
    while i < l.len()
        invariant
            i <= l@.len(),
            l@.len() <= 0xffff_ffff,
            agents_wf(vs),
            vs == views_of_agents(l@),
            vs.len() == l@.len(),
            out@ == old(out)@ + spec_enc_arr_len(l@.len()) + spec_enc_agents_elems(
                vs.take(i as int),
            ),
        decreases l@.len() - i,
    {
        assert(vs[i as int] == l@[i as int]@);
        enc_agent_info_signed(out, &l[i]);
        proof {
            lemma_enc_agents_elems_snoc(vs, i as int);
        }
        assert(out@ =~= old(out)@ + spec_enc_arr_len(l@.len()) + spec_enc_agents_elems(
            vs.take(i + 1),
        ));
        i = i + 1;
    }
    assert(vs.take(vs.len() as int) =~= vs);
    assert(final(out)@ =~= old(out)@ + spec_enc_agents(vs));
}

/// Decode `n` consecutive signed agent records from the front of `s`.
pub open spec fn spec_dec_agents_elems(s: Seq<u8>, n: nat) -> Option<
    (Seq<AgentInfoSignedView>, int),
>
    decreases n,
{
    if n == 0 {
        Some((Seq::empty(), 0int))
    } else {
        match spec_dec_agent_info_signed(s) {
            Some((a, m)) => match spec_dec_agents_elems(s.skip(m), (n - 1) as nat) {
                Some((tail, k)) => Some((seq![a] + tail, m + k)),
                None => None,
            },
            None => None,
        }
    }
}

/// Decode a list of signed agent records from the front of `s`.
pub open spec fn spec_dec_agents(s: Seq<u8>) -> Option<(Seq<AgentInfoSignedView>, int)> {
    match spec_dec_arr_len(s) {
        Some((n, h)) => match spec_dec_agents_elems(s.skip(h), n as nat) {
            Some((l, k)) => Some((l, h + k)),
            None => None,
        },
        None => None,
    }
}

/// Decoded record elements consume between 0 and `s.len()` bytes.
pub proof fn lemma_dec_agents_elems_bounds(s: Seq<u8>, n: nat)
    ensures
        spec_dec_agents_elems(s, n) matches Some(p) ==> 0 <= p.1 <= s.len(),
    decreases n,
{
    if n > 0 {
        lemma_dec_agent_info_signed_bounds(s);
        if let Some((a, m)) = spec_dec_agent_info_signed(s) {
            lemma_dec_agents_elems_bounds(s.skip(m), (n - 1) as nat);
        }
    }
}

/// Decoding inverts encoding for the record elements.
#[verifier::rlimit(100)]
#[verifier::spinoff_prover]
pub proof fn lemma_dec_enc_agents_elems(l: Seq<AgentInfoSignedView>, rest: Seq<u8>)
    requires
        agents_wf(l),
    ensures
        spec_dec_agents_elems(spec_enc_agents_elems(l) + rest, l.len()) == Some(
            (l, spec_enc_agents_elems(l).len() as int),
        ),
    decreases l.len(),
{
    if l.len() == 0 {
        assert(spec_enc_agents_elems(l) + rest =~= rest);
        assert(Seq::<AgentInfoSignedView>::empty() =~= l);
    } else {
        let e0 = spec_enc_agent_info_signed(l[0]);
        let erest = spec_enc_agents_elems(l.drop_first());
        let s = spec_enc_agents_elems(l) + rest;
        assert(s =~= e0 + (erest + rest));
        lemma_dec_enc_agent_info_signed(l[0], erest + rest);
        assert(spec_dec_agent_info_signed(s) == Some((l[0], e0.len() as int)));
        assert(s.skip(e0.len() as int) =~= erest + rest);
        assert(agents_wf(l.drop_first())) by {
            assert(forall|i: int|
                0 <= i < l.drop_first().len() ==> l.drop_first()[i] == l[i + 1]);
        }
        lemma_dec_enc_agents_elems(l.drop_first(), rest);
        assert(spec_dec_agents_elems(s.skip(e0.len() as int), (l.len() - 1) as nat) == Some(
            (l.drop_first(), erest.len() as int),
        ));
        assert(seq![l[0]] + l.drop_first() =~= l);
        assert(spec_enc_agents_elems(l).len() == e0.len() + erest.len());
    }
}

/// Decoding inverts encoding for record lists.
pub proof fn lemma_dec_enc_agents(l: Seq<AgentInfoSignedView>, rest: Seq<u8>)
    requires
        agents_wf(l),
        l.len() <= 0xffff_ffff,
    ensures
        spec_dec_agents(spec_enc_agents(l) + rest) == Some(
            (l, spec_enc_agents(l).len() as int),
        ),
{
    let hdr = spec_enc_arr_len(l.len());
    let elems = spec_enc_agents_elems(l);
    let s = spec_enc_agents(l) + rest;
    assert(s =~= hdr + (elems + rest));
    lemma_dec_enc_arr_len(l.len(), elems + rest);
    assert(s.skip(hdr.len() as int) =~= elems + rest);
    lemma_dec_enc_agents_elems(l, rest);
}

/// Decode `n` consecutive records at `pos`.
pub fn dec_agents_elems(buf: &Vec<u8>, pos: usize, n: usize) -> (r: KitsuneResult<
    (Vec<AgentInfoSigned>, usize),
>)
    requires
        pos <= buf@.len(),
    ensures
        spec_dec_agents_elems(buf@.skip(pos as int), n as nat) matches Some(p) ==> (r matches Ok(q)
            && views_of_agents(q.0@) == p.0 && q.1 == pos + p.1),
        spec_dec_agents_elems(buf@.skip(pos as int), n as nat) is None ==> r == Err::<
            (Vec<AgentInfoSigned>, usize),
            KitsuneError,
        >(KitsuneError::EncodingError),
    decreases n,
{
    let ghost s = buf@.skip(pos as int);
    if n == 0 {
        let empty: Vec<AgentInfoSigned> = Vec::new();
        assert(views_of_agents(Seq::<AgentInfoSigned>::empty()) =~= Seq::<
            AgentInfoSignedView,
        >::empty());
        return Ok((empty, pos));
    }
    let (a, pos1) = match dec_agent_info_signed(buf, pos) {
        Ok(p) => p,
        Err(e) => {
            return Err(e);
        },
    };
    proof {
        lemma_dec_agent_info_signed_bounds(s);
    }
    assert(buf@.skip(pos1 as int) =~= s.skip(pos1 - pos));
    let (mut tail, end) = match dec_agents_elems(buf, pos1, n - 1) {
        Ok(p) => p,
        Err(e) => {
            return Err(e);
        },
    };
    let ghost tail_views = views_of_agents(tail@);
    tail.insert(0, a);
    assert(views_of_agents(tail@) =~= seq![a@] + tail_views);
    Ok((tail, end))
}

/// Decode a list of signed agent records at `pos`; returns the records
/// and the position just past them.
pub fn dec_agents(buf: &Vec<u8>, pos: usize) -> (r: KitsuneResult<(Vec<AgentInfoSigned>, usize)>)
    requires
        pos <= buf@.len(),
    ensures
        spec_dec_agents(buf@.skip(pos as int)) matches Some(p) ==> (r matches Ok(q)
            && views_of_agents(q.0@) == p.0 && q.1 == pos + p.1),
        spec_dec_agents(buf@.skip(pos as int)) is None ==> r == Err::<
            (Vec<AgentInfoSigned>, usize),
            KitsuneError,
        >(KitsuneError::EncodingError),
{
    let ghost s = buf@.skip(pos as int);
    let (n, pos1) = match dec_arr_len(buf, pos) {
        Ok(p) => p,
        Err(e) => {
            return Err(e);
        },
    };
    assert(buf@.skip(pos1 as int) =~= s.skip(pos1 - pos));
    dec_agents_elems(buf, pos1, n)
}

/// Canonical encoding of a random-sample query: a two-element array of
/// the namespace bytes and the result-count limit.
pub open spec fn spec_enc_random_query(space: Seq<u8>, limit: u32) -> Seq<u8> {
    seq![0x92u8] + spec_enc_bin(space) + spec_enc_uint(limit as u64)
}

/// Append the canonical encoding of the query `q` to `out`.
pub fn enc_random_query(out: &mut Vec<u8>, q: &RandomQuery)
    requires
        q.space@.len() <= 0xffff_ffff,
    ensures
        final(out)@ == old(out)@ + spec_enc_random_query(q.space@, q.limit),
{
    out.push(0x92);
    enc_bin(out, &q.space.0);
    enc_uint(out, q.limit as u64);
    assert(final(out)@ =~= old(out)@ + spec_enc_random_query(q.space@, q.limit));
}

} // verus!

verus! {

/// Well-formed for encoding: every field of the self-description fits a
/// MessagePack length field.
pub open spec fn agent_info_wf(v: AgentInfoView) -> bool {
    v.space.len() <= 0xffff_ffff && v.agent.len() <= 0xffff_ffff && v.urls.len() <= 0xffff_ffff
        && forall|i: int| 0 <= i < v.urls.len() ==> (#[trigger] v.urls[i]).len() <= 0xffff_ffff
}

/// The concatenated str encodings of the addresses, in order.
pub open spec fn spec_enc_urls_elems(urls: Seq<Seq<u8>>) -> Seq<u8>
    decreases urls.len(),
{
    if urls.len() == 0 {
        Seq::empty()
    } else {
        spec_enc_str(urls[0]) + spec_enc_urls_elems(urls.drop_first())
    }
}

/// Encoding one more address appends its bytes.
pub proof fn lemma_enc_urls_elems_snoc(urls: Seq<Seq<u8>>, i: int)
    requires
        0 <= i < urls.len(),
    ensures
        spec_enc_urls_elems(urls.take(i + 1)) == spec_enc_urls_elems(urls.take(i)) + spec_enc_str(
            urls[i],
        ),
    decreases i,
{
    if i == 0 {
        assert(urls.take(1).drop_first() =~= Seq::<Seq<u8>>::empty());
        assert(urls.take(0) =~= Seq::<Seq<u8>>::empty());
        assert(spec_enc_urls_elems(urls.take(1)) =~= spec_enc_urls_elems(urls.take(0))
            + spec_enc_str(urls[0]));
    } else {
        lemma_enc_urls_elems_snoc(urls.drop_first(), i - 1);
        assert(urls.take(i + 1).drop_first() =~= urls.drop_first().take(i));
        assert(urls.take(i).drop_first() =~= urls.drop_first().take(i - 1));
        assert(spec_enc_urls_elems(urls.take(i + 1)) =~= spec_enc_urls_elems(urls.take(i))
            + spec_enc_str(urls[i]));
    }
}

/// Canonical encoding of a peer's self-description: a five-element array
/// of namespace, identity, address list, creation time and expiry
/// window, in declaration order.  These are exactly the bytes an
/// external keystore signs.
pub open spec fn spec_enc_agent_info(v: AgentInfoView) -> Seq<u8> {
    seq![0x95u8] + spec_enc_bin(v.space) + spec_enc_bin(v.agent) + spec_enc_arr_len(v.urls.len())
        + spec_enc_urls_elems(v.urls) + spec_enc_uint(v.signed_at_ms) + spec_enc_uint(
        v.expires_after_ms,
    )
}

/// Append the canonical encoding of the self-description `info` to
/// `out`: the bytes to hand to the keystore for signing.
pub fn enc_agent_info(out: &mut Vec<u8>, info: &AgentInfo)
    requires
        agent_info_wf(info@),
    ensures
        final(out)@ == old(out)@ + spec_enc_agent_info(info@),
{
    let ghost urls = info@.urls;
    out.push(0x95);
    enc_bin(out, &info.space.0);
    enc_bin(out, &info.agent.0);
    enc_arr_len(out, info.urls.len());
    let ghost mid = out@;
    let mut i: usize = 0;
    while i < info.urls.len()
        invariant
            i <= info.urls@.len(),
            agent_info_wf(info@),
            urls == info@.urls,
            urls.len() == info.urls@.len(),
            out@ == mid + spec_enc_urls_elems(urls.take(i as int)),
        decreases info.urls@.len() - i,
    {
        assert(urls[i as int] == info.urls@[i as int]@);
        enc_str(out, &info.urls[i]);
        proof {
            lemma_enc_urls_elems_snoc(urls, i as int);
        }
        assert(out@ =~= mid + spec_enc_urls_elems(urls.take(i + 1)));
        i = i + 1;
    }
    assert(urls.take(urls.len() as int) =~= urls);
    enc_uint(out, info.signed_at_ms);
    enc_uint(out, info.expires_after_ms);
    assert(final(out)@ =~= old(out)@ + spec_enc_agent_info(info@));
}

} // verus!

verus! {

/// Canonicity: a decoded integer re-encodes to exactly the bytes it was
/// decoded from, so the canonical form is the only accepted one.
pub proof fn lemma_enc_dec_uint(s: Seq<u8>)
    ensures
        spec_dec_uint(s) matches Some(p) ==> spec_enc_uint(p.0) == s.take(p.1),
{
    if s.len() >= 1 {
        let b = s[0];
        if b <= 0x7f {
            assert((b as u64) <= 0x7f && (b as u64) as u8 == b) by (bit_vector)
                requires
                    b <= 0x7f,
            ;
            assert(spec_enc_uint(b as u64) =~= s.take(1));
        } else if b == 0xcc && s.len() >= 2 && s[1] > 0x7f {
            let b1 = s[1];
            assert(0x7f < (b1 as u64) <= 0xff && (b1 as u64) as u8 == b1) by (bit_vector)
                requires
                    b1 > 0x7f,
            ;
            assert(spec_enc_uint(b1 as u64) =~= s.take(2));
        } else if b == 0xcd && s.len() >= 3 {
            let b1 = s[1];
            let b2 = s[2];
            let v = (b1 as u64) << 8 | (b2 as u64);
            if v > 0xff {
                assert(v <= 0xffff && ((v >> 8) & 0xff) as u8 == b1 && (v & 0xff) as u8
                    == b2) by (bit_vector)
                    requires
                        v == (b1 as u64) << 8 | (b2 as u64),
                ;
                assert(spec_enc_uint(v) =~= s.take(3));
            }
        } else if b == 0xce && s.len() >= 5 {
            let b1 = s[1];
            let b2 = s[2];
            let b3 = s[3];
            let b4 = s[4];
            let v = (b1 as u64) << 24 | (b2 as u64) << 16 | (b3 as u64) << 8 | (b4 as u64);
            if v > 0xffff {
                assert(v <= 0xffff_ffff && ((v >> 24) & 0xff) as u8 == b1 && ((v >> 16)
                    & 0xff) as u8 == b2 && ((v >> 8) & 0xff) as u8 == b3 && (v & 0xff) as u8
                    == b4) by (bit_vector)
                    requires
                        v == (b1 as u64) << 24 | (b2 as u64) << 16 | (b3 as u64) << 8 | (
                        b4 as u64),
                ;
                assert(spec_enc_uint(v) =~= s.take(5));
            }
        } else if b == 0xcf && s.len() >= 9 {
            let b1 = s[1];
            let b2 = s[2];
            let b3 = s[3];
            let b4 = s[4];
            let b5 = s[5];
            let b6 = s[6];
            let b7 = s[7];
            let b8 = s[8];
            let v = (b1 as u64) << 56 | (b2 as u64) << 48 | (b3 as u64) << 40 | (b4 as u64) << 32 | (
            b5 as u64) << 24 | (b6 as u64) << 16 | (b7 as u64) << 8 | (b8 as u64);
            if v > 0xffff_ffff {
                assert(((v >> 56) & 0xff) as u8 == b1 && ((v >> 48) & 0xff) as u8 == b2 && ((v
                    >> 40) & 0xff) as u8 == b3 && ((v >> 32) & 0xff) as u8 == b4 && ((v >> 24)
                    & 0xff) as u8 == b5 && ((v >> 16) & 0xff) as u8 == b6 && ((v >> 8) & 0xff) as u8
                    == b7 && (v & 0xff) as u8 == b8) by (bit_vector)
                    requires
                        v == (b1 as u64) << 56 | (b2 as u64) << 48 | (b3 as u64) << 40 | (
                        b4 as u64) << 32 | (b5 as u64) << 24 | (b6 as u64) << 16 | (b7 as u64) << 8
                            | (b8 as u64),
                ;
                assert(spec_enc_uint(v) =~= s.take(9));
            }
        }
    }
}

} // verus!

verus! {

/// Canonicity for byte strings: a decoded byte string re-encodes to
/// exactly the bytes it was decoded from, and always fits a length
/// field.
pub proof fn lemma_enc_dec_bin(s: Seq<u8>)
    ensures
        spec_dec_bin(s) matches Some(p) ==> p.0.len() <= 0xffff_ffff && spec_enc_bin(p.0)
            == s.take(p.1),
{
    if s.len() >= 1 {
        if s[0] == 0xc4 && s.len() >= 2 {
            let n = s[1] as int;
            if s.len() >= 2 + n {
                let b = s.subrange(2, 2 + n);
                assert(b.len() as u8 == s[1]);
                assert(spec_enc_bin(b) =~= s.take(2 + n));
            }
        } else if s[0] == 0xc5 && s.len() >= 3 {
            let b1 = s[1];
            let b2 = s[2];
            let v = (b1 as u64) << 8 | (b2 as u64);
            if v > 0xff && s.len() >= 3 + v as int {
                let b = s.subrange(3, 3 + v as int);
                assert(v <= 0xffff && ((v >> 8) & 0xff) as u8 == b1 && (v & 0xff) as u8
                    == b2) by (bit_vector)
                    requires
                        v == (b1 as u64) << 8 | (b2 as u64),
                ;
                assert(b.len() as u64 == v);
                assert(spec_enc_bin(b) =~= s.take(3 + v as int));
            }
        } else if s[0] == 0xc6 && s.len() >= 5 {
            let b1 = s[1];
            let b2 = s[2];
            let b3 = s[3];
            let b4 = s[4];
            let v = (b1 as u64) << 24 | (b2 as u64) << 16 | (b3 as u64) << 8 | (b4 as u64);
            if v > 0xffff && s.len() >= 5 + v as int {
                let b = s.subrange(5, 5 + v as int);
                assert(v <= 0xffff_ffff && ((v >> 24) & 0xff) as u8 == b1 && ((v >> 16)
                    & 0xff) as u8 == b2 && ((v >> 8) & 0xff) as u8 == b3 && (v & 0xff) as u8
                    == b4) by (bit_vector)
                    requires
                        v == (b1 as u64) << 24 | (b2 as u64) << 16 | (b3 as u64) << 8 | (
                        b4 as u64),
                ;
                assert(b.len() as u64 == v);
                assert(spec_enc_bin(b) =~= s.take(5 + v as int));
            }
        }
    }
}

/// Canonicity for array headers: a decoded element count re-encodes to
/// exactly the header bytes, and always fits a length field.
pub proof fn lemma_enc_dec_arr_len(s: Seq<u8>)
    ensures
        spec_dec_arr_len(s) matches Some(p) ==> p.0 <= 0xffff_ffff && spec_enc_arr_len(
            p.0 as nat,
        ) == s.take(p.1),
{
    if s.len() >= 1 {
        let b = s[0];
        if 0x90 <= b <= 0x9f {
            let n = (b - 0x90) as u64;
            assert(spec_enc_arr_len(n as nat) =~= s.take(1));
        } else if b == 0xdc && s.len() >= 3 {
            let b1 = s[1];
            let b2 = s[2];
            let n = (b1 as u64) << 8 | (b2 as u64);
            if n > 15 {
                assert(n <= 0xffff && ((n >> 8) & 0xff) as u8 == b1 && (n & 0xff) as u8
                    == b2) by (bit_vector)
                    requires
                        n == (b1 as u64) << 8 | (b2 as u64),
                ;
                assert(spec_enc_arr_len(n as nat) =~= s.take(3));
            }
        } else if b == 0xdd && s.len() >= 5 {
            let b1 = s[1];
            let b2 = s[2];
            let b3 = s[3];
            let b4 = s[4];
            let n = (b1 as u64) << 24 | (b2 as u64) << 16 | (b3 as u64) << 8 | (b4 as u64);
            if n > 0xffff {
                assert(n <= 0xffff_ffff && ((n >> 24) & 0xff) as u8 == b1 && ((n >> 16)
                    & 0xff) as u8 == b2 && ((n >> 8) & 0xff) as u8 == b3 && (n & 0xff) as u8
                    == b4) by (bit_vector)
                    requires
                        n == (b1 as u64) << 24 | (b2 as u64) << 16 | (b3 as u64) << 8 | (
                        b4 as u64),
                ;
                assert(spec_enc_arr_len(n as nat) =~= s.take(5));
            }
        }
    }
}

/// Canonicity for signed agent records: a decoded record is well-formed
/// and re-encodes to exactly the bytes it was decoded from.
#[verifier::rlimit(100)]
#[verifier::spinoff_prover]
pub proof fn lemma_enc_dec_agent_info_signed(s: Seq<u8>)
    ensures
        spec_dec_agent_info_signed(s) matches Some(p) ==> ais_wf(p.0)
            && spec_enc_agent_info_signed(p.0) == s.take(p.1),
{
    if s.len() >= 1 && s[0] == 0x93 {
        lemma_dec_bin_bounds(s.skip(1));
        lemma_enc_dec_bin(s.skip(1));
        if let Some((agent, n1)) = spec_dec_bin(s.skip(1)) {
            lemma_dec_bin_bounds(s.skip(1 + n1));
            lemma_enc_dec_bin(s.skip(1 + n1));
            if let Some((signature, n2)) = spec_dec_bin(s.skip(1 + n1)) {
                lemma_dec_bin_bounds(s.skip(1 + n1 + n2));
                lemma_enc_dec_bin(s.skip(1 + n1 + n2));
                if let Some((agent_info, n3)) = spec_dec_bin(s.skip(1 + n1 + n2)) {
                    let view = AgentInfoSignedView { agent, signature, agent_info };
                    assert(spec_enc_bin(agent) == s.skip(1).take(n1));
                    assert(spec_enc_bin(signature) == s.skip(1 + n1).take(n2));
                    assert(spec_enc_bin(agent_info) == s.skip(1 + n1 + n2).take(n3));
                    assert(spec_enc_agent_info_signed(view) =~= s.take(1 + n1 + n2 + n3));
                }
            }
        }
    }
}

/// Canonicity for record elements: decoded elements are well-formed,
/// exactly `n` many, and re-encode to the bytes they came from.
#[verifier::rlimit(100)]
#[verifier::spinoff_prover]
pub proof fn lemma_enc_dec_agents_elems(s: Seq<u8>, n: nat)
    ensures
        spec_dec_agents_elems(s, n) matches Some(p) ==> agents_wf(p.0) && p.0.len() == n
            && spec_enc_agents_elems(p.0) == s.take(p.1),
    decreases n,
{
    if n > 0 {
        lemma_dec_agent_info_signed_bounds(s);
        lemma_enc_dec_agent_info_signed(s);
        if let Some((a, m)) = spec_dec_agent_info_signed(s) {
            lemma_dec_agents_elems_bounds(s.skip(m), (n - 1) as nat);
            lemma_enc_dec_agents_elems(s.skip(m), (n - 1) as nat);
            if let Some((tail, k)) = spec_dec_agents_elems(s.skip(m), (n - 1) as nat) {
                let whole = seq![a] + tail;
                assert(whole.drop_first() =~= tail);
                assert(spec_enc_agents_elems(whole) == spec_enc_agent_info_signed(a)
                    + spec_enc_agents_elems(tail));
                assert(spec_enc_agent_info_signed(a) == s.take(m));
                assert(spec_enc_agents_elems(tail) == s.skip(m).take(k));
                assert(spec_enc_agents_elems(whole) =~= s.take(m + k));
                assert forall|i: int| 0 <= i < whole.len() implies ais_wf(#[trigger] whole[i]) by {
                    if i > 0 {
                        assert(whole[i] == tail[i - 1]);
                    }
                }
            }
        }
    }
}

/// Canonicity for record lists: a decoded list is well-formed and
/// re-encodes to exactly the bytes it was decoded from — decoding
/// accepts one byte form per list, the canonical one.
pub proof fn lemma_enc_dec_agents(s: Seq<u8>)
    ensures
        spec_dec_agents(s) matches Some(p) ==> agents_wf(p.0) && p.0.len() <= 0xffff_ffff
            && spec_enc_agents(p.0) == s.take(p.1),
{
    lemma_enc_dec_arr_len(s);
    if let Some((n, h)) = spec_dec_arr_len(s) {
        lemma_dec_agents_elems_bounds(s.skip(h), n as nat);
        lemma_enc_dec_agents_elems(s.skip(h), n as nat);
        if let Some((l, k)) = spec_dec_agents_elems(s.skip(h), n as nat) {
            assert(spec_enc_arr_len(l.len()) == s.take(h));
            assert(spec_enc_agents_elems(l) == s.skip(h).take(k));
            assert(spec_enc_agents(l) =~= s.take(h + k));
        }
    }
}

/// The encoding pins a signed record down: two records with the same
/// encoding are the same record, so any field mutation changes the
/// bytes — and with them, what a signature was made over.
pub proof fn lemma_enc_agent_info_signed_injective(a: AgentInfoSignedView, b: AgentInfoSignedView)
    requires
        ais_wf(a),
        ais_wf(b),
        spec_enc_agent_info_signed(a) == spec_enc_agent_info_signed(b),
    ensures
        a == b,
{
    lemma_dec_enc_agent_info_signed(a, Seq::empty());
    lemma_dec_enc_agent_info_signed(b, Seq::empty());
    assert(spec_enc_agent_info_signed(a) + Seq::<u8>::empty() =~= spec_enc_agent_info_signed(a));
    assert(spec_enc_agent_info_signed(b) + Seq::<u8>::empty() =~= spec_enc_agent_info_signed(b));
}

} // verus!
