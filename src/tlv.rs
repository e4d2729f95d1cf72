//! Length-prefixed (tag, length, value) structures.
use vstd::prelude::*;

use crate::bytes::append_bytes;
use crate::bytes::copy_range;
use crate::error::Error;

verus! {

/// Largest value length that the three-byte length form can carry.
pub const TLV_VALUE_MAX: usize = 65535;

/// Length form chosen by the value's length: one byte below 128, a marker
/// `0x81` and one byte below 256, else a marker `0x82` and two big-endian bytes.
pub open spec fn length_form(len: nat) -> Seq<u8> {
    if len < 128 {
        seq![len as u8]
    } else if len < 256 {
        seq![0x81u8, len as u8]
    } else {
        seq![0x82u8, (len / 256) as u8, (len % 256) as u8]
    }
}

/// The encoding of one node: tag, length form, value.
pub open spec fn tlv_bytes(tag: u8, value: Seq<u8>) -> Seq<u8> {
    seq![tag] + length_form(value.len()) + value
}

/// The node whose value starts at `start` and has `len` bytes, with the tail
/// after it; `None` when the buffer is too short for it.
pub open spec fn split_value(buf: Seq<u8>, start: nat, len: nat) -> Option<(u8, Seq<u8>, Seq<u8>)> {
    if buf.len() < start + len {
        None
    } else {
        Some((buf[0], buf.subrange(start as int, (start + len) as int), buf.subrange((start + len) as int, buf.len() as int)))
    }
}

/// What parsing the front of `buf` yields: tag, value and the unconsumed tail,
/// or `None` where the header or the value does not fit or the length form is
/// not one of the three.
pub open spec fn tlv_parse(buf: Seq<u8>) -> Option<(u8, Seq<u8>, Seq<u8>)> {
    if buf.len() < 2 {
        None
    } else if buf[1] < 0x80 {
        split_value(buf, 2, buf[1] as nat)
    } else if buf[1] == 0x81 {
        if buf.len() < 3 { None } else { split_value(buf, 3, buf[2] as nat) }
    } else if buf[1] == 0x82 {
        if buf.len() < 4 { None } else { split_value(buf, 4, buf[2] as nat * 256 + buf[3] as nat) }
    } else {
        None
    }
}

/// A parsed node.
#[derive(Debug)]
pub struct Tlv {
    pub tag: u8,
    pub value: Vec<u8>,
}

impl Tlv {
    /// Appends the encoding of a node with `tag` and `value` to `out`.
    pub fn write(out: &mut Vec<u8>, tag: u8, value: &[u8])
        requires
            value@.len() <= TLV_VALUE_MAX,
        ensures
            final(out)@ == old(out)@ + tlv_bytes(tag, value@),
    {
        let len = value.len();
        out.push(tag);
        if len < 0x80 {
            out.push(len as u8);
        } else if len < 0x100 {
            out.push(0x81);
            out.push(len as u8);
        } else {
            out.push(0x82);
            out.push((len / 256) as u8);
            out.push((len % 256) as u8);
        }
        append_bytes(out, value);
        proof {
            assert(final(out)@ =~= old(out)@ + tlv_bytes(tag, value@));
        }
    }

    /// The encoding of a node with `tag` and `value`.
    pub fn encode(tag: u8, value: &[u8]) -> (r: Vec<u8>)
        requires
            value@.len() <= TLV_VALUE_MAX,
        ensures
            r@ == tlv_bytes(tag, value@),
    {
        let mut r: Vec<u8> = Vec::new();
        Tlv::write(&mut r, tag, value);
        proof {
            assert(r@ =~= tlv_bytes(tag, value@));
        }
        r
    }

    /// Parses one node from the front of `buf`; returns it with the bytes that
    /// follow it.
    pub fn parse(buf: &[u8]) -> (r: Result<(Tlv, Vec<u8>), Error>)
        ensures
            match tlv_parse(buf@) {
                Some((tag, value, rest)) => r matches Ok((t, tail))
                    && t.tag == tag && t.value@ == value && tail@ == rest,
                None => r == Err::<(Tlv, Vec<u8>), Error>(Error::ParseError),
            },
    {
        if buf.len() < 2 {
            return Err(Error::ParseError);
        }
        let b = buf[1];
        let start: usize;
        let len: usize;
        if b < 0x80 {
            start = 2;
            len = b as usize;
        } else if b == 0x81 {
            if buf.len() < 3 {
                return Err(Error::ParseError);
            }
            start = 3;
            len = buf[2] as usize;
        } else if b == 0x82 {
            if buf.len() < 4 {
                return Err(Error::ParseError);
            }
            start = 4;
            len = buf[2] as usize * 256 + buf[3] as usize;
        } else {
            return Err(Error::ParseError);
        }
        if buf.len() - start < len {
            return Err(Error::ParseError);
        }
        let value = copy_range(buf, start, start + len);
        let rest = copy_range(buf, start + len, buf.len());
        Ok((Tlv { tag: buf[0], value }, rest))
    }
}

/// Decoding an encoded node gives back its tag and value with nothing left
/// over, and the length form takes one, two or three bytes as the value is
/// shorter than 128, than 256, or at most 65535 bytes long.
pub proof fn lemma_tlv_round_trip(tag: u8, value: Seq<u8>)
    requires
        value.len() <= TLV_VALUE_MAX,
    ensures
        tlv_parse(tlv_bytes(tag, value)) == Some((tag, value, Seq::<u8>::empty())),
        length_form(value.len()).len() == (if value.len() < 128 { 1nat } else if value.len() < 256 { 2nat } else { 3nat }),
{
    let b = tlv_bytes(tag, value);
    let h = length_form(value.len()).len() as int;
    assert(b.subrange(1 + h, b.len() as int) =~= value);
    assert(b.subrange(b.len() as int, b.len() as int) =~= Seq::<u8>::empty());
    if value.len() >= 256 {
        assert(b[2] as nat * 256 + b[3] as nat == value.len()) by (nonlinear_arith)
            requires
                b[2] == (value.len() / 256) as u8,
                b[3] == (value.len() % 256) as u8,
                value.len() <= 65535,
        ;
    }
}

} // verus!
