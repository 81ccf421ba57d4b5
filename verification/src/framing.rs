use vstd::prelude::*;
use crate::Error;
use crate::stream::ByteStream;

verus! {

/// The four magic bytes `"SPAT"` that open every container.
pub open spec fn magic_bytes() -> Seq<u8> {
    seq![0x53u8, 0x50u8, 0x41u8, 0x54u8]
}

/// Outcome of reading the 8-byte file header from the front of a byte
/// sequence: too few bytes, a wrong magic or version, or success.
pub enum HeaderOutcome {
    ShortRead,
    Mismatch,
    Valid,
}

/// What `read_file_header` does on a given byte sequence: the first four
/// bytes must spell the magic, the next four must all be zero.  The magic is
/// checked before the version, so a stream of four good bytes cut short is a
/// short read, not a mismatch.
pub open spec fn spec_file_header(s: Seq<u8>) -> HeaderOutcome {
    if s.len() < 4 {
        HeaderOutcome::ShortRead
    } else if s.subrange(0, 4) != magic_bytes() {
        HeaderOutcome::Mismatch
    } else if s.len() < 8 {
        HeaderOutcome::ShortRead
    } else if s[4] != 0 || s[5] != 0 || s[6] != 0 || s[7] != 0 {
        HeaderOutcome::Mismatch
    } else {
        HeaderOutcome::Valid
    }
}

/// Validate the fixed 8-byte file header and consume it.  Accepts exactly the
/// streams whose first 8 bytes are `"SPAT"` followed by four zero bytes; any
/// other 8-byte prefix is a format error, and fewer than 8 bytes is an I/O
/// error.  On failure nothing is consumed.
pub fn read_file_header(s: &mut ByteStream) -> (r: Result<(), Error>)
    requires
        old(s).wf(),
    ensures
        final(s).wf(),
        final(s).data == old(s).data,
        match spec_file_header(old(s).remaining()) {
            HeaderOutcome::ShortRead => r == Err::<(), Error>(Error::Io) && *final(s) == *old(s),
            HeaderOutcome::Mismatch => r == Err::<(), Error>(Error::Format) && *final(s) == *old(s),
            HeaderOutcome::Valid => r == Ok::<(), Error>(())
                && final(s).remaining() == old(s).remaining().skip(8),
        },
{
    if s.remaining_len() < 4 {
        return Err(Error::Io);
    }
    if s.peek(0) != 0x53 || s.peek(1) != 0x50 || s.peek(2) != 0x41 || s.peek(3) != 0x54 {
        proof {
            assert(old(s).remaining().subrange(0, 4) != magic_bytes());
        }
        return Err(Error::Format);
    }
    proof {
        assert(old(s).remaining().subrange(0, 4) =~= magic_bytes());
    }
    if s.remaining_len() < 8 {
        return Err(Error::Io);
    }
    if s.peek(4) != 0 || s.peek(5) != 0 || s.peek(6) != 0 || s.peek(7) != 0 {
        return Err(Error::Format);
    }
    s.advance(8);
    Ok(())
}

/// Outcome of reading one block from the front of a byte sequence: an
/// incomplete header or body, a violated header field, the end-of-stream
/// sentinel, or a block body.
pub enum BlockOutcome {
    ShortRead,
    BadHeader,
    End,
    Payload(Seq<u8>),
}

/// What `read_block` does on a given byte sequence.  The first four bytes are
/// the little-endian body length; a length of zero is the end-of-stream
/// sentinel and nothing past those four bytes belongs to it.  Otherwise the
/// two flag bytes, the compression byte and the message-type byte must all be
/// zero, and exactly `bodylen` body bytes follow.
pub open spec fn spec_read_block(s: Seq<u8>) -> BlockOutcome {
    if s.len() < 4 {
        BlockOutcome::ShortRead
    } else {
        let bodylen = vstd::bytes::spec_u32_from_le_bytes(s.subrange(0, 4));
        if bodylen == 0 {
            BlockOutcome::End
        } else if s.len() < 8 {
            BlockOutcome::ShortRead
        } else if s[4] != 0 || s[5] != 0 || s[6] != 0 || s[7] != 0 {
            BlockOutcome::BadHeader
        } else if s.len() < 8 + bodylen {
            BlockOutcome::ShortRead
        } else {
            BlockOutcome::Payload(s.subrange(8, 8 + bodylen as int))
        }
    }
}

/// Read one block.  `Ok(None)` is the end-of-stream sentinel, reached by
/// consuming exactly the four zero length bytes; `Ok(Some(body))` hands the
/// block payload out after consuming the full 8-byte header and `bodylen`
/// body bytes.  Non-zero flag, compression or message-type bytes are format
/// errors; missing bytes are I/O errors; on any error nothing is consumed.
pub fn read_block(s: &mut ByteStream) -> (r: Result<Option<Vec<u8>>, Error>)
    requires
        old(s).wf(),
    ensures
        final(s).wf(),
        final(s).data == old(s).data,
        match spec_read_block(old(s).remaining()) {
            BlockOutcome::ShortRead => r == Err::<Option<Vec<u8>>, Error>(Error::Io) && *final(s) == *old(s),
            BlockOutcome::BadHeader => r == Err::<Option<Vec<u8>>, Error>(Error::Format) && *final(s) == *old(s),
            BlockOutcome::End => r == Ok::<Option<Vec<u8>>, Error>(None)
                && final(s).remaining() == old(s).remaining().skip(4),
            BlockOutcome::Payload(b) => match r {
                Ok(Some(body)) => body@ == b
                    && final(s).remaining() == old(s).remaining().skip(8 + b.len() as int),
                _ => false,
            },
        },
{
    if s.remaining_len() < 4 {
        return Err(Error::Io);
    }
    let len_bytes = s.peek_bytes(0, 4);
    let bodylen = vstd::bytes::u32_from_le_bytes(len_bytes.as_slice());
    if bodylen == 0 {
        s.advance(4);
        return Ok(None);
    }
    if s.remaining_len() < 8 {
        return Err(Error::Io);
    }
    if s.peek(4) != 0 || s.peek(5) != 0 {
        return Err(Error::Format);
    }
    if s.peek(6) != 0 {
        return Err(Error::Format);
    }
    if s.peek(7) != 0 {
        return Err(Error::Format);
    }
    let blen: usize = bodylen as usize;
    if s.remaining_len() - 8 < blen {
        return Err(Error::Io);
    }
    let body = s.peek_bytes(8, blen);
    s.advance(8 + blen);
    Ok(Some(body))
}

} // verus!
