//! The frame codec: inbound, it turns a growing byte buffer into discrete
//! UTF-8 text lines, one per newline-terminated frame; outbound, it turns
//! each response into its fixed wire form, terminated by `\r\n`.

use vstd::prelude::*;
use vstd::utf8::valid_utf8;
use vstd::utf8::decode_utf8;
use vstd::utf8::encode_utf8;
use crate::response::KVResponse;

verus! {

/// The inbound byte buffer type of the wire.
/// Relies on `bytes::BytesMut`, a contiguous, growable byte buffer.
#[verifier::external_type_specification]
#[verifier::external_body]
pub struct ExBytesMut(bytes::BytesMut);

/// The bytes that a `bytes::BytesMut` buffer holds, in order.
pub uninterp spec fn buf_bytes(b: bytes::BytesMut) -> Seq<u8>;

/// Relies on `BytesMut::len`: how many bytes the buffer holds.
#[verifier::external_body]
fn buf_len(b: &bytes::BytesMut) -> (n: usize)
    ensures
        n == buf_bytes(*b).len(),
{
    b.len()
}

/// Relies on `BytesMut`'s indexing into its bytes (through its view as a
/// byte slice).
#[verifier::external_body]
fn buf_get(b: &bytes::BytesMut, i: usize) -> (x: u8)
    requires
        i < buf_bytes(*b).len(),
    ensures
        x == buf_bytes(*b)[i as int],
{
    b[i]
}

/// Relies on `BytesMut::split_to`: afterwards the buffer holds the bytes
/// from `at` on, and the returned buffer holds the bytes before `at`.
#[verifier::external_body]
fn buf_split_to(b: &mut bytes::BytesMut, at: usize) -> (r: bytes::BytesMut)
    requires
        at <= buf_bytes(*old(b)).len(),
    ensures
        buf_bytes(r) == buf_bytes(*old(b)).subrange(0, at as int),
        buf_bytes(*final(b)) == buf_bytes(*old(b)).subrange(
            at as int,
            buf_bytes(*old(b)).len() as int,
        ),
{
    b.split_to(at)
}

/// Relies on `BytesMut::extend_from_slice`: the given bytes are appended
/// to the buffer.
#[verifier::external_body]
fn buf_extend(b: &mut bytes::BytesMut, data: &[u8])
    ensures
        buf_bytes(*final(b)) == buf_bytes(*old(b)) + data@,
{
    b.extend_from_slice(data)
}

/// Relies on `BytesMut`'s view as a byte slice and `slice::to_vec`: a
/// copy of the bytes the buffer holds.
#[verifier::external_body]
fn buf_to_vec(b: &bytes::BytesMut) -> (v: Vec<u8>)
    ensures
        v@ == buf_bytes(*b),
{
    b.as_ref().to_vec()
}

/// Relies on `core::str::from_utf8`: the bytes decode to a string exactly
/// when they are valid UTF-8, and then to their UTF-8 decoding.
#[verifier::external_body]
fn utf8_to_string(v: &[u8]) -> (r: Option<String>)
    ensures
        match r {
            Some(s) => valid_utf8(v@) && s@ == decode_utf8(v@),
            None => !valid_utf8(v@),
        },
{
    match core::str::from_utf8(v) {
        Ok(s) => Some(s.to_owned()),
        Err(_) => None,
    }
}

/// A fatal framing failure: the bytes before the frame delimiter were not
/// valid UTF-8, so the stream can no longer be trusted.
#[derive(Debug, PartialEq, Eq, Structural)]
pub enum DecodeError {
    InvalidEncoding,
}

/// The frame delimiter, a line feed.
pub const FRAME_DELIMITER: u8 = 10;

/// `i` is the position of the first frame delimiter in `b`.
pub open spec fn first_newline_at(b: Seq<u8>, i: int) -> bool {
    &&& 0 <= i < b.len()
    &&& b[i] == FRAME_DELIMITER
    &&& forall|j: int| 0 <= j < i ==> b[j] != FRAME_DELIMITER
}

/// `b` holds at least one complete frame.
pub open spec fn has_newline(b: Seq<u8>) -> bool {
    exists|i: int| 0 <= i < b.len() && b[i] == FRAME_DELIMITER
}

/// What one decode step does, given the buffer's bytes before (`b0`) and
/// after (`b1`): with no delimiter present, nothing is consumed and no
/// frame is reported; otherwise the bytes up to the first delimiter are
/// consumed along with the delimiter itself, and they become a line if
/// they are valid UTF-8 and a fatal error if not.
pub open spec fn decode_post(b0: Seq<u8>, b1: Seq<u8>, r: Result<Option<String>, DecodeError>) -> bool {
    if !has_newline(b0) {
        b1 == b0 && r matches Ok(None)
    } else {
        forall|i: int| #[trigger] first_newline_at(b0, i) ==> {
            &&& b1 == b0.subrange(i + 1, b0.len() as int)
            &&& (valid_utf8(b0.subrange(0, i)) ==> (r matches Ok(Some(s)) && s@ == decode_utf8(
                b0.subrange(0, i),
            )))
            &&& (!valid_utf8(b0.subrange(0, i)) ==> r matches Err(DecodeError::InvalidEncoding))
        }
    }
}

/// The wire form of a response: `+OK`, `$-1`, `+` before a value, or `-`
/// before an error kind, a space and a message, each terminated by the
/// two-byte end-of-line marker `\r\n`.
pub open spec fn encoded_bytes(resp: KVResponse) -> Seq<u8> {
    match resp {
        KVResponse::Okay => seq![43u8, 79u8, 75u8, 13u8, 10u8],
        KVResponse::Nil => seq![36u8, 45u8, 49u8, 13u8, 10u8],
        KVResponse::SimpleStr(s) => seq![43u8] + encode_utf8(s@) + seq![13u8, 10u8],
        KVResponse::Error(kind, msg) => seq![45u8] + encode_utf8(kind@) + seq![32u8] + encode_utf8(
            msg@,
        ) + seq![13u8, 10u8],
    }
}

/// A buffer holding no frame delimiter is left exactly as it is and
/// reported incomplete, and a repeated decode on that unchanged buffer
/// answers the same way again.
pub proof fn lemma_incomplete_idempotent(
    b0: Seq<u8>,
    b1: Seq<u8>,
    r1: Result<Option<String>, DecodeError>,
    b2: Seq<u8>,
    r2: Result<Option<String>, DecodeError>,
)
    requires
        !has_newline(b0),
        decode_post(b0, b1, r1),
        decode_post(b1, b2, r2),
    ensures
        b1 == b0,
        b2 == b0,
        r1 matches Ok(None),
        r2 matches Ok(None),
{
}

/// Two complete frames delivered in one buffer: the first decode
/// consumes exactly the first frame and its delimiter, the remainder is
/// non-empty, and its own first delimiter closes exactly the second
/// frame, so the next decode yields the second line and nothing is
/// over-consumed.
pub proof fn lemma_two_frames(b1: Seq<u8>, b2: Seq<u8>)
    requires
        forall|i: int| 0 <= i < b1.len() ==> b1[i] != FRAME_DELIMITER,
        forall|i: int| 0 <= i < b2.len() ==> b2[i] != FRAME_DELIMITER,
    ensures
        ({
            let whole = b1 + seq![FRAME_DELIMITER] + b2 + seq![FRAME_DELIMITER];
            let rest = b2 + seq![FRAME_DELIMITER];
            &&& first_newline_at(whole, b1.len() as int)
            &&& whole.subrange(0, b1.len() as int) == b1
            &&& whole.subrange(b1.len() as int + 1, whole.len() as int) == rest
            &&& rest.len() > 0
            &&& first_newline_at(rest, b2.len() as int)
            &&& rest.subrange(0, b2.len() as int) == b2
        }),
{
    let whole = b1 + seq![FRAME_DELIMITER] + b2 + seq![FRAME_DELIMITER];
    let rest = b2 + seq![FRAME_DELIMITER];
    assert(whole[b1.len() as int] == FRAME_DELIMITER);
    assert forall|j: int| 0 <= j < b1.len() implies whole[j] != FRAME_DELIMITER by {
        assert(whole[j] == b1[j]);
    }
    assert(whole.subrange(0, b1.len() as int) =~= b1);
    assert(whole.subrange(b1.len() as int + 1, whole.len() as int) =~= rest);
    assert(rest[b2.len() as int] == FRAME_DELIMITER);
    assert forall|j: int| 0 <= j < b2.len() implies rest[j] != FRAME_DELIMITER by {
        assert(rest[j] == b2[j]);
    }
    assert(rest.subrange(0, b2.len() as int) =~= b2);
}

/// `LineCodec` converts between raw bytes and higher-level values: lines
/// inbound, responses outbound.
pub struct LineCodec;

impl LineCodec {
    /// Decode at most one frame from the front of `buf`.
    ///
    /// With no delimiter in the buffer, nothing is consumed and `Ok(None)`
    /// asks the caller for more bytes; calling again on the same buffer
    /// repeats that answer. Otherwise exactly the first frame and its
    /// delimiter are consumed, whatever follows them stays buffered, and
    /// the frame becomes its decoded line, or `InvalidEncoding` if it is
    /// not valid UTF-8.
    pub fn decode(&mut self, buf: &mut bytes::BytesMut) -> (r: Result<Option<String>, DecodeError>)
        ensures
            decode_post(buf_bytes(*old(buf)), buf_bytes(*final(buf)), r),
    {
        let n = buf_len(buf);
        let mut pos: usize = n;
        let mut i: usize = 0;
        while i < n
            invariant
                i <= n,
                pos <= n,
                *buf == *old(buf),
                n == buf_bytes(*buf).len(),
                pos == n ==> forall|j: int| 0 <= j < i ==> buf_bytes(*buf)[j] != FRAME_DELIMITER,
                pos < n ==> first_newline_at(buf_bytes(*buf), pos as int),
            decreases n - i,
        {
            if pos == n {
                let c = buf_get(buf, i);
                if c == FRAME_DELIMITER {
                    pos = i;
                }
            }
            i = i + 1;
        }
        if pos == n {
            proof {
                assert(!has_newline(buf_bytes(*buf)));
            }
            Ok(None)
        } else {
            let ghost b0 = buf_bytes(*buf);
            let line_buf = buf_split_to(buf, pos);
            let _delim = buf_split_to(buf, 1);
            proof {
                assert(buf_bytes(*buf) =~= b0.subrange(pos + 1, b0.len() as int));
                assert forall|i2: int| first_newline_at(b0, i2) implies i2 == pos as int by {
                    assert(b0[i2] == FRAME_DELIMITER);
                    assert(b0[pos as int] == FRAME_DELIMITER);
                }
            }
            let line_vec = buf_to_vec(&line_buf);
            match utf8_to_string(line_vec.as_slice()) {
                Some(s) => Ok(Some(s)),
                None => Err(DecodeError::InvalidEncoding),
            }
        }
    }

    /// Encode a response: its wire form is appended to `buf`, and nothing
    /// already buffered is touched. Encoding is total.
    pub fn encode(&mut self, resp: KVResponse, buf: &mut bytes::BytesMut)
        ensures
            buf_bytes(*final(buf)) == buf_bytes(*old(buf)) + encoded_bytes(resp),
    {
        let mut out: Vec<u8> = Vec::new();
        match &resp {
            KVResponse::Okay => {
                out.push(43u8);
                out.push(79u8);
                out.push(75u8);
            }
            KVResponse::Nil => {
                out.push(36u8);
                out.push(45u8);
                out.push(49u8);
            }
            KVResponse::SimpleStr(s) => {
                out.push(43u8);
                let mut bs = s.as_str().as_bytes_vec();
                out.append(&mut bs);
            }
            KVResponse::Error(kind, msg) => {
                out.push(45u8);
                let mut kb = kind.as_str().as_bytes_vec();
                out.append(&mut kb);
                out.push(32u8);
                let mut mb = msg.as_str().as_bytes_vec();
                out.append(&mut mb);
            }
        }
        out.push(13u8);
        out.push(10u8);
        proof {
            assert(out@ =~= encoded_bytes(resp));
        }
        buf_extend(buf, out.as_slice());
    }
}

} // verus!
