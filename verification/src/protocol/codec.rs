//! Line-framed JSON codec.
//!
//! One JSON value per frame, delimited by a single LF (`0x0a`). Frames are UTF-8
//! (fatal on invalid bytes), capped at [`MAX_FRAME_BYTES`] (delimiter counted),
//! and a trailing CR (`0x0d`) before the LF is tolerated and stripped. Any
//! framing fault is fatal: the caller must close the connection. The codec works
//! on JSON values; `kind` routing is done by [`crate::protocol::envelope`].

use super::errors::ProtocolError;
use super::versions::MAX_FRAME_BYTES;
use crate::json::json_text;
use crate::json::readable;
use crate::json::value_parsed;
use crate::json::Json;
use crate::json::JsonView;
use crate::text::extend_bytes;
use bytes::Buf;
use bytes::BufMut;
use vstd::prelude::*;
use vstd::utf8::decode_utf8;
use vstd::utf8::encode_scalar;
use vstd::utf8::encode_utf8;
use vstd::utf8::valid_utf8;

verus! {

/// Codec-layer error: a fatal framing fault, or a transport fault.
#[derive(Debug)]
pub enum CodecError {
    Protocol(ProtocolError),
    Io(std::io::Error),
}

/// Encodes and decodes JSON values as LF-delimited UTF-8 frames.
#[derive(Debug, Clone, Copy, Default)]
pub struct LfCodec;

// ---------------------------------------------------------------------------
// The byte buffer
// ---------------------------------------------------------------------------

/// `bytes::BytesMut`, the buffer a connection reads into and writes from.
#[verifier::external_type_specification]
#[verifier::external_body]
pub struct ExBytesMut(bytes::BytesMut);

/// The bytes that a buffer holds and that have not been consumed.
pub uninterp spec fn buffered(buf: bytes::BytesMut) -> Seq<u8>;

/// `<bytes::BytesMut as AsRef<[u8]>>::as_ref`: the bytes that the buffer holds.
#[verifier::external_body]
fn buffer_bytes(buf: &bytes::BytesMut) -> (r: &[u8])
    ensures
        r@ == buffered(*buf),
{
    buf.as_ref()
}

/// `bytes::Buf::advance`: drops the first `n` bytes. It panics past the end.
#[verifier::external_body]
fn buffer_advance(buf: &mut bytes::BytesMut, n: usize)
    requires
        n <= buffered(*old(buf)).len(),
    ensures
        buffered(*final(buf)) == buffered(*old(buf)).skip(n as int),
{
    buf.advance(n);
}

/// `bytes::BufMut::put_slice`: appends the bytes, growing the buffer as needed.
/// It panics where the buffer would outgrow the address space.
#[verifier::external_body]
fn buffer_put(buf: &mut bytes::BytesMut, bytes: &[u8])
    requires
        buffered(*old(buf)).len() + bytes@.len() <= isize::MAX / 4,
    ensures
        buffered(*final(buf)) == buffered(*old(buf)) + bytes@,
{
    buf.put_slice(bytes);
}

/// `core::str::Utf8Error`, of which nothing is read.
#[verifier::external_type_specification]
#[verifier::external_body]
pub struct ExUtf8Error(core::str::Utf8Error);

/// `core::str::from_utf8`: the text that the bytes encode, or an error if they
/// are no valid UTF-8.
pub assume_specification[ core::str::from_utf8 ](v: &[u8]) -> (r: Result<
    &str,
    core::str::Utf8Error,
>)
    ensures
        match r {
            Ok(s) => valid_utf8(v@) && s@ == decode_utf8(v@),
            Err(_) => !valid_utf8(v@),
        },
;

// ---------------------------------------------------------------------------
// Frame boundaries
// ---------------------------------------------------------------------------

/// The place of the first LF, or the length.
pub open spec fn line_end(bytes: Seq<u8>) -> int
    decreases bytes.len(),
{
    if bytes.len() == 0 || bytes[0] == 0x0a {
        0
    } else {
        1 + line_end(bytes.skip(1))
    }
}

/// What the front of a buffer holds.
pub enum Line {
    /// No complete frame yet.
    Incomplete,
    /// A frame of the first `len` bytes, of which the first `text` are its text.
    Frame { text: int, len: int },
    /// An empty frame.
    Empty,
    /// A frame beyond the cap, complete or not.
    TooLarge,
}

/// What the front of `bytes` holds.
pub open spec fn front_line(bytes: Seq<u8>) -> Line {
    let lf = line_end(bytes);
    if lf == bytes.len() {
        if bytes.len() > MAX_FRAME_BYTES {
            Line::TooLarge
        } else {
            Line::Incomplete
        }
    } else if lf == 0 || (lf == 1 && bytes[0] == 0x0d) {
        Line::Empty
    } else if lf + 1 > MAX_FRAME_BYTES {
        Line::TooLarge
    } else {
        Line::Frame {
            text: if bytes[lf - 1] == 0x0d {
                lf - 1
            } else {
                lf
            },
            len: lf + 1,
        }
    }
}

proof fn lemma_line_end(bytes: Seq<u8>, i: int)
    requires
        0 <= i <= bytes.len(),
        forall|k: int| 0 <= k < i ==> #[trigger] bytes[k] != 0x0a,
        i < bytes.len() ==> bytes[i] == 0x0a,
    ensures
        line_end(bytes) == i,
    decreases bytes.len(),
{
    if i > 0 {
        assert(bytes[0] != 0x0a);
        assert forall|k: int| 0 <= k < i - 1 implies #[trigger] bytes.skip(1)[k] != 0x0a by {
            assert(bytes.skip(1)[k] == bytes[k + 1]);
        }
        lemma_line_end(bytes.skip(1), i - 1);
    }
}

/// Finds the frame at the front of `bytes`: the length of its text and of the
/// whole frame, or nothing while it is incomplete.
pub fn next_line(bytes: &[u8]) -> (r: Result<Option<(usize, usize)>, ProtocolError>)
    ensures
        match front_line(bytes@) {
            Line::Incomplete => r matches Ok(None),
            Line::Frame { text, len } => r matches Ok(Some((t, n))) && t == text && n == len && 0 < t
                < n <= bytes@.len(),
            Line::Empty => r matches Err(e) && e is InvalidFrame,
            Line::TooLarge => r matches Err(e) && e is FrameTooLarge,
        },
{
    let mut lf: usize = 0;
    while lf < bytes.len() && bytes[lf] != 0x0a
        invariant
            lf <= bytes.len(),
            forall|k: int| 0 <= k < lf ==> #[trigger] bytes@[k] != 0x0a,
        decreases bytes.len() - lf,
    {
        lf = lf + 1;
    }
    proof {
        lemma_line_end(bytes@, lf as int);
    }
    if lf == bytes.len() {
        if bytes.len() > MAX_FRAME_BYTES {
            return Err(ProtocolError::FrameTooLarge);
        }
        return Ok(None);
    }
    if lf == 0 || (lf == 1 && bytes[0] == 0x0d) {
        return Err(ProtocolError::InvalidFrame);
    }
    if lf >= MAX_FRAME_BYTES {
        return Err(ProtocolError::FrameTooLarge);
    }
    let text: usize = if bytes[lf - 1] == 0x0d {
        lf - 1
    } else {
        lf
    };
    Ok(Some((text, lf + 1)))
}

/// The frame that carries `text`: its encoding and an LF.
pub open spec fn framed(text: Seq<char>) -> Seq<u8> {
    encode_utf8(text).push(0x0a)
}

/// The frame that carries `text`, unless it exceeds the cap.
pub fn frame_text(text: &str) -> (r: Result<Vec<u8>, ProtocolError>)
    ensures
        match r {
            Ok(frame) => frame@ == framed(text@) && frame@.len() <= MAX_FRAME_BYTES,
            Err(e) => e is FrameTooLarge && framed(text@).len() > MAX_FRAME_BYTES,
        },
{
    let bytes = text.as_bytes();
    if bytes.len() >= MAX_FRAME_BYTES {
        return Err(ProtocolError::FrameTooLarge);
    }
    let mut frame: Vec<u8> = Vec::new();
    extend_bytes(&mut frame, bytes);
    frame.push(0x0a);
    assert(frame@ =~= framed(text@));
    Ok(frame)
}

// ---------------------------------------------------------------------------
// Frames
// ---------------------------------------------------------------------------

/// What decoding the front of a buffer gives.
pub enum Decoded {
    Incomplete,
    /// A value, carried by the first `len` bytes.
    Value { value: JsonView, len: int },
    InvalidFrame,
    FrameTooLarge,
    InvalidUtf8,
    InvalidJson { message: Seq<char> },
}

/// What decoding the front of `bytes` gives.
pub open spec fn decoded(bytes: Seq<u8>) -> Decoded {
    match front_line(bytes) {
        Line::Incomplete => Decoded::Incomplete,
        Line::Empty => Decoded::InvalidFrame,
        Line::TooLarge => Decoded::FrameTooLarge,
        Line::Frame { text, len } => if !valid_utf8(bytes.take(text)) {
            Decoded::InvalidUtf8
        } else {
            match value_parsed(decode_utf8(bytes.take(text))) {
                Ok(value) => Decoded::Value { value, len },
                Err(message) => Decoded::InvalidJson { message },
            }
        },
    }
}

/// Every character of `s` is a space or comes after it.
pub open spec fn no_controls(s: Seq<char>) -> bool {
    forall|i: int| 0 <= i < s.len() ==> ' ' <= #[trigger] s[i]
}

proof fn lemma_scalar_bytes(s: u32)
    requires
        0x20 <= s,
    ensures
        forall|i: int|
            0 <= i < encode_scalar(s).len() ==> 0x20 <= #[trigger] encode_scalar(s)[i],
        encode_scalar(s).len() > 0,
{
    assert(0x20 <= s <= 0x7f ==> (s & 0x7f) as u8 >= 0x20) by (bit_vector);
    assert((0xc0u8 | ((s >> 6) & 0x1f) as u8) >= 0x20) by (bit_vector);
    assert((0xe0u8 | ((s >> 12) & 0x0f) as u8) >= 0x20) by (bit_vector);
    assert((0xf0u8 | ((s >> 18) & 0x7) as u8) >= 0x20) by (bit_vector);
    assert((0x80u8 | (s & 0x3f) as u8) >= 0x20) by (bit_vector);
    assert((0x80u8 | ((s >> 6) & 0x3f) as u8) >= 0x20) by (bit_vector);
    assert((0x80u8 | ((s >> 12) & 0x3f) as u8) >= 0x20) by (bit_vector);
}

proof fn lemma_char_bytes(c: char)
    requires
        ' ' <= c,
    ensures
        forall|i: int|
            0 <= i < encode_scalar(c as u32).len() ==> 0x20 <= #[trigger] encode_scalar(
                c as u32,
            )[i],
        encode_scalar(c as u32).len() > 0,
{
    lemma_scalar_bytes(c as u32);
}

/// The encoding of a text without control characters has no control bytes.
proof fn lemma_no_control_bytes(s: Seq<char>)
    requires
        no_controls(s),
    ensures
        forall|i: int| 0 <= i < encode_utf8(s).len() ==> 0x20 <= #[trigger] encode_utf8(s)[i],
        s.len() > 0 ==> encode_utf8(s).len() > 0,
    decreases s.len(),
{
    if s.len() > 0 {
        let rest = s.drop_first();
        assert(' ' <= s[0]);
        assert forall|i: int| 0 <= i < rest.len() implies ' ' <= #[trigger] rest[i] by {
            assert(rest[i] == s[i + 1]);
        }
        lemma_no_control_bytes(rest);
        lemma_char_bytes(s[0]);
        let head = encode_scalar(s[0] as u32);
        assert forall|i: int| 0 <= i < encode_utf8(s).len() implies 0x20 <= #[trigger] encode_utf8(
            s,
        )[i] by {
            if i < head.len() {
                assert(encode_utf8(s)[i] == head[i]);
            } else {
                assert(encode_utf8(s)[i] == encode_utf8(rest)[i - head.len()]);
            }
        }
    }
}

/// A frame within the cap is found whole at the front of a buffer, whatever
/// follows it, and its text is the text that was framed.
pub proof fn law_frame_is_found(text: Seq<char>, rest: Seq<u8>)
    requires
        text.len() > 0,
        no_controls(text),
        framed(text).len() <= MAX_FRAME_BYTES,
    ensures
        front_line(framed(text) + rest) == (Line::Frame {
            text: encode_utf8(text).len() as int,
            len: framed(text).len() as int,
        }),
        valid_utf8((framed(text) + rest).take(encode_utf8(text).len() as int)),
        decode_utf8((framed(text) + rest).take(encode_utf8(text).len() as int)) == text,
{
    let line = encode_utf8(text);
    let bytes = framed(text) + rest;
    let n = line.len() as int;
    lemma_no_control_bytes(text);
    assert forall|k: int| 0 <= k < n implies #[trigger] bytes[k] != 0x0a by {
        assert(bytes[k] == line[k]);
    }
    assert(bytes[n] == 0x0a);
    lemma_line_end(bytes, n);
    assert(bytes[n - 1] == line[n - 1]);
    assert(bytes[0] == line[0]);
    assert(bytes.take(n) =~= line);
    vstd::utf8::encode_utf8_valid_utf8(text);
    vstd::utf8::encode_utf8_decode_utf8(text);
}

/// The error says what is wrong with the frame.
pub open spec fn decode_error(e: CodecError, d: Decoded) -> bool {
    match d {
        Decoded::InvalidFrame => e == CodecError::Protocol(ProtocolError::InvalidFrame),
        Decoded::FrameTooLarge => e == CodecError::Protocol(ProtocolError::FrameTooLarge),
        Decoded::InvalidUtf8 => e == CodecError::Protocol(ProtocolError::InvalidUtf8),
        Decoded::InvalidJson { message } => e matches CodecError::Protocol(
            ProtocolError::InvalidJson(m),
        ) && m@ == message,
        _ => false,
    }
}

impl LfCodec {
    /// Takes the next value off the front of the buffer. The buffer stays as it
    /// is while the frame is incomplete, and on a fault.
    pub fn decode(&self, buf: &mut bytes::BytesMut) -> (r: Result<Option<Json>, CodecError>)
        ensures
            match r {
                Ok(Some(v)) => decoded(buffered(*old(buf))) matches Decoded::Value {
                    value,
                    len,
                } && v@ == value && buffered(*final(buf)) == buffered(*old(buf)).skip(len),
                Ok(None) => decoded(buffered(*old(buf))) is Incomplete && buffered(*final(buf))
                    == buffered(*old(buf)),
                Err(e) => decode_error(e, decoded(buffered(*old(buf)))) && buffered(*final(buf))
                    == buffered(*old(buf)),
            },
    {
        let bytes = buffer_bytes(buf);
        let (text_len, len) = match next_line(bytes) {
            Err(e) => return Err(CodecError::Protocol(e)),
            Ok(None) => return Ok(None),
            Ok(Some(found)) => found,
        };
        let line = vstd::slice::slice_subrange(bytes, 0, text_len);
        assert(line@ =~= buffered(*buf).take(text_len as int));
        let value = match core::str::from_utf8(line) {
            Err(_) => return Err(CodecError::Protocol(ProtocolError::InvalidUtf8)),
            Ok(s) => match Json::parse(s) {
                Ok(v) => v,
                Err(m) => return Err(CodecError::Protocol(ProtocolError::InvalidJson(m))),
            },
        };
        buffer_advance(buf, len);
        Ok(Some(value))
    }

    /// Appends the frame that carries `item`, unless it exceeds the cap. What the
    /// frame's text reads back to, the frame decodes to, whatever follows it.
    pub fn encode(&self, item: Json, buf: &mut bytes::BytesMut) -> (r: Result<(), CodecError>)
        requires
            buffered(*old(buf)).len() + MAX_FRAME_BYTES <= isize::MAX / 4,
        ensures
            match r {
                Ok(()) => framed(json_text(item@)).len() <= MAX_FRAME_BYTES && buffered(*final(buf))
                    == buffered(*old(buf)) + framed(json_text(item@)),
                Err(e) => framed(json_text(item@)).len() > MAX_FRAME_BYTES && e
                    == CodecError::Protocol(ProtocolError::FrameTooLarge) && buffered(*final(buf))
                    == buffered(*old(buf)),
            },
            r is Ok && readable(item@) ==> forall|rest: Seq<u8>|
                decoded(#[trigger] (framed(json_text(item@)) + rest)) == (Decoded::Value {
                    value: item@,
                    len: framed(json_text(item@)).len() as int,
                }),
    {
        let text = item.to_text();
        match frame_text(text.as_str()) {
            Err(e) => Err(CodecError::Protocol(e)),
            Ok(frame) => {
                buffer_put(buf, frame.as_slice());
                proof {
                    if readable(item@) {
                        assert forall|rest: Seq<u8>| decoded(
                            #[trigger] (framed(json_text(item@)) + rest),
                        ) == (Decoded::Value {
                            value: item@,
                            len: framed(json_text(item@)).len() as int,
                        }) by {
                            law_frame_is_found(text@, rest);
                        }
                    }
                }
                Ok(())
            },
        }
    }
}

/// What stands at the front of a buffer: a line, without its line feed and one carriage
/// return before that, is a frame if it holds anything and with its line end is within 96
/// kibibytes; an empty one is none; a longer one is too large, complete or not; and without
/// a line feed there is none yet.
pub proof fn law_lines_are_frames(line: Seq<u8>, rest: Seq<u8>)
    requires
        forall|k: int| 0 <= k < line.len() ==> #[trigger] line[k] != 0x0a,
    ensures
        front_line(line) == (if line.len() > 96 * 1024 {
            Line::TooLarge
        } else {
            Line::Incomplete
        }),
        front_line(line.push(0x0a) + rest) == (if line.len() == 0 || line == seq![0x0du8] {
            Line::Empty
        } else if line.len() + 1 > 96 * 1024 {
            Line::TooLarge
        } else {
            Line::Frame {
                text: if line.last() == 0x0d {
                    line.len() as int - 1
                } else {
                    line.len() as int
                },
                len: line.len() as int + 1,
            }
        }),
{
    let n = line.len() as int;
    lemma_line_end(line, n);
    let all = line.push(0x0a) + rest;
    assert forall|k: int| 0 <= k < n implies #[trigger] all[k] != 0x0a by {
        assert(all[k] == line[k]);
    }
    assert(all[n] == 0x0a);
    lemma_line_end(all, n);
    if n == 1 {
        assert(all[0] == line[0]);
        assert(line =~= seq![line[0]]);
    }
    if n > 0 {
        assert(all[n - 1] == line.last());
    }
}

/// What a buffer decodes to: what is no frame is reported as what it is, what is no UTF-8
/// or no JSON too, and a frame is the value of its text, and all of it is consumed.
pub proof fn law_frames_decode_to_their_values(bytes: Seq<u8>)
    ensures
        match front_line(bytes) {
            Line::Incomplete => decoded(bytes) is Incomplete,
            Line::Empty => decoded(bytes) is InvalidFrame,
            Line::TooLarge => decoded(bytes) is FrameTooLarge,
            Line::Frame { text, len } => if !valid_utf8(bytes.take(text)) {
                decoded(bytes) is InvalidUtf8
            } else {
                match value_parsed(decode_utf8(bytes.take(text))) {
                    Ok(v) => decoded(bytes) matches Decoded::Value { value, len: n } && value == v
                        && n == len,
                    Err(m) => decoded(bytes) matches Decoded::InvalidJson { message } && message
                        == m,
                }
            },
        },
{
}

/// A fault of the reader is the fault of the frame that stands first: one that holds nothing,
/// one beyond the bound, one that is no UTF-8, or one that is no JSON, with what the JSON
/// reader said of it.
pub proof fn law_faults_say_what_is_wrong(bytes: Seq<u8>, e: CodecError)
    requires
        decode_error(e, decoded(bytes)),
    ensures
        !(front_line(bytes) is Incomplete),
        e == CodecError::Protocol(ProtocolError::InvalidFrame) <==> front_line(bytes) is Empty,
        e == CodecError::Protocol(ProtocolError::FrameTooLarge) <==> front_line(bytes) is TooLarge,
        e == CodecError::Protocol(ProtocolError::InvalidUtf8) <==> (front_line(bytes) matches Line::Frame {
            text,
            ..
        } && !valid_utf8(bytes.take(text))),
        e matches CodecError::Protocol(ProtocolError::InvalidJson(m)) ==> (front_line(
            bytes,
        ) matches Line::Frame { text, .. } && value_parsed(decode_utf8(bytes.take(text))) == Err::<
            JsonView,
            Seq<char>,
        >(m@)),
{
}

} // verus!
