//! The framing of the file-sync streams: `[1-byte type][4-byte big-endian length][payload]`.
use crate::text::decimal;
use vstd::prelude::*;
use vstd::slice::{slice_subrange, slice_to_vec};
use vstd::string::StringExecFns;

verus! {

use crate::text::decimal_text;

/// The longest payload that a reader accepts. The cap keeps a garbage length prefix from making
/// the reader allocate whatever it declares.
pub const MAX_MSG_LEN: usize = 20_000_000;

/// The message type of a full sync: the payload is the whole content of the file.
pub const MSG_TYPE_FULL: u8 = 0;

/// The message type of a patch: the payload is a unified diff.
pub const MSG_TYPE_PATCH: u8 = 1;

/// The number of bytes in front of the payload.
pub const HEADER_LEN: usize = 5;

/// The four big-endian bytes of a number of 32 bits.
pub open spec fn be_bytes(n: nat) -> Seq<u8>
    recommends
        n <= u32::MAX,
{
    seq![
        (n / 0x100_0000 % 0x100) as u8,
        (n / 0x1_0000 % 0x100) as u8,
        (n / 0x100 % 0x100) as u8,
        (n % 0x100) as u8,
    ]
}

/// The number that four big-endian bytes stand for.
pub open spec fn be_value(b: Seq<u8>) -> nat {
    (b[0] * 0x100_0000 + b[1] * 0x1_0000 + b[2] * 0x100 + b[3]) as nat
}

/// The length of the payload can be written into the length field.
pub open spec fn fits_length_field(payload: Seq<u8>) -> bool {
    payload.len() <= u32::MAX
}

/// The bytes of one frame.
pub open spec fn frame_bytes(msg_type: u8, payload: Seq<u8>) -> Seq<u8>
    recommends
        fits_length_field(payload),
{
    seq![msg_type] + be_bytes(payload.len()) + payload
}

/// Why no frame could be read.
#[derive(Debug, Clone, Copy, PartialEq, Eq, Structural)]
pub enum FrameError {
    /// The stream ended before the frame did.
    UnexpectedEnd,
    /// The header declares a payload of more than `MAX_MSG_LEN` bytes.
    TooLong { len: u32 },
}

impl FrameError {
    /// The text of `message`.
    pub open spec fn message_text(self) -> Seq<char> {
        match self {
            FrameError::UnexpectedEnd => "unexpected end of file"@,
            FrameError::TooLong { len } => "declared message length "@ + decimal_text(len as nat)
                + " exceeds max "@ + decimal_text(MAX_MSG_LEN as nat),
        }
    }

    /// The error in words.
    pub fn message(&self) -> (text: String)
        ensures
            text@ == self.message_text(),
            match *self {
                FrameError::UnexpectedEnd => text@ == "unexpected end of file"@,
                FrameError::TooLong { len } => text@ == "declared message length "@ + decimal_text(
                    len as nat,
                ) + " exceeds max "@ + decimal_text(20_000_000),
            },
    {
        match self {
            FrameError::UnexpectedEnd => "unexpected end of file".to_owned(),
            FrameError::TooLong { len } => {
                let mut text = "declared message length ".to_owned();
                text.append(decimal(*len as u64).as_str());
                text.append(" exceeds max ");
                text.append(decimal(MAX_MSG_LEN as u64).as_str());
                text
            },
        }
    }
}

/// What the first frame of `input` is: its type and its payload. The bytes behind it do not matter.
pub open spec fn parse_frame(input: Seq<u8>) -> Result<(u8, Seq<u8>), FrameError> {
    let len = be_value(input.subrange(1, 5));
    if input.len() < HEADER_LEN {
        Err(FrameError::UnexpectedEnd)
    } else if len > MAX_MSG_LEN {
        Err(FrameError::TooLong { len: len as u32 })
    } else if input.len() < HEADER_LEN + len {
        Err(FrameError::UnexpectedEnd)
    } else {
        Ok((input[0], input.subrange(5, 5 + len as int)))
    }
}

/// What is left of `input` once its first frame has been read: what lies behind the frame, or
/// behind a refused header, and nothing when the input ended first.
pub open spec fn frame_rest(input: Seq<u8>) -> Seq<u8> {
    match parse_frame(input) {
        Ok((_, payload)) => input.skip((HEADER_LEN + payload.len()) as int),
        Err(FrameError::TooLong { .. }) => input.skip(HEADER_LEN as int),
        Err(FrameError::UnexpectedEnd) => Seq::empty(),
    }
}

proof fn lemma_be_roundtrip(n: nat)
    requires
        n < 0x1_0000_0000,
    ensures
        be_value(be_bytes(n)) == n,
{
}

proof fn lemma_be_bytes_of_value(b: Seq<u8>)
    requires
        b.len() == 4,
    ensures
        be_bytes(be_value(b)) == b,
{
    let (b0, b1, b2, b3) = (b[0] as nat, b[1] as nat, b[2] as nat, b[3] as nat);
    let n = be_value(b);
    assert(n / 0x100_0000 == b0);
    assert(n / 0x1_0000 == b0 * 0x100 + b1);
    assert(n / 0x100 == b0 * 0x1_0000 + b1 * 0x100 + b2);
    assert(n % 0x100 == b3);
    assert((b0 * 0x100 + b1) % 0x100 == b1);
    assert((b0 * 0x1_0000 + b1 * 0x100 + b2) % 0x100 == b2);
    assert(be_bytes(n) =~= b);
}

/// The header of a frame, which is the type and the length of the payload, or nothing where the
/// payload is longer than the length field can say.
pub fn frame_header(msg_type: u8, len: usize) -> (r: Option<Vec<u8>>)
    ensures
        len <= u32::MAX ==> (r matches Some(header) && header@ == seq![msg_type] + be_bytes(
            len as nat,
        )),
        len > u32::MAX ==> r is None,
        r matches Some(header) ==> {
            &&& header@.len() == 5
            &&& header@[0] == msg_type
            &&& header@[1] * 0x100_0000 + header@[2] * 0x1_0000 + header@[3] * 0x100 + header@[4]
                == len
        },
{
    if len as u64 > u32::MAX as u64 {
        return None;
    }
    let mut header: Vec<u8> = Vec::new();
    header.push(msg_type);
    header.push((len / 0x100_0000 % 0x100) as u8);
    header.push((len / 0x1_0000 % 0x100) as u8);
    header.push((len / 0x100 % 0x100) as u8);
    header.push((len % 0x100) as u8);
    proof {
        law_length_is_big_endian(len as nat);
    }
    Some(header)
}

/// The bytes to write for one message, or nothing where the payload is longer than the length
/// field can say.
pub fn write_framed(msg_type: u8, payload: &[u8]) -> (r: Option<Vec<u8>>)
    ensures
        fits_length_field(payload@) ==> (r matches Some(bytes) && bytes@ == frame_bytes(
            msg_type,
            payload@,
        )),
        !fits_length_field(payload@) ==> r is None,
        r is Some <==> payload@.len() <= u32::MAX,
        r matches Some(bytes) ==> {
            &&& bytes@.len() == 5 + payload@.len()
            &&& bytes@[0] == msg_type
            &&& bytes@[1] * 0x100_0000 + bytes@[2] * 0x1_0000 + bytes@[3] * 0x100 + bytes@[4]
                == payload@.len()
            &&& bytes@.skip(5) == payload@
        },
{
    match frame_header(msg_type, payload.len()) {
        None => None,
        Some(header) => {
            let mut bytes = header;
            bytes.extend_from_slice(payload);
            proof {
                law_frame_layout(msg_type, payload@);
            }
            Some(bytes)
        },
    }
}

/// How far the reading of a frame has come.
#[derive(Debug, Clone, Copy, PartialEq, Eq, Structural)]
pub enum FrameReader {
    /// Nothing has been read.
    Type,
    /// The type has been read.
    Length { msg_type: u8 },
    /// The header has been read.
    Payload { msg_type: u8, len: usize },
}

/// What comes of the bytes that a `FrameReader` asked for.
#[derive(Debug)]
pub enum ReadStep {
    /// The frame goes on.
    More(FrameReader),
    /// The frame is complete.
    Done(u8, Vec<u8>),
    /// The header is refused, and the payload is not read.
    Refused(FrameError),
}

impl FrameReader {
    /// A reader asks for no more than the cap.
    pub open spec fn wf(self) -> bool {
        self.asks() <= MAX_MSG_LEN
    }

    /// The number of bytes that the reader needs next.
    pub open spec fn asks(self) -> nat {
        match self {
            FrameReader::Type => 1,
            FrameReader::Length { .. } => 4,
            FrameReader::Payload { len, .. } => len as nat,
        }
    }

    /// A reader at the start of a frame.
    pub fn new() -> (reader: FrameReader)
        ensures
            reader == FrameReader::Type,
            reader.wf(),
    {
        FrameReader::Type
    }

    /// The number of bytes to read next.
    pub fn wanted(&self) -> (n: usize)
        ensures
            n == self.asks(),
            match *self {
                FrameReader::Type => n == 1,
                FrameReader::Length { .. } => n == 4,
                FrameReader::Payload { len, .. } => n == len,
            },
    {
        match self {
            FrameReader::Type => 1,
            FrameReader::Length { .. } => 4,
            FrameReader::Payload { len, .. } => *len,
        }
    }

    /// Takes the bytes that were asked for.
    pub fn advance(self, bytes: Vec<u8>) -> (step: ReadStep)
        requires
            bytes@.len() == self.asks(),
        ensures
            match self {
                FrameReader::Type => step == ReadStep::More(
                    FrameReader::Length { msg_type: bytes@[0] },
                ),
                FrameReader::Length { msg_type } => if be_value(bytes@) <= MAX_MSG_LEN {
                    step == ReadStep::More(
                        FrameReader::Payload { msg_type, len: be_value(bytes@) as usize },
                    )
                } else {
                    step == ReadStep::Refused(FrameError::TooLong { len: be_value(bytes@) as u32 })
                },
                FrameReader::Payload { msg_type, .. } => step == ReadStep::Done(msg_type, bytes),
            },
            step matches ReadStep::More(next) ==> next.wf(),
            self matches FrameReader::Length { msg_type } ==> {
                let declared = bytes@[0] * 0x100_0000 + bytes@[1] * 0x1_0000 + bytes@[2] * 0x100
                    + bytes@[3];
                if declared <= 20_000_000 {
                    step matches ReadStep::More(FrameReader::Payload { msg_type: kept, len })
                        && kept == msg_type && len == declared
                } else {
                    step matches ReadStep::Refused(FrameError::TooLong { len }) && len == declared
                }
            },
    {
        match self {
            FrameReader::Type => ReadStep::More(FrameReader::Length { msg_type: bytes[0] }),
            FrameReader::Length { msg_type } => {
                let len: u32 = bytes[0] as u32 * 0x100_0000 + bytes[1] as u32 * 0x1_0000
                    + bytes[2] as u32 * 0x100 + bytes[3] as u32;
                if len as usize > MAX_MSG_LEN {
                    ReadStep::Refused(FrameError::TooLong { len })
                } else {
                    ReadStep::More(FrameReader::Payload { msg_type, len: len as usize })
                }
            },
            FrameReader::Payload { msg_type, .. } => ReadStep::Done(msg_type, bytes),
        }
    }
}

/// A frame with its payload taken by its bytes.
pub open spec fn frame_view(r: Result<(u8, Vec<u8>), FrameError>) -> Result<
    (u8, Seq<u8>),
    FrameError,
> {
    match r {
        Ok((msg_type, payload)) => Ok((msg_type, payload@)),
        Err(e) => Err(e),
    }
}

/// Reads one frame off the stream: the type and the payload. The stream is left where the reading
/// stopped.
pub fn read_framed(stream: &mut &[u8]) -> (r: Result<(u8, Vec<u8>), FrameError>)
    ensures
        frame_view(r) == parse_frame(old(stream)@),
        final(stream)@ == frame_rest(old(stream)@),
        ({
            let input = old(stream)@;
            let declared = input[1] * 0x100_0000 + input[2] * 0x1_0000 + input[3] * 0x100
                + input[4];
            if input.len() < 5 {
                &&& r == Err::<(u8, Vec<u8>), FrameError>(FrameError::UnexpectedEnd)
                &&& final(stream)@.len() == 0
            } else if declared > 20_000_000 {
                &&& r matches Err(FrameError::TooLong { len }) && len == declared
                &&& final(stream)@ == input.skip(5)
            } else if input.len() < 5 + declared {
                &&& r == Err::<(u8, Vec<u8>), FrameError>(FrameError::UnexpectedEnd)
                &&& final(stream)@.len() == 0
            } else {
                &&& r matches Ok((msg_type, payload)) && msg_type == input[0] && payload@
                    == input.subrange(5, 5 + declared)
                &&& final(stream)@ == input.skip(5 + declared)
            }
        }),
{
    let input = *stream;
    proof {
        law_frame_is_read_by_its_header(input@);
    }
    let mut reader = FrameReader::new();
    let mut pos: usize = 0;
    loop
        invariant
            input@ == old(stream)@,
            match reader {
                FrameReader::Type => pos == 0,
                FrameReader::Length { msg_type } => pos == 1 <= input@.len() && msg_type
                    == input@[0],
                FrameReader::Payload { msg_type, len } => {
                    &&& pos == 5 <= input@.len()
                    &&& msg_type == input@[0]
                    &&& len == be_value(input@.subrange(1, 5)) <= MAX_MSG_LEN
                },
            },
        decreases 5 - pos,
    {
        let wanted = reader.wanted();
        if input.len() - pos < wanted {
            *stream = slice_subrange(input, input.len(), input.len());
            return Err(FrameError::UnexpectedEnd);
        }
        let bytes = slice_to_vec(slice_subrange(input, pos, pos + wanted));
        *stream = slice_subrange(input, pos + wanted, input.len());
        match reader.advance(bytes) {
            ReadStep::More(next) => {
                reader = next;
                pos = pos + wanted;
            },
            ReadStep::Done(msg_type, payload) => {
                return Ok((msg_type, payload));
            },
            ReadStep::Refused(e) => {
                return Err(e);
            },
        }
    }
}

/// The bytes of frames written one after the other.
pub open spec fn stream_bytes(frames: Seq<(u8, Seq<u8>)>) -> Seq<u8>
    decreases frames.len(),
{
    if frames.len() == 0 {
        Seq::empty()
    } else {
        frame_bytes(frames[0].0, frames[0].1) + stream_bytes(frames.drop_first())
    }
}

/// The frames that are read off `input` one after the other, and the error that ends the reading.
pub open spec fn parse_stream(input: Seq<u8>) -> (Seq<(u8, Seq<u8>)>, FrameError)
    decreases input.len(),
{
    match parse_frame(input) {
        Err(e) => (Seq::empty(), e),
        Ok(frame) => {
            let (frames, end) = parse_stream(frame_rest(input));
            (seq![frame] + frames, end)
        },
    }
}

/// The numbers of the wire format.
pub proof fn law_format_numbers()
    ensures
        MSG_TYPE_FULL == 0,
        MSG_TYPE_PATCH == 1,
        HEADER_LEN == 5,
        MAX_MSG_LEN == 20_000_000,
{
}

/// The length field is big-endian: its four bytes, the most significant first, make up the length,
/// whatever it is.
pub proof fn law_length_is_big_endian(n: nat)
    requires
        n < 0x1_0000_0000,
    ensures
        be_bytes(n).len() == 4,
        be_bytes(n)[0] * 0x100_0000 + be_bytes(n)[1] * 0x1_0000 + be_bytes(n)[2] * 0x100
            + be_bytes(n)[3] == n,
{
}

/// Any four bytes declare the length that they make up with the most significant first.
pub proof fn law_declared_length_is_big_endian(b: Seq<u8>)
    requires
        b.len() == 4,
    ensures
        be_value(b) == b[0] * 0x100_0000 + b[1] * 0x1_0000 + b[2] * 0x100 + b[3],
{
}

/// A frame is the type, the length with its most significant byte first, and the payload, and
/// nothing else. Every payload whose length has 32 bits has a frame, and no other.
pub proof fn law_frame_layout(msg_type: u8, payload: Seq<u8>)
    ensures
        fits_length_field(payload) <==> payload.len() < 0x1_0000_0000,
        fits_length_field(payload) ==> {
            let bytes = frame_bytes(msg_type, payload);
            &&& bytes.len() == 5 + payload.len()
            &&& bytes[0] == msg_type
            &&& bytes[1] * 0x100_0000 + bytes[2] * 0x1_0000 + bytes[3] * 0x100 + bytes[4]
                == payload.len()
            &&& bytes.skip(5) == payload
        },
{
    if fits_length_field(payload) {
        law_length_is_big_endian(payload.len());
        assert(frame_bytes(msg_type, payload).skip(5) =~= payload);
    }
}

/// What is read off a stream: nothing while the header is incomplete; nothing but the refusal where
/// the header declares more than the cap; and else as many bytes as declared, once they are there.
pub proof fn law_frame_is_read_by_its_header(input: Seq<u8>)
    ensures
        input.len() < 5 ==> parse_frame(input) == Err::<(u8, Seq<u8>), FrameError>(
            FrameError::UnexpectedEnd,
        ) && frame_rest(input).len() == 0,
        input.len() >= 5 ==> {
            let declared = input[1] * 0x100_0000 + input[2] * 0x1_0000 + input[3] * 0x100
                + input[4];
            if declared > 20_000_000 {
                (parse_frame(input) matches Err(FrameError::TooLong { len }) && len == declared)
                    && frame_rest(input) == input.skip(5)
            } else if input.len() < 5 + declared {
                parse_frame(input) == Err::<(u8, Seq<u8>), FrameError>(FrameError::UnexpectedEnd)
                    && frame_rest(input).len() == 0
            } else {
                parse_frame(input) == Ok::<(u8, Seq<u8>), FrameError>(
                    (input[0], input.subrange(5, 5 + declared)),
                ) && frame_rest(input) == input.skip(5 + declared)
            }
        },
{
}

/// A reader asks for the type, then for the length field, then for as much as was declared.
pub proof fn law_reader_asks_for_the_layout(msg_type: u8, len: usize)
    ensures
        FrameReader::Type.asks() == 1,
        (FrameReader::Length { msg_type }).asks() == 4,
        (FrameReader::Payload { msg_type, len }).asks() == len,
        (FrameReader::Payload { msg_type, len }).wf() <==> len <= 20_000_000,
{
}

/// A refusal says which length was declared and which is the longest accepted.
pub proof fn law_refusal_names_both_lengths(len: u32)
    ensures
        (FrameError::TooLong { len }).message_text() == "declared message length "@ + decimal_text(
            len as nat,
        ) + " exceeds max "@ + decimal_text(20_000_000),
        FrameError::UnexpectedEnd.message_text() == "unexpected end of file"@,
{
}

/// Reading gives back what was written: a frame whose payload is within the cap is read as its
/// type and its payload, and what follows it on the stream is left there.
pub proof fn law_read_gives_back_written(msg_type: u8, payload: Seq<u8>, rest: Seq<u8>)
    requires
        payload.len() <= MAX_MSG_LEN,
    ensures
        parse_frame(frame_bytes(msg_type, payload) + rest) == Ok::<(u8, Seq<u8>), FrameError>(
            (msg_type, payload),
        ),
        frame_rest(frame_bytes(msg_type, payload) + rest) == rest,
{
    let input = frame_bytes(msg_type, payload) + rest;
    lemma_be_roundtrip(payload.len());
    assert(input.subrange(1, 5) =~= be_bytes(payload.len()));
    assert(input.subrange(5, 5 + payload.len() as int) =~= payload);
    assert(input.skip(5 + payload.len() as int) =~= rest);
}

/// A payload over the cap that can be written is refused by the reader, for the length that its
/// header declares.
pub proof fn law_over_long_is_refused(msg_type: u8, payload: Seq<u8>, rest: Seq<u8>)
    requires
        MAX_MSG_LEN < payload.len(),
        fits_length_field(payload),
    ensures
        parse_frame(frame_bytes(msg_type, payload) + rest) == Err::<(u8, Seq<u8>), FrameError>(
            FrameError::TooLong { len: payload.len() as u32 },
        ),
{
    let input = frame_bytes(msg_type, payload) + rest;
    lemma_be_roundtrip(payload.len());
    assert(input.subrange(1, 5) =~= be_bytes(payload.len()));
}

/// A frame that is cut off anywhere is not read as a frame.
pub proof fn law_cut_frame_is_not_read(msg_type: u8, payload: Seq<u8>, n: int)
    requires
        payload.len() <= MAX_MSG_LEN,
        0 <= n < frame_bytes(msg_type, payload).len(),
    ensures
        parse_frame(frame_bytes(msg_type, payload).take(n)) == Err::<(u8, Seq<u8>), FrameError>(
            FrameError::UnexpectedEnd,
        ),
{
    let input = frame_bytes(msg_type, payload).take(n);
    lemma_be_roundtrip(payload.len());
    if n >= 5 {
        assert(input.subrange(1, 5) =~= be_bytes(payload.len()));
    }
}

/// A written frame says its own length: the length field, read as a big-endian number, is the
/// number of bytes behind the header.
pub proof fn law_length_field_is_the_length(msg_type: u8, payload: Seq<u8>)
    requires
        fits_length_field(payload),
    ensures
        be_value(frame_bytes(msg_type, payload).subrange(1, 5)) == payload.len(),
        frame_bytes(msg_type, payload).len() == HEADER_LEN + payload.len(),
{
    lemma_be_roundtrip(payload.len());
    assert(frame_bytes(msg_type, payload).subrange(1, 5) =~= be_bytes(payload.len()));
}

/// What is read as a frame are the bytes of that frame: each message has one encoding.
pub proof fn law_frame_has_one_encoding(input: Seq<u8>)
    requires
        parse_frame(input) is Ok,
    ensures
        input == frame_bytes(parse_frame(input)->Ok_0.0, parse_frame(input)->Ok_0.1) + frame_rest(
            input,
        ),
        parse_frame(input)->Ok_0.1.len() <= MAX_MSG_LEN,
{
    let (msg_type, payload) = parse_frame(input)->Ok_0;
    lemma_be_bytes_of_value(input.subrange(1, 5));
    assert(input =~= frame_bytes(msg_type, payload) + frame_rest(input));
}

/// The frames of a stream are read in the order in which they were written, none is lost or made
/// up, and the reading goes on with what follows them.
pub proof fn law_stream_is_read_in_order(frames: Seq<(u8, Seq<u8>)>, rest: Seq<u8>)
    requires
        forall|i: int| 0 <= i < frames.len() ==> (#[trigger] frames[i]).1.len() <= MAX_MSG_LEN,
    ensures
        parse_stream(stream_bytes(frames) + rest).0 == frames + parse_stream(rest).0,
        parse_stream(stream_bytes(frames) + rest).1 == parse_stream(rest).1,
    decreases frames.len(),
{
    if frames.len() == 0 {
        assert(stream_bytes(frames) + rest =~= rest);
        assert(frames + parse_stream(rest).0 =~= parse_stream(rest).0);
    } else {
        let tail = frames.drop_first();
        let input = stream_bytes(frames) + rest;
        assert(input =~= frame_bytes(frames[0].0, frames[0].1) + (stream_bytes(tail) + rest));
        law_read_gives_back_written(frames[0].0, frames[0].1, stream_bytes(tail) + rest);
        law_stream_is_read_in_order(tail, rest);
        assert(seq![frames[0]] + (tail + parse_stream(rest).0) =~= frames + parse_stream(rest).0);
    }
}

} // verus!
