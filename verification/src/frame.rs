//! Frames: a message travels as its length in four bytes, least significant
//! first, and then its body.
use vstd::prelude::*;

use crate::text::copy_text;

verus! {

/// The longest body that a frame may have.
pub const MAX_BODY: usize = 16 * 1024 * 1024;

/// Why bytes are not a frame, or cannot become one.
#[derive(Debug, Clone, Copy, PartialEq, Eq, Structural)]
pub enum FrameError {
    /// A message to be sent is longer than `MAX_BODY`.
    MessageTooLarge,
    /// A received length is greater than `MAX_BODY`.
    FrameTooLarge,
    /// The bytes end before the frame does.
    UnexpectedEnd,
}

/// The four bytes of a length.
pub open spec fn length_bytes(n: nat) -> Seq<u8> {
    seq![
        (n % 256) as u8,
        (n / 256 % 256) as u8,
        (n / 65536 % 256) as u8,
        (n / 16777216 % 256) as u8,
    ]
}

/// The length that four bytes stand for.
pub open spec fn length_of(header: Seq<u8>) -> nat
    recommends
        header.len() == 4,
{
    (header[0] + header[1] * 256 + header[2] * 65536 + header[3] * 16777216) as nat
}

/// The frame of a body.
pub open spec fn frame(body: Seq<u8>) -> Seq<u8> {
    length_bytes(body.len()) + body
}

/// What is at the front of a stream of bytes: the body of the first frame and
/// the number of bytes that the frame takes.
pub open spec fn first_frame(stream: Seq<u8>) -> Result<(Seq<u8>, int), FrameError> {
    if stream.len() < 4 {
        Err(FrameError::UnexpectedEnd)
    } else if length_of(stream.take(4)) > MAX_BODY {
        Err(FrameError::FrameTooLarge)
    } else if stream.len() < 4 + length_of(stream.take(4)) {
        Err(FrameError::UnexpectedEnd)
    } else {
        let end = 4 + length_of(stream.take(4)) as int;
        Ok((stream.subrange(4, end), end))
    }
}

/// The frame to send for a message body.
pub fn write_msg(body: &[u8]) -> (r: Result<Vec<u8>, FrameError>)
    ensures
        match r {
            Ok(out) => body.len() <= MAX_BODY && out@ == frame(body@),
            Err(e) => body.len() > MAX_BODY && e == FrameError::MessageTooLarge,
        },
{
    if body.len() > MAX_BODY {
        return Err(FrameError::MessageTooLarge);
    }
    let n: usize = body.len();
    let mut out: Vec<u8> = Vec::new();
    out.push((n % 256) as u8);
    out.push((n / 256 % 256) as u8);
    out.push((n / 65536 % 256) as u8);
    out.push((n / 16777216 % 256) as u8);
    assert(out@ == length_bytes(body@.len()));
    let mut i: usize = 0;
    assert(out@ == length_bytes(body@.len()) + body@.take(0));
    while i < body.len()
        invariant
            i <= body.len(),
            out@ == length_bytes(body@.len()) + body@.take(i as int),
        decreases body.len() - i,
    {
        out.push(body[i]);
        assert(body@.take(i + 1) == body@.take(i as int).push(body@[i as int]));
        i = i + 1;
    }
    assert(body@.take(i as int) == body@);
    Ok(out)
}

/// The length of the body behind a header.
pub fn body_len(header: &[u8; 4]) -> (r: Result<usize, FrameError>)
    ensures
        match r {
            Ok(n) => n == length_of(header@) && n <= MAX_BODY,
            Err(e) => length_of(header@) > MAX_BODY && e == FrameError::FrameTooLarge,
        },
{
    let n: u64 = header[0] as u64 + header[1] as u64 * 256 + header[2] as u64 * 65536
        + header[3] as u64 * 16777216;
    if n > MAX_BODY as u64 {
        return Err(FrameError::FrameTooLarge);
    }
    Ok(n as usize)
}

/// Reads the frame at the front of a stream of bytes: its body, and where the
/// next frame begins.
pub fn read_msg(stream: &[u8]) -> (r: Result<(Vec<u8>, usize), FrameError>)
    ensures
        match r {
            Ok((body, end)) => first_frame(stream@) == Ok::<(Seq<u8>, int), FrameError>(
                (body@, end as int),
            ),
            Err(e) => first_frame(stream@) == Err::<(Seq<u8>, int), FrameError>(e),
        },
{
    if stream.len() < 4 {
        return Err(FrameError::UnexpectedEnd);
    }
    let header: [u8; 4] = [stream[0], stream[1], stream[2], stream[3]];
    assert(header@ == stream@.take(4));
    let n = match body_len(&header) {
        Ok(n) => n,
        Err(e) => {
            return Err(e);
        },
    };
    if stream.len() - 4 < n {
        return Err(FrameError::UnexpectedEnd);
    }
    let mut body: Vec<u8> = Vec::new();
    let mut i: usize = 4;
    while i < 4 + n
        invariant
            4 <= i <= 4 + n <= stream.len(),
            body@ == stream@.subrange(4, i as int),
        decreases 4 + n - i,
    {
        body.push(stream[i]);
        i = i + 1;
    }
    Ok((body, 4 + n))
}

/// The message for a frame that cannot be.
pub fn frame_error(e: FrameError) -> (out: String)
    ensures
        out@ == match e {
            FrameError::MessageTooLarge => "message too large"@,
            FrameError::FrameTooLarge => "frame too large"@,
            FrameError::UnexpectedEnd => "failed to fill whole buffer"@,
        },
{
    match e {
        FrameError::MessageTooLarge => copy_text("message too large"),
        FrameError::FrameTooLarge => copy_text("frame too large"),
        FrameError::UnexpectedEnd => copy_text("failed to fill whole buffer"),
    }
}

/// Reading a stream that begins with a frame gives the frame's body back and
/// leaves what stands behind the frame.
pub proof fn frame_reads_back(body: Seq<u8>, rest: Seq<u8>)
    requires
        body.len() <= MAX_BODY,
    ensures
        first_frame(frame(body) + rest) == Ok::<(Seq<u8>, int), FrameError>(
            (body, frame(body).len() as int),
        ),
        (frame(body) + rest).skip(frame(body).len() as int) == rest,
{
    let n = body.len();
    let stream = frame(body) + rest;
    assert(stream.take(4) == length_bytes(n));
    assert(n == n % 256 + (n / 256 % 256) * 256 + (n / 65536 % 256) * 65536 + (n / 16777216
        % 256) * 16777216);
    assert(length_of(stream.take(4)) == n);
    assert(stream.subrange(4, 4 + n as int) == body);
    assert(stream.skip(frame(body).len() as int) == rest);
}

/// Nothing is read before the whole frame is there, and a length that is too
/// large is refused as soon as it is known.
pub proof fn a_part_of_a_frame_is_not_read(body: Seq<u8>, k: int)
    requires
        body.len() <= MAX_BODY,
        0 <= k < frame(body).len(),
    ensures
        first_frame(frame(body).take(k)) == Err::<(Seq<u8>, int), FrameError>(
            FrameError::UnexpectedEnd,
        ),
{
    frame_reads_back(body, seq![]);
    assert(frame(body) + Seq::<u8>::empty() == frame(body));
    if k >= 4 {
        assert(frame(body).take(k).take(4) == frame(body).take(4));
    }
}

/// A frame takes four bytes more than its body.
pub proof fn a_frame_has_four_bytes_more(body: Seq<u8>)
    ensures
        frame(body).len() == body.len() + 4,
        frame(body).skip(4) == body,
{
    assert(frame(body).skip(4) == body);
}

/// A frame begins with the length of its body, the low byte first.
pub proof fn a_frame_begins_with_its_length(body: Seq<u8>)
    requires
        body.len() <= MAX_BODY,
    ensures
        body.len() == frame(body)[0] + 256 * frame(body)[1] + 65536 * frame(body)[2] + 16777216
            * frame(body)[3],
{
    let n = body.len();
    assert(n == n % 256 + (n / 256 % 256) * 256 + (n / 65536 % 256) * 65536 + (n / 16777216
        % 256) * 16777216);
}

/// A body of up to sixteen mebibytes can be sent and is read; a frame that says
/// that it has more is refused.
pub proof fn a_body_has_at_most_sixteen_mebibytes(body: Seq<u8>, rest: Seq<u8>, stream: Seq<u8>)
    ensures
        body.len() <= 16777216 ==> first_frame(frame(body) + rest) == Ok::<
            (Seq<u8>, int),
            FrameError,
        >((body, 4 + body.len() as int)),
        stream.len() >= 4 && stream[0] + 256 * stream[1] + 65536 * stream[2] + 16777216 * stream[3]
            > 16777216 ==> first_frame(stream) == Err::<(Seq<u8>, int), FrameError>(
            FrameError::FrameTooLarge,
        ),
{
    if body.len() <= 16777216 {
        frame_reads_back(body, rest);
    }
    if stream.len() >= 4 {
        let header = stream.take(4);
        assert(header[0] == stream[0] && header[1] == stream[1] && header[2] == stream[2]
            && header[3] == stream[3]);
    }
}

} // verus!
