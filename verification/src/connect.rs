//! Connect protocol framing: one flags byte, a big-endian `u32` length, then
//! the (possibly gzip-compressed) payload.

use vstd::prelude::*;
use vstd::slice::{slice_subrange, slice_to_vec};
use std::io::{Read, Write};
use crate::error::DevinError;
use crate::text::{chars_of, decimal, decimal_chars, push_str, string_from_chars, trim, trim_chars, utf8_lossy, utf8_lossy_string};
use crate::json::{
    json_accepts, json_plain, json_value, member, member_of, parse_possibly_complete_json, plain_json, string_member,
    string_member_of,
};

verus! {

pub const CONNECT_COMPRESSED_FLAG: u8 = 0x01;
pub const CONNECT_END_STREAM_FLAG: u8 = 0x02;
pub const MAX_CONNECT_FRAME_PAYLOAD: usize = 16777216;

/// One decoded frame. `payload` is already decompressed.
#[derive(Debug, PartialEq, Eq)]
pub struct ConnectFrame {
    pub flags: u8,
    pub payload: Vec<u8>,
    pub end_stream: bool,
}

/// A frame as the specification sees it: its flags and its payload.
pub struct FrameSpec {
    pub flags: u8,
    pub payload: Seq<u8>,
}

/// Why decoding stopped before the end of the input.
pub enum FrameFailure {
    /// The header announced a payload longer than the cap.
    TooLarge(nat),
    /// A frame flagged as compressed held no valid gzip data.
    Gunzip,
}

/// The outcome of cutting a byte buffer into frames: the complete frames at
/// its head, the failure that stopped decoding (if any), and the bytes of
/// the frame that is not complete yet.
pub struct FrameSplit {
    pub frames: Seq<FrameSpec>,
    pub failure: Option<FrameFailure>,
    pub rest: Seq<u8>,
}

/// What gzip decompression (flate2's `GzDecoder`) makes of `data`: `None` when it
/// is not a valid gzip stream.
pub uninterp spec fn gunzip_spec(data: Seq<u8>) -> Option<Seq<u8>>;

/// What gzip compression at the default level (flate2's `GzEncoder`) makes of
/// `data`.
pub uninterp spec fn gzip_spec(data: Seq<u8>) -> Seq<u8>;

/// The big-endian 32-bit number in `b[i..i + 4]`.
pub open spec fn be32(b: Seq<u8>, i: int) -> nat {
    (b[i] as nat) * 16777216 + (b[i + 1] as nat) * 65536 + (b[i + 2] as nat) * 256 + (b[i + 3] as nat)
}

/// The four big-endian bytes of `n`.
pub open spec fn be32_bytes(n: u32) -> Seq<u8> {
    seq![(n >> 24) as u8, ((n >> 16) & 0xff) as u8, ((n >> 8) & 0xff) as u8, (n & 0xff) as u8]
}

pub open spec fn is_compressed(flags: u8) -> bool {
    flags & 1u8 != 0u8
}

pub open spec fn is_end_stream(flags: u8) -> bool {
    flags & 2u8 != 0u8
}

/// `s` with `f` put in front of its frames.
pub open spec fn prepend_frame(f: FrameSpec, s: FrameSplit) -> FrameSplit {
    FrameSplit { frames: seq![f] + s.frames, failure: s.failure, rest: s.rest }
}

/// `s` with the frames `fs` put in front of its frames.
pub open spec fn prepend_frames(fs: Seq<FrameSpec>, s: FrameSplit) -> FrameSplit {
    FrameSplit { frames: fs + s.frames, failure: s.failure, rest: s.rest }
}

/// Cuts `buf` into the complete frames at its head.
pub open spec fn split_frames(buf: Seq<u8>) -> FrameSplit
    decreases buf.len(),
{
    if buf.len() < 5 {
        FrameSplit { frames: seq![], failure: None, rest: buf }
    } else {
        let len = be32(buf, 1);
        if len > MAX_CONNECT_FRAME_PAYLOAD {
            FrameSplit { frames: seq![], failure: Some(FrameFailure::TooLarge(len)), rest: buf }
        } else if buf.len() < 5 + len {
            FrameSplit { frames: seq![], failure: None, rest: buf }
        } else {
            let raw = buf.subrange(5, 5 + len as int);
            let next = buf.subrange(5 + len as int, buf.len() as int);
            if is_compressed(buf[0]) {
                match gunzip_spec(raw) {
                    Some(p) => prepend_frame(FrameSpec { flags: buf[0], payload: p }, split_frames(next)),
                    None => FrameSplit { frames: seq![], failure: Some(FrameFailure::Gunzip), rest: buf },
                }
            } else {
                prepend_frame(FrameSpec { flags: buf[0], payload: raw }, split_frames(next))
            }
        }
    }
}

/// A decoded frame agrees with its specification.
pub open spec fn frame_matches(f: ConnectFrame, s: FrameSpec) -> bool {
    &&& f.flags == s.flags
    &&& f.payload@ == s.payload
    &&& f.end_stream == is_end_stream(s.flags)
}

/// Each decoded frame agrees with the specified one at its position.
pub open spec fn frames_match(fs: Seq<ConnectFrame>, ss: Seq<FrameSpec>) -> bool {
    &&& fs.len() == ss.len()
    &&& forall|i: int| 0 <= i < fs.len() ==> frame_matches(#[trigger] fs[i], ss[i])
}

/// The message of a frame whose length exceeds the cap.
pub open spec fn too_large_message(len: nat) -> Seq<char> {
    "Devin Connect frame length "@ + decimal(len) + " exceeds 16777216-byte cap"@
}

/// `e` is the error that the failure `f` is reported with.
pub open spec fn failure_error(e: DevinError, f: FrameFailure) -> bool {
    &&& e is Protocol
    &&& match f {
        FrameFailure::TooLarge(len) => e->Protocol_message@ == too_large_message(len),
        FrameFailure::Gunzip => {
            let p = "failed to gunzip Connect frame: "@;
            &&& p.len() <= e->Protocol_message@.len()
            &&& e->Protocol_message@.subrange(0, p.len() as int) == p
        },
    }
}

/// `e` reports a stream that ended inside a frame.
pub open spec fn partial_frame_error(e: DevinError) -> bool {
    e == DevinError::Protocol { message: e->Protocol_message }
        && e->Protocol_message@ == "Devin Connect stream ended with a partial frame"@
}

/// The bytes of one frame with the given flags and body.
pub open spec fn frame_bytes(flags: u8, body: Seq<u8>) -> Seq<u8> {
    seq![flags] + be32_bytes(body.len() as u32) + body
}

/// The flags byte that `encode_connect_frame` writes.
pub open spec fn frame_flags(compress: bool, end_stream: bool) -> u8 {
    (if compress { 1u8 } else { 0u8 }) | (if end_stream { 2u8 } else { 0u8 })
}

/// Gzip-compresses `payload` with flate2 at the default level. Its result is
/// named; of any result the contract also states that gzip decompression gives
/// `payload` back. It succeeds: the encoder writes into a `Vec`, which does
/// not fail, and `finish` fails only through its writer.
#[verifier::external_body]
fn gzip(payload: &[u8]) -> (r: Result<Vec<u8>, String>)
    ensures
        r is Ok,
        r matches Ok(v) ==> v@ == gzip_spec(payload@) && gunzip_spec(v@) == Some(payload@),
{
    let mut encoder = flate2::write::GzEncoder::new(Vec::new(), flate2::Compression::default());
    encoder.write_all(payload).and_then(|()| encoder.finish()).map_err(|error| error.to_string())
}

/// Decompresses gzip data with flate2's `GzDecoder`, reading to the end.
/// Success and the result are named by `gunzip_spec`; the text of the
/// error is flate2's and is not stated.
#[verifier::external_body]
fn gunzip(payload: &[u8]) -> (r: Result<Vec<u8>, String>)
    ensures
        r is Ok <==> gunzip_spec(payload@) is Some,
        r matches Ok(v) ==> gunzip_spec(payload@) == Some(v@),
{
    let mut decoder = flate2::read::GzDecoder::new(payload);
    let mut output = Vec::new();
    decoder.read_to_end(&mut output).map(|_| output).map_err(|error| error.to_string())
}

proof fn lemma_be32_roundtrip(n: u32)
    ensures
        be32(be32_bytes(n), 0) == n,
{
    let b0 = (n >> 24) as u8;
    let b1 = ((n >> 16) & 0xff) as u8;
    let b2 = ((n >> 8) & 0xff) as u8;
    let b3 = (n & 0xff) as u8;
    assert((b0 as u32) * 16777216 + (b1 as u32) * 65536 + (b2 as u32) * 256 + (b3 as u32) == n)
        by (bit_vector)
        requires
            b0 == (n >> 24) as u8,
            b1 == ((n >> 16) & 0xff) as u8,
            b2 == ((n >> 8) & 0xff) as u8,
            b3 == (n & 0xff) as u8,
    ;
}

/// The body that `encode_connect_frame` puts into a frame.
pub open spec fn frame_body(payload: Seq<u8>, compress: bool) -> Seq<u8> {
    if compress {
        gzip_spec(payload)
    } else {
        payload
    }
}

/// `e` reports a frame body that does not fit the 32-bit length field.
pub open spec fn too_large_payload_error(e: DevinError) -> bool {
    &&& e is Protocol
    &&& e->Protocol_message@ == "Devin Connect frame payload is too large"@
}

/// Encodes one Connect protocol frame: `compress` gzips the payload first,
/// and the flags byte records both `compress` and `end_stream`.
pub fn encode_connect_frame(payload: &[u8], compress: bool, end_stream: bool) -> (r: Result<Vec<u8>, DevinError>)
    ensures
        !compress && payload@.len() <= u32::MAX ==> r is Ok,
        compress && gzip_spec(payload@).len() <= u32::MAX ==> r is Ok,
        r is Ok ==> frame_body(payload@, compress).len() <= u32::MAX,
        r is Ok ==> r->Ok_0@ == frame_bytes(frame_flags(compress, end_stream), frame_body(payload@, compress)),
        r is Ok && compress ==> gunzip_spec(frame_body(payload@, true)) == Some(payload@),
        r is Err ==> r->Err_0 is Protocol,
        r is Err && !compress ==> payload@.len() > u32::MAX && too_large_payload_error(r->Err_0),
        r is Err && compress ==> gzip_spec(payload@).len() > u32::MAX && too_large_payload_error(r->Err_0),
{
    let body = if compress {
        match gzip(payload) {
            Ok(b) => b,
            Err(detail) => {
                let mut m: Vec<char> = Vec::new();
                push_str(&mut m, "failed to gzip Connect frame: ");
                push_str(&mut m, detail.as_str());
                return Err(DevinError::protocol(string_from_chars(&m)));
            },
        }
    } else {
        slice_to_vec(payload)
    };
    if body.len() > 0xffff_ffffusize {
        return Err(DevinError::protocol(String::from_str("Devin Connect frame payload is too large")));
    }
    let length = body.len() as u32;
    let flags: u8 = (if compress { CONNECT_COMPRESSED_FLAG } else { 0u8 }) | (if end_stream {
        CONNECT_END_STREAM_FLAG
    } else {
        0u8
    });
    let mut out: Vec<u8> = Vec::new();
    out.push(flags);
    out.push((length >> 24) as u8);
    out.push(((length >> 16) & 0xff) as u8);
    out.push(((length >> 8) & 0xff) as u8);
    out.push((length & 0xff) as u8);
    let mut rest = body;
    let ghost body_view = rest@;
    out.append(&mut rest);
    assert(out@ =~= frame_bytes(flags, body_view));
    Ok(out)
}

/// Incremental frame decoder: it keeps the bytes of the frame that is not
/// complete yet.
pub struct ConnectFrameDecoder {
    pending: Vec<u8>,
}

impl ConnectFrameDecoder {
    /// The bytes received and not yet decoded.
    pub closed spec fn pending_view(self) -> Seq<u8> {
        self.pending@
    }

    pub fn new() -> (r: Self)
        ensures
            r.pending_view() == Seq::<u8>::empty(),
    {
        ConnectFrameDecoder { pending: Vec::new() }
    }

    /// Appends `chunk` and takes out every complete frame. The second part of
    /// the result is the error that stops the stream, if any; the decoder
    /// is not used after it.
    pub fn push_chunk(&mut self, chunk: &[u8]) -> (r: (Vec<ConnectFrame>, Option<DevinError>))
        ensures
            ({
                let s = split_frames(old(self).pending_view() + chunk@);
                &&& frames_match(r.0@, s.frames)
                &&& (r.1 is Some <==> s.failure is Some)
                &&& (r.1 matches Some(e) ==> failure_error(e, s.failure->0))
                &&& (s.failure is None ==> final(self).pending_view() == s.rest)
            }),
    {
        let mut c = slice_to_vec(chunk);
        self.pending.append(&mut c);
        let (frames, failure, consumed) = take_frames(&self.pending);
        if failure.is_none() {
            let len = self.pending.len();
            self.pending = slice_to_vec(slice_subrange(self.pending.as_slice(), consumed, len));
        }
        (frames, failure)
    }

    /// The error for a stream that ends here: present when part of a
    /// frame is still pending.
    pub fn finish(&self) -> (r: Option<DevinError>)
        ensures
            r is Some <==> self.pending_view().len() > 0,
            r matches Some(e) ==> partial_frame_error(e),
    {
        if self.pending.len() > 0 {
            Some(partial_frame_error_value())
        } else {
            None
        }
    }
}

fn partial_frame_error_value() -> (e: DevinError)
    ensures
        partial_frame_error(e),
{
    DevinError::protocol(String::from_str("Devin Connect stream ended with a partial frame"))
}

fn too_large_error(len: usize) -> (e: DevinError)
    requires
        len <= u64::MAX,
    ensures
        failure_error(e, FrameFailure::TooLarge(len as nat)),
{
    let mut m: Vec<char> = Vec::new();
    push_str(&mut m, "Devin Connect frame length ");
    let mut d = decimal_chars(len as u64);
    m.append(&mut d);
    push_str(&mut m, " exceeds 16777216-byte cap");
    DevinError::protocol(string_from_chars(&m))
}

fn gunzip_error(detail: String) -> (e: DevinError)
    ensures
        failure_error(e, FrameFailure::Gunzip),
{
    let mut m: Vec<char> = Vec::new();
    push_str(&mut m, "failed to gunzip Connect frame: ");
    let ghost p = m@;
    push_str(&mut m, detail.as_str());
    assert(m@.subrange(0, p.len() as int) =~= p);
    DevinError::protocol(string_from_chars(&m))
}

proof fn lemma_split_header(buf: Seq<u8>, pos: int)
    requires
        0 <= pos,
        pos + 5 <= buf.len(),
    ensures
        ({
            let s = buf.subrange(pos, buf.len() as int);
            &&& s[0] == buf[pos]
            &&& be32(s, 1) == be32(buf, pos + 1)
        }),
{
}

/// Takes the complete frames from the head of `buf`: the frames, the failure
/// that stopped decoding, and the number of bytes consumed.
fn take_frames(buf: &Vec<u8>) -> (r: (Vec<ConnectFrame>, Option<DevinError>, usize))
    ensures
        ({
            let s = split_frames(buf@);
            &&& frames_match(r.0@, s.frames)
            &&& (r.1 is Some <==> s.failure is Some)
            &&& (r.1 matches Some(e) ==> failure_error(e, s.failure->0))
            &&& r.2 <= buf@.len()
            &&& (s.failure is None ==> s.rest == buf@.subrange(r.2 as int, buf@.len() as int))
        }),
{
    let mut out: Vec<ConnectFrame> = Vec::new();
    let ghost mut specs: Seq<FrameSpec> = seq![];
    let mut pos: usize = 0;
    let n = buf.len();
    assert(buf@.subrange(0, n as int) =~= buf@);
    loop
        invariant
            n == buf@.len(),
            pos <= n,
            frames_match(out@, specs),
            split_frames(buf@) == prepend_frames(specs, split_frames(buf@.subrange(pos as int, n as int))),
        decreases n - pos,
    {
        let ghost s = buf@.subrange(pos as int, n as int);
        if n - pos < 5 {
            assert(split_frames(s).frames =~= seq![]);
            assert(specs + seq![] =~= specs);
            return (out, None, pos);
        }
        proof {
            lemma_split_header(buf@, pos as int);
        }
        let flags = buf[pos];
        let length: usize = (buf[pos + 1] as usize) * 16777216 + (buf[pos + 2] as usize) * 65536
            + (buf[pos + 3] as usize) * 256 + (buf[pos + 4] as usize);
        if length > MAX_CONNECT_FRAME_PAYLOAD {
            assert(split_frames(s).frames =~= seq![]);
            assert(specs + seq![] =~= specs);
            return (out, Some(too_large_error(length)), pos);
        }
        if n - pos - 5 < length {
            assert(split_frames(s).frames =~= seq![]);
            assert(specs + seq![] =~= specs);
            return (out, None, pos);
        }
        let raw = slice_to_vec(slice_subrange(buf.as_slice(), pos + 5, pos + 5 + length));
        assert(raw@ =~= s.subrange(5, 5 + length));
        let ghost next = s.subrange(5 + length, s.len() as int);
        assert(next =~= buf@.subrange((pos + 5 + length) as int, n as int));
        let payload = if flags & CONNECT_COMPRESSED_FLAG != 0 {
            assert(is_compressed(flags));
            match gunzip(raw.as_slice()) {
                Ok(p) => p,
                Err(detail) => {
                    assert(split_frames(s).frames =~= seq![]);
                    assert(specs + seq![] =~= specs);
                    return (out, Some(gunzip_error(detail)), pos);
                },
            }
        } else {
            assert(!is_compressed(flags));
            raw
        };
        let ghost f = FrameSpec { flags, payload: payload@ };
        let frame = ConnectFrame { flags, payload, end_stream: flags & CONNECT_END_STREAM_FLAG != 0 };
        assert(frame_matches(frame, f));
        out.push(frame);
        proof {
            assert(split_frames(s) == prepend_frame(f, split_frames(next)));
            assert(specs + (seq![f] + split_frames(next).frames) =~= specs.push(f) + split_frames(
                next,
            ).frames);
            specs = specs.push(f);
            assert forall|i: int| 0 <= i < out@.len() implies frame_matches(
                #[trigger] out@[i],
                specs[i],
            ) by {}
        }
        pos = pos + 5 + length;
    }
}

/// Decompresses a gzip payload, as compressed frames are.
pub fn decompress_gzip(payload: &[u8]) -> (r: Result<Vec<u8>, DevinError>)
    ensures
        r is Ok <==> gunzip_spec(payload@) is Some,
        r matches Ok(v) ==> gunzip_spec(payload@) == Some(v@),
        r matches Err(e) ==> failure_error(e, FrameFailure::Gunzip),
{
    match gunzip(payload) {
        Ok(v) => Ok(v),
        Err(detail) => Err(gunzip_error(detail)),
    }
}

/// Cutting `a + b` into frames: the frames of `a` come first, then those of
/// what was pending after `a` followed by `b`; a failure inside `a` stays
/// the failure of `a + b`. So decoding does not depend on where the byte
/// stream was split into chunks.
pub proof fn split_frames_append(a: Seq<u8>, b: Seq<u8>)
    ensures
        split_frames(a).failure is None ==> split_frames(a + b) == prepend_frames(
            split_frames(a).frames,
            split_frames(split_frames(a).rest + b),
        ),
        split_frames(a).failure is Some ==> split_frames(a + b).frames == split_frames(a).frames
            && split_frames(a + b).failure == split_frames(a).failure,
    decreases a.len(),
{
    let ab = a + b;
    if a.len() < 5 {
        assert(split_frames(a).rest == a);
        assert(seq![] + split_frames(ab).frames =~= split_frames(ab).frames);
    } else {
        assert(ab[0] == a[0] && ab[1] == a[1] && ab[2] == a[2] && ab[3] == a[3] && ab[4] == a[4]);
        assert(be32(ab, 1) == be32(a, 1));
        let len = be32(a, 1);
        if len > MAX_CONNECT_FRAME_PAYLOAD {
        } else if a.len() < 5 + len {
            assert(split_frames(a).rest == a);
            assert(seq![] + split_frames(ab).frames =~= split_frames(ab).frames);
        } else {
            let raw = a.subrange(5, 5 + len as int);
            let next = a.subrange(5 + len as int, a.len() as int);
            assert(ab.subrange(5, 5 + len as int) =~= raw);
            assert(ab.subrange(5 + len as int, ab.len() as int) =~= next + b);
            split_frames_append(next, b);
            if is_compressed(a[0]) && gunzip_spec(raw) is None {
            } else {
                let f = if is_compressed(a[0]) {
                    FrameSpec { flags: a[0], payload: gunzip_spec(raw)->0 }
                } else {
                    FrameSpec { flags: a[0], payload: raw }
                };
                assert(split_frames(a) == prepend_frame(f, split_frames(next)));
                assert(split_frames(ab) == prepend_frame(f, split_frames(next + b)));
                if split_frames(next).failure is None {
                    let fs = split_frames(next).frames;
                    let tail = split_frames(split_frames(next).rest + b);
                    assert(seq![f] + (fs + tail.frames) =~= (seq![f] + fs) + tail.frames);
                }
            }
        }
    }
}

proof fn lemma_flag_bits(compress: bool, end_stream: bool)
    ensures
        is_compressed(frame_flags(compress, end_stream)) == compress,
        is_end_stream(frame_flags(compress, end_stream)) == end_stream,
{
    let c: u8 = if compress { 1u8 } else { 0u8 };
    let e: u8 = if end_stream { 2u8 } else { 0u8 };
    assert(((c | e) & 1u8 != 0u8) == (c == 1u8) && ((c | e) & 2u8 != 0u8) == (e == 2u8)) by (bit_vector)
        requires
            c == 0u8 || c == 1u8,
            e == 0u8 || e == 2u8,
    ;
}

/// A frame written by `encode_connect_frame` decodes to one frame with the
/// same flags and the original payload, and nothing left over, as long as
/// its body is within the decoding cap.
pub proof fn encoded_frame_decodes(payload: Seq<u8>, compress: bool, end_stream: bool)
    requires
        frame_body(payload, compress).len() <= MAX_CONNECT_FRAME_PAYLOAD,
        compress ==> gunzip_spec(frame_body(payload, true)) == Some(payload),
    ensures
        ({
            let flags = frame_flags(compress, end_stream);
            let s = split_frames(frame_bytes(flags, frame_body(payload, compress)));
            &&& s.failure is None
            &&& s.rest.len() == 0
            &&& s.frames == seq![FrameSpec { flags, payload }]
            &&& is_end_stream(flags) == end_stream
        }),
{
    let flags = frame_flags(compress, end_stream);
    let body = frame_body(payload, compress);
    let bytes = frame_bytes(flags, body);
    lemma_flag_bits(compress, end_stream);
    lemma_be32_roundtrip(body.len() as u32);
    assert(bytes[0] == flags);
    assert(be32(bytes, 1) == be32(be32_bytes(body.len() as u32), 0));
    assert(bytes.subrange(5, 5 + body.len() as int) =~= body);
    let empty: Seq<u8> = seq![];
    assert(bytes.subrange(5 + body.len() as int, bytes.len() as int) =~= empty);
    assert(split_frames(empty).frames =~= seq![]);
    assert(seq![FrameSpec { flags, payload }] + seq![] =~= seq![FrameSpec { flags, payload }]);
}

/// The number of chunks before the first failed one.
pub open spec fn ok_prefix(chunks: Seq<Result<Vec<u8>, DevinError>>) -> nat
    decreases chunks.len(),
{
    if chunks.len() == 0 || chunks[0] is Err {
        0
    } else {
        1 + ok_prefix(chunks.drop_first())
    }
}

/// The bytes of the first `k` chunks, in order.
pub open spec fn chunk_bytes(chunks: Seq<Result<Vec<u8>, DevinError>>, k: int) -> Seq<u8>
    decreases k,
{
    if k <= 0 {
        seq![]
    } else {
        chunk_bytes(chunks, k - 1) + match chunks[k - 1] {
            Ok(v) => v@,
            Err(_) => seq![],
        }
    }
}

/// `r` is what decoding `chunks` yields: the frames of the bytes before the
/// first failed chunk, then one error when decoding stopped early (a
/// framing failure, the failed chunk's own error, or a partial last frame).
pub open spec fn decoded_chunks(
    r: Seq<Result<ConnectFrame, DevinError>>,
    chunks: Seq<Result<Vec<u8>, DevinError>>,
) -> bool {
    let k = ok_prefix(chunks) as int;
    let s = split_frames(chunk_bytes(chunks, k));
    let n = s.frames.len();
    &&& forall|i: int| 0 <= i < n ==> #[trigger] r[i] is Ok && frame_matches(r[i]->Ok_0, s.frames[i])
    &&& if s.failure is Some {
        r.len() == n + 1 && r[n as int] is Err && failure_error(r[n as int]->Err_0, s.failure->0)
    } else if k < chunks.len() {
        r.len() == n + 1 && r[n as int] is Err && r[n as int]->Err_0 == chunks[k]->Err_0
    } else if s.rest.len() > 0 {
        r.len() == n + 1 && r[n as int] is Err && partial_frame_error(r[n as int]->Err_0)
    } else {
        r.len() == n
    }
}

proof fn lemma_ok_prefix_step(chunks: Seq<Result<Vec<u8>, DevinError>>, i: int)
    requires
        0 <= i <= chunks.len(),
        forall|j: int| 0 <= j < i ==> chunks[j] is Ok,
    ensures
        i < chunks.len() && chunks[i] is Err ==> ok_prefix(chunks) == i,
        i == chunks.len() ==> ok_prefix(chunks) == i,
        ok_prefix(chunks) >= i,
    decreases i,
{
    if i > 0 {
        let tail = chunks.drop_first();
        assert(chunks[0] is Ok);
        assert forall|j: int| 0 <= j < i - 1 implies tail[j] is Ok by {
            assert(tail[j] == chunks[j + 1]);
        }
        if i < chunks.len() {
            assert(tail[i - 1] == chunks[i]);
        }
        lemma_ok_prefix_step(tail, i - 1);
    }
}

proof fn lemma_failure_persists(chunks: Seq<Result<Vec<u8>, DevinError>>, i: int, k: int)
    requires
        0 <= i <= k,
        split_frames(chunk_bytes(chunks, i)).failure is Some,
    ensures
        split_frames(chunk_bytes(chunks, k)).frames == split_frames(chunk_bytes(chunks, i)).frames,
        split_frames(chunk_bytes(chunks, k)).failure == split_frames(chunk_bytes(chunks, i)).failure,
    decreases k,
{
    if k > i {
        lemma_failure_persists(chunks, i, k - 1);
        let piece = match chunks[k - 1] {
            Ok(v) => v@,
            Err(_) => seq![],
        };
        split_frames_append(chunk_bytes(chunks, k - 1), piece);
    }
}

proof fn lemma_chunk_bytes_prefix(chunks: Seq<Result<Vec<u8>, DevinError>>, i: int, k: int)
    requires
        0 <= i <= k,
        forall|j: int| i <= j < k ==> chunks[j] is Err,
    ensures
        chunk_bytes(chunks, k) == chunk_bytes(chunks, i),
    decreases k,
{
    if k > i {
        lemma_chunk_bytes_prefix(chunks, i, k - 1);
        assert(chunk_bytes(chunks, k) =~= chunk_bytes(chunks, k - 1));
    }
}

/// Decoding does not depend on how the bytes were cut into chunks: two
/// sequences of received chunks with the same bytes, in order, decode to
/// the same frames and the same final error.
pub proof fn decoding_ignores_chunking(
    r: Seq<Result<ConnectFrame, DevinError>>,
    a: Seq<Result<Vec<u8>, DevinError>>,
    b: Seq<Result<Vec<u8>, DevinError>>,
)
    requires
        forall|i: int| 0 <= i < a.len() ==> a[i] is Ok,
        forall|i: int| 0 <= i < b.len() ==> b[i] is Ok,
        chunk_bytes(a, a.len() as int) == chunk_bytes(b, b.len() as int),
    ensures
        decoded_chunks(r, a) == decoded_chunks(r, b),
{
    lemma_ok_prefix_step(a, a.len() as int);
    lemma_ok_prefix_step(b, b.len() as int);
}

/// The bytes of frames written one after another by `encode_connect_frame`:
/// each frame is its payload, whether it is compressed, and whether it ends
/// the stream.
pub open spec fn encoded_stream(frames: Seq<(Seq<u8>, bool, bool)>) -> Seq<u8>
    decreases frames.len(),
{
    if frames.len() == 0 {
        seq![]
    } else {
        frame_bytes(frame_flags(frames[0].1, frames[0].2), frame_body(frames[0].0, frames[0].1)) + encoded_stream(
            frames.drop_first(),
        )
    }
}

/// A frame whose body is within the decoding cap and, when compressed,
/// decompresses to its payload (as `gzip` states of what it writes).
pub open spec fn decodable(f: (Seq<u8>, bool, bool)) -> bool {
    &&& frame_body(f.0, f.1).len() <= MAX_CONNECT_FRAME_PAYLOAD
    &&& f.1 ==> gunzip_spec(frame_body(f.0, true)) == Some(f.0)
}

/// The frames a decoder should find in an encoded stream.
pub open spec fn frame_specs(frames: Seq<(Seq<u8>, bool, bool)>) -> Seq<FrameSpec> {
    Seq::new(frames.len(), |i: int| FrameSpec { flags: frame_flags(frames[i].1, frames[i].2), payload: frames[i].0 })
}

proof fn lemma_encoded_stream_splits(frames: Seq<(Seq<u8>, bool, bool)>)
    requires
        forall|i: int| 0 <= i < frames.len() ==> decodable(#[trigger] frames[i]),
    ensures
        split_frames(encoded_stream(frames)).failure is None,
        split_frames(encoded_stream(frames)).rest.len() == 0,
        split_frames(encoded_stream(frames)).frames == frame_specs(frames),
    decreases frames.len(),
{
    if frames.len() == 0 {
        assert(frame_specs(frames) =~= Seq::<FrameSpec>::empty());
    } else {
        let f = frames[0];
        let tail = frames.drop_first();
        assert(decodable(f));
        assert forall|i: int| 0 <= i < tail.len() implies decodable(#[trigger] tail[i]) by {
            assert(tail[i] == frames[i + 1]);
        }
        lemma_encoded_stream_splits(tail);
        encoded_frame_decodes(f.0, f.1, f.2);
        let a = frame_bytes(frame_flags(f.1, f.2), frame_body(f.0, f.1));
        let b = encoded_stream(tail);
        split_frames_append(a, b);
        assert(split_frames(a).rest + b =~= b);
        assert(frame_specs(frames) =~= seq![FrameSpec { flags: frame_flags(f.1, f.2), payload: f.0 }]
            + frame_specs(tail));
    }
}

/// Frames written by `encode_connect_frame`, one after another, decode back
/// to the same frames in order, whatever chunks the bytes arrive in: each
/// decoded frame has the flags it was written with, its original payload,
/// and the end-of-stream mark it was written with, and no error follows.
pub proof fn encoded_frames_round_trip(
    frames: Seq<(Seq<u8>, bool, bool)>,
    chunks: Seq<Result<Vec<u8>, DevinError>>,
    r: Seq<Result<ConnectFrame, DevinError>>,
)
    requires
        forall|i: int| 0 <= i < frames.len() ==> decodable(#[trigger] frames[i]),
        forall|i: int| 0 <= i < chunks.len() ==> chunks[i] is Ok,
        chunk_bytes(chunks, chunks.len() as int) == encoded_stream(frames),
        decoded_chunks(r, chunks),
    ensures
        r.len() == frames.len(),
        forall|i: int|
            0 <= i < frames.len() ==> #[trigger] r[i] is Ok && r[i]->Ok_0.payload@ == frames[i].0 && r[i]->Ok_0.flags
                == frame_flags(frames[i].1, frames[i].2) && r[i]->Ok_0.end_stream == frames[i].2,
{
    lemma_ok_prefix_step(chunks, chunks.len() as int);
    lemma_encoded_stream_splits(frames);
    let s = split_frames(chunk_bytes(chunks, chunks.len() as int));
    assert forall|i: int| 0 <= i < frames.len() implies #[trigger] r[i] is Ok && r[i]->Ok_0.payload@ == frames[i].0
        && r[i]->Ok_0.flags == frame_flags(frames[i].1, frames[i].2) && r[i]->Ok_0.end_stream == frames[i].2 by {
        assert(s.frames[i] == FrameSpec { flags: frame_flags(frames[i].1, frames[i].2), payload: frames[i].0 });
        lemma_flag_bits(frames[i].1, frames[i].2);
    }
}

/// Decodes a whole sequence of received chunks into frames. Decoding stops
/// at the first failed chunk, at a framing failure, or at a trailing
/// partial frame, each reported as one error after the frames before it.
pub fn decode_connect_frames(chunks: Vec<Result<Vec<u8>, DevinError>>) -> (r: Vec<Result<ConnectFrame, DevinError>>)
    ensures
        decoded_chunks(r@, chunks@),
{
    let mut decoder = ConnectFrameDecoder::new();
    let mut out: Vec<Result<ConnectFrame, DevinError>> = Vec::new();
    let mut i: usize = 0;
    let ghost empty: Seq<u8> = seq![];
    assert(split_frames(empty).frames =~= seq![]);
    while i < chunks.len()
        invariant
            i <= chunks@.len(),
            forall|j: int| 0 <= j < i ==> chunks@[j] is Ok,
            split_frames(chunk_bytes(chunks@, i as int)).failure is None,
            split_frames(chunk_bytes(chunks@, i as int)).rest == decoder.pending_view(),
            out@.len() == split_frames(chunk_bytes(chunks@, i as int)).frames.len(),
            forall|j: int| 0 <= j < out@.len() ==> #[trigger] out@[j] is Ok && frame_matches(
                out@[j]->Ok_0,
                split_frames(chunk_bytes(chunks@, i as int)).frames[j],
            ),
        decreases chunks@.len() - i,
    {
        let ghost before = chunk_bytes(chunks@, i as int);
        let ghost out_before = out@;
        assert(forall|m: int| 0 <= m < out_before.len() ==> out_before[m] is Ok && frame_matches(
            #[trigger] out_before[m]->Ok_0,
            split_frames(before).frames[m],
        ));
        match &chunks[i] {
            Err(e) => {
                proof {
                    lemma_ok_prefix_step(chunks@, i as int);
                }
                out.push(Err(e.clone()));
                return out;
            },
            Ok(c) => {
                let ghost after = chunk_bytes(chunks@, i + 1);
                assert(after == before + c@);
                let ghost sn = split_frames(decoder.pending_view() + c@);
                proof {
                    split_frames_append(before, c@);
                    assert(split_frames(after).frames == split_frames(before).frames + sn.frames);
                }
                let (frames, failure) = decoder.push_chunk(c.as_slice());
                let mut j: usize = 0;
                while j < frames.len()
                    invariant
                        j <= frames@.len(),
                        frames_match(frames@, sn.frames),
                        out@.len() == out_before.len() + j,
                        forall|m: int| 0 <= m < out_before.len() ==> out@[m] == out_before[m],
                        forall|m: int| 0 <= m < j ==> #[trigger] out@[out_before.len() + m] is Ok
                            && frame_matches(out@[out_before.len() + m]->Ok_0, sn.frames[m]),
                    decreases frames@.len() - j,
                {
                    let f = &frames[j];
                    let payload = f.payload.clone();
                    assert(payload@ =~= f.payload@);
                    out.push(Ok(ConnectFrame { flags: f.flags, payload, end_stream: f.end_stream }));
                    proof {
                        assert(frame_matches(frames@[j as int], sn.frames[j as int]));
                        assert forall|m: int| 0 <= m < j + 1 implies #[trigger] out@[out_before.len() + m] is Ok
                            && frame_matches(out@[out_before.len() + m]->Ok_0, sn.frames[m]) by {
                            if m < j {
                            }
                        }
                    }
                    j = j + 1;
                }
                proof {
                    let fa = split_frames(after).frames;
                    assert forall|m: int| 0 <= m < out@.len() implies #[trigger] out@[m] is Ok && frame_matches(
                        out@[m]->Ok_0,
                        fa[m],
                    ) by {
                        if m < out_before.len() {
                            assert(out@[m] == out_before[m]);
                            assert(fa[m] == split_frames(before).frames[m]);
                        } else {
                            let q = m - out_before.len();
                            assert(out@[out_before.len() + q] == out@[m]);
                            assert(fa[m] == sn.frames[q]);
                        }
                    }
                }
                if let Some(e) = failure {
                    proof {
                        lemma_ok_prefix_step(chunks@, i as int + 1);
                        lemma_failure_persists(chunks@, i as int + 1, ok_prefix(chunks@) as int);
                    }
                    out.push(Err(e));
                    return out;
                }
            },
        }
        i = i + 1;
    }
    proof {
        lemma_ok_prefix_step(chunks@, i as int);
    }
    if let Some(e) = decoder.finish() {
        out.push(Err(e));
    }
    out
}

/// The characters of an optional field, empty when it is absent.
pub open spec fn or_empty(o: Option<Seq<char>>) -> Seq<char> {
    match o {
        Some(s) => s,
        None => seq![],
    }
}

/// The `code` and `message` strings of the `error` member of a trailer's
/// text: `None` when the text is not JSON or has no `error` member; inside,
/// `None` for a member that is absent or not a string.
pub open spec fn trailer_error_fields(text: Seq<char>) -> Option<(Option<Seq<char>>, Option<Seq<char>>)> {
    if !json_accepts(text) {
        None
    } else {
        match member(json_plain(json_value(text)), "error"@) {
            None => None,
            Some(e) => Some((string_member(e, "code"@), string_member(e, "message"@))),
        }
    }
}

/// The error a trailer frame reports: its payload, read as UTF-8 with
/// replacement characters and trimmed, is JSON with an `error` member whose
/// `code` or `message` string is non-empty.
pub open spec fn trailer_error_message(payload: Seq<u8>) -> Option<Seq<char>> {
    match trailer_error_fields(trim(utf8_lossy(payload))) {
        None => None,
        Some(fields) => {
            let code = or_empty(fields.0);
            let message = or_empty(fields.1);
            if code.len() == 0 && message.len() == 0 {
                None
            } else {
                let tag = if code.len() == 0 {
                    Seq::<char>::empty()
                } else {
                    " "@ + code
                };
                Some("Devin stream error"@ + tag + ": "@ + message)
            }
        },
    }
}

fn unwrap_chars(o: Option<String>) -> (r: Vec<char>)
    ensures
        r@ == or_empty(crate::json::opt_chars(o)),
{
    match o {
        Some(s) => chars_of(s.as_str()),
        None => Vec::new(),
    }
}

/// Reads the error of an end-of-stream trailer frame, if it reports one.
pub fn read_connect_trailer_error(payload: &[u8]) -> (r: Option<String>)
    ensures
        match r {
            Some(s) => trailer_error_message(payload@) == Some(s@),
            None => trailer_error_message(payload@) is None,
        },
{
    let text = utf8_lossy_string(payload);
    let trimmed = string_from_chars(&trim_chars(&chars_of(text.as_str())));
    let parsed = match parse_possibly_complete_json(trimmed.as_str()) {
        Some(v) => plain_json(&v),
        None => return None,
    };
    let error = match member_of(&parsed, "error") {
        Some(e) => e,
        None => return None,
    };
    let code_field = string_member_of(error, "code");
    let message_field = string_member_of(error, "message");
    let code = unwrap_chars(code_field);
    let message = unwrap_chars(message_field);
    if code.len() == 0 && message.len() == 0 {
        return None;
    }
    let mut out: Vec<char> = Vec::new();
    push_str(&mut out, "Devin stream error");
    let ghost head = out@;
    if code.len() > 0 {
        push_str(&mut out, " ");
        let mut c = code.clone();
        out.append(&mut c);
    }
    assert(out@ =~= head + (if code@.len() == 0 { Seq::<char>::empty() } else { " "@ + code@ }));
    push_str(&mut out, ": ");
    let mut m = message.clone();
    out.append(&mut m);
    Some(string_from_chars(&out))
}

} // verus!
