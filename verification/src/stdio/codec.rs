//! The framing of the stdio binding: header lines, a blank line, and a body of
//! as many bytes as the content length says.
use crate::buffer::{advance_by, buffered, bytes_in};
use crate::params::{append_value, with_value, ServiceParams};
use crate::stdio::frame::{no_headers, Frame, FrameHeaders, FrameView, HeadersView, Phase, State};
use crate::text::{
    chars_of, decimal, decimal_text, find_char, first_at, joined, lower_chars, lowered, opt_text,
    parse_number, parsed_number, same_chars, same_text, starts_ignore_case, string_of,
    strip_prefix_ignore_ascii_case, texts, trim, trim_chars, utf8_error_text, utf8_text,
};
use bytes::BytesMut;
use vstd::prelude::*;
use vstd::slice::{slice_subrange, slice_to_vec};
use vstd::utf8::{decode_utf8, encode_utf8, valid_utf8};

verus! {

/// The recommended limit on a frame's body.
pub const DEFAULT_MAX_FRAME_SIZE: usize = 1048576;

/// The default limit on a frame's header block.
pub const DEFAULT_MAX_HEADER_SIZE: usize = 8192;

/// Why a frame could not be read or written.
#[derive(Debug, PartialEq)]
pub enum StdioCodecError {
    /// The stream under the codec failed.
    Io(String),
    MissingContentLength,
    InvalidContentLength(String),
    FrameTooLarge { len: usize, max: usize },
    HeaderBlockTooLarge { max: usize },
    MalformedHeader(String),
    UnexpectedEndOfInput,
}

/// A `StdioCodecError` in terms of contents.
pub enum Fault {
    Io(Seq<char>),
    MissingContentLength,
    InvalidContentLength(Seq<char>),
    FrameTooLarge { len: nat, max: nat },
    HeaderBlockTooLarge { max: nat },
    MalformedHeader(Seq<char>),
    UnexpectedEndOfInput,
}

impl View for StdioCodecError {
    type V = Fault;

    open spec fn view(&self) -> Fault {
        match *self {
            StdioCodecError::Io(s) => Fault::Io(s@),
            StdioCodecError::MissingContentLength => Fault::MissingContentLength,
            StdioCodecError::InvalidContentLength(s) => Fault::InvalidContentLength(s@),
            StdioCodecError::FrameTooLarge { len, max } => Fault::FrameTooLarge {
                len: len as nat,
                max: max as nat,
            },
            StdioCodecError::HeaderBlockTooLarge { max } => Fault::HeaderBlockTooLarge {
                max: max as nat,
            },
            StdioCodecError::MalformedHeader(s) => Fault::MalformedHeader(s@),
            StdioCodecError::UnexpectedEndOfInput => Fault::UnexpectedEndOfInput,
        }
    }
}

/// How an error reads.
pub open spec fn fault_message(f: Fault) -> Seq<char> {
    match f {
        Fault::Io(s) => "io error: "@ + s,
        Fault::MissingContentLength => "missing content length"@,
        Fault::InvalidContentLength(s) => "invalid content length: "@ + s,
        Fault::FrameTooLarge { len, max } => "frame too large: "@ + decimal(len) + " > "@
            + decimal(max),
        Fault::HeaderBlockTooLarge { max } => "header block too large: "@ + decimal(max),
        Fault::MalformedHeader(s) => "malformed header: "@ + s,
        Fault::UnexpectedEndOfInput => "unexpected end of input"@,
    }
}

impl StdioCodecError {
    /// The error as a message for people.
    pub fn message(&self) -> (r: String)
        ensures
            r@ == fault_message(self@),
    {
        match self {
            StdioCodecError::Io(s) => joined("io error: ", s.as_str()),
            StdioCodecError::MissingContentLength => "missing content length".to_owned(),
            StdioCodecError::InvalidContentLength(s) => joined(
                "invalid content length: ",
                s.as_str(),
            ),
            StdioCodecError::FrameTooLarge { len, max } => {
                let mut out = joined("frame too large: ", decimal_text(*len as u64).as_str());
                out.append(" > ");
                out.append(decimal_text(*max as u64).as_str());
                out
            },
            StdioCodecError::HeaderBlockTooLarge { max } => joined(
                "header block too large: ",
                decimal_text(*max as u64).as_str(),
            ),
            StdioCodecError::MalformedHeader(s) => joined("malformed header: ", s.as_str()),
            StdioCodecError::UnexpectedEndOfInput => "unexpected end of input".to_owned(),
        }
    }
}

// ---------------------------------------------------------------------------
// The header block.
// ---------------------------------------------------------------------------

/// The position of the first line break in `s`, or the length of `s`.
pub open spec fn first_crlf(s: Seq<char>) -> int
    decreases s.len(),
{
    if s.len() < 2 {
        s.len() as int
    } else if s[0] == '\r' && s[1] == '\n' {
        0
    } else {
        1 + first_crlf(s.drop_first())
    }
}

/// What `first_crlf` finds: a line break with none before it, or that there is none.
pub proof fn lemma_first_crlf(s: Seq<char>)
    ensures
        0 <= first_crlf(s) <= s.len(),
        first_crlf(s) < s.len() ==> first_crlf(s) + 2 <= s.len() && s[first_crlf(s)] == '\r'
            && s[first_crlf(s) + 1] == '\n',
        forall|j: int|
            0 <= j < first_crlf(s) && j + 1 < s.len() ==> !(#[trigger] s[j] == '\r' && s[j + 1]
                == '\n'),
    decreases s.len(),
{
    if s.len() >= 2 && !(s[0] == '\r' && s[1] == '\n') {
        let d = s.drop_first();
        lemma_first_crlf(d);
        assert forall|j: int| 0 <= j < first_crlf(s) && j + 1 < s.len() implies !(
        #[trigger] s[j] == '\r' && s[j + 1] == '\n') by {
            if j > 0 {
                assert(d[j - 1] == s[j] && d[j] == s[j + 1]);
            }
        }
    }
}

/// `first_crlf` is the only position with a line break and none before it.
pub proof fn lemma_first_crlf_is(s: Seq<char>, k: int)
    requires
        0 <= k <= s.len(),
        k < s.len() ==> k + 2 <= s.len() && s[k] == '\r' && s[k + 1] == '\n',
        forall|j: int|
            0 <= j < k && j + 1 < s.len() ==> !(#[trigger] s[j] == '\r' && s[j + 1] == '\n'),
    ensures
        first_crlf(s) == k,
{
    lemma_first_crlf(s);
    let f = first_crlf(s);
    if f < k {
        assert(s[f] == '\r');
    } else if k < f {
        assert(s[k] == '\r');
    }
}

/// The lines of `s`, which line breaks separate.
pub open spec fn crlf_lines(s: Seq<char>) -> Seq<Seq<char>>
    decreases s.len(),
    via crlf_lines_decreases
{
    let k = first_crlf(s);
    if k + 2 <= s.len() {
        seq![s.take(k)] + crlf_lines(s.skip(k + 2))
    } else {
        seq![s]
    }
}

#[via_fn]
proof fn crlf_lines_decreases(s: Seq<char>) {
    lemma_first_crlf(s);
}

/// What has been read of a header block.
#[verifier::ext_equal]
pub struct BlockView {
    pub content_length: Option<nat>,
    pub headers: HeadersView,
}

/// What has been read of a header block after one more line.
///
/// A line is `name: value`; white space round the name is an error, round the
/// value it is dropped. Names are compared without regard to ASCII case and
/// unknown ones are skipped.
pub open spec fn line_read(block: BlockView, line: Seq<char>) -> Result<BlockView, Fault> {
    let k = first_at(line, ':');
    let name = line.take(k);
    let value = trim(line.skip(k + 1));
    let low = lowered(name);
    let h = block.headers;
    if line.len() == 0 {
        Ok(block)
    } else if k >= line.len() {
        Err(Fault::MalformedHeader(line))
    } else if trim(name) != name {
        Err(Fault::MalformedHeader(line))
    } else if low == "content-length"@ {
        match parsed_number(value) {
            Some(n) => if n <= usize::MAX {
                Ok(BlockView { content_length: Some(n), ..block })
            } else {
                Err(Fault::InvalidContentLength(value))
            },
            None => Err(Fault::InvalidContentLength(value)),
        }
    } else if low == "content-type"@ {
        Ok(BlockView { headers: HeadersView { content_type: Some(value), ..h }, ..block })
    } else if low == "a2a-kind"@ {
        Ok(BlockView { headers: HeadersView { a2a_kind: Some(value), ..h }, ..block })
    } else if low == "a2a-id"@ {
        Ok(BlockView { headers: HeadersView { a2a_id: Some(value), ..h }, ..block })
    } else if low == "a2a-method"@ {
        Ok(BlockView { headers: HeadersView { a2a_method: Some(value), ..h }, ..block })
    } else if starts_ignore_case(name, "a2a-sp-"@) {
        Ok(
            BlockView {
                headers: HeadersView {
                    service_params: with_value(
                        h.service_params,
                        lowered(name.skip("a2a-sp-"@.len() as int)),
                        value,
                    ),
                    ..h
                },
                ..block
            },
        )
    } else {
        Ok(block)
    }
}

/// What has been read of a header block after some more lines; the first bad
/// line decides the error.
pub open spec fn lines_read(block: BlockView, lines: Seq<Seq<char>>) -> Result<BlockView, Fault>
    decreases lines.len(),
{
    if lines.len() == 0 {
        Ok(block)
    } else {
        match line_read(block, lines[0]) {
            Ok(b) => lines_read(b, lines.drop_first()),
            Err(f) => Err(f),
        }
    }
}

/// The content length and the headers that a header block writes down.
pub open spec fn block_read(bytes: Seq<u8>) -> Result<(nat, HeadersView), Fault> {
    if !valid_utf8(bytes) {
        Err(Fault::MalformedHeader("not valid UTF-8: "@ + utf8_error_text(bytes)))
    } else {
        match lines_read(
            BlockView { content_length: None, headers: no_headers() },
            crlf_lines(decode_utf8(bytes)),
        ) {
            Err(f) => Err(f),
            Ok(b) => match b.content_length {
                Some(n) => Ok((n, b.headers)),
                None => Err(Fault::MissingContentLength),
            },
        }
    }
}

struct Block {
    content_length: Option<usize>,
    headers: FrameHeaders,
}

impl View for Block {
    type V = BlockView;

    closed spec fn view(&self) -> BlockView {
        BlockView {
            content_length: match self.content_length {
                Some(n) => Some(n as nat),
                None => None,
            },
            headers: self.headers@,
        }
    }
}

spec fn block_result(r: Result<Block, StdioCodecError>) -> Result<BlockView, Fault> {
    match r {
        Ok(b) => Ok(b@),
        Err(e) => Err(e@),
    }
}

fn find_crlf(cs: &[char]) -> (r: usize)
    ensures
        r == first_crlf(cs@),
        r <= cs.len(),
{
    let mut i: usize = 0;
    while i < cs.len() && !(i + 1 < cs.len() && cs[i] == '\r' && cs[i + 1] == '\n')
        invariant
            i <= cs.len(),
            forall|j: int|
                0 <= j < i && j + 1 < cs@.len() ==> !(#[trigger] cs@[j] == '\r' && cs@[j + 1]
                    == '\n'),
        decreases cs.len() - i,
    {
        i = i + 1;
    }
    proof {
        lemma_first_crlf_is(cs@, i as int);
    }
    i
}

fn read_line(mut block: Block, line: &[char]) -> (r: Result<Block, StdioCodecError>)
    ensures
        block_result(r) == line_read(block@, line@),
{
    let ghost before = block@;
    if line.len() == 0 {
        return Ok(block);
    }
    let k: usize = find_char(line, ':');
    if k >= line.len() {
        return Err(StdioCodecError::MalformedHeader(string_of(line)));
    }
    let name = slice_subrange(line, 0, k);
    assert(name@ =~= line@.take(k as int));
    if !same_chars(trim_chars(name), name) {
        return Err(StdioCodecError::MalformedHeader(string_of(line)));
    }
    let rest = slice_subrange(line, k + 1, line.len());
    assert(rest@ =~= line@.skip(k + 1));
    let value = trim_chars(rest);
    let low = string_of(lower_chars(name).as_slice());
    if same_text(low.as_str(), "content-length") {
        match parse_number(value, usize::MAX as u64) {
            Some(n) => {
                block.content_length = Some(n as usize);
            },
            None => {
                return Err(StdioCodecError::InvalidContentLength(string_of(value)));
            },
        }
    } else if same_text(low.as_str(), "content-type") {
        block.headers.content_type = Some(string_of(value));
    } else if same_text(low.as_str(), "a2a-kind") {
        block.headers.a2a_kind = Some(string_of(value));
    } else if same_text(low.as_str(), "a2a-id") {
        block.headers.a2a_id = Some(string_of(value));
    } else if same_text(low.as_str(), "a2a-method") {
        block.headers.a2a_method = Some(string_of(value));
    } else {
        match strip_prefix_ignore_ascii_case(name, "a2a-sp-") {
            Some(key) => {
                let key = string_of(lower_chars(key.as_slice()).as_slice());
                append_value(&mut block.headers.service_params, key, string_of(value));
            },
            None => {},
        }
    }
    assert(Ok::<BlockView, Fault>(block@) == line_read(before, line@));
    Ok(block)
}

/// Reads a frame's header block: its content length, which it must give, and
/// the recognised headers.
pub fn parse_headers(bytes: &[u8]) -> (r: Result<(usize, FrameHeaders), StdioCodecError>)
    ensures
        match r {
            Ok((n, h)) => block_read(bytes@) == Ok::<(nat, HeadersView), Fault>((n as nat, h@)),
            Err(e) => block_read(bytes@) == Err::<(nat, HeadersView), Fault>(e@),
        },
{
    let text = match utf8_text(bytes) {
        Ok(s) => s,
        Err(e) => {
            return Err(StdioCodecError::MalformedHeader(joined("not valid UTF-8: ", e.as_str())));
        },
    };
    let cs = chars_of(text.as_str());
    let mut block = Block { content_length: None, headers: FrameHeaders::default() };
    let mut rest: &[char] = cs.as_slice();
    let mut more = true;
    let ghost goal = lines_read(
        BlockView { content_length: None, headers: no_headers() },
        crlf_lines(decode_utf8(bytes@)),
    );
    while more
        invariant
            valid_utf8(bytes@),
            goal == lines_read(
                BlockView { content_length: None, headers: no_headers() },
                crlf_lines(decode_utf8(bytes@)),
            ),
            more ==> lines_read(block@, crlf_lines(rest@)) == goal,
            !more ==> goal == Ok::<BlockView, Fault>(block@),
        decreases rest.len(), if more { 1int } else { 0int },
    {
        let k: usize = find_crlf(rest);
        let ghost lines = crlf_lines(rest@);
        proof {
            lemma_first_crlf(rest@);
        }
        let line = slice_subrange(rest, 0, k);
        assert(line@ =~= rest@.take(k as int));
        assert(lines[0] =~= line@);
        let ghost tail = if k + 2 <= rest@.len() {
            crlf_lines(rest@.skip(k + 2))
        } else {
            Seq::empty()
        };
        assert(lines.drop_first() =~= tail);
        match read_line(block, line) {
            Ok(b) => {
                block = b;
            },
            Err(e) => {
                return Err(e);
            },
        }
        if k < rest.len() {
            assert(rest@.skip(k + 2) =~= rest@.subrange(k + 2, rest@.len() as int));
            rest = slice_subrange(rest, k + 2, rest.len());
        } else {
            more = false;
            assert(lines_read(block@, tail) == Ok::<BlockView, Fault>(block@));
        }
    }
    match block.content_length {
        Some(n) => Ok((n, block.headers)),
        None => Err(StdioCodecError::MissingContentLength),
    }
}

// ---------------------------------------------------------------------------
// Decoding.
// ---------------------------------------------------------------------------

/// Whether the blank line that ends a header block stands at `i`.
pub open spec fn separator_at(b: Seq<u8>, i: int) -> bool {
    0 <= i && i + 4 <= b.len() && b[i] == 13 && b[i + 1] == 10 && b[i + 2] == 13 && b[i + 3] == 10
}

/// The position of the first separator at or after `from`.
pub open spec fn first_separator(b: Seq<u8>, from: int) -> Option<int>
    decreases b.len() - from,
{
    if from + 4 > b.len() {
        None
    } else if separator_at(b, from) {
        Some(from)
    } else {
        first_separator(b, from + 1)
    }
}

/// What `first_separator` finds: a separator with none from `from` up to it,
/// or that there is none.
pub proof fn lemma_first_separator(b: Seq<u8>, from: int)
    requires
        0 <= from,
    ensures
        match first_separator(b, from) {
            Some(i) => from <= i && separator_at(b, i) && forall|j: int|
                from <= j < i ==> !separator_at(b, j),
            None => forall|j: int| from <= j ==> !separator_at(b, j),
        },
    decreases b.len() - from,
{
    if from + 4 <= b.len() && !separator_at(b, from) {
        lemma_first_separator(b, from + 1);
    }
}

/// The first separator at or after `from`, where the search never starts past
/// the last place at which one could stand.
pub open spec fn found_separator(b: Seq<u8>, from: int) -> Option<int> {
    if b.len() < 4 {
        None
    } else if from <= b.len() - 4 {
        first_separator(b, from)
    } else {
        first_separator(b, b.len() - 4)
    }
}

/// Finds the separator between a header block and its body, from `from` on.
///
/// The result is also the length of the header block. `from` lets the caller
/// skip what an earlier call has searched; it is clamped, so that a separator
/// that came in two reads is not missed.
pub fn find_separator(src: &[u8], from: usize) -> (r: Option<usize>)
    ensures
        match r {
            Some(i) => found_separator(src@, from as int) == Some(i as int),
            None => found_separator(src@, from as int) is None,
        },
        r matches Some(i) ==> i + 4 <= src@.len(),
{
    if src.len() < 4 {
        return None;
    }
    let last: usize = src.len() - 4;
    let mut i: usize = if from <= last {
        from
    } else {
        last
    };
    while i <= last
        invariant
            i <= last + 1,
            src.len() == last + 4,
            first_separator(src@, i as int) == found_separator(src@, from as int),
        decreases last + 1 - i,
    {
        if src[i] == 13 && src[i + 1] == 10 && src[i + 2] == 13 && src[i + 3] == 10 {
            assert(separator_at(src@, i as int));
            return Some(i);
        }
        assert(!separator_at(src@, i as int));
        i = i + 1;
    }
    None
}

/// Reads frames out of a byte buffer and writes them into one.
pub struct StdioCodec {
    state: State,
    scanned: usize,
    max_frame_size: usize,
    max_header_size: usize,
}

/// A codec in terms of contents. `scanned` is how far the buffer is known to
/// hold no separator.
#[verifier::ext_equal]
pub struct CodecView {
    pub phase: Phase,
    pub scanned: nat,
    pub max_frame_size: nat,
    pub max_header_size: nat,
}

impl View for StdioCodec {
    type V = CodecView;

    closed spec fn view(&self) -> CodecView {
        CodecView {
            phase: self.state@,
            scanned: self.scanned as nat,
            max_frame_size: self.max_frame_size as nat,
            max_header_size: self.max_header_size as nat,
        }
    }
}

/// What a call of `decode` leaves behind: the codec, the buffer, and the result.
#[verifier::ext_equal]
pub struct Decoded {
    pub codec: CodecView,
    pub buffer: Seq<u8>,
    pub result: Result<Option<FrameView>, Fault>,
}

/// What decoding does while it waits for a body of `n` bytes.
pub open spec fn body_decoded(c: CodecView, b: Seq<u8>, n: nat, h: HeadersView) -> Decoded {
    if b.len() < n {
        Decoded {
            codec: CodecView { phase: Phase::Body { content_length: n, headers: h }, ..c },
            buffer: b,
            result: Ok(None),
        }
    } else {
        Decoded {
            codec: CodecView { phase: Phase::Headers, ..c },
            buffer: b.skip(n as int),
            result: Ok(Some(FrameView { headers: h, body: b.take(n as int) })),
        }
    }
}

/// What decoding does.
pub open spec fn decoded(c: CodecView, b: Seq<u8>) -> Decoded {
    match c.phase {
        Phase::Body { content_length, headers } => body_decoded(c, b, content_length, headers),
        Phase::Headers => match found_separator(b, c.scanned as int) {
            None => if b.len() > c.max_header_size {
                Decoded {
                    codec: c,
                    buffer: b,
                    result: Err(Fault::HeaderBlockTooLarge { max: c.max_header_size }),
                }
            } else {
                Decoded {
                    codec: CodecView {
                        scanned: if b.len() > 3 {
                            (b.len() - 3) as nat
                        } else {
                            0
                        },
                        ..c
                    },
                    buffer: b,
                    result: Ok(None),
                }
            },
            Some(i) => match block_read(b.take(i)) {
                Err(f) => Decoded { codec: c, buffer: b, result: Err(f) },
                Ok((n, h)) => if n > c.max_frame_size {
                    Decoded {
                        codec: c,
                        buffer: b,
                        result: Err(Fault::FrameTooLarge { len: n, max: c.max_frame_size }),
                    }
                } else {
                    body_decoded(CodecView { scanned: 0, ..c }, b.skip(i + 4), n, h)
                },
            },
        },
    }
}

/// The contents of what `decode` returns.
pub open spec fn decode_result(
    r: Result<Option<Frame>, StdioCodecError>,
) -> Result<Option<FrameView>, Fault> {
    match r {
        Ok(Some(f)) => Ok(Some(f@)),
        Ok(None) => Ok(None),
        Err(e) => Err(e@),
    }
}

impl StdioCodec {
    /// A codec with the given limits, at the start of a stream.
    pub fn new(max_frame_size: usize, max_header_size: usize) -> (r: Self)
        ensures
            r@ == (CodecView {
                phase: Phase::Headers,
                scanned: 0,
                max_frame_size: max_frame_size as nat,
                max_header_size: max_header_size as nat,
            }),
    {
        StdioCodec { state: State::Headers, scanned: 0, max_frame_size, max_header_size }
    }

    fn take_state(&mut self) -> (r: State)
        ensures
            r == old(self).state,
            final(self).state == State::Headers,
            final(self).scanned == old(self).scanned,
            final(self).max_frame_size == old(self).max_frame_size,
            final(self).max_header_size == old(self).max_header_size,
    {
        let mut state = State::Headers;
        std::mem::swap(&mut state, &mut self.state);
        state
    }

    fn decode_body(&mut self, src: &mut BytesMut, content_length: usize, headers: FrameHeaders) -> (r:
        Option<Frame>)
        ensures
            ({
                let d = body_decoded(
                    old(self)@,
                    buffered(*old(src)),
                    content_length as nat,
                    headers@,
                );
                &&& final(self)@ == d.codec
                &&& buffered(*final(src)) == d.buffer
                &&& decode_result(Ok(r)) == d.result
            }),
    {
        let have: usize = bytes_in(src).len();
        if have < content_length {
            // A reservation of more than `isize::MAX` bytes cannot be met.
            if content_length <= isize::MAX as usize {
                src.reserve(content_length - have);
            }
            self.state = State::Body { content_length, headers };
            return None;
        }
        let taken = src.split_to(content_length);
        let body = slice_to_vec(bytes_in(&taken));
        self.state = State::Headers;
        Some(Frame { headers, body })
    }

    /// Reads the next frame out of `src`, if all of it is there.
    pub fn decode(&mut self, src: &mut BytesMut) -> (r: Result<Option<Frame>, StdioCodecError>)
        ensures
            final(self)@ == decoded(old(self)@, buffered(*old(src))).codec,
            buffered(*final(src)) == decoded(old(self)@, buffered(*old(src))).buffer,
            decode_result(r) == decoded(old(self)@, buffered(*old(src))).result,
    {
        match self.take_state() {
            State::Body { content_length, headers } => Ok(
                self.decode_body(src, content_length, headers),
            ),
            State::Headers => {
                let bytes = bytes_in(src);
                let have: usize = bytes.len();
                let i: usize = match find_separator(bytes, self.scanned) {
                    Some(i) => i,
                    None => {
                        if have > self.max_header_size {
                            return Err(
                                StdioCodecError::HeaderBlockTooLarge { max: self.max_header_size },
                            );
                        }
                        self.scanned = if have > 3 {
                            have - 3
                        } else {
                            0
                        };
                        return Ok(None);
                    },
                };
                assert(bytes@.subrange(0, i as int) =~= bytes@.take(i as int));
                let (content_length, headers) = match parse_headers(slice_subrange(bytes, 0, i)) {
                    Ok(p) => p,
                    Err(e) => {
                        return Err(e);
                    },
                };
                if content_length > self.max_frame_size {
                    return Err(
                        StdioCodecError::FrameTooLarge {
                            len: content_length,
                            max: self.max_frame_size,
                        },
                    );
                }
                advance_by(src, i + 4);
                self.scanned = 0;
                Ok(self.decode_body(src, content_length, headers))
            },
        }
    }
}

// ---------------------------------------------------------------------------
// Encoding.
// ---------------------------------------------------------------------------

/// One header line.
pub open spec fn line_text(name: Seq<char>, value: Seq<char>) -> Seq<char> {
    name + ": "@ + value + "\r\n"@
}

/// The line of a header that may be absent.
pub open spec fn opt_line(name: Seq<char>, value: Option<String>) -> Seq<char> {
    match value {
        Some(v) => line_text(name, v@),
        None => Seq::empty(),
    }
}

/// One line for each value of a service parameter.
pub open spec fn value_lines(key: Seq<char>, values: Seq<Seq<char>>) -> Seq<char>
    decreases values.len(),
{
    if values.len() == 0 {
        Seq::empty()
    } else {
        value_lines(key, values.drop_last()) + line_text("A2A-SP-"@ + key, values.last())
    }
}

/// The lines of the service parameters, in their order.
pub open spec fn param_lines(e: Seq<(Seq<char>, Vec<String>)>) -> Seq<char>
    decreases e.len(),
{
    if e.len() == 0 {
        Seq::empty()
    } else {
        param_lines(e.drop_last()) + value_lines(e.last().0, texts(e.last().1@))
    }
}

/// The header lines of a frame with `n` body bytes.
pub open spec fn head_lines(h: FrameHeaders, n: nat) -> Seq<char> {
    line_text("Content-Length"@, decimal(n)) + opt_line("Content-Type"@, h.content_type) + opt_line(
        "A2A-Kind"@,
        h.a2a_kind,
    ) + opt_line("A2A-Id"@, h.a2a_id) + opt_line("A2A-Method"@, h.a2a_method) + param_lines(
        h.service_params.spec_entries(),
    )
}

/// The header block of a frame, with the blank line that ends it.
pub open spec fn head_bytes(f: Frame) -> Seq<u8> {
    encode_utf8(head_lines(f.headers, f.body@.len()) + "\r\n"@)
}

/// The text of a header that may be absent.
pub open spec fn opt_seq(o: Option<String>) -> Seq<Seq<char>> {
    match o {
        Some(s) => seq![s@],
        None => Seq::empty(),
    }
}

/// The names of the service parameters.
pub open spec fn param_keys(e: Seq<(Seq<char>, Vec<String>)>) -> Seq<Seq<char>> {
    Seq::new(e.len(), |i: int| e[i].0)
}

/// The values of the service parameters.
pub open spec fn param_values(e: Seq<(Seq<char>, Vec<String>)>) -> Seq<Seq<char>>
    decreases e.len(),
{
    if e.len() == 0 {
        Seq::empty()
    } else {
        param_values(e.drop_last()) + texts(e.last().1@)
    }
}

/// Every text that goes into a header block as it stands.
pub open spec fn header_texts(h: FrameHeaders) -> Seq<Seq<char>> {
    opt_seq(h.content_type) + opt_seq(h.a2a_kind) + opt_seq(h.a2a_id) + opt_seq(h.a2a_method)
        + param_keys(h.service_params.spec_entries()) + param_values(
        h.service_params.spec_entries(),
    )
}

/// Whether a text would break a header line.
pub open spec fn breaks_line(s: Seq<char>) -> bool {
    s.contains('\r') || s.contains('\n')
}

/// The first text that would break a header line.
pub open spec fn first_breaking(s: Seq<Seq<char>>) -> Option<Seq<char>>
    decreases s.len(),
{
    if s.len() == 0 {
        None
    } else if breaks_line(s[0]) {
        Some(s[0])
    } else {
        first_breaking(s.drop_first())
    }
}

/// The first breaking text of two lists is that of the first list, if it has one.
pub proof fn lemma_first_breaking_add(a: Seq<Seq<char>>, b: Seq<Seq<char>>)
    ensures
        first_breaking(a + b) == (if first_breaking(a) is Some {
            first_breaking(a)
        } else {
            first_breaking(b)
        }),
    decreases a.len(),
{
    if a.len() == 0 {
        assert(a + b =~= b);
    } else {
        assert((a + b)[0] == a[0]);
        if !breaks_line(a[0]) {
            lemma_first_breaking_add(a.drop_first(), b);
            assert((a + b).drop_first() =~= a.drop_first() + b);
        }
    }
}

/// Encoding two texts one after the other is encoding them together.
pub proof fn lemma_encode_add(a: Seq<char>, b: Seq<char>)
    ensures
        encode_utf8(a + b) == encode_utf8(a) + encode_utf8(b),
    decreases a.len(),
{
    if a.len() == 0 {
        assert(a + b =~= b);
        assert(encode_utf8(a) + encode_utf8(b) =~= encode_utf8(b));
    } else {
        lemma_encode_add(a.drop_first(), b);
        assert((a + b)[0] == a[0]);
        assert((a + b).drop_first() =~= a.drop_first() + b);
        assert(encode_utf8(a + b) =~= encode_utf8(a) + encode_utf8(b));
    }
}

fn text_breaks(s: &str) -> (r: bool)
    ensures
        r == breaks_line(s@),
{
    let cs = chars_of(s);
    let cr: usize = find_char(cs.as_slice(), '\r');
    let lf: usize = find_char(cs.as_slice(), '\n');
    proof {
        crate::text::lemma_first_at(cs@, '\r');
        crate::text::lemma_first_at(cs@, '\n');
    }
    cr < cs.len() || lf < cs.len()
}

fn opt_breaking(o: &Option<String>) -> (r: Option<String>)
    ensures
        opt_text(r) == first_breaking(opt_seq(*o)),
{
    reveal_with_fuel(first_breaking, 2);
    match o {
        Some(s) => if text_breaks(s.as_str()) {
            Some(s.clone())
        } else {
            None
        },
        None => None,
    }
}

fn list_breaking(values: &Vec<String>) -> (r: Option<String>)
    ensures
        opt_text(r) == first_breaking(texts(values@)),
{
    let ghost all = texts(values@);
    let mut i: usize = 0;
    assert(all.skip(0) =~= all);
    while i < values.len()
        invariant
            i <= values.len(),
            all == texts(values@),
            first_breaking(all) == first_breaking(all.skip(i as int)),
        decreases values.len() - i,
    {
        assert(all.skip(i as int)[0] == values@[i as int]@);
        assert(all.skip(i as int).drop_first() =~= all.skip(i + 1));
        if text_breaks(values[i].as_str()) {
            return Some(values[i].clone());
        }
        i = i + 1;
    }
    None
}

fn params_breaking(params: &ServiceParams) -> (r: Option<String>)
    ensures
        opt_text(r) == first_breaking(
            param_keys(params.spec_entries()) + param_values(params.spec_entries()),
        ),
{
    let n: usize = params.len();
    let ghost e = params.spec_entries();
    let ghost keys = param_keys(e);
    proof {
        lemma_first_breaking_add(keys, param_values(e));
    }
    let mut i: usize = 0;
    assert(keys.skip(0) =~= keys);
    while i < n
        invariant
            i <= n,
            n == e.len(),
            e == params.spec_entries(),
            keys == param_keys(e),
            first_breaking(keys) == first_breaking(keys.skip(i as int)),
            first_breaking(keys + param_values(e)) == (if first_breaking(keys) is Some {
                first_breaking(keys)
            } else {
                first_breaking(param_values(e))
            }),
        decreases n - i,
    {
        assert(keys.skip(i as int)[0] == e[i as int].0);
        assert(keys.skip(i as int).drop_first() =~= keys.skip(i + 1));
        if text_breaks(params.key_at(i)) {
            return Some(params.key_at(i).to_owned());
        }
        i = i + 1;
    }
    assert(first_breaking(keys) is None);
    i = 0;
    assert(e.skip(0) =~= e);
    assert(first_breaking(param_values(e.take(0))) is None);
    while i < n
        invariant
            i <= n,
            n == e.len(),
            e == params.spec_entries(),
            keys == param_keys(e),
            first_breaking(param_values(e.take(i as int))) is None,
            first_breaking(keys) is None,
            first_breaking(keys + param_values(e)) == first_breaking(param_values(e)),
        decreases n - i,
    {
        let found = list_breaking(params.value_at(i));
        proof {
            assert(e.take(i + 1).drop_last() =~= e.take(i as int));
            lemma_first_breaking_add(param_values(e.take(i as int)), texts(e[i as int].1@));
            lemma_param_values_prefix(e, i + 1);
        }
        if found.is_some() {
            return found;
        }
        i = i + 1;
    }
    assert(e.take(i as int) =~= e);
    None
}

proof fn lemma_param_values_prefix(e: Seq<(Seq<char>, Vec<String>)>, i: int)
    requires
        0 <= i <= e.len(),
    ensures
        first_breaking(param_values(e.take(i))) is Some ==> first_breaking(param_values(e))
            == first_breaking(param_values(e.take(i))),
    decreases e.len(),
{
    if i < e.len() {
        lemma_param_values_prefix(e.drop_last(), i);
        assert(e.drop_last().take(i) =~= e.take(i));
        lemma_first_breaking_add(param_values(e.drop_last()), texts(e.last().1@));
    } else {
        assert(e.take(i) =~= e);
    }
}

fn headers_breaking(h: &FrameHeaders) -> (r: Option<String>)
    ensures
        opt_text(r) == first_breaking(header_texts(*h)),
{
    proof {
        let e = h.service_params.spec_entries();
        let a = opt_seq(h.content_type);
        let b = opt_seq(h.a2a_kind);
        let c = opt_seq(h.a2a_id);
        let d = opt_seq(h.a2a_method);
        let p = param_keys(e) + param_values(e);
        assert(header_texts(*h) =~= a + (b + (c + (d + p))));
        lemma_first_breaking_add(a, b + (c + (d + p)));
        lemma_first_breaking_add(b, c + (d + p));
        lemma_first_breaking_add(c, d + p);
        lemma_first_breaking_add(d, p);
    }
    let ct = opt_breaking(&h.content_type);
    if ct.is_some() {
        return ct;
    }
    let kind = opt_breaking(&h.a2a_kind);
    if kind.is_some() {
        return kind;
    }
    let id = opt_breaking(&h.a2a_id);
    if id.is_some() {
        return id;
    }
    let method = opt_breaking(&h.a2a_method);
    if method.is_some() {
        return method;
    }
    params_breaking(&h.service_params)
}

/// Adds one header line to `out`.
fn put_header(out: &mut String, name: &str, value: &str)
    ensures
        final(out)@ == old(out)@ + line_text(name@, value@),
{
    out.append(name);
    out.append(": ");
    out.append(value);
    out.append("\r\n");
    assert(out@ =~= old(out)@ + line_text(name@, value@));
}

fn put_opt_header(out: &mut String, name: &str, value: &Option<String>)
    ensures
        final(out)@ == old(out)@ + opt_line(name@, *value),
{
    match value {
        Some(v) => put_header(out, name, v.as_str()),
        None => {
            assert(out@ =~= old(out)@ + opt_line(name@, *value));
        },
    }
}

fn put_params(out: &mut String, params: &ServiceParams)
    ensures
        final(out)@ == old(out)@ + param_lines(params.spec_entries()),
{
    let n: usize = params.len();
    let ghost e = params.spec_entries();
    let ghost start = out@;
    let mut i: usize = 0;
    assert(start + param_lines(e.take(0)) =~= start);
    while i < n
        invariant
            i <= n,
            n == e.len(),
            e == params.spec_entries(),
            out@ == start + param_lines(e.take(i as int)),
        decreases n - i,
    {
        let name = joined("A2A-SP-", params.key_at(i));
        let values = params.value_at(i);
        let ghost before = out@;
        let ghost all = texts(values@);
        let mut j: usize = 0;
        assert(before + value_lines(e[i as int].0, all.take(0)) =~= before);
        while j < values.len()
            invariant
                j <= values.len(),
                all == texts(values@),
                name@ == "A2A-SP-"@ + e[i as int].0,
                out@ == before + value_lines(e[i as int].0, all.take(j as int)),
            decreases values.len() - j,
        {
            put_header(out, name.as_str(), values[j].as_str());
            j = j + 1;
            assert(all.take(j as int).drop_last() =~= all.take(j - 1));
            assert(all.take(j as int).last() == values@[j - 1]@);
            assert(out@ =~= before + value_lines(e[i as int].0, all.take(j as int)));
        }
        assert(all.take(j as int) =~= all);
        i = i + 1;
        assert(e.take(i as int).drop_last() =~= e.take(i - 1));
        assert(out@ =~= start + param_lines(e.take(i as int)));
    }
    assert(e.take(i as int) =~= e);
}

impl StdioCodec {
    /// Writes `item` at the end of `dst`, which stays as it is on an error.
    ///
    /// A line break in any header text is refused: it would make new headers or
    /// split the frame.
    pub fn encode(&mut self, item: &Frame, dst: &mut BytesMut) -> (r: Result<(), StdioCodecError>)
        requires
            buffered(*old(dst)).len() + head_bytes(*item).len() + item.body@.len() <= isize::MAX,
        ensures
            final(self)@ == old(self)@,
            ({
                let c = old(self)@;
                let head = head_bytes(*item);
                let broken = first_breaking(header_texts(item.headers));
                if item.body@.len() > c.max_frame_size {
                    &&& r matches Err(e) && e@ == (Fault::FrameTooLarge {
                        len: item.body@.len(),
                        max: c.max_frame_size,
                    })
                    &&& buffered(*final(dst)) == buffered(*old(dst))
                } else if broken is Some {
                    &&& r matches Err(e) && e@ == Fault::MalformedHeader(broken->0)
                    &&& buffered(*final(dst)) == buffered(*old(dst))
                } else if head.len() > c.max_header_size {
                    &&& r matches Err(e) && e@ == (Fault::HeaderBlockTooLarge {
                        max: c.max_header_size,
                    })
                    &&& buffered(*final(dst)) == buffered(*old(dst))
                } else {
                    &&& r is Ok
                    &&& buffered(*final(dst)) == buffered(*old(dst)) + head + item.body@
                }
            }),
    {
        let n: usize = item.body.len();
        if n > self.max_frame_size {
            return Err(StdioCodecError::FrameTooLarge { len: n, max: self.max_frame_size });
        }
        let broken = headers_breaking(&item.headers);
        if let Some(text) = broken {
            return Err(StdioCodecError::MalformedHeader(text));
        }
        let h = &item.headers;
        let mut head = String::new();
        put_header(&mut head, "Content-Length", decimal_text(n as u64).as_str());
        put_opt_header(&mut head, "Content-Type", &h.content_type);
        put_opt_header(&mut head, "A2A-Kind", &h.a2a_kind);
        put_opt_header(&mut head, "A2A-Id", &h.a2a_id);
        put_opt_header(&mut head, "A2A-Method", &h.a2a_method);
        put_params(&mut head, &h.service_params);
        head.append("\r\n");
        assert(head@ =~= head_lines(*h, n as nat) + "\r\n"@);
        let bytes = head.as_str().as_bytes();
        if bytes.len() > self.max_header_size {
            return Err(StdioCodecError::HeaderBlockTooLarge { max: self.max_header_size });
        }
        dst.extend_from_slice(bytes);
        dst.extend_from_slice(item.body.as_slice());
        Ok(())
    }
}

} // verus!
