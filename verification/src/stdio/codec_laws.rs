//! What holds of the framing as a whole: a frame that was written is read back
//! as it was, and it does not matter in which pieces the bytes arrive.
use crate::params::{lemma_lists_insert, lists, with_value};
use crate::stdio::codec::{
    block_read, body_decoded, breaks_line, crlf_lines, decoded, first_breaking, first_separator,
    found_separator, head_bytes, head_lines, header_texts, lemma_encode_add, lemma_first_crlf_is,
    lemma_first_separator, line_read, line_text, lines_read, opt_line, opt_seq, param_keys,
    param_lines, param_values, separator_at, value_lines, BlockView, CodecView, Decoded, Fault,
};
use crate::stdio::frame::{no_headers, Frame, FrameHeaders, FrameView, HeadersView, Phase};
use crate::text::{
    decimal, first_at, is_trimmed, is_white, lemma_decimal_reads_back, lemma_first_at_is,
    lemma_trim_fixed, lower, lowered, opt_text, starts_ignore_case, texts, trim, trim_start,
};
use crate::text_map::{distinct_keys, has_key, lemma_map_of_keys, map_of};
use vstd::prelude::*;
use vstd::utf8::encode_utf8;

verus! {

// ---------------------------------------------------------------------------
// Decoding in pieces.
// ---------------------------------------------------------------------------

/// Whether a codec's note of how far it has searched fits the buffer: no
/// separator stands before that place, whatever bytes follow.
pub open spec fn in_step(c: CodecView, b: Seq<u8>) -> bool {
    &&& c.scanned == 0 || c.scanned + 3 <= b.len()
    &&& forall|j: int| 0 <= j < c.scanned ==> !separator_at(b, j)
}

proof fn lemma_separator_prefix(a: Seq<u8>, b: Seq<u8>, j: int)
    ensures
        j + 4 <= a.len() ==> separator_at(a + b, j) == separator_at(a, j),
        separator_at(a, j) ==> separator_at(a + b, j),
{
}

proof fn lemma_found_is_first(c: CodecView, b: Seq<u8>)
    requires
        in_step(c, b),
    ensures
        found_separator(b, c.scanned as int) == first_separator(b, 0),
{
    lemma_first_separator(b, 0);
    if b.len() >= 4 {
        let from = if c.scanned <= b.len() - 4 {
            c.scanned as int
        } else {
            b.len() - 4
        };
        lemma_first_separator(b, from);
        match first_separator(b, 0) {
            Some(i) => {
                assert(separator_at(b, i));
                assert(from <= i);
                match first_separator(b, from) {
                    Some(k) => {
                        if k < i {
                            assert(!separator_at(b, k));
                        } else if i < k {
                            assert(!separator_at(b, i));
                        }
                    },
                    None => {
                        assert(!separator_at(b, i));
                    },
                }
            },
            None => {
                match first_separator(b, from) {
                    Some(k) => {
                        assert(!separator_at(b, k));
                    },
                    None => {},
                }
            },
        }
    }
}

/// A codec stays in step with its buffer over every call of `decode`, and over
/// every arrival of more bytes.
pub proof fn law_decode_stays_in_step(c: CodecView, b: Seq<u8>, more: Seq<u8>)
    requires
        c.phase is Headers ==> in_step(c, b),
        c.phase is Body ==> c.scanned == 0,
    ensures
        ({
            let d = decoded(c, b);
            &&& d.codec.phase is Headers ==> in_step(d.codec, d.buffer + more)
            &&& d.codec.phase is Body ==> d.codec.scanned == 0
        }),
{
    let d = decoded(c, b);
    if c.phase is Headers {
        lemma_found_is_first(c, b);
        lemma_first_separator(b, 0);
        if d.codec.phase is Headers && d.codec.scanned > 0 {
            assert forall|j: int| 0 <= j < d.codec.scanned implies !separator_at(
                d.buffer + more,
                j,
            ) by {
                lemma_separator_prefix(d.buffer, more, j);
                if d.result is Ok {
                    assert(!separator_at(b, j));
                } else {
                    assert(!separator_at(b, j));
                }
            }
        }
    }
}

/// It does not matter in which pieces the bytes arrive: where `a` alone did not
/// complete a frame, going on with `b` gives what `a` and `b` together give.
/// (After an error only the note of how far was searched may differ.)
pub proof fn law_decode_in_pieces(c: CodecView, a: Seq<u8>, b: Seq<u8>)
    requires
        c.phase is Headers ==> in_step(c, a),
        c.phase is Body ==> c.scanned == 0,
        decoded(c, a).result == Ok::<Option<FrameView>, Fault>(None),
    ensures
        ({
            let first = decoded(c, a);
            let then = decoded(first.codec, first.buffer + b);
            let at_once = decoded(c, a + b);
            &&& then.result == at_once.result
            &&& then.buffer == at_once.buffer
            &&& then.result is Ok ==> then.codec == at_once.codec
        }),
{
    let first = decoded(c, a);
    let then = decoded(first.codec, first.buffer + b);
    let at_once = decoded(c, a + b);
    match c.phase {
        Phase::Body { content_length, headers } => {
            assert(first.codec =~= c);
        },
        Phase::Headers => {
            law_decode_stays_in_step(c, a, b);
            law_decode_stays_in_step(c, a, Seq::empty());
            assert(in_step(c, a + b)) by {
                assert forall|j: int| 0 <= j < c.scanned implies !separator_at(a + b, j) by {
                    lemma_separator_prefix(a, b, j);
                }
            }
            lemma_found_is_first(c, a);
            lemma_found_is_first(c, a + b);
            lemma_first_separator(a, 0);
            lemma_first_separator(a + b, 0);
            match first_separator(a, 0) {
                Some(i) => {
                    lemma_separator_prefix(a, b, i);
                    assert(first_separator(a + b, 0) == Some(i)) by {
                        let k = first_separator(a + b, 0)->0;
                        if k < i {
                            lemma_separator_prefix(a, b, k);
                        }
                    }
                    assert((a + b).take(i) =~= a.take(i));
                    assert((a + b).skip(i + 4) =~= a.skip(i + 4) + b);
                    assert(then =~= at_once);
                },
                None => {
                    lemma_found_is_first(first.codec, a + b);
                    assert(then.result == at_once.result);
                },
            }
        },
    }
}

/// What reading on comes to until nothing more can be read: the frames, the fault
/// that ended it, and the codec and the buffer that are left.
#[verifier::ext_equal]
pub struct Run {
    pub frames: Seq<FrameView>,
    pub fault: Option<Fault>,
    pub codec: CodecView,
    pub buffer: Seq<u8>,
}

/// Whether a codec fits its buffer: what `decode` and the arrival of bytes keep.
pub open spec fn fits(c: CodecView, b: Seq<u8>) -> bool {
    &&& c.phase is Headers ==> in_step(c, b)
    &&& c.phase is Body ==> c.scanned == 0
}

/// How many frames a codec can give before it takes bytes out of its buffer: one
/// where it waits for a body, which may be empty.
pub open spec fn rank(c: CodecView) -> nat {
    if c.phase is Body {
        1
    } else {
        0
    }
}

proof fn lemma_a_frame_is_progress(c: CodecView, b: Seq<u8>)
    ensures
        decoded(c, b).result matches Ok(Some(_)) ==> {
            &&& decoded(c, b).codec.phase is Headers
            &&& decoded(c, b).buffer.len() <= b.len()
            &&& c.phase is Headers ==> decoded(c, b).buffer.len() < b.len()
        },
{
    if c.phase is Headers && b.len() >= 4 {
        lemma_first_separator(b, 0);
        lemma_first_separator(b, c.scanned as int);
        lemma_first_separator(b, b.len() - 4);
    }
}

/// What calling `decode` comes to, until it has no more frame or fails.
pub open spec fn run(c: CodecView, b: Seq<u8>) -> Run
    decreases b.len(), rank(c),
    via run_decreases
{
    let d = decoded(c, b);
    match d.result {
        Ok(Some(f)) => {
            let rest = run(d.codec, d.buffer);
            Run { frames: seq![f] + rest.frames, ..rest }
        },
        Ok(None) => Run { frames: Seq::empty(), fault: None, codec: d.codec, buffer: d.buffer },
        Err(e) => Run { frames: Seq::empty(), fault: Some(e), codec: d.codec, buffer: d.buffer },
    }
}

#[via_fn]
proof fn run_decreases(c: CodecView, b: Seq<u8>) {
    lemma_a_frame_is_progress(c, b);
}

/// Whether every header block that is read, with its blank line, is within the
/// limit.
pub open spec fn blocks_fit(c: CodecView, b: Seq<u8>) -> bool
    decreases b.len(), rank(c),
    via blocks_fit_decreases
{
    let d = decoded(c, b);
    &&& c.phase is Headers ==> (first_separator(b, 0) matches Some(i) ==> i + 4
        <= c.max_header_size)
    &&& d.result matches Ok(Some(_)) ==> blocks_fit(d.codec, d.buffer)
}

#[via_fn]
proof fn blocks_fit_decreases(c: CodecView, b: Seq<u8>) {
    lemma_a_frame_is_progress(c, b);
}

/// What comes of bytes that arrive in pieces: each is put behind what is left, and
/// read until there is no more frame. A fault ends it.
pub open spec fn fed(c: CodecView, b: Seq<u8>, pieces: Seq<Seq<u8>>) -> (Seq<FrameView>, Option<Fault>)
    decreases pieces.len(),
{
    if pieces.len() == 0 {
        (Seq::empty(), None)
    } else {
        let r = run(c, b + pieces[0]);
        if r.fault is Some {
            (r.frames, r.fault)
        } else {
            let rest = fed(r.codec, r.buffer, pieces.drop_first());
            (r.frames + rest.0, rest.1)
        }
    }
}

/// The pieces as one.
pub open spec fn whole(pieces: Seq<Seq<u8>>) -> Seq<u8>
    decreases pieces.len(),
{
    if pieces.len() == 0 {
        Seq::empty()
    } else {
        pieces[0] + whole(pieces.drop_first())
    }
}

proof fn lemma_fits_on(c: CodecView, a: Seq<u8>, b: Seq<u8>)
    requires
        fits(c, a),
    ensures
        fits(c, a + b),
{
    if c.phase is Headers {
        assert forall|j: int| 0 <= j < c.scanned implies !separator_at(a + b, j) by {
            lemma_separator_prefix(a, b, j);
        }
    }
}

/// A frame that is complete is read alike whatever follows it, and so is a fault,
/// unless the block that was too long turns out to be complete.
proof fn lemma_what_is_read_stays(c: CodecView, a: Seq<u8>, b: Seq<u8>)
    requires
        fits(c, a),
        blocks_fit(c, a + b),
    ensures
        decoded(c, a).result matches Ok(Some(f)) ==> decoded(c, a + b) == (Decoded {
            buffer: decoded(c, a).buffer + b,
            ..decoded(c, a)
        }),
        decoded(c, a).result is Err ==> decoded(c, a + b).result == decoded(c, a).result,
{
    let d = decoded(c, a);
    let w = decoded(c, a + b);
    match c.phase {
        Phase::Body { content_length, headers } => {
            if a.len() >= content_length {
                assert((a + b).take(content_length as int) =~= a.take(content_length as int));
                assert((a + b).skip(content_length as int) =~= a.skip(content_length as int) + b);
            }
        },
        Phase::Headers => {
            lemma_fits_on(c, a, b);
            lemma_found_is_first(c, a);
            lemma_found_is_first(c, a + b);
            lemma_first_separator(a, 0);
            lemma_first_separator(a + b, 0);
            match first_separator(a, 0) {
                Some(i) => {
                    lemma_separator_prefix(a, b, i);
                    assert(first_separator(a + b, 0) == Some(i)) by {
                        let k = first_separator(a + b, 0)->0;
                        if k < i {
                            lemma_separator_prefix(a, b, k);
                        }
                    }
                    assert((a + b).take(i) =~= a.take(i));
                    assert((a + b).skip(i + 4) =~= a.skip(i + 4) + b);
                    if let Ok((n, h)) = block_read(a.take(i)) {
                        let rest = a.skip(i + 4);
                        if rest.len() >= n {
                            assert((rest + b).take(n as int) =~= rest.take(n as int));
                            assert((rest + b).skip(n as int) =~= rest.skip(n as int) + b);
                        }
                    }
                },
                None => {
                    if let Some(k) = first_separator(a + b, 0) {
                        if k + 4 <= a.len() {
                            lemma_separator_prefix(a, b, k);
                        }
                    }
                },
            }
        },
    }
}

proof fn lemma_run_in_two(c: CodecView, a: Seq<u8>, b: Seq<u8>)
    requires
        fits(c, a),
        blocks_fit(c, a + b),
    ensures
        ({
            let first = run(c, a);
            let at_once = run(c, a + b);
            if first.fault is Some {
                at_once.frames == first.frames && at_once.fault == first.fault
            } else {
                let then = run(first.codec, first.buffer + b);
                &&& fits(first.codec, first.buffer)
                &&& blocks_fit(first.codec, first.buffer + b)
                &&& at_once.frames == first.frames + then.frames
                &&& at_once.fault == then.fault
            }
        }),
    decreases a.len(), rank(c),
{
    let d = decoded(c, a);
    let first = run(c, a);
    let at_once = run(c, a + b);
    lemma_what_is_read_stays(c, a, b);
    match d.result {
        Err(_) => {},
        Ok(None) => {
            law_decode_stays_in_step(c, a, Seq::empty());
            assert(d.buffer + Seq::<u8>::empty() =~= d.buffer);
            law_decode_in_pieces(c, a, b);
            let then = run(d.codec, d.buffer + b);
            let x = decoded(d.codec, d.buffer + b);
            let y = decoded(c, a + b);
            assert(then.frames == at_once.frames && then.fault == at_once.fault);
            assert(first.frames + then.frames =~= then.frames);
            assert(blocks_fit(d.codec, d.buffer + b)) by {
                lemma_blocks_fit_later(c, a, b);
            }
        },
        Ok(Some(f)) => {
            lemma_a_frame_is_progress(c, a);
            law_decode_stays_in_step(c, a, Seq::empty());
            assert(d.buffer + Seq::<u8>::empty() =~= d.buffer);
            lemma_run_in_two(d.codec, d.buffer, b);
            let rest = run(d.codec, d.buffer);
            if rest.fault is None {
                let then = run(rest.codec, rest.buffer + b);
                assert(seq![f] + (rest.frames + then.frames) =~= first.frames + then.frames);
            }
        },
    }
}

proof fn lemma_blocks_fit_later(c: CodecView, a: Seq<u8>, b: Seq<u8>)
    requires
        fits(c, a),
        blocks_fit(c, a + b),
        decoded(c, a).result == Ok::<Option<FrameView>, Fault>(None),
    ensures
        blocks_fit(decoded(c, a).codec, decoded(c, a).buffer + b),
{
    let d = decoded(c, a);
    law_decode_in_pieces(c, a, b);
    law_decode_stays_in_step(c, a, b);
    if c.phase is Headers {
        lemma_found_is_first(c, a);
        if d.codec.phase is Headers {
            assert(d.buffer == a);
        }
    }
}

proof fn lemma_fed_is_run(c: CodecView, b: Seq<u8>, pieces: Seq<Seq<u8>>)
    requires
        pieces.len() > 0,
        fits(c, b),
        blocks_fit(c, b + whole(pieces)),
    ensures
        fed(c, b, pieces) == (run(c, b + whole(pieces)).frames, run(c, b + whole(pieces)).fault),
    decreases pieces.len(),
{
    let a = b + pieces[0];
    let rest = pieces.drop_first();
    assert(b + whole(pieces) =~= a + whole(rest));
    lemma_fits_on(c, b, pieces[0]);
    lemma_run_in_two(c, a, whole(rest));
    let r = run(c, a);
    if r.fault is None {
        if rest.len() > 0 {
            lemma_fed_is_run(r.codec, r.buffer, rest);
        } else {
            assert(a + whole(rest) =~= a);
            assert(fed(r.codec, r.buffer, rest) == (Seq::<FrameView>::empty(), None::<Fault>));
            assert(r.frames + Seq::<FrameView>::empty() =~= r.frames);
        }
    }
    let at_once = run(c, a + whole(rest));
    assert(fed(c, b, pieces).0 =~= at_once.frames);
    assert(fed(c, b, pieces).1 == at_once.fault);
}

/// It does not matter in which pieces an input arrives: however it is cut, reading
/// it gives the same frames in the same order, and the same first fault, as reading
/// it at once. (A header block over the limit is a fault where it has not arrived
/// whole, and is read where it has, so every block that is read is within the
/// limit.)
pub proof fn law_any_pieces_give_the_same_frames(c: CodecView, pieces: Seq<Seq<u8>>)
    requires
        c.phase is Headers,
        c.scanned == 0,
        blocks_fit(c, whole(pieces)),
    ensures
        fed(c, Seq::empty(), pieces) == (run(c, whole(pieces)).frames, run(c, whole(pieces)).fault),
{
    let none = Seq::<u8>::empty();
    if pieces.len() > 0 {
        assert(none + whole(pieces) =~= whole(pieces));
        lemma_fed_is_run(c, none, pieces);
    }
}

// ---------------------------------------------------------------------------
// Reading back what was written.
// ---------------------------------------------------------------------------

/// A line: not empty, and with no line break in it.
spec fn is_line(l: Seq<char>) -> bool {
    l.len() > 0 && !breaks_line(l)
}

spec fn are_lines(ls: Seq<Seq<char>>) -> bool {
    forall|i: int| 0 <= i < ls.len() ==> is_line(#[trigger] ls[i])
}

/// The lines, each with its line break.
spec fn ended(ls: Seq<Seq<char>>) -> Seq<char>
    decreases ls.len(),
{
    if ls.len() == 0 {
        Seq::empty()
    } else {
        ls[0] + "\r\n"@ + ended(ls.drop_first())
    }
}

/// The lines, with line breaks between them.
spec fn separated(ls: Seq<Seq<char>>) -> Seq<char>
    decreases ls.len(),
{
    if ls.len() == 0 {
        Seq::empty()
    } else if ls.len() == 1 {
        ls[0]
    } else {
        ls[0] + "\r\n"@ + separated(ls.drop_first())
    }
}

proof fn lemma_ended_is_separated(ls: Seq<Seq<char>>)
    requires
        ls.len() > 0,
    ensures
        ended(ls) == separated(ls) + "\r\n"@,
    decreases ls.len(),
{
    if ls.len() == 1 {
        assert(ended(ls.drop_first()) =~= Seq::<char>::empty());
        assert(ended(ls) =~= separated(ls) + "\r\n"@);
    } else {
        lemma_ended_is_separated(ls.drop_first());
        assert(ended(ls) =~= separated(ls) + "\r\n"@);
    }
}

proof fn lemma_ended_add(a: Seq<Seq<char>>, b: Seq<Seq<char>>)
    ensures
        ended(a + b) == ended(a) + ended(b),
    decreases a.len(),
{
    if a.len() == 0 {
        assert(a + b =~= b);
        assert(ended(a) + ended(b) =~= ended(b));
    } else {
        lemma_ended_add(a.drop_first(), b);
        assert((a + b)[0] == a[0]);
        assert((a + b).drop_first() =~= a.drop_first() + b);
        assert(ended(a + b) =~= ended(a) + ended(b));
    }
}

proof fn lemma_ended_one(l: Seq<char>)
    ensures
        ended(seq![l]) == l + "\r\n"@,
{
    assert(seq![l].drop_first() =~= Seq::<Seq<char>>::empty());
    assert(ended(Seq::<Seq<char>>::empty()) =~= Seq::<char>::empty());
    assert(ended(seq![l]) =~= l + "\r\n"@);
}

proof fn lemma_lines_of_separated(ls: Seq<Seq<char>>)
    requires
        ls.len() > 0,
        are_lines(ls),
    ensures
        crlf_lines(separated(ls)) == ls,
    decreases ls.len(),
{
    reveal_strlit("\r\n");
    let s = separated(ls);
    let l = ls[0];
    assert(is_line(l));
    assert forall|j: int| 0 <= j < l.len() implies l[j] != '\r' by {
        assert(l.contains(l[j]));
    }
    if ls.len() == 1 {
        lemma_first_crlf_is(s, s.len() as int);
        assert(crlf_lines(s) =~= ls);
    } else {
        let rest = ls.drop_first();
        assert(are_lines(rest)) by {
            assert forall|i: int| 0 <= i < rest.len() implies is_line(#[trigger] rest[i]) by {
                assert(rest[i] == ls[i + 1]);
            }
        }
        lemma_lines_of_separated(rest);
        let k = l.len() as int;
        assert(s[k] == '\r' && s[k + 1] == '\n');
        assert forall|j: int| 0 <= j < k && j + 1 < s.len() implies !(#[trigger] s[j] == '\r' && s[j
            + 1] == '\n') by {
            assert(s[j] == l[j]);
        }
        lemma_first_crlf_is(s, k);
        assert(s.take(k) =~= l);
        assert(s.skip(k + 2) =~= separated(rest));
        assert(crlf_lines(s) =~= ls);
    }
}

/// In lines that each end with a line break, followed by a blank line, two line
/// breaks stand next to each other only at the very end.
proof fn lemma_blank_line_is_last(ls: Seq<Seq<char>>, p: int)
    requires
        ls.len() > 0,
        are_lines(ls),
        ({
            let s = ended(ls) + "\r\n"@;
            0 <= p && p + 4 <= s.len() && s[p] == '\r' && s[p + 1] == '\n' && s[p + 2] == '\r'
        }),
    ensures
        p + 4 == (ended(ls) + "\r\n"@).len(),
    decreases ls.len(),
{
    reveal_strlit("\r\n");
    let s = ended(ls) + "\r\n"@;
    let l = ls[0];
    let rest = ls.drop_first();
    let s2 = ended(rest) + "\r\n"@;
    assert(is_line(l));
    assert(s =~= l + "\r\n"@ + s2);
    if p < l.len() {
        assert(s[p] == l[p]);
        assert(l.contains(l[p]));
    } else if p == l.len() {
        if rest.len() > 0 {
            assert(is_line(ls[1]));
            assert(rest[0] == ls[1]);
            assert(s[p + 2] == s2[0]);
            assert(s2[0] == rest[0][0]);
            assert(rest[0].contains(rest[0][0]));
        } else {
            assert(ended(rest) =~= Seq::<char>::empty());
        }
    } else if p == l.len() + 1 {
        assert(s[p] == '\n');
    } else {
        let q = p - l.len() - 2;
        assert(s[p] == s2[q] && s[p + 1] == s2[q + 1] && s[p + 2] == s2[q + 2]);
        if rest.len() > 0 {
            assert(are_lines(rest)) by {
                assert forall|i: int| 0 <= i < rest.len() implies is_line(#[trigger] rest[i]) by {
                    assert(rest[i] == ls[i + 1]);
                }
            }
            lemma_blank_line_is_last(rest, q);
        } else {
            assert(ended(rest) =~= Seq::<char>::empty());
        }
    }
}

/// A byte below 0x80 in an encoded text is a character by itself.
proof fn lemma_low_byte(c: char, j: int)
    requires
        0 <= j < vstd::utf8::encode_scalar(c as u32).len(),
        vstd::utf8::encode_scalar(c as u32)[j] < 0x80,
    ensures
        j == 0,
        vstd::utf8::encode_scalar(c as u32).len() == 1,
        c == vstd::utf8::encode_scalar(c as u32)[0] as char,
{
    let n = c as u32;
    vstd::utf8::char_is_scalar(c);
    if vstd::utf8::has_width_1_encoding(n) {
        assert(n <= 0x7f ==> (n & 0x7F) as u8 as u32 == n) by (bit_vector);
    } else {
        assert(n <= 0x7ff ==> (0xC0 | ((n >> 6) & 0x1F) as u8) >= 0x80u8) by (bit_vector);
        assert((0xE0 | ((n >> 12) & 0x0F) as u8) >= 0x80u8) by (bit_vector);
        assert((0xF0 | ((n >> 18) & 0x07) as u8) >= 0x80u8) by (bit_vector);
        assert((0x80 | (n & 0x3F) as u8) >= 0x80u8) by (bit_vector);
        assert((0x80 | ((n >> 6) & 0x3F) as u8) >= 0x80u8) by (bit_vector);
        assert((0x80 | ((n >> 12) & 0x3F) as u8) >= 0x80u8) by (bit_vector);
    }
}

proof fn lemma_first_low_byte(s: Seq<char>)
    requires
        encode_utf8(s).len() > 0,
        encode_utf8(s)[0] < 0x80,
    ensures
        s.len() > 0,
        s[0] == encode_utf8(s)[0] as char,
        encode_utf8(s) == seq![encode_utf8(s)[0]] + encode_utf8(s.drop_first()),
{
    assert(s.len() > 0);
    let e = vstd::utf8::encode_scalar(s[0] as u32);
    assert(e.len() > 0);
    assert(encode_utf8(s)[0] == e[0]);
    lemma_low_byte(s[0], 0);
    assert(e =~= seq![encode_utf8(s)[0]]);
}

/// A separator in an encoded text is two line breaks in the text.
proof fn lemma_separator_in_text(s: Seq<char>, j: int) -> (p: int)
    requires
        separator_at(encode_utf8(s), j),
    ensures
        0 <= p,
        p + 4 <= s.len(),
        s[p] == '\r' && s[p + 1] == '\n' && s[p + 2] == '\r' && s[p + 3] == '\n',
        encode_utf8(s.take(p)).len() == j,
    decreases s.len(),
{
    assert(s.len() > 0);
    let b = encode_utf8(s);
    let e = vstd::utf8::encode_scalar(s[0] as u32);
    let rest = s.drop_first();
    if j < e.len() {
        assert(b[j] == e[j]);
        lemma_low_byte(s[0], j);
        lemma_first_low_byte(s);
        assert(encode_utf8(rest)[0] == b[1]);
        lemma_first_low_byte(rest);
        let rest2 = rest.drop_first();
        assert(encode_utf8(rest2)[0] == b[2]);
        lemma_first_low_byte(rest2);
        let rest3 = rest2.drop_first();
        assert(encode_utf8(rest3)[0] == b[3]);
        lemma_first_low_byte(rest3);
        assert(s[1] == rest[0] && s[2] == rest2[0] && s[3] == rest3[0]);
        assert(s.take(0) =~= Seq::<char>::empty());
        0
    } else {
        let q = j - e.len();
        let br = encode_utf8(rest);
        assert(b =~= e + br);
        assert(b[j] == br[q] && b[j + 1] == br[q + 1] && b[j + 2] == br[q + 2] && b[j + 3] == br[q
            + 3]);
        let p = lemma_separator_in_text(rest, q);
        assert(s[p + 1] == rest[p] && s[p + 2] == rest[p + 1] && s[p + 3] == rest[p + 2] && s[p
            + 4] == rest[p + 3]);
        assert(s.take(p + 1).drop_first() =~= rest.take(p));
        assert(s.take(p + 1)[0] == s[0]);
        p + 1
    }
}

proof fn lemma_trim_one_space(v: Seq<char>)
    requires
        is_trimmed(v),
    ensures
        trim(seq![' '] + v) == v,
{
    let s = seq![' '] + v;
    assert(s.drop_first() =~= v);
    assert(trim_start(s) == trim_start(v));
    lemma_trim_fixed(v);
    if v.len() > 0 {
        assert(trim_start(v) == v);
    } else {
        assert(trim_start(v) =~= v);
    }
}

/// How a well-formed line reads: its name and its value.
proof fn lemma_line_parts(name: Seq<char>, value: Seq<char>)
    requires
        !name.contains(':'),
        is_trimmed(value),
    ensures
        ({
            let line = name + ": "@ + value;
            let k = first_at(line, ':');
            &&& k == name.len()
            &&& k < line.len()
            &&& line.take(k) == name
            &&& trim(line.skip(k + 1)) == value
        }),
{
    reveal_strlit(": ");
    let line = name + ": "@ + value;
    let k = name.len() as int;
    assert forall|j: int| 0 <= j < k implies line[j] != ':' by {
        assert(line[j] == name[j]);
        assert(name.contains(name[j]));
    }
    assert(line[k] == ':');
    lemma_first_at_is(line, ':', k);
    assert(line.take(k) =~= name);
    assert(line.skip(k + 1) =~= seq![' '] + value);
    lemma_trim_one_space(value);
}

pub proof fn lemma_lines_read_add(b: BlockView, x: Seq<Seq<char>>, y: Seq<Seq<char>>)
    ensures
        lines_read(b, x + y) == (match lines_read(b, x) {
            Ok(c) => lines_read(c, y),
            Err(f) => Err(f),
        }),
    decreases x.len(),
{
    if x.len() == 0 {
        assert(x + y =~= y);
    } else {
        assert((x + y)[0] == x[0]);
        assert((x + y).drop_first() =~= x.drop_first() + y);
        match line_read(b, x[0]) {
            Ok(c) => {
                lemma_lines_read_add(c, x.drop_first(), y);
            },
            Err(f) => {},
        }
    }
}

pub proof fn lemma_lines_read_one(b: BlockView, l: Seq<char>)
    ensures
        lines_read(b, seq![l]) == line_read(b, l),
{
    assert(seq![l].drop_first() =~= Seq::<Seq<char>>::empty());
    match line_read(b, l) {
        Ok(c) => {
            assert(lines_read(c, seq![l].drop_first()) == Ok::<BlockView, Fault>(c));
        },
        Err(f) => {},
    }
}

/// Header texts that the framing carries unchanged: values without white space
/// at their ends, and parameter names in lower case, without a colon, that do
/// not end in white space.
pub open spec fn carried(h: FrameHeaders) -> bool {
    let e = h.service_params.spec_entries();
    &&& h.content_type matches Some(v) ==> is_trimmed(v@)
    &&& h.a2a_kind matches Some(v) ==> is_trimmed(v@)
    &&& h.a2a_id matches Some(v) ==> is_trimmed(v@)
    &&& h.a2a_method matches Some(v) ==> is_trimmed(v@)
    &&& distinct_keys(e)
    &&& forall|i: int| 0 <= i < e.len() ==> carried_entry(#[trigger] e[i])
}

/// A parameter that the framing carries unchanged.
pub open spec fn carried_entry(entry: (Seq<char>, Vec<String>)) -> bool {
    let k = entry.0;
    &&& lowered(k) == k
    &&& !k.contains(':')
    &&& k.len() > 0 ==> !is_white(k.last())
    &&& entry.1@.len() > 0
    &&& forall|j: int| 0 <= j < entry.1@.len() ==> is_trimmed(#[trigger] texts(entry.1@)[j])
}

spec fn raw_line(name: Seq<char>, value: Seq<char>) -> Seq<char> {
    name + ": "@ + value
}

spec fn opt_raw(name: Seq<char>, value: Option<String>) -> Seq<Seq<char>> {
    match value {
        Some(v) => seq![raw_line(name, v@)],
        None => Seq::empty(),
    }
}

spec fn value_raws(key: Seq<char>, values: Seq<Seq<char>>) -> Seq<Seq<char>>
    decreases values.len(),
{
    if values.len() == 0 {
        Seq::empty()
    } else {
        value_raws(key, values.drop_last()) + seq![raw_line("A2A-SP-"@ + key, values.last())]
    }
}

spec fn param_raws(e: Seq<(Seq<char>, Vec<String>)>) -> Seq<Seq<char>>
    decreases e.len(),
{
    if e.len() == 0 {
        Seq::empty()
    } else {
        param_raws(e.drop_last()) + value_raws(e.last().0, texts(e.last().1@))
    }
}

spec fn head_raws(h: FrameHeaders, n: nat) -> Seq<Seq<char>> {
    seq![raw_line("Content-Length"@, decimal(n))] + opt_raw("Content-Type"@, h.content_type)
        + opt_raw("A2A-Kind"@, h.a2a_kind) + opt_raw("A2A-Id"@, h.a2a_id) + opt_raw(
        "A2A-Method"@,
        h.a2a_method,
    ) + param_raws(h.service_params.spec_entries())
}

proof fn lemma_value_raws_ended(key: Seq<char>, values: Seq<Seq<char>>)
    ensures
        ended(value_raws(key, values)) == value_lines(key, values),
    decreases values.len(),
{
    if values.len() == 0 {
        assert(ended(value_raws(key, values)) =~= Seq::<char>::empty());
    } else {
        lemma_value_raws_ended(key, values.drop_last());
        let l = raw_line("A2A-SP-"@ + key, values.last());
        lemma_ended_add(value_raws(key, values.drop_last()), seq![l]);
        lemma_ended_one(l);
        assert(l + "\r\n"@ =~= line_text("A2A-SP-"@ + key, values.last()));
    }
}

proof fn lemma_param_raws_ended(e: Seq<(Seq<char>, Vec<String>)>)
    ensures
        ended(param_raws(e)) == param_lines(e),
    decreases e.len(),
{
    if e.len() == 0 {
        assert(ended(param_raws(e)) =~= Seq::<char>::empty());
    } else {
        lemma_param_raws_ended(e.drop_last());
        lemma_value_raws_ended(e.last().0, texts(e.last().1@));
        lemma_ended_add(param_raws(e.drop_last()), value_raws(e.last().0, texts(e.last().1@)));
    }
}

proof fn lemma_opt_raw_ended(name: Seq<char>, value: Option<String>)
    ensures
        ended(opt_raw(name, value)) == opt_line(name, value),
{
    match value {
        Some(v) => {
            lemma_ended_one(raw_line(name, v@));
            assert(raw_line(name, v@) + "\r\n"@ =~= line_text(name, v@));
        },
        None => {
            assert(ended(opt_raw(name, value)) =~= Seq::<char>::empty());
        },
    }
}

proof fn lemma_head_raws_ended(h: FrameHeaders, n: nat)
    ensures
        ended(head_raws(h, n)) == head_lines(h, n),
{
    let a = seq![raw_line("Content-Length"@, decimal(n))];
    let b = opt_raw("Content-Type"@, h.content_type);
    let c = opt_raw("A2A-Kind"@, h.a2a_kind);
    let d = opt_raw("A2A-Id"@, h.a2a_id);
    let m = opt_raw("A2A-Method"@, h.a2a_method);
    let p = param_raws(h.service_params.spec_entries());
    lemma_ended_add(a + b + c + d + m, p);
    lemma_ended_add(a + b + c + d, m);
    lemma_ended_add(a + b + c, d);
    lemma_ended_add(a + b, c);
    lemma_ended_add(a, b);
    lemma_ended_one(raw_line("Content-Length"@, decimal(n)));
    assert(raw_line("Content-Length"@, decimal(n)) + "\r\n"@ =~= line_text(
        "Content-Length"@,
        decimal(n),
    ));
    lemma_opt_raw_ended("Content-Type"@, h.content_type);
    lemma_opt_raw_ended("A2A-Kind"@, h.a2a_kind);
    lemma_opt_raw_ended("A2A-Id"@, h.a2a_id);
    lemma_opt_raw_ended("A2A-Method"@, h.a2a_method);
    lemma_param_raws_ended(h.service_params.spec_entries());
}

// ---- none of the lines is broken ----

proof fn lemma_first_breaking_none(s: Seq<Seq<char>>)
    requires
        first_breaking(s) is None,
    ensures
        forall|i: int| 0 <= i < s.len() ==> !breaks_line(#[trigger] s[i]),
    decreases s.len(),
{
    if s.len() > 0 {
        lemma_first_breaking_none(s.drop_first());
        assert forall|i: int| 0 <= i < s.len() implies !breaks_line(#[trigger] s[i]) by {
            if i > 0 {
                assert(s.drop_first()[i - 1] == s[i]);
            }
        }
    }
}

proof fn lemma_no_break_add(a: Seq<char>, b: Seq<char>)
    requires
        !breaks_line(a),
        !breaks_line(b),
    ensures
        !breaks_line(a + b),
{
    if breaks_line(a + b) {
        let c = if (a + b).contains('\r') {
            '\r'
        } else {
            '\n'
        };
        let i = choose|i: int| 0 <= i < (a + b).len() && (a + b)[i] == c;
        if i < a.len() {
            assert(a[i] == c);
            assert(a.contains(c));
        } else {
            assert(b[i - a.len()] == c);
            assert(b.contains(c));
        }
    }
}

proof fn lemma_raw_is_line(name: Seq<char>, value: Seq<char>)
    requires
        !breaks_line(name),
        !breaks_line(value),
    ensures
        is_line(raw_line(name, value)),
{
    reveal_strlit(": ");
    assert(!breaks_line(": "@));
    lemma_no_break_add(name, ": "@);
    lemma_no_break_add(name + ": "@, value);
}

proof fn lemma_are_lines_add(a: Seq<Seq<char>>, b: Seq<Seq<char>>)
    requires
        are_lines(a),
        are_lines(b),
    ensures
        are_lines(a + b),
{
    assert forall|i: int| 0 <= i < (a + b).len() implies is_line(#[trigger] (a + b)[i]) by {
        if i < a.len() {
            assert((a + b)[i] == a[i]);
        } else {
            assert((a + b)[i] == b[i - a.len()]);
        }
    }
}

proof fn lemma_value_raws_lines(key: Seq<char>, values: Seq<Seq<char>>)
    requires
        !breaks_line(key),
        forall|j: int| 0 <= j < values.len() ==> !breaks_line(#[trigger] values[j]),
    ensures
        are_lines(value_raws(key, values)),
    decreases values.len(),
{
    if values.len() > 0 {
        let d = values.drop_last();
        assert forall|j: int| 0 <= j < d.len() implies !breaks_line(#[trigger] d[j]) by {
            assert(d[j] == values[j]);
        }
        lemma_value_raws_lines(key, d);
        assert(!breaks_line("A2A-SP-"@)) by {
            reveal_strlit("A2A-SP-");
        }
        lemma_no_break_add("A2A-SP-"@, key);
        assert(!breaks_line(values[values.len() - 1]));
        lemma_raw_is_line("A2A-SP-"@ + key, values.last());
        lemma_are_lines_add(
            value_raws(key, d),
            seq![raw_line("A2A-SP-"@ + key, values.last())],
        );
    }
}

proof fn lemma_param_raws_lines(e: Seq<(Seq<char>, Vec<String>)>)
    requires
        forall|i: int| 0 <= i < e.len() ==> !breaks_line(#[trigger] param_keys(e)[i]),
        forall|i: int|
            0 <= i < param_values(e).len() ==> !breaks_line(#[trigger] param_values(e)[i]),
    ensures
        are_lines(param_raws(e)),
    decreases e.len(),
{
    if e.len() > 0 {
        let d = e.drop_last();
        let vs = texts(e.last().1@);
        let head = param_values(d);
        assert forall|i: int| 0 <= i < d.len() implies !breaks_line(
            #[trigger] param_keys(d)[i],
        ) by {
            assert(param_keys(e)[i] == param_keys(d)[i]);
        }
        assert forall|i: int| 0 <= i < head.len() implies !breaks_line(#[trigger] head[i]) by {
            assert(param_values(e)[i] == head[i]);
        }
        assert forall|j: int| 0 <= j < vs.len() implies !breaks_line(#[trigger] vs[j]) by {
            assert(param_values(e)[head.len() + j] == vs[j]);
        }
        lemma_param_raws_lines(d);
        assert(!breaks_line(param_keys(e)[e.len() - 1]));
        lemma_value_raws_lines(e.last().0, vs);
        lemma_are_lines_add(param_raws(d), value_raws(e.last().0, vs));
    }
}

proof fn lemma_opt_raw_lines(name: Seq<char>, value: Option<String>)
    requires
        !breaks_line(name),
        value matches Some(v) ==> !breaks_line(v@),
    ensures
        are_lines(opt_raw(name, value)),
{
    match value {
        Some(v) => {
            lemma_raw_is_line(name, v@);
        },
        None => {},
    }
}

proof fn lemma_head_raws_lines(h: FrameHeaders, n: nat)
    requires
        first_breaking(header_texts(h)) is None,
    ensures
        are_lines(head_raws(h, n)),
{
    let e = h.service_params.spec_entries();
    let t = header_texts(h);
    lemma_first_breaking_none(t);
    let a = opt_seq(h.content_type);
    let b = opt_seq(h.a2a_kind);
    let c = opt_seq(h.a2a_id);
    let d = opt_seq(h.a2a_method);
    let k = param_keys(e);
    if let Some(v) = h.content_type {
        assert(t[0] == v@);
    }
    if let Some(v) = h.a2a_kind {
        assert(t[a.len() as int] == v@);
    }
    if let Some(v) = h.a2a_id {
        assert(t[(a + b).len() as int] == v@);
    }
    if let Some(v) = h.a2a_method {
        assert(t[(a + b + c).len() as int] == v@);
    }
    let off = (a + b + c + d).len() as int;
    assert forall|i: int| 0 <= i < e.len() implies !breaks_line(#[trigger] param_keys(e)[i]) by {
        assert(t[off + i] == k[i]);
    }
    assert forall|i: int| 0 <= i < param_values(e).len() implies !breaks_line(
        #[trigger] param_values(e)[i],
    ) by {
        assert(t[off + k.len() + i] == param_values(e)[i]);
    }
    lemma_param_raws_lines(e);
    assert(!breaks_line("Content-Length"@) && !breaks_line("Content-Type"@) && !breaks_line(
        "A2A-Kind"@,
    ) && !breaks_line("A2A-Id"@) && !breaks_line("A2A-Method"@)) by {
        reveal_strlit("Content-Length");
        reveal_strlit("Content-Type");
        reveal_strlit("A2A-Kind");
        reveal_strlit("A2A-Id");
        reveal_strlit("A2A-Method");
    }
    lemma_decimal_reads_back(n);
    assert(!breaks_line(decimal(n))) by {
        if breaks_line(decimal(n)) {
            let c0 = if decimal(n).contains('\r') {
                '\r'
            } else {
                '\n'
            };
            let i = choose|i: int| 0 <= i < decimal(n).len() && decimal(n)[i] == c0;
            assert(crate::text::is_digit(decimal(n)[i]));
        }
    }
    lemma_raw_is_line("Content-Length"@, decimal(n));
    lemma_opt_raw_lines("Content-Type"@, h.content_type);
    lemma_opt_raw_lines("A2A-Kind"@, h.a2a_kind);
    lemma_opt_raw_lines("A2A-Id"@, h.a2a_id);
    lemma_opt_raw_lines("A2A-Method"@, h.a2a_method);
    let l0 = seq![raw_line("Content-Length"@, decimal(n))];
    let l1 = opt_raw("Content-Type"@, h.content_type);
    let l2 = opt_raw("A2A-Kind"@, h.a2a_kind);
    let l3 = opt_raw("A2A-Id"@, h.a2a_id);
    let l4 = opt_raw("A2A-Method"@, h.a2a_method);
    lemma_are_lines_add(l0, l1);
    lemma_are_lines_add(l0 + l1, l2);
    lemma_are_lines_add(l0 + l1 + l2, l3);
    lemma_are_lines_add(l0 + l1 + l2 + l3, l4);
    lemma_are_lines_add(l0 + l1 + l2 + l3 + l4, param_raws(e));
}

// ---- what the lines read as ----

proof fn lemma_param_line_read(b: BlockView, k: Seq<char>, v: Seq<char>)
    requires
        lowered(k) == k,
        !k.contains(':'),
        k.len() > 0 ==> !is_white(k.last()),
        is_trimmed(v),
    ensures
        line_read(b, raw_line("A2A-SP-"@ + k, v)) == Ok::<BlockView, Fault>(
            BlockView {
                headers: HeadersView {
                    service_params: with_value(b.headers.service_params, k, v),
                    ..b.headers
                },
                ..b
            },
        ),
{
    reveal_strlit("A2A-SP-");
    reveal_strlit("a2a-sp-");
    reveal_strlit(": ");
    let pre = "A2A-SP-"@;
    let name = pre + k;
    assert forall|i: int| 0 <= i < name.len() implies #[trigger] name[i] != ':' by {
        if i >= 7 {
            assert(name[i] == k[i - 7]);
            assert(k.contains(k[i - 7]));
        }
    }
    lemma_line_parts(name, v);
    assert(is_trimmed(name)) by {
        assert(name[0] == 'A');
        if k.len() > 0 {
            assert(name.last() == k.last());
        } else {
            assert(name.last() == '-');
        }
    }
    lemma_trim_fixed(name);
    let low = lowered(name);
    assert(low.len() >= 7 && low[0] == 'a' && low[4] == 's');
    assert(low != "content-length"@) by {
        reveal_strlit("content-length");
        assert("content-length"@[0] == 'c');
    }
    assert(low != "content-type"@) by {
        reveal_strlit("content-type");
        assert("content-type"@[0] == 'c');
    }
    assert(low != "a2a-kind"@) by {
        reveal_strlit("a2a-kind");
        assert("a2a-kind"@[4] == 'k');
    }
    assert(low != "a2a-id"@) by {
        reveal_strlit("a2a-id");
        assert("a2a-id"@[4] == 'i');
    }
    assert(low != "a2a-method"@) by {
        reveal_strlit("a2a-method");
        assert("a2a-method"@[4] == 'm');
    }
    assert(name.take(7) =~= pre);
    assert(lowered(pre) =~= "a2a-sp-"@);
    assert(lowered("a2a-sp-"@) =~= "a2a-sp-"@);
    assert(starts_ignore_case(name, "a2a-sp-"@));
    assert(name.skip(7) =~= k);
}

proof fn lemma_value_raws_read(b: BlockView, k: Seq<char>, values: Seq<Seq<char>>)
    requires
        lowered(k) == k,
        !k.contains(':'),
        k.len() > 0 ==> !is_white(k.last()),
        forall|j: int| 0 <= j < values.len() ==> is_trimmed(#[trigger] values[j]),
        !b.headers.service_params.contains_key(k),
    ensures
        lines_read(b, value_raws(k, values)) == Ok::<BlockView, Fault>(
            BlockView {
                headers: HeadersView {
                    service_params: if values.len() == 0 {
                        b.headers.service_params
                    } else {
                        b.headers.service_params.insert(k, values)
                    },
                    ..b.headers
                },
                ..b
            },
        ),
    decreases values.len(),
{
    if values.len() > 0 {
        let d = values.drop_last();
        assert forall|j: int| 0 <= j < d.len() implies is_trimmed(#[trigger] d[j]) by {
            assert(d[j] == values[j]);
        }
        lemma_value_raws_read(b, k, d);
        let l = raw_line("A2A-SP-"@ + k, values.last());
        lemma_lines_read_add(b, value_raws(k, d), seq![l]);
        let mid = lines_read(b, value_raws(k, d))->Ok_0;
        lemma_lines_read_one(mid, l);
        assert(is_trimmed(values[values.len() - 1]));
        lemma_param_line_read(mid, k, values.last());
        let p = b.headers.service_params;
        assert(with_value(mid.headers.service_params, k, values.last()) =~= p.insert(k, values)) by {
            if d.len() == 0 {
                assert(seq![values.last()] =~= values);
                assert(Seq::<Seq<char>>::empty().push(values.last()) =~= values);
            } else {
                assert(d.push(values.last()) =~= values);
            }
        }
    }
}

proof fn lemma_param_raws_read(b: BlockView, e: Seq<(Seq<char>, Vec<String>)>)
    requires
        distinct_keys(e),
        forall|i: int| 0 <= i < e.len() ==> carried_entry(#[trigger] e[i]),
        b.headers.service_params == Map::<Seq<char>, Seq<Seq<char>>>::empty(),
    ensures
        lines_read(b, param_raws(e)) == Ok::<BlockView, Fault>(
            BlockView {
                headers: HeadersView { service_params: lists(map_of(e)), ..b.headers },
                ..b
            },
        ),
    decreases e.len(),
{
    if e.len() == 0 {
        assert(lists(map_of(e)) =~= Map::<Seq<char>, Seq<Seq<char>>>::empty());
    } else {
        let d = e.drop_last();
        assert(distinct_keys(d)) by {
            assert forall|x: int, y: int| 0 <= x < y < d.len() implies #[trigger] d[x].0
                != #[trigger] d[y].0 by {
                assert(e[x].0 != e[y].0);
            }
        }
        assert forall|i: int| 0 <= i < d.len() implies carried_entry(#[trigger] d[i]) by {
            assert(d[i] == e[i]);
        }
        lemma_param_raws_read(b, d);
        let k = e.last().0;
        let vs = texts(e.last().1@);
        lemma_lines_read_add(b, param_raws(d), value_raws(k, vs));
        let mid = lines_read(b, param_raws(d))->Ok_0;
        assert(carried_entry(e[e.len() - 1]));
        lemma_map_of_keys(d, k);
        if has_key(d, k) {
            let i = choose|i: int| 0 <= i < d.len() && #[trigger] d[i].0 == k;
            assert(e[i].0 != e[e.len() - 1].0);
        }
        lemma_value_raws_read(mid, k, vs);
        lemma_lists_insert(map_of(d), k, e.last().1);
    }
}

/// What one of the fixed headers reads as.
proof fn lemma_fixed_line_read(b: BlockView, v: Seq<char>)
    requires
        is_trimmed(v),
    ensures
        line_read(b, raw_line("Content-Type"@, v)) == Ok::<BlockView, Fault>(
            BlockView { headers: HeadersView { content_type: Some(v), ..b.headers }, ..b },
        ),
        line_read(b, raw_line("A2A-Kind"@, v)) == Ok::<BlockView, Fault>(
            BlockView { headers: HeadersView { a2a_kind: Some(v), ..b.headers }, ..b },
        ),
        line_read(b, raw_line("A2A-Id"@, v)) == Ok::<BlockView, Fault>(
            BlockView { headers: HeadersView { a2a_id: Some(v), ..b.headers }, ..b },
        ),
        line_read(b, raw_line("A2A-Method"@, v)) == Ok::<BlockView, Fault>(
            BlockView { headers: HeadersView { a2a_method: Some(v), ..b.headers }, ..b },
        ),
{
    reveal_strlit(": ");
    reveal_strlit("Content-Type");
    reveal_strlit("A2A-Kind");
    reveal_strlit("A2A-Id");
    reveal_strlit("A2A-Method");
    reveal_strlit("content-length");
    reveal_strlit("content-type");
    reveal_strlit("a2a-kind");
    reveal_strlit("a2a-id");
    reveal_strlit("a2a-method");
    assert(lowered("Content-Type"@) =~= "content-type"@);
    assert(lowered("A2A-Kind"@) =~= "a2a-kind"@);
    assert(lowered("A2A-Id"@) =~= "a2a-id"@);
    assert(lowered("A2A-Method"@) =~= "a2a-method"@);
    assert("content-type"@.len() != "content-length"@.len());
    assert("a2a-kind"@.len() == 8 && "a2a-id"@.len() == 6 && "a2a-method"@.len() == 10);
    lemma_line_parts("Content-Type"@, v);
    lemma_line_parts("A2A-Kind"@, v);
    lemma_line_parts("A2A-Id"@, v);
    lemma_line_parts("A2A-Method"@, v);
    lemma_trim_fixed("Content-Type"@);
    lemma_trim_fixed("A2A-Kind"@);
    lemma_trim_fixed("A2A-Id"@);
    lemma_trim_fixed("A2A-Method"@);
}

proof fn lemma_length_line_read(b: BlockView, n: nat)
    requires
        n <= usize::MAX,
    ensures
        line_read(b, raw_line("Content-Length"@, decimal(n))) == Ok::<BlockView, Fault>(
            BlockView { content_length: Some(n), ..b },
        ),
{
    reveal_strlit(": ");
    reveal_strlit("Content-Length");
    reveal_strlit("content-length");
    assert(lowered("Content-Length"@) =~= "content-length"@);
    lemma_decimal_reads_back(n);
    lemma_line_parts("Content-Length"@, decimal(n));
    lemma_trim_fixed("Content-Length"@);
}

proof fn lemma_opt_raw_read(b: BlockView, name: Seq<char>, o: Option<String>, set: BlockView)
    requires
        o matches Some(v) ==> line_read(b, raw_line(name, v@)) == Ok::<BlockView, Fault>(set),
        o is None ==> set == b,
    ensures
        lines_read(b, opt_raw(name, o)) == Ok::<BlockView, Fault>(set),
{
    match o {
        Some(v) => {
            lemma_lines_read_one(b, raw_line(name, v@));
        },
        None => {},
    }
}

proof fn lemma_head_raws_read(h: FrameHeaders, n: nat)
    requires
        carried(h),
        n <= usize::MAX,
    ensures
        lines_read(
            BlockView { content_length: None, headers: no_headers() },
            head_raws(h, n),
        ) == Ok::<BlockView, Fault>(BlockView { content_length: Some(n), headers: h@ }),
{
    let b0 = BlockView { content_length: None, headers: no_headers() };
    let b1 = BlockView { content_length: Some(n), ..b0 };
    let h2 = HeadersView { content_type: opt_text(h.content_type), ..no_headers() };
    let b2 = BlockView { headers: h2, ..b1 };
    let h3 = HeadersView { a2a_kind: opt_text(h.a2a_kind), ..h2 };
    let b3 = BlockView { headers: h3, ..b1 };
    let h4 = HeadersView { a2a_id: opt_text(h.a2a_id), ..h3 };
    let b4 = BlockView { headers: h4, ..b1 };
    let h5 = HeadersView { a2a_method: opt_text(h.a2a_method), ..h4 };
    let b5 = BlockView { headers: h5, ..b1 };
    let e = h.service_params.spec_entries();
    let l0 = seq![raw_line("Content-Length"@, decimal(n))];
    let l1 = opt_raw("Content-Type"@, h.content_type);
    let l2 = opt_raw("A2A-Kind"@, h.a2a_kind);
    let l3 = opt_raw("A2A-Id"@, h.a2a_id);
    let l4 = opt_raw("A2A-Method"@, h.a2a_method);
    lemma_length_line_read(b0, n);
    lemma_lines_read_one(b0, raw_line("Content-Length"@, decimal(n)));
    if let Some(v) = h.content_type {
        lemma_fixed_line_read(b1, v@);
    }
    lemma_opt_raw_read(b1, "Content-Type"@, h.content_type, b2);
    if let Some(v) = h.a2a_kind {
        lemma_fixed_line_read(b2, v@);
    }
    lemma_opt_raw_read(b2, "A2A-Kind"@, h.a2a_kind, b3);
    if let Some(v) = h.a2a_id {
        lemma_fixed_line_read(b3, v@);
    }
    lemma_opt_raw_read(b3, "A2A-Id"@, h.a2a_id, b4);
    if let Some(v) = h.a2a_method {
        lemma_fixed_line_read(b4, v@);
    }
    lemma_opt_raw_read(b4, "A2A-Method"@, h.a2a_method, b5);
    lemma_param_raws_read(b5, e);
    lemma_lines_read_add(b0, l0, l1);
    lemma_lines_read_add(b0, l0 + l1, l2);
    lemma_lines_read_add(b0, l0 + l1 + l2, l3);
    lemma_lines_read_add(b0, l0 + l1 + l2 + l3, l4);
    lemma_lines_read_add(b0, l0 + l1 + l2 + l3 + l4, param_raws(e));
    assert(h@ =~= HeadersView { service_params: lists(map_of(e)), ..h5 });
}

/// Where the separator stands in a written header block, whatever follows it.
proof fn lemma_head_separator(f: Frame, rest: Seq<u8>)
    requires
        first_breaking(header_texts(f.headers)) is None,
    ensures
        ({
            let raws = head_raws(f.headers, f.body@.len());
            let i = encode_utf8(separated(raws)).len() as int;
            &&& head_bytes(f).len() == i + 4
            &&& head_bytes(f).take(i) == encode_utf8(separated(raws))
            &&& first_separator(head_bytes(f) + rest, 0) == Some(i)
        }),
{
    let n = f.body@.len();
    let raws = head_raws(f.headers, n);
    let body = separated(raws);
    lemma_head_raws_lines(f.headers, n);
    lemma_head_raws_ended(f.headers, n);
    lemma_ended_is_separated(raws);
    let text = ended(raws) + "\r\n"@;
    assert(text =~= body + ("\r\n"@ + "\r\n"@));
    lemma_encode_add(body, "\r\n"@ + "\r\n"@);
    lemma_encode_add("\r\n"@, "\r\n"@);
    let crlf = encode_utf8("\r\n"@);
    assert(crlf =~= seq![13u8, 10u8]) by {
        reveal_strlit("\r\n");
        assert(vstd::utf8::is_ascii_chars("\r\n"@));
        vstd::utf8::is_ascii_chars_encode_utf8("\r\n"@);
    }
    let head = head_bytes(f);
    let i = encode_utf8(body).len() as int;
    assert(head == encode_utf8(text));
    assert(head =~= encode_utf8(body) + (crlf + crlf));
    assert(head.take(i) =~= encode_utf8(body));
    let all = head + rest;
    assert(separator_at(all, i)) by {
        assert(all[i] == (crlf + crlf)[0] && all[i + 1] == (crlf + crlf)[1] && all[i + 2] == (crlf
            + crlf)[2] && all[i + 3] == (crlf + crlf)[3]);
    }
    lemma_first_separator(all, 0);
    assert forall|j: int| 0 <= j < i implies !separator_at(all, j) by {
        if separator_at(all, j) {
            assert(separator_at(head, j)) by {
                assert(all[j] == head[j] && all[j + 1] == head[j + 1] && all[j + 2] == head[j + 2]
                    && all[j + 3] == head[j + 3]);
            }
            let p = lemma_separator_in_text(text, j);
            lemma_blank_line_is_last(raws, p);
            reveal_strlit("\r\n");
            assert(text.take(p) =~= body);
        }
    }
    let found = first_separator(all, 0)->0;
    if found < i {
        assert(!separator_at(all, found));
    }
}

/// A frame that was written is read back as it was, and what follows it stays
/// in the buffer: decoding the bytes that encoding `f` appends gives `f`.
pub proof fn law_decode_reads_what_encode_wrote(c: CodecView, f: Frame, rest: Seq<u8>)
    requires
        c.phase is Headers,
        c.scanned == 0,
        first_breaking(header_texts(f.headers)) is None,
        carried(f.headers),
        f.body@.len() <= c.max_frame_size,
        f.body@.len() <= usize::MAX,
    ensures
        decoded(c, head_bytes(f) + f.body@ + rest) == (Decoded {
            codec: c,
            buffer: rest,
            result: Ok(Some(f@)),
        }),
{
    let n = f.body@.len();
    let head = head_bytes(f);
    let after = f.body@ + rest;
    let all = head + f.body@ + rest;
    assert(all =~= head + after);
    let raws = head_raws(f.headers, n);
    let text = separated(raws);
    lemma_head_separator(f, after);
    let i = encode_utf8(text).len() as int;
    lemma_head_raws_lines(f.headers, n);
    lemma_lines_of_separated(raws);
    lemma_head_raws_read(f.headers, n);
    assert(all.take(i) =~= encode_utf8(text));
    vstd::utf8::encode_utf8_valid_utf8(text);
    vstd::utf8::encode_utf8_decode_utf8(text);
    assert(block_read(all.take(i)) == Ok::<(nat, HeadersView), Fault>((n, f.headers@)));
    lemma_found_is_first(c, all);
    assert(all.skip(i + 4) =~= after);
    assert(after.take(n as int) =~= f.body@);
    assert(after.skip(n as int) =~= rest);
    assert(body_decoded(CodecView { scanned: 0, ..c }, after, n, f.headers@) =~= Decoded {
        codec: c,
        buffer: rest,
        result: Ok(Some(f@)),
    });
}

// ---------------------------------------------------------------------------
// Names of headers.
// ---------------------------------------------------------------------------

/// Whether a header of this name means something.
pub open spec fn known_header(name: Seq<char>) -> bool {
    let low = lowered(name);
    ||| low == "content-length"@
    ||| low == "content-type"@
    ||| low == "a2a-kind"@
    ||| low == "a2a-id"@
    ||| low == "a2a-method"@
    ||| starts_ignore_case(name, "a2a-sp-"@)
}

/// A header as a line: its name, a colon, and what follows.
pub open spec fn written_line(name: Seq<char>, rest: Seq<char>) -> Seq<char> {
    name.push(':') + rest
}

proof fn lemma_written_line_parts(name: Seq<char>, rest: Seq<char>)
    requires
        !name.contains(':'),
    ensures
        first_at(written_line(name, rest), ':') == name.len(),
        written_line(name, rest).take(name.len() as int) == name,
        written_line(name, rest).skip(name.len() as int + 1) == rest,
{
    let line = written_line(name, rest);
    assert forall|j: int| 0 <= j < name.len() implies line[j] != ':' by {
        assert(line[j] == name[j]);
        assert(name.contains(name[j]));
    }
    lemma_first_at_is(line, ':', name.len() as int);
    assert(line.take(name.len() as int) =~= name);
    assert(line.skip(name.len() as int + 1) =~= rest);
}

/// Names of headers are told apart without regard to case: a line reads the same
/// whatever the case of its name.
pub proof fn law_header_names_ignore_case(
    b: BlockView,
    one: Seq<char>,
    other: Seq<char>,
    rest: Seq<char>,
)
    requires
        lowered(one) == lowered(other),
        !one.contains(':'),
        is_trimmed(one),
    ensures
        line_read(b, written_line(one, rest)) == line_read(b, written_line(other, rest)),
{
    assert(one.len() == lowered(one).len() == lowered(other).len() == other.len());
    assert forall|i: int|
        0 <= i < one.len() implies #[trigger] lower(one[i]) == lower(other[i]) by {
        assert(lowered(one)[i] == lower(one[i]));
        assert(lowered(other)[i] == lower(other[i]));
    }
    assert(!other.contains(':')) by {
        if other.contains(':') {
            let i = choose|i: int| 0 <= i < other.len() && other[i] == ':';
            assert(lower(one[i]) == lower(other[i]));
            assert(one[i] == ':');
            assert(one.contains(one[i]));
        }
    }
    assert(is_trimmed(other)) by {
        if other.len() > 0 {
            let n = other.len() - 1;
            assert(lower(one[0]) == lower(other[0]));
            assert(lower(one[n]) == lower(other[n]));
        }
    }
    lemma_written_line_parts(one, rest);
    lemma_written_line_parts(other, rest);
    lemma_trim_fixed(one);
    lemma_trim_fixed(other);
    let n = "a2a-sp-"@.len() as int;
    if n <= one.len() {
        assert(lowered(one.take(n)) =~= lowered(other.take(n))) by {
            assert forall|i: int| 0 <= i < n implies lowered(one.take(n))[i] == lowered(
                other.take(n),
            )[i] by {
                assert(lower(one[i]) == lower(other[i]));
            }
        }
        assert(lowered(one.skip(n)) =~= lowered(other.skip(n))) by {
            assert forall|i: int| 0 <= i < one.len() - n implies lowered(one.skip(n))[i] == lowered(
                other.skip(n),
            )[i] by {
                assert(lower(one[i + n]) == lower(other[i + n]));
            }
        }
    }
}

/// Headers that mean nothing are ignored: a block reads as it does without them.
pub proof fn law_unknown_headers_are_ignored(
    b: BlockView,
    before: Seq<Seq<char>>,
    name: Seq<char>,
    rest: Seq<char>,
    after: Seq<Seq<char>>,
)
    requires
        !known_header(name),
        !name.contains(':'),
        is_trimmed(name),
    ensures
        lines_read(b, before + seq![written_line(name, rest)] + after) == lines_read(b, before + after),
{
    let line = written_line(name, rest);
    lemma_written_line_parts(name, rest);
    lemma_trim_fixed(name);
    lemma_lines_read_add(b, before + seq![line], after);
    lemma_lines_read_add(b, before, seq![line]);
    lemma_lines_read_add(b, before, after);
    if let Ok(c) = lines_read(b, before) {
        lemma_lines_read_one(c, line);
        assert(line_read(c, line) == Ok::<BlockView, Fault>(c));
    }
}

} // verus!
