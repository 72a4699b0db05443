//! What the framing of a session promises: which headers mean what, when a frame is
//! there, and what is wrong with bytes that are none.
use crate::params::with_value;
use crate::stdio::codec::{
    block_read, breaks_line, crlf_lines, decoded, first_breaking, first_crlf, found_separator,
    head_bytes, head_lines, header_texts, lemma_first_crlf, line_read, line_text, lines_read,
    opt_line, opt_seq, param_keys, param_lines, param_values, value_lines, BlockView, CodecView,
    Decoded, Fault,
};
use crate::stdio::codec_laws::{lemma_lines_read_add, lemma_lines_read_one, written_line};
use crate::stdio::frame::{no_headers, Frame, FrameHeaders, FrameView, HeadersView, Phase};
use crate::text::{
    decimal, first_at, join, lemma_first_at, lemma_first_at_is, lowered, parsed_number, texts, trim,
    utf8_error_text,
};
use crate::text_laws::law_joining_puts_separators_between;
use vstd::prelude::*;
use vstd::utf8::{decode_utf8, encode_utf8, valid_utf8};

verus! {

// ---------------------------------------------------------------------------
// Lines.
// ---------------------------------------------------------------------------

/// The lines of a text, put together with line breaks between them, are the text again,
/// and no line has a line break in it.
pub proof fn law_lines_keep_every_character(s: Seq<char>)
    ensures
        crlf_lines(s).len() > 0,
        join(crlf_lines(s), seq!['\r', '\n']) == s,
        forall|i: int, j: int|
            0 <= i < crlf_lines(s).len() && 0 <= j < crlf_lines(s)[i].len() - 1 ==> !(
            #[trigger] crlf_lines(s)[i][j] == '\r' && crlf_lines(s)[i][j + 1] == '\n'),
    decreases s.len(),
{
    lemma_first_crlf(s);
    let k = first_crlf(s);
    let lines = crlf_lines(s);
    if k + 2 <= s.len() {
        let rest = crlf_lines(s.skip(k + 2));
        law_lines_keep_every_character(s.skip(k + 2));
        law_joining_puts_separators_between(rest, s.take(k), seq!['\r', '\n']);
        assert(lines =~= seq![s.take(k)] + rest);
        assert(s =~= s.take(k) + seq!['\r', '\n'] + s.skip(k + 2)) by {
            if k < s.len() {
                assert(s[k] == '\r' && s[k + 1] == '\n');
            }
        }
        assert forall|i: int, j: int|
            0 <= i < lines.len() && 0 <= j < lines[i].len() - 1 implies !(
        #[trigger] lines[i][j] == '\r' && lines[i][j + 1] == '\n') by {
            if i == 0 {
                assert(lines[0] == s.take(k));
                assert(lines[0][j] == s[j] && lines[0][j + 1] == s[j + 1]);
            } else {
                assert(lines[i] == rest[i - 1]);
                assert(!(rest[i - 1][j] == '\r' && rest[i - 1][j + 1] == '\n'));
            }
        }
    } else {
        law_joining_puts_separators_between(Seq::empty(), s, seq!['\r', '\n']);
        assert forall|i: int, j: int|
            0 <= i < lines.len() && 0 <= j < lines[i].len() - 1 implies !(
        #[trigger] lines[i][j] == '\r' && lines[i][j + 1] == '\n') by {
            assert(lines[i] == s);
        }
    }
}

proof fn lemma_line_parts(name: Seq<char>, rest: Seq<char>)
    requires
        !name.contains(':'),
    ensures
        first_at(written_line(name, rest), ':') == name.len(),
        written_line(name, rest).take(name.len() as int) == name,
        written_line(name, rest).skip(name.len() as int + 1) == rest,
        written_line(name, rest).len() > name.len(),
{
    let line = written_line(name, rest);
    assert forall|j: int| 0 <= j < name.len() implies line[j] != ':' by {
        assert(line[j] == name[j]);
        assert(name.contains(name[j]));
    }
    lemma_first_at_is(line, ':', name.len() as int);
    assert(line.take(name.len() as int) =~= name);
    assert(line.skip(name.len() as int + 1) =~= rest);
}

proof fn lemma_header_names()
    ensures
        "content-length"@ != "content-type"@,
        "content-length"@ != "a2a-kind"@,
        "content-length"@ != "a2a-id"@,
        "content-length"@ != "a2a-method"@,
        "content-type"@ != "a2a-kind"@,
        "content-type"@ != "a2a-id"@,
        "content-type"@ != "a2a-method"@,
        "a2a-kind"@ != "a2a-id"@,
        "a2a-kind"@ != "a2a-method"@,
        "a2a-id"@ != "a2a-method"@,
{
    reveal_strlit("content-length");
    reveal_strlit("content-type");
    reveal_strlit("a2a-kind");
    reveal_strlit("a2a-id");
    reveal_strlit("a2a-method");
    assert("content-length"@.len() == 14 && "content-type"@.len() == 12);
    assert("a2a-kind"@.len() == 8 && "a2a-id"@.len() == 6 && "a2a-method"@.len() == 10);
}

/// A line that is empty says nothing. One without a colon, or with white space around its
/// name, is malformed.
pub proof fn law_lines_need_a_clean_name(
    b: BlockView,
    line: Seq<char>,
    name: Seq<char>,
    rest: Seq<char>,
)
    requires
        line.len() > 0,
        !line.contains(':'),
        !name.contains(':'),
        trim(name) != name,
    ensures
        line_read(b, Seq::empty()) == Ok::<BlockView, Fault>(b),
        line_read(b, line) == Err::<BlockView, Fault>(Fault::MalformedHeader(line)),
        line_read(b, written_line(name, rest)) == Err::<BlockView, Fault>(
            Fault::MalformedHeader(written_line(name, rest)),
        ),
{
    lemma_first_at(line, ':');
    lemma_line_parts(name, rest);
}

/// The content length is the number that its header gives, which must fit; nothing else
/// is changed.
pub proof fn law_content_lengths_are_numbers(b: BlockView, name: Seq<char>, rest: Seq<char>)
    requires
        lowered(name) == "content-length"@,
        !name.contains(':'),
        trim(name) == name,
    ensures
        ({
            let r = line_read(b, written_line(name, rest));
            match parsed_number(trim(rest)) {
                Some(n) => if n <= usize::MAX {
                    r == Ok::<BlockView, Fault>(
                        BlockView { content_length: Some(n), headers: b.headers },
                    )
                } else {
                    r == Err::<BlockView, Fault>(Fault::InvalidContentLength(trim(rest)))
                },
                None => r == Err::<BlockView, Fault>(Fault::InvalidContentLength(trim(rest))),
            }
        }),
{
    lemma_line_parts(name, rest);
}

/// Each header that has a place of its own puts its value there, without the white space
/// around it, and changes nothing else.
pub proof fn law_headers_have_their_place(b: BlockView, name: Seq<char>, rest: Seq<char>)
    requires
        !name.contains(':'),
        trim(name) == name,
    ensures
        ({
            let r = line_read(b, written_line(name, rest));
            let h = b.headers;
            let value = Some(trim(rest));
            &&& lowered(name) == "content-type"@ ==> r == Ok::<BlockView, Fault>(
                BlockView { headers: HeadersView { content_type: value, ..h }, ..b },
            )
            &&& lowered(name) == "a2a-kind"@ ==> r == Ok::<BlockView, Fault>(
                BlockView { headers: HeadersView { a2a_kind: value, ..h }, ..b },
            )
            &&& lowered(name) == "a2a-id"@ ==> r == Ok::<BlockView, Fault>(
                BlockView { headers: HeadersView { a2a_id: value, ..h }, ..b },
            )
            &&& lowered(name) == "a2a-method"@ ==> r == Ok::<BlockView, Fault>(
                BlockView { headers: HeadersView { a2a_method: value, ..h }, ..b },
            )
        }),
{
    lemma_header_names();
    lemma_line_parts(name, rest);
    reveal_strlit("content-type");
    if lowered(name).len() == 0 {
        assert("content-type"@.len() == 12);
    }
}

/// A header of a service parameter adds its value at the end of the list of that
/// parameter, whose name is what follows the prefix, in small letters. Nothing else is
/// changed.
pub proof fn law_param_headers_add_values(b: BlockView, key: Seq<char>, rest: Seq<char>)
    requires
        !key.contains(':'),
        trim("A2A-SP-"@ + key) == "A2A-SP-"@ + key,
    ensures
        line_read(b, written_line("A2A-SP-"@ + key, rest)) == Ok::<BlockView, Fault>(
            BlockView {
                headers: HeadersView {
                    service_params: with_value(
                        b.headers.service_params,
                        lowered(key),
                        trim(rest),
                    ),
                    ..b.headers
                },
                ..b
            },
        ),
{
    reveal_strlit("A2A-SP-");
    reveal_strlit("a2a-sp-");
    reveal_strlit("content-length");
    reveal_strlit("content-type");
    reveal_strlit("a2a-kind");
    reveal_strlit("a2a-id");
    reveal_strlit("a2a-method");
    let name = "A2A-SP-"@ + key;
    assert("A2A-SP-"@.len() == 7 && "a2a-sp-"@.len() == 7);
    assert(!name.contains(':')) by {
        if name.contains(':') {
            let i = choose|i: int| 0 <= i < name.len() && name[i] == ':';
            if i >= 7 {
                assert(key[i - 7] == ':');
            }
        }
    }
    lemma_line_parts(name, rest);
    assert(name.take(7) =~= "A2A-SP-"@);
    assert(name.skip(7) =~= key);
    assert(lowered("A2A-SP-"@) =~= lowered("a2a-sp-"@));
    assert(lowered(name)[4] == 's');
    assert(lowered(name)[0] == 'a');
    assert("content-length"@[0] == 'c' && "content-type"@[0] == 'c');
    assert("a2a-kind"@[4] == 'k' && "a2a-id"@[4] == 'i' && "a2a-method"@[4] == 'm');
}

/// Lines are read in their turn, and the first that cannot be read decides.
pub proof fn law_lines_are_read_in_turn(b: BlockView, lines: Seq<Seq<char>>, last: Seq<char>)
    ensures
        lines_read(b, Seq::empty()) == Ok::<BlockView, Fault>(b),
        lines_read(b, lines) matches Ok(c) ==> lines_read(b, lines.push(last))
            == line_read(c, last),
        lines_read(b, lines) is Err ==> lines_read(b, lines.push(last)) == lines_read(b, lines),
{
    lemma_lines_read_add(b, lines, seq![last]);
    assert(lines.push(last) =~= lines + seq![last]);
    if let Ok(c) = lines_read(b, lines) {
        lemma_lines_read_one(c, last);
    }
}

/// A block of headers is read line by line, from nothing, and must give a content length.
/// One that is no text is malformed.
pub proof fn law_blocks_are_read_line_by_line(bytes: Seq<u8>)
    ensures
        !valid_utf8(bytes) ==> block_read(bytes) == Err::<(nat, HeadersView), Fault>(
            Fault::MalformedHeader("not valid UTF-8: "@ + utf8_error_text(bytes)),
        ),
        valid_utf8(bytes) ==> ({
            let start = BlockView { content_length: None, headers: no_headers() };
            match lines_read(start, crlf_lines(decode_utf8(bytes))) {
                Ok(b) => match b.content_length {
                    Some(n) => block_read(bytes) == Ok::<(nat, HeadersView), Fault>((n, b.headers)),
                    None => block_read(bytes) == Err::<(nat, HeadersView), Fault>(
                        Fault::MissingContentLength,
                    ),
                },
                Err(f) => block_read(bytes) == Err::<(nat, HeadersView), Fault>(f),
            }
        }),
        no_headers() == (HeadersView {
            content_type: None,
            a2a_kind: None,
            a2a_id: None,
            a2a_method: None,
            service_params: Map::empty(),
        }),
{
}

// ---------------------------------------------------------------------------
// Frames that are read.
// ---------------------------------------------------------------------------

/// A frame is there once as many bytes of its body are there as its headers say: it has
/// those headers and just those bytes, and what follows them is kept for the next. Till
/// then nothing is taken.
pub proof fn law_bodies_are_as_long_as_said(
    c: CodecView,
    n: nat,
    h: HeadersView,
    body: Seq<u8>,
    rest: Seq<u8>,
)
    requires
        c.phase == (Phase::Body { content_length: n, headers: h }),
    ensures
        body.len() == n ==> decoded(c, body + rest) == (Decoded {
            codec: CodecView { phase: Phase::Headers, ..c },
            buffer: rest,
            result: Ok(Some(FrameView { headers: h, body })),
        }),
        rest.len() < n ==> decoded(c, rest) == (Decoded {
            codec: c,
            buffer: rest,
            result: Ok(None),
        }),
{
    if body.len() == n {
        assert((body + rest).skip(n as int) =~= rest);
        assert((body + rest).take(n as int) =~= body);
    }
}

/// Where no block of headers has ended yet, nothing is taken, and more bytes are waited
/// for, unless there are already more than a block may have.
pub proof fn law_blocks_are_waited_for(c: CodecView, b: Seq<u8>)
    requires
        c.phase is Headers,
        found_separator(b, c.scanned as int) is None,
    ensures
        decoded(c, b).buffer == b,
        decoded(c, b).codec.phase is Headers,
        b.len() > c.max_header_size ==> decoded(c, b).result == Err::<Option<FrameView>, Fault>(
            Fault::HeaderBlockTooLarge { max: c.max_header_size },
        ),
        b.len() <= c.max_header_size ==> decoded(c, b).result == Ok::<Option<FrameView>, Fault>(
            None,
        ),
{
}

/// A block of headers that has ended is read. Where it cannot be read, or announces a
/// body that is too large, that is what is wrong, and nothing is taken. Else its body is
/// read next.
pub proof fn law_blocks_announce_their_body(c: CodecView, b: Seq<u8>, i: int)
    requires
        c.phase is Headers,
        found_separator(b, c.scanned as int) == Some(i),
    ensures
        match block_read(b.take(i)) {
            Err(f) => decoded(c, b) == (Decoded { codec: c, buffer: b, result: Err(f) }),
            Ok((n, h)) => if n > c.max_frame_size {
                decoded(c, b) == (Decoded {
                    codec: c,
                    buffer: b,
                    result: Err(Fault::FrameTooLarge { len: n, max: c.max_frame_size }),
                })
            } else {
                decoded(c, b) == decoded(
                    CodecView {
                        phase: Phase::Body { content_length: n, headers: h },
                        scanned: 0,
                        ..c
                    },
                    b.skip(i + 4),
                )
            },
        },
{
}

// ---------------------------------------------------------------------------
// Frames that are written.
// ---------------------------------------------------------------------------

/// A header is written as its name, a colon, a space, its value and a line break, and one
/// that is absent is not written.
pub proof fn law_headers_are_written_as_lines(name: Seq<char>, value: String)
    ensures
        line_text(name, value@) == name + seq![':', ' '] + value@ + seq!['\r', '\n'],
        opt_line(name, Some(value)) == line_text(name, value@),
        opt_line(name, None) == Seq::<char>::empty(),
{
    reveal_strlit(": ");
    reveal_strlit("\r\n");
    assert(": "@ =~= seq![':', ' ']);
    assert("\r\n"@ =~= seq!['\r', '\n']);
}

/// Each value of a parameter is written as a header of its own, in order, and so is each
/// parameter.
pub proof fn law_params_are_written_value_by_value(
    key: Seq<char>,
    values: Seq<Seq<char>>,
    value: Seq<char>,
    e: Seq<(Seq<char>, Vec<String>)>,
    last: (Seq<char>, Vec<String>),
)
    ensures
        value_lines(key, Seq::empty()) == Seq::<char>::empty(),
        value_lines(key, values.push(value)) == value_lines(key, values) + line_text(
            "A2A-SP-"@ + key,
            value,
        ),
        param_lines(Seq::empty()) == Seq::<char>::empty(),
        param_lines(e.push(last)) == param_lines(e) + value_lines(last.0, texts(last.1@)),
{
    assert(values.push(value).drop_last() =~= values);
    assert(e.push(last).drop_last() =~= e);
}

/// A frame begins with its length, its type, its kind, its identifier, its method and its
/// parameters, those that it has, in this order, and an empty line.
pub proof fn law_frames_begin_with_their_headers(f: Frame)
    ensures
        head_lines(f.headers, f.body@.len()) == line_text(
            "Content-Length"@,
            decimal(f.body@.len()),
        ) + opt_line("Content-Type"@, f.headers.content_type) + opt_line(
            "A2A-Kind"@,
            f.headers.a2a_kind,
        ) + opt_line("A2A-Id"@, f.headers.a2a_id) + opt_line("A2A-Method"@, f.headers.a2a_method)
            + param_lines(f.headers.service_params.spec_entries()),
        head_bytes(f) == encode_utf8(head_lines(f.headers, f.body@.len()) + "\r\n"@),
{
}

proof fn lemma_first_breaking(s: Seq<Seq<char>>)
    ensures
        first_breaking(s) is None <==> (forall|i: int|
            0 <= i < s.len() ==> !breaks_line(#[trigger] s[i])),
    decreases s.len(),
{
    if s.len() > 0 {
        let d = s.drop_first();
        lemma_first_breaking(d);
        if !breaks_line(s[0]) {
            if forall|i: int| 0 <= i < d.len() ==> !breaks_line(#[trigger] d[i]) {
                assert forall|i: int| 0 <= i < s.len() implies !breaks_line(#[trigger] s[i]) by {
                    if i > 0 {
                        assert(d[i - 1] == s[i]);
                    }
                }
            }
            if forall|i: int| 0 <= i < s.len() ==> !breaks_line(#[trigger] s[i]) {
                assert forall|i: int| 0 <= i < d.len() implies !breaks_line(#[trigger] d[i]) by {
                    assert(s[i + 1] == d[i]);
                }
            }
        }
    }
}

/// Of some texts, the first that has a line break in it is found, and only such a one.
pub proof fn law_the_first_line_break_is_found(
    s: Seq<Seq<char>>,
    t: Seq<char>,
    more: Seq<Seq<char>>,
)
    requires
        forall|i: int|
            0 <= i < s.len() ==> !(#[trigger] s[i]).contains('\r') && !s[i].contains('\n'),
    ensures
        first_breaking(s) is None,
        t.contains('\r') || t.contains('\n') ==> first_breaking(s + seq![t] + more) == Some(t),
    decreases s.len(),
{
    lemma_first_breaking(s);
    assert forall|i: int| 0 <= i < s.len() implies !breaks_line(#[trigger] s[i]) by {}
    let all = s + seq![t] + more;
    if s.len() == 0 {
        assert(all[0] == t);
    } else {
        let d = s.drop_first();
        assert forall|i: int| 0 <= i < d.len() implies !(#[trigger] d[i]).contains('\r')
            && !d[i].contains('\n') by {
            assert(s[i + 1] == d[i]);
        }
        law_the_first_line_break_is_found(d, t, more);
        assert(all[0] == s[0]);
        assert(all.drop_first() =~= d + seq![t] + more);
    }
}

proof fn lemma_values_listed(e: Seq<(Seq<char>, Vec<String>)>, i: int, j: int) -> (k: int)
    requires
        0 <= i < e.len(),
        0 <= j < e[i].1@.len(),
    ensures
        0 <= k < param_values(e).len(),
        param_values(e)[k] == e[i].1@[j]@,
    decreases e.len(),
{
    let d = e.drop_last();
    if i < e.len() - 1 {
        assert(d[i] == e[i]);
        lemma_values_listed(d, i, j)
    } else {
        let k = param_values(d).len() + j;
        assert(param_values(e)[k] == texts(e.last().1@)[j]);
        k
    }
}

/// Every text that the headers of a frame are made of is looked at for line breaks: a
/// frame that is written has none in its type, kind, identifier and method, nor in a name
/// or a value of its parameters.
pub proof fn law_no_header_breaks_a_line(h: FrameHeaders, i: int, j: int)
    requires
        first_breaking(header_texts(h)) is None,
    ensures
        h.content_type matches Some(t) ==> !t@.contains('\r') && !t@.contains('\n'),
        h.a2a_kind matches Some(t) ==> !t@.contains('\r') && !t@.contains('\n'),
        h.a2a_id matches Some(t) ==> !t@.contains('\r') && !t@.contains('\n'),
        h.a2a_method matches Some(t) ==> !t@.contains('\r') && !t@.contains('\n'),
        0 <= i < h.service_params.spec_entries().len() ==> {
            let e = h.service_params.spec_entries()[i];
            &&& !e.0.contains('\r') && !e.0.contains('\n')
            &&& 0 <= j < e.1@.len() ==> !e.1@[j]@.contains('\r') && !e.1@[j]@.contains('\n')
        },
{
    let all = header_texts(h);
    lemma_first_breaking(all);
    let e = h.service_params.spec_entries();
    let a = opt_seq(h.content_type);
    let b = opt_seq(h.a2a_kind);
    let c = opt_seq(h.a2a_id);
    let d = opt_seq(h.a2a_method);
    let n = a.len() + b.len() + c.len() + d.len();
    if let Some(t) = h.content_type {
        assert(all[0] == a[0]);
        assert(!breaks_line(all[0]));
    }
    if let Some(t) = h.a2a_kind {
        assert(all[a.len() as int] == b[0]);
        assert(!breaks_line(all[a.len() as int]));
    }
    if let Some(t) = h.a2a_id {
        let k = a.len() + b.len();
        assert(all[k as int] == c[0]);
        assert(!breaks_line(all[k as int]));
    }
    if let Some(t) = h.a2a_method {
        let k = a.len() + b.len() + c.len();
        assert(all[k as int] == d[0]);
        assert(!breaks_line(all[k as int]));
    }
    if 0 <= i < e.len() {
        assert(all[n + i] == param_keys(e)[i]);
        assert(!breaks_line(all[n + i]));
        if 0 <= j < e[i].1@.len() {
            let k = lemma_values_listed(e, i, j);
            assert(all[n + e.len() + k] == param_values(e)[k]);
            assert(!breaks_line(all[n + e.len() + k]));
        }
    }
}

/// The texts that the headers of a frame are made of, in the order in which they are
/// looked at: the type, the kind, the identifier and the method, those that there are,
/// then the names of the parameters, and then the values of each.
pub proof fn law_header_texts_are_these(
    h: FrameHeaders,
    t: String,
    e: Seq<(Seq<char>, Vec<String>)>,
    last: (Seq<char>, Vec<String>),
)
    ensures
        header_texts(h) == opt_seq(h.content_type) + opt_seq(h.a2a_kind) + opt_seq(h.a2a_id)
            + opt_seq(h.a2a_method) + param_keys(h.service_params.spec_entries()) + param_values(
            h.service_params.spec_entries(),
        ),
        opt_seq(Some(t)) == seq![t@],
        opt_seq(None) == Seq::<Seq<char>>::empty(),
        param_keys(e).len() == e.len(),
        forall|i: int| 0 <= i < e.len() ==> #[trigger] param_keys(e)[i] == e[i].0,
        param_values(Seq::empty()) == Seq::<Seq<char>>::empty(),
        param_values(e.push(last)) == param_values(e) + texts(last.1@),
{
    assert(e.push(last).drop_last() =~= e);
}

} // verus!
