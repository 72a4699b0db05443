//! Text as sequences of characters: the case, trimming, splitting and number
//! rules that the wire formats are written in.
use vstd::prelude::*;
use vstd::slice::{slice_subrange, slice_to_vec};
use vstd::utf8::{decode_utf8, valid_utf8};

verus! {

// ---------------------------------------------------------------------------
// Trusted: std functions that vstd leaves without a specification.
// ---------------------------------------------------------------------------

/// `String::push` appends one character to the end of the string.
pub assume_specification[ std::string::String::push ](s: &mut std::string::String, c: char)
    ensures
        final(s)@ == old(s)@.push(c),
;

/// `str`'s own `==` compares two string slices character for character.
pub assume_specification[ <str as PartialEq>::eq ](a: &str, b: &str) -> (r: bool)
    ensures
        r == (a@ == b@),
;

/// How `std::str::from_utf8` words its complaint about `bytes`.
pub uninterp spec fn utf8_error_text(bytes: Seq<u8>) -> Seq<char>;

/// `std::str::from_utf8` accepts exactly the valid UTF-8 sequences and gives
/// the text that they encode; the text of its error depends on the bytes alone.
#[verifier::external_body]
pub(crate) fn utf8_text(bytes: &[u8]) -> (r: Result<String, String>)
    ensures
        r matches Ok(s) ==> valid_utf8(bytes@) && s@ == decode_utf8(bytes@),
        r matches Err(e) ==> !valid_utf8(bytes@) && e@ == utf8_error_text(bytes@),
{
    match std::str::from_utf8(bytes) {
        Ok(s) => Ok(s.to_owned()),
        Err(e) => Err(e.to_string()),
    }
}

/// A text the way `{:?}` of the standard formatter shows it: in quotes, with
/// escapes.
pub uninterp spec fn quoted(s: Seq<char>) -> Seq<char>;

/// The `Debug` form of a `str`, which depends on the text alone.
#[verifier::external_body]
pub(crate) fn quoted_text(s: &str) -> (r: String)
    ensures
        r@ == quoted(s@),
{
    format!("{:?}", s)
}

// ---------------------------------------------------------------------------
// Views of text collections.
// ---------------------------------------------------------------------------

/// The text of an optional string.
pub open spec fn opt_text(o: Option<String>) -> Option<Seq<char>> {
    match o {
        Some(s) => Some(s@),
        None => None,
    }
}

/// The texts of a list of strings.
pub open spec fn texts(s: Seq<String>) -> Seq<Seq<char>> {
    Seq::new(s.len(), |i: int| s[i]@)
}

// ---------------------------------------------------------------------------
// Conversions.
// ---------------------------------------------------------------------------

/// The characters of `s`.
pub fn chars_of(s: &str) -> (r: Vec<char>)
    ensures
        r@ == s@,
{
    let mut out: Vec<char> = Vec::new();
    for c in it: s.chars()
        invariant
            out@ == it.seq().take(it.index() as int),
            it.seq() == s@,
    {
        out.push(c);
        assert(it.seq().take(it.index() + 1) =~= it.seq().take(it.index() as int).push(c));
    }
    assert(out@ =~= s@);
    out
}

/// The string made of `cs`.
pub fn string_of(cs: &[char]) -> (r: String)
    ensures
        r@ == cs@,
{
    let mut out = String::new();
    let mut i: usize = 0;
    while i < cs.len()
        invariant
            i <= cs.len(),
            out@ == cs@.take(i as int),
        decreases cs.len() - i,
    {
        out.push(cs[i]);
        i = i + 1;
        assert(cs@.take(i as int) =~= cs@.take(i - 1).push(cs@[i - 1]));
    }
    assert(out@ =~= cs@);
    out
}

/// Whether two texts are equal.
pub fn same_text(a: &str, b: &str) -> (r: bool)
    ensures
        r == (a@ == b@),
{
    *a == *b
}

/// Whether two character slices are equal.
pub fn same_chars(a: &[char], b: &[char]) -> (r: bool)
    ensures
        r == (a@ == b@),
{
    if a.len() != b.len() {
        return false;
    }
    let mut i: usize = 0;
    while i < a.len()
        invariant
            a.len() == b.len(),
            i <= a.len(),
            forall|j: int| 0 <= j < i ==> a@[j] == b@[j],
        decreases a.len() - i,
    {
        if a[i] != b[i] {
            return false;
        }
        i = i + 1;
    }
    assert(a@ =~= b@);
    true
}

/// The concatenation of two texts.
pub fn joined(a: &str, b: &str) -> (r: String)
    ensures
        r@ == a@ + b@,
{
    let mut out = a.to_owned();
    out.append(b);
    out
}

// ---------------------------------------------------------------------------
// ASCII case.
// ---------------------------------------------------------------------------

/// The ASCII lower-case form of one character.
pub open spec fn lower(c: char) -> char {
    if 'A' <= c && c <= 'Z' {
        ((c as u32) + 32) as char
    } else {
        c
    }
}

/// The ASCII upper-case form of one character.
pub open spec fn upper(c: char) -> char {
    if 'a' <= c && c <= 'z' {
        ((c as u32) - 32) as char
    } else {
        c
    }
}

/// The ASCII lower-case form of a text.
pub open spec fn lowered(s: Seq<char>) -> Seq<char> {
    Seq::new(s.len(), |i: int| lower(s[i]))
}

/// The ASCII upper-case form of a text.
pub open spec fn uppered(s: Seq<char>) -> Seq<char> {
    Seq::new(s.len(), |i: int| upper(s[i]))
}

fn lower_char(c: char) -> (r: char)
    ensures
        r == lower(c),
{
    if 'A' <= c && c <= 'Z' {
        let b: u8 = c as u8;
        let l: u8 = b + 32;
        l as char
    } else {
        c
    }
}

fn upper_char(c: char) -> (r: char)
    ensures
        r == upper(c),
{
    if 'a' <= c && c <= 'z' {
        let b: u8 = c as u8;
        let l: u8 = b - 32;
        l as char
    } else {
        c
    }
}

/// The ASCII lower-case form of `cs`.
pub fn lower_chars(cs: &[char]) -> (r: Vec<char>)
    ensures
        r@ == lowered(cs@),
{
    let mut out: Vec<char> = Vec::new();
    let mut i: usize = 0;
    while i < cs.len()
        invariant
            i <= cs.len(),
            out@ == lowered(cs@.take(i as int)),
        decreases cs.len() - i,
    {
        out.push(lower_char(cs[i]));
        i = i + 1;
        assert(out@ =~= lowered(cs@.take(i as int)));
    }
    assert(cs@.take(i as int) =~= cs@);
    out
}

/// The ASCII lower-case form of `s`.
pub fn lower_text(s: &str) -> (r: String)
    ensures
        r@ == lowered(s@),
{
    let cs = chars_of(s);
    let low = lower_chars(cs.as_slice());
    string_of(low.as_slice())
}

/// The ASCII upper-case form of `s`.
pub fn upper_text(s: &str) -> (r: String)
    ensures
        r@ == uppered(s@),
{
    let cs = chars_of(s);
    let mut out = String::new();
    let mut i: usize = 0;
    while i < cs.len()
        invariant
            i <= cs.len(),
            cs@ == s@,
            out@ == uppered(cs@.take(i as int)),
        decreases cs.len() - i,
    {
        out.push(upper_char(cs[i]));
        i = i + 1;
        assert(out@ =~= uppered(cs@.take(i as int)));
    }
    assert(cs@.take(i as int) =~= cs@);
    out
}

/// Whether two texts are equal up to ASCII case.
pub fn same_text_ignore_case(a: &str, b: &str) -> (r: bool)
    ensures
        r == (lowered(a@) == lowered(b@)),
{
    let x = lower_text(a);
    let y = lower_text(b);
    x == y
}

/// `s` with every `from` replaced by `to`.
pub open spec fn replaced(s: Seq<char>, from: char, to: char) -> Seq<char> {
    Seq::new(s.len(), |i: int| if s[i] == from { to } else { s[i] })
}

/// `s` with every `from` replaced by `to`.
pub fn replace_char(s: &str, from: char, to: char) -> (r: String)
    ensures
        r@ == replaced(s@, from, to),
{
    let cs = chars_of(s);
    let mut out = String::new();
    let mut i: usize = 0;
    while i < cs.len()
        invariant
            i <= cs.len(),
            cs@ == s@,
            out@ == replaced(cs@.take(i as int), from, to),
        decreases cs.len() - i,
    {
        if cs[i] == from {
            out.push(to);
        } else {
            out.push(cs[i]);
        }
        i = i + 1;
        assert(out@ =~= replaced(cs@.take(i as int), from, to));
    }
    assert(cs@.take(i as int) =~= cs@);
    out
}

// ---------------------------------------------------------------------------
// White space.
// ---------------------------------------------------------------------------

/// The characters with Unicode's `White_Space` property.
pub open spec fn is_white(c: char) -> bool {
    let n = c as u32;
    ||| 0x09 <= n <= 0x0d
    ||| n == 0x20
    ||| n == 0x85
    ||| n == 0xa0
    ||| n == 0x1680
    ||| 0x2000 <= n <= 0x200a
    ||| n == 0x2028
    ||| n == 0x2029
    ||| n == 0x202f
    ||| n == 0x205f
    ||| n == 0x3000
}

/// Whether `c` has Unicode's `White_Space` property.
pub fn white_char(c: char) -> (r: bool)
    ensures
        r == is_white(c),
{
    let n: u32 = c as u32;
    (0x09 <= n && n <= 0x0d) || n == 0x20 || n == 0x85 || n == 0xa0 || n == 0x1680 || (0x2000 <= n
        && n <= 0x200a) || n == 0x2028 || n == 0x2029 || n == 0x202f || n == 0x205f || n == 0x3000
}

/// `s` without its leading white space.
pub open spec fn trim_start(s: Seq<char>) -> Seq<char>
    decreases s.len(),
{
    if s.len() > 0 && is_white(s[0]) {
        trim_start(s.drop_first())
    } else {
        s
    }
}

/// `s` without its trailing white space.
pub open spec fn trim_end(s: Seq<char>) -> Seq<char>
    decreases s.len(),
{
    if s.len() > 0 && is_white(s.last()) {
        trim_end(s.drop_last())
    } else {
        s
    }
}

/// `s` without its leading and trailing white space.
pub open spec fn trim(s: Seq<char>) -> Seq<char> {
    trim_end(trim_start(s))
}

/// Whether `s` neither begins nor ends with white space.
pub open spec fn is_trimmed(s: Seq<char>) -> bool {
    s.len() > 0 ==> !is_white(s[0]) && !is_white(s.last())
}

/// Trimming removes exactly the white space at the ends: a text is unchanged
/// by it just when it has none there.
pub proof fn lemma_trim_fixed(s: Seq<char>)
    ensures
        trim(s) == s <==> is_trimmed(s),
        is_trimmed(trim(s)),
        trim(s).len() <= s.len(),
{
    lemma_trim_start_shape(s);
    lemma_trim_end_shape(trim_start(s));
    let t = trim_start(s);
    let u = trim_end(t);
    if is_trimmed(s) {
        assert(t == s);
    } else if s.len() > 0 {
        if is_white(s[0]) {
            assert(t.len() < s.len());
        } else {
            assert(t == s);
            assert(u.len() < s.len());
        }
    }
    if u.len() > 0 {
        assert(u[0] == t[0]);
    }
}

proof fn lemma_trim_start_shape(s: Seq<char>)
    ensures
        trim_start(s).len() <= s.len(),
        trim_start(s).len() > 0 ==> !is_white(trim_start(s)[0]),
        s.len() > 0 && is_white(s[0]) ==> trim_start(s).len() < s.len(),
        trim_start(s).is_suffix_of(s),
    decreases s.len(),
{
    if s.len() > 0 && is_white(s[0]) {
        lemma_trim_start_shape(s.drop_first());
        let t = trim_start(s);
        assert(t =~= s.subrange(s.len() - t.len(), s.len() as int)) by {
            assert(t =~= s.drop_first().subrange(
                s.drop_first().len() - t.len(),
                s.drop_first().len() as int,
            ));
        }
    } else {
        assert(s =~= s.subrange(0, s.len() as int));
    }
}

proof fn lemma_trim_end_shape(s: Seq<char>)
    ensures
        trim_end(s).len() <= s.len(),
        trim_end(s).len() > 0 ==> !is_white(trim_end(s).last()),
        s.len() > 0 && is_white(s.last()) ==> trim_end(s).len() < s.len(),
        trim_end(s) == s.take(trim_end(s).len() as int),
    decreases s.len(),
{
    if s.len() > 0 && is_white(s.last()) {
        lemma_trim_end_shape(s.drop_last());
        let t = trim_end(s);
        assert(t =~= s.take(t.len() as int));
    } else {
        assert(s =~= s.take(s.len() as int));
    }
}

/// `cs` without its leading and trailing white space.
pub fn trim_chars<'a>(cs: &'a [char]) -> (r: &'a [char])
    ensures
        r@ == trim(cs@),
{
    let mut i: usize = 0;
    assert(cs@.skip(0) =~= cs@);
    while i < cs.len() && white_char(cs[i])
        invariant
            i <= cs.len(),
            trim_start(cs@) == trim_start(cs@.skip(i as int)),
        decreases cs.len() - i,
    {
        assert(cs@.skip(i as int).drop_first() =~= cs@.skip(i + 1));
        i = i + 1;
    }
    let mut j: usize = cs.len();
    let ghost t = trim_start(cs@);
    assert(t == cs@.skip(i as int));
    assert(cs@.subrange(i as int, j as int) =~= t);
    while i < j && white_char(cs[j - 1])
        invariant
            i <= j <= cs.len(),
            trim_end(t) == trim_end(cs@.subrange(i as int, j as int)),
        decreases j,
    {
        assert(cs@.subrange(i as int, j as int).drop_last() =~= cs@.subrange(i as int, j - 1));
        j = j - 1;
    }
    slice_subrange(cs, i, j)
}

/// `s` without its leading and trailing white space.
pub fn trim_text(s: &str) -> (r: String)
    ensures
        r@ == trim(s@),
{
    let cs = chars_of(s);
    string_of(trim_chars(cs.as_slice()))
}

// ---------------------------------------------------------------------------
// Searching, splitting, joining.
// ---------------------------------------------------------------------------

/// The position of the first `c` in `s`, or the length of `s`.
pub open spec fn first_at(s: Seq<char>, c: char) -> int
    decreases s.len(),
{
    if s.len() == 0 {
        0
    } else if s[0] == c {
        0
    } else {
        1 + first_at(s.drop_first(), c)
    }
}

/// What `first_at` finds: a `c` with none before it, or that there is none.
pub proof fn lemma_first_at(s: Seq<char>, c: char)
    ensures
        0 <= first_at(s, c) <= s.len(),
        first_at(s, c) < s.len() ==> s[first_at(s, c)] == c,
        forall|j: int| 0 <= j < first_at(s, c) ==> s[j] != c,
        s.contains(c) <==> first_at(s, c) < s.len(),
    decreases s.len(),
{
    if s.len() > 0 && s[0] != c {
        lemma_first_at(s.drop_first(), c);
        let k = first_at(s.drop_first(), c);
        assert forall|j: int| 0 <= j < first_at(s, c) implies s[j] != c by {
            if j > 0 {
                assert(s.drop_first()[j - 1] == s[j]);
            }
        }
        if k < s.drop_first().len() {
            assert(s[k + 1] == c);
        }
    } else if s.len() > 0 {
        assert(s[0] == c);
    }
}

/// `first_at` is the only position with a `c` and none before it.
pub proof fn lemma_first_at_is(s: Seq<char>, c: char, k: int)
    requires
        0 <= k <= s.len(),
        k < s.len() ==> s[k] == c,
        forall|j: int| 0 <= j < k ==> s[j] != c,
    ensures
        first_at(s, c) == k,
{
    lemma_first_at(s, c);
    let f = first_at(s, c);
    if f < k {
        assert(s[f] == c);
    } else if k < f {
        assert(s[k] != c);
    }
}

/// The position of the first `c` in `cs`, or the length of `cs`.
pub fn find_char(cs: &[char], c: char) -> (r: usize)
    ensures
        r == first_at(cs@, c),
        r <= cs.len(),
{
    let mut i: usize = 0;
    while i < cs.len() && cs[i] != c
        invariant
            i <= cs.len(),
            forall|j: int| 0 <= j < i ==> cs@[j] != c,
        decreases cs.len() - i,
    {
        i = i + 1;
    }
    proof {
        lemma_first_at_is(cs@, c, i as int);
    }
    i
}

/// The pieces of `s` between the occurrences of `c`.
pub open spec fn split_on(s: Seq<char>, c: char) -> Seq<Seq<char>>
    decreases s.len(),
    via split_on_decreases
{
    let k = first_at(s, c);
    if k < s.len() {
        seq![s.take(k)] + split_on(s.skip(k + 1), c)
    } else {
        seq![s]
    }
}

#[via_fn]
proof fn split_on_decreases(s: Seq<char>, c: char) {
    lemma_first_at(s, c);
}

/// The pieces of `s`, put together with `sep` between them.
pub open spec fn join(parts: Seq<Seq<char>>, sep: Seq<char>) -> Seq<char>
    decreases parts.len(),
{
    if parts.len() == 0 {
        Seq::empty()
    } else if parts.len() == 1 {
        parts[0]
    } else {
        join(parts.drop_last(), sep) + sep + parts.last()
    }
}

/// What a joined list begins with.
pub proof fn lemma_join_first(parts: Seq<Seq<char>>, sep: Seq<char>)
    requires
        parts.len() >= 2,
    ensures
        join(parts, sep) == parts[0] + sep + join(parts.drop_first(), sep),
    decreases parts.len(),
{
    reveal_with_fuel(join, 2);
    if parts.len() == 2 {
        assert(parts.drop_last() =~= seq![parts[0]]);
        assert(parts.drop_first() =~= seq![parts[1]]);
        assert(join(parts, sep) =~= parts[0] + sep + join(parts.drop_first(), sep));
    } else {
        let d = parts.drop_last();
        lemma_join_first(d, sep);
        assert(d.drop_first() =~= parts.drop_first().drop_last());
        assert(join(parts, sep) =~= parts[0] + sep + join(parts.drop_first(), sep));
    }
}

/// Whether a comma-separated list carries a value unchanged.
pub open spec fn listable(v: Seq<char>) -> bool {
    v.len() > 0 && is_trimmed(v) && !v.contains(',')
}

proof fn lemma_split_on_joined(parts: Seq<Seq<char>>)
    requires
        parts.len() > 0,
        forall|i: int| 0 <= i < parts.len() ==> !(#[trigger] parts[i]).contains(','),
    ensures
        split_on(join(parts, ","@), ',') == parts,
    decreases parts.len(),
{
    reveal_strlit(",");
    let s = join(parts, ","@);
    let p = parts[0];
    assert forall|j: int| 0 <= j < p.len() implies p[j] != ',' by {
        assert(p.contains(p[j]));
    }
    if parts.len() == 1 {
        lemma_first_at_is(s, ',', s.len() as int);
        assert(split_on(s, ',') =~= parts);
    } else {
        lemma_join_first(parts, ","@);
        let rest = parts.drop_first();
        assert forall|i: int| 0 <= i < rest.len() implies !(#[trigger] rest[i]).contains(',') by {
            assert(rest[i] == parts[i + 1]);
        }
        lemma_split_on_joined(rest);
        let k = p.len() as int;
        assert(s[k] == ',');
        lemma_first_at_is(s, ',', k);
        assert(s.take(k) =~= p);
        assert(s.skip(k + 1) =~= join(rest, ","@));
        assert(split_on(s, ',') =~= parts);
    }
}

proof fn lemma_kept_all(parts: Seq<Seq<char>>)
    requires
        forall|i: int|
            0 <= i < parts.len() ==> (#[trigger] parts[i]).len() > 0 && is_trimmed(parts[i]),
    ensures
        kept(parts) == parts,
    decreases parts.len(),
{
    if parts.len() > 0 {
        lemma_trim_fixed(parts[0]);
        let rest = parts.drop_first();
        assert forall|i: int| 0 <= i < rest.len() implies (#[trigger] rest[i]).len() > 0
            && is_trimmed(rest[i]) by {
            assert(rest[i] == parts[i + 1]);
        }
        lemma_kept_all(rest);
        assert(kept(parts) =~= parts);
    }
}

/// A list that was joined by commas reads as that list, if its values are not
/// empty, have no white space at their ends and no comma in them.
pub proof fn law_joined_lists_read_back(parts: Seq<Seq<char>>)
    requires
        forall|i: int| 0 <= i < parts.len() ==> listable(#[trigger] parts[i]),
    ensures
        listed(join(parts, ","@)) == parts,
{
    if parts.len() == 0 {
        let s = join(parts, ","@);
        assert(split_on(s, ',') =~= seq![s]);
        assert(trim(s) =~= Seq::<char>::empty());
        assert(seq![s].drop_first() =~= Seq::<Seq<char>>::empty());
        assert(kept(Seq::<Seq<char>>::empty()) =~= Seq::<Seq<char>>::empty());
        assert(kept(seq![s]) =~= parts);
    } else {
        assert forall|i: int| 0 <= i < parts.len() implies !(#[trigger] parts[i]).contains(
            ',',
        ) by {
            assert(listable(parts[i]));
        }
        lemma_split_on_joined(parts);
        assert forall|i: int| 0 <= i < parts.len() implies (#[trigger] parts[i]).len() > 0
            && is_trimmed(parts[i]) by {
            assert(listable(parts[i]));
        }
        lemma_kept_all(parts);
    }
}

/// The texts of `parts`, put together with `sep` between them.
pub fn join_texts(parts: &Vec<String>, sep: &str) -> (r: String)
    ensures
        r@ == join(texts(parts@), sep@),
{
    let mut out = String::new();
    let mut i: usize = 0;
    while i < parts.len()
        invariant
            i <= parts.len(),
            out@ == join(texts(parts@.take(i as int)), sep@),
        decreases parts.len() - i,
    {
        if i > 0 {
            out.append(sep);
        }
        out.append(parts[i].as_str());
        i = i + 1;
        proof {
            let t = texts(parts@.take(i as int));
            assert(t.drop_last() =~= texts(parts@.take(i - 1)));
            if i == 1 {
                assert(out@ =~= t[0]);
            }
        }
    }
    assert(parts@.take(i as int) =~= parts@);
    out
}

/// The non-empty trimmed pieces of `s` between commas.
pub open spec fn listed(s: Seq<char>) -> Seq<Seq<char>> {
    kept(split_on(s, ','))
}

/// The pieces that are not empty once trimmed, trimmed.
pub open spec fn kept(parts: Seq<Seq<char>>) -> Seq<Seq<char>>
    decreases parts.len(),
{
    if parts.len() == 0 {
        Seq::empty()
    } else {
        let t = trim(parts[0]);
        if t.len() == 0 {
            kept(parts.drop_first())
        } else {
            seq![t] + kept(parts.drop_first())
        }
    }
}

/// The non-empty trimmed pieces of `s` between commas.
pub fn split_and_trim(s: &str) -> (r: Vec<String>)
    ensures
        texts(r@) == listed(s@),
{
    let cs = chars_of(s);
    let mut out: Vec<String> = Vec::new();
    let mut rest: &[char] = cs.as_slice();
    let mut more = true;
    proof {
        assert(texts(out@) + kept(split_on(rest@, ',')) =~= listed(s@));
    }
    while more
        invariant
            more ==> texts(out@) + kept(split_on(rest@, ',')) == listed(s@),
            !more ==> texts(out@) == listed(s@),
        decreases rest.len(), if more { 1int } else { 0int },
    {
        let k: usize = find_char(rest, ',');
        let ghost parts = split_on(rest@, ',');
        let ghost before = texts(out@);
        let piece = trim_chars(slice_subrange(rest, 0, k));
        assert(parts[0] =~= rest@.take(k as int));
        let ghost tail = if k < rest@.len() {
            split_on(rest@.skip(k + 1), ',')
        } else {
            Seq::empty()
        };
        assert(parts.drop_first() =~= tail);
        if piece.len() > 0 {
            out.push(string_of(piece));
            assert(texts(out@) =~= before.push(piece@));
            assert(texts(out@) + kept(tail) =~= before + kept(parts));
        }
        if k < rest.len() {
            assert(rest@.skip(k + 1) =~= rest@.subrange(k + 1, rest@.len() as int));
            rest = slice_subrange(rest, k + 1, rest.len());
        } else {
            more = false;
            assert(kept(tail) =~= Seq::empty());
            assert(texts(out@) =~= before + kept(parts));
        }
    }
    out
}

/// Whether `s` begins with `prefix`.
pub fn starts_with(s: &str, prefix: &str) -> (r: bool)
    ensures
        r == prefix@.is_prefix_of(s@),
{
    let a = chars_of(s);
    let b = chars_of(prefix);
    if a.len() < b.len() {
        return false;
    }
    let head = slice_subrange(a.as_slice(), 0, b.len());
    assert(head@ =~= s@.subrange(0, prefix@.len() as int));
    same_chars(head, b.as_slice())
}

/// Whether `s` starts with `prefix`, up to ASCII case.
pub open spec fn starts_ignore_case(s: Seq<char>, prefix: Seq<char>) -> bool {
    prefix.len() <= s.len() && lowered(s.take(prefix.len() as int)) == lowered(prefix)
}

/// What follows `prefix` in `s`, if `s` starts with it up to ASCII case.
pub fn strip_prefix_ignore_ascii_case(s: &[char], prefix: &str) -> (r: Option<Vec<char>>)
    ensures
        r is Some <==> starts_ignore_case(s@, prefix@),
        r matches Some(rest) ==> rest@ == s@.skip(prefix@.len() as int),
{
    let p = chars_of(prefix);
    if s.len() < p.len() {
        return None;
    }
    let head = lower_chars(slice_subrange(s, 0, p.len()));
    let want = lower_chars(p.as_slice());
    assert(s@.take(p@.len() as int) =~= s@.subrange(0, p@.len() as int));
    if same_chars(head.as_slice(), want.as_slice()) {
        assert(s@.skip(p@.len() as int) =~= s@.subrange(p@.len() as int, s@.len() as int));
        Some(slice_to_vec(slice_subrange(s, p.len(), s.len())))
    } else {
        None
    }
}

// ---------------------------------------------------------------------------
// Decimal numbers.
// ---------------------------------------------------------------------------

/// Whether `c` is an ASCII digit.
pub open spec fn is_digit(c: char) -> bool {
    '0' <= c && c <= '9'
}

/// Whether every character of `s` is an ASCII digit.
pub open spec fn all_digits(s: Seq<char>) -> bool {
    forall|i: int| 0 <= i < s.len() ==> is_digit(#[trigger] s[i])
}

/// The number that the digits `s` write down.
pub open spec fn digits_value(s: Seq<char>) -> nat
    decreases s.len(),
{
    if s.len() == 0 {
        0
    } else {
        digits_value(s.drop_last()) * 10 + ((s.last() as int) - 48) as nat
    }
}

/// The digits that write a number down, without leading zeros.
pub open spec fn decimal(n: nat) -> Seq<char>
    decreases n,
{
    let d = ((n % 10) + 48) as char;
    if n < 10 {
        seq![d]
    } else {
        decimal(n / 10).push(d)
    }
}

/// The number that `s` writes down: digits, with an optional `+` in front.
pub open spec fn parsed_number(s: Seq<char>) -> Option<nat> {
    let body = if s.len() > 1 && s[0] == '+' {
        s.drop_first()
    } else {
        s
    };
    if body.len() > 0 && all_digits(body) {
        Some(digits_value(body))
    } else {
        None
    }
}

/// Reading back a written number gives that number.
pub proof fn lemma_decimal_reads_back(n: nat)
    ensures
        decimal(n).len() > 0,
        all_digits(decimal(n)),
        digits_value(decimal(n)) == n,
        parsed_number(decimal(n)) == Some(n),
        is_trimmed(decimal(n)),
    decreases n,
{
    let d = ((n % 10) + 48) as char;
    assert(is_digit(d) && (d as int) - 48 == n % 10);
    if n < 10 {
        assert(decimal(n).drop_last() =~= Seq::<char>::empty());
        reveal_with_fuel(digits_value, 2);
    } else {
        lemma_decimal_reads_back(n / 10);
        assert(decimal(n).drop_last() =~= decimal(n / 10));
        assert(decimal(n)[0] == decimal(n / 10)[0]);
    }
    assert(is_digit(decimal(n)[0]));
}

/// The number that `cs` writes down, if it does and the number is at most `max`.
pub fn parse_number(cs: &[char], max: u64) -> (r: Option<u64>)
    ensures
        r matches Some(v) ==> parsed_number(cs@) == Some(v as nat) && v <= max,
        r is None ==> parsed_number(cs@) is None || parsed_number(cs@)->0 > max,
{
    let body: &[char] = if cs.len() > 1 && cs[0] == '+' {
        assert(cs@.drop_first() =~= cs@.subrange(1, cs@.len() as int));
        slice_subrange(cs, 1, cs.len())
    } else {
        cs
    };
    if body.len() == 0 {
        return None;
    }
    let mut acc: u64 = 0;
    let mut over = false;
    let mut i: usize = 0;
    while i < body.len()
        invariant
            i <= body.len(),
            0 < body.len(),
            parsed_number(cs@) == (if all_digits(body@) {
                Some(digits_value(body@))
            } else {
                None
            }),
            all_digits(body@.take(i as int)),
            over ==> digits_value(body@.take(i as int)) > max,
            !over ==> acc == digits_value(body@.take(i as int)) && acc <= max,
        decreases body.len() - i,
    {
        let c = body[i];
        if !('0' <= c && c <= '9') {
            assert(!is_digit(body@[i as int]));
            return None;
        }
        let d: u64 = (c as u32 - 48) as u64;
        let ghost before = body@.take(i as int);
        i = i + 1;
        proof {
            assert(body@.take(i as int).drop_last() =~= before);
            assert(body@.take(i as int).last() == c);
            assert forall|j: int| 0 <= j < i implies is_digit(#[trigger] body@.take(i as int)[j]) by {
                if j < i - 1 {
                    assert(before[j] == body@.take(i as int)[j]);
                }
            }
        }
        if !over {
            if d > max || acc > (max - d) / 10 {
                over = true;
            } else {
                acc = acc * 10 + d;
            }
        }
    }
    assert(body@.take(i as int) =~= body@);
    if over {
        None
    } else {
        Some(acc)
    }
}

/// The digits of `n`.
pub fn decimal_text(n: u64) -> (r: String)
    ensures
        r@ == decimal(n as nat),
    decreases n,
{
    let d: char = ((n % 10) as u8 + 48) as char;
    let mut out = if n < 10 {
        String::new()
    } else {
        decimal_text(n / 10)
    };
    out.push(d);
    assert(out@ =~= decimal(n as nat));
    out
}

/// The digits of an integer, after a sign where it is negative.
pub open spec fn int_digits(n: int) -> Seq<char> {
    if n < 0 {
        seq!['-'] + decimal((-n) as nat)
    } else {
        decimal(n as nat)
    }
}

/// Two integers with the same digits are the same.
pub proof fn lemma_int_digits_injective(a: int, b: int)
    requires
        int_digits(a) == int_digits(b),
    ensures
        a == b,
{
    let x = if a < 0 { -a } else { a };
    let y = if b < 0 { -b } else { b };
    lemma_decimal_reads_back(x as nat);
    lemma_decimal_reads_back(y as nat);
    assert(is_digit(decimal(x as nat)[0]) && is_digit(decimal(y as nat)[0]));
    if a < 0 {
        assert(int_digits(a)[0] == '-');
        assert(int_digits(a).drop_first() =~= decimal(x as nat));
    }
    if b < 0 {
        assert(int_digits(b)[0] == '-');
        assert(int_digits(b).drop_first() =~= decimal(y as nat));
    }
}

/// The digits of `n`, after a sign where it is negative.
pub fn int_text(n: i64) -> (r: String)
    ensures
        r@ == int_digits(n as int),
{
    if n < 0 {
        let size: u64 = (-(n + 1)) as u64 + 1;
        let digits = decimal_text(size);
        let mut out = String::new();
        out.push('-');
        out.append(digits.as_str());
        assert(out@ =~= int_digits(n as int));
        out
    } else {
        decimal_text(n as u64)
    }
}

} // verus!
