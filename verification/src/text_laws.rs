//! What the handling of texts promises: case, white space, lists and numbers.
use crate::text::{
    all_digits, decimal, digits_value, first_at, int_digits, is_digit, is_white, join, kept,
    lemma_decimal_reads_back, lemma_first_at, lemma_join_first, listed, lowered, parsed_number,
    replaced, split_on, starts_ignore_case, trim, trim_end, trim_start, uppered,
};
use vstd::prelude::*;

verus! {

// ---------------------------------------------------------------------------
// Characters.
// ---------------------------------------------------------------------------

/// Small letters take the place of capital ones, one for one. Every other character stays
/// as it is, where it is.
pub proof fn law_lowering_changes_only_capitals(s: Seq<char>)
    ensures
        lowered(s).len() == s.len(),
        forall|i: int|
            0 <= i < s.len() ==> #[trigger] lowered(s)[i] as int == (if 65 <= s[i] as int <= 90 {
                s[i] as int + 32
            } else {
                s[i] as int
            }),
{
}

/// Capital letters take the place of small ones, one for one. Every other character stays
/// as it is, where it is.
pub proof fn law_raising_changes_only_small_letters(s: Seq<char>)
    ensures
        uppered(s).len() == s.len(),
        forall|i: int|
            0 <= i < s.len() ==> #[trigger] uppered(s)[i] as int == (if 97 <= s[i] as int <= 122 {
                s[i] as int - 32
            } else {
                s[i] as int
            }),
{
}

/// Replacing one character by another leaves every other character where it is.
pub proof fn law_replacing_changes_one_character(s: Seq<char>, from: char, to: char)
    ensures
        replaced(s, from, to).len() == s.len(),
        forall|i: int|
            0 <= i < s.len() ==> (s[i] == from ==> #[trigger] replaced(s, from, to)[i] == to) && (
            s[i] != from ==> replaced(s, from, to)[i] == s[i]),
{
}

/// The white space of Unicode is made of these characters.
pub proof fn law_white_space_is_these(c: char)
    ensures
        is_white(c) <==> seq![
            9int, 10, 11, 12, 13, 32, 133, 160, 5760, 8192, 8193, 8194, 8195, 8196, 8197, 8198,
            8199, 8200, 8201, 8202, 8232, 8233, 8239, 8287, 12288,
        ].contains(c as int),
{
    let w = seq![
        9int, 10, 11, 12, 13, 32, 133, 160, 5760, 8192, 8193, 8194, 8195, 8196, 8197, 8198, 8199,
        8200, 8201, 8202, 8232, 8233, 8239, 8287, 12288,
    ];
    assert(w[0] == 9 && w[1] == 10 && w[2] == 11 && w[3] == 12 && w[4] == 13 && w[5] == 32);
    assert(w[6] == 133 && w[7] == 160 && w[8] == 5760 && w[9] == 8192 && w[10] == 8193);
    assert(w[11] == 8194 && w[12] == 8195 && w[13] == 8196 && w[14] == 8197 && w[15] == 8198);
    assert(w[16] == 8199 && w[17] == 8200 && w[18] == 8201 && w[19] == 8202 && w[20] == 8232);
    assert(w[21] == 8233 && w[22] == 8239 && w[23] == 8287 && w[24] == 12288);
}

// ---------------------------------------------------------------------------
// White space at the ends.
// ---------------------------------------------------------------------------

proof fn lemma_trim_start_skips(s: Seq<char>) -> (n: int)
    ensures
        0 <= n <= s.len(),
        trim_start(s) == s.skip(n),
        forall|k: int| 0 <= k < n ==> is_white(#[trigger] s[k]),
        n < s.len() ==> !is_white(s[n]),
    decreases s.len(),
{
    if s.len() > 0 && is_white(s[0]) {
        let d = s.drop_first();
        let m = lemma_trim_start_skips(d);
        assert forall|k: int| 0 <= k < m + 1 implies is_white(#[trigger] s[k]) by {
            if k > 0 {
                assert(d[k - 1] == s[k]);
            }
        }
        assert(d.skip(m) =~= s.skip(m + 1));
        if m < d.len() {
            assert(d[m] == s[m + 1]);
        }
        m + 1
    } else {
        assert(s.skip(0) =~= s);
        0
    }
}

proof fn lemma_trim_end_takes(s: Seq<char>) -> (n: int)
    ensures
        0 <= n <= s.len(),
        trim_end(s) == s.take(n),
        forall|k: int| n <= k < s.len() ==> is_white(#[trigger] s[k]),
        n > 0 ==> !is_white(s[n - 1]),
    decreases s.len(),
{
    if s.len() > 0 && is_white(s.last()) {
        let d = s.drop_last();
        let m = lemma_trim_end_takes(d);
        assert forall|k: int| m <= k < s.len() implies is_white(#[trigger] s[k]) by {
            if k < d.len() {
                assert(d[k] == s[k]);
            }
        }
        assert(d.take(m) =~= s.take(m));
        m
    } else {
        assert(s.take(s.len() as int) =~= s);
        s.len() as int
    }
}

/// Trimming takes white space off the ends and nothing else: what is left is a stretch of
/// the text, all that stands before or after it is white, and it neither begins nor ends
/// with white space.
pub proof fn law_trimming_takes_off_white_ends(s: Seq<char>) -> (ends: (int, int))
    ensures
        0 <= ends.0 <= ends.1 <= s.len(),
        trim(s) == s.subrange(ends.0, ends.1),
        forall|k: int| 0 <= k < ends.0 || ends.1 <= k < s.len() ==> is_white(#[trigger] s[k]),
        ends.0 < ends.1 ==> !is_white(s[ends.0]) && !is_white(s[ends.1 - 1]),
{
    let i = lemma_trim_start_skips(s);
    let t = s.skip(i);
    let n = lemma_trim_end_takes(t);
    assert(t.take(n) =~= s.subrange(i, i + n));
    assert forall|k: int| 0 <= k < i || i + n <= k < s.len() implies is_white(#[trigger] s[k]) by {
        if k >= i + n {
            assert(t[k - i] == s[k]);
        }
    }
    if n > 0 {
        assert(t[n - 1] == s[i + n - 1]);
        assert(t[0] == s[i]);
    }
    (i, i + n)
}

// ---------------------------------------------------------------------------
// Lists.
// ---------------------------------------------------------------------------

/// Joining puts the separator between each two pieces that stand next to each other, and
/// nothing else.
pub proof fn law_joining_puts_separators_between(
    parts: Seq<Seq<char>>,
    p: Seq<char>,
    sep: Seq<char>,
)
    ensures
        join(Seq::empty(), sep) == Seq::<char>::empty(),
        join(seq![p], sep) == p,
        parts.len() > 0 ==> join(parts.push(p), sep) == join(parts, sep) + sep + p,
        parts.len() > 0 ==> join(seq![p] + parts, sep) == p + sep + join(parts, sep),
{
    assert(parts.push(p).drop_last() =~= parts);
    if parts.len() > 0 {
        let all = seq![p] + parts;
        lemma_join_first(all, sep);
        assert(all.drop_first() =~= parts);
    }
}

/// Splitting undoes joining: the pieces, put together with the character between them,
/// are the text again, and no piece has that character in it.
pub proof fn law_splitting_keeps_every_piece(s: Seq<char>, c: char)
    ensures
        split_on(s, c).len() > 0,
        join(split_on(s, c), seq![c]) == s,
        forall|i: int| 0 <= i < split_on(s, c).len()
            ==> !(#[trigger] split_on(s, c)[i]).contains(c),
    decreases s.len(),
{
    lemma_first_at(s, c);
    let k = first_at(s, c);
    let parts = split_on(s, c);
    if k < s.len() {
        let rest = split_on(s.skip(k + 1), c);
        law_splitting_keeps_every_piece(s.skip(k + 1), c);
        law_joining_puts_separators_between(rest, s.take(k), seq![c]);
        assert(s =~= s.take(k) + seq![c] + s.skip(k + 1));
        assert forall|i: int| 0 <= i < parts.len() implies !(#[trigger] parts[i]).contains(c) by {
            if i == 0 {
                if parts[0].contains(c) {
                    let j = choose|j: int| 0 <= j < s.take(k).len() && s.take(k)[j] == c;
                    assert(s[j] == c);
                }
            } else {
                assert(parts[i] == rest[i - 1]);
            }
        }
    } else {
        law_joining_puts_separators_between(Seq::empty(), s, seq![c]);
        assert forall|i: int| 0 <= i < parts.len() implies !(#[trigger] parts[i]).contains(c) by {
            assert(parts[i] == s);
        }
    }
}

proof fn lemma_kept_adds(a: Seq<Seq<char>>, b: Seq<Seq<char>>)
    ensures
        kept(a + b) == kept(a) + kept(b),
    decreases a.len(),
{
    if a.len() == 0 {
        assert(a + b =~= b);
        assert(kept(a) + kept(b) =~= kept(b));
    } else {
        lemma_kept_adds(a.drop_first(), b);
        assert((a + b).drop_first() =~= a.drop_first() + b);
        assert(kept(a + b) =~= kept(a) + kept(b));
    }
}

/// Of the pieces of a list, each counts in its turn, trimmed, unless nothing is left of
/// it.
pub proof fn law_pieces_count_unless_empty(parts: Seq<Seq<char>>, p: Seq<char>)
    ensures
        kept(Seq::empty()) == Seq::<Seq<char>>::empty(),
        trim(p).len() == 0 ==> kept(parts.push(p)) == kept(parts),
        trim(p).len() > 0 ==> kept(parts.push(p)) == kept(parts).push(trim(p)),
{
    lemma_kept_adds(parts, seq![p]);
    assert(parts.push(p) =~= parts + seq![p]);
    assert(seq![p].drop_first() =~= Seq::<Seq<char>>::empty());
    assert(kept(Seq::<Seq<char>>::empty()) =~= Seq::<Seq<char>>::empty());
    if trim(p).len() == 0 {
        assert(kept(parts) + kept(seq![p]) =~= kept(parts));
    } else {
        assert(kept(parts) + kept(seq![p]) =~= kept(parts).push(trim(p)));
    }
}

proof fn lemma_first_at_in_head(s: Seq<char>, t: Seq<char>, c: char)
    ensures
        s.contains(c) ==> first_at(s + t, c) == first_at(s, c),
        !s.contains(c) && t.len() > 0 && t[0] == c ==> first_at(s + t, c) == s.len(),
{
    lemma_first_at(s, c);
    let k = first_at(s, c);
    if s.contains(c) {
        crate::text::lemma_first_at_is(s + t, c, k);
    } else if t.len() > 0 && t[0] == c {
        crate::text::lemma_first_at_is(s + t, c, s.len() as int);
    }
}

proof fn lemma_split_adds(s: Seq<char>, t: Seq<char>, c: char)
    ensures
        split_on(s + seq![c] + t, c) == split_on(s, c) + split_on(t, c),
    decreases s.len(),
{
    let all = s + seq![c] + t;
    lemma_first_at(s, c);
    lemma_first_at_in_head(s, seq![c] + t, c);
    assert(all =~= s + (seq![c] + t));
    let k = first_at(s, c);
    if s.contains(c) {
        let rest = s.skip(k + 1);
        lemma_split_adds(rest, t, c);
        assert(all.take(k) =~= s.take(k));
        assert(all.skip(k + 1) =~= rest + seq![c] + t);
        assert(split_on(all, c) =~= split_on(s, c) + split_on(t, c));
    } else {
        assert(all.take(s.len() as int) =~= s);
        assert(all.skip(s.len() as int + 1) =~= t);
        assert(split_on(all, c) =~= split_on(s, c) + split_on(t, c));
    }
}

/// A list of two lists, with a comma between them, has the values of the one and after
/// them those of the other. A text without a comma is a list of one value, or of none,
/// where it is all white.
pub proof fn law_lists_are_read_value_by_value(a: Seq<char>, b: Seq<char>)
    ensures
        listed(a + seq![','] + b) == listed(a) + listed(b),
        !a.contains(',') && trim(a).len() > 0 ==> listed(a) == seq![trim(a)],
        !a.contains(',') && trim(a).len() == 0 ==> listed(a) == Seq::<Seq<char>>::empty(),
{
    lemma_split_adds(a, b, ',');
    lemma_kept_adds(split_on(a, ','), split_on(b, ','));
    if !a.contains(',') {
        lemma_first_at(a, ',');
        assert(split_on(a, ',') =~= Seq::<Seq<char>>::empty().push(a));
        law_pieces_count_unless_empty(Seq::empty(), a);
        assert(kept(Seq::<Seq<char>>::empty()).push(trim(a)) =~= seq![trim(a)]);
    }
}

/// A text starts with another, but for case, just where each of the other's characters
/// stands in it at the same place, but for case.
pub proof fn law_starts_are_told_without_case(s: Seq<char>, prefix: Seq<char>)
    ensures
        starts_ignore_case(s, prefix) <==> prefix.len() <= s.len() && (forall|i: int|
            0 <= i < prefix.len() ==> lowered(s)[i] == #[trigger] lowered(prefix)[i]),
{
    if prefix.len() <= s.len() {
        let head = s.take(prefix.len() as int);
        assert forall|i: int| 0 <= i < prefix.len() implies #[trigger] lowered(head)[i] == lowered(
            s,
        )[i] by {}
        if forall|i: int| 0 <= i < prefix.len() ==> lowered(s)[i] == #[trigger] lowered(prefix)[i] {
            assert(lowered(head) =~= lowered(prefix));
        }
        if lowered(head) == lowered(prefix) {
            assert forall|i: int| 0 <= i < prefix.len() implies lowered(s)[i]
                == #[trigger] lowered(prefix)[i] by {
                assert(lowered(head)[i] == lowered(prefix)[i]);
            }
        }
    }
}

// ---------------------------------------------------------------------------
// Numbers.
// ---------------------------------------------------------------------------

/// Digits count for ten times as much for each digit that follows them.
pub proof fn law_digits_count_by_tens(s: Seq<char>, d: char)
    requires
        '0' <= d <= '9',
    ensures
        digits_value(Seq::empty()) == 0,
        digits_value(s.push(d)) == 10 * digits_value(s) + (d as int - '0' as int),
{
    assert(s.push(d).drop_last() =~= s);
}

proof fn lemma_no_leading_zero(n: nat)
    ensures
        n > 0 ==> decimal(n)[0] != '0',
        n < 10 ==> decimal(n).len() == 1,
    decreases n,
{
    if n >= 10 {
        lemma_no_leading_zero(n / 10);
        lemma_decimal_reads_back(n / 10);
        assert(decimal(n)[0] == decimal(n / 10)[0]);
    }
}

/// A number is written with digits that read as that number, and with no zero in front,
/// unless it is zero itself.
pub proof fn law_numbers_are_written_shortly(n: nat)
    ensures
        decimal(n).len() > 0,
        forall|i: int| 0 <= i < decimal(n).len() ==> '0' <= #[trigger] decimal(n)[i] <= '9',
        digits_value(decimal(n)) == n,
        decimal(n)[0] == '0' ==> n == 0 && decimal(n).len() == 1,
{
    lemma_decimal_reads_back(n);
    lemma_no_leading_zero(n);
    assert forall|i: int| 0 <= i < decimal(n).len() implies '0' <= #[trigger] decimal(n)[i]
        <= '9' by {
        assert(is_digit(decimal(n)[i]));
    }
}

/// A number is read from digits, of which there is at least one, with or without a plus
/// in front. Nothing else is a number.
pub proof fn law_numbers_are_read_from_digits(s: Seq<char>)
    ensures
        s.len() > 0 && (forall|i: int| 0 <= i < s.len() ==> '0' <= #[trigger] s[i] <= '9')
            ==> parsed_number(s) == Some(digits_value(s)) && parsed_number(seq!['+'] + s) == Some(
            digits_value(s),
        ),
        parsed_number(s) is Some ==> s.len() > 0 && ('0' <= s[0] <= '9' || (s[0] == '+' && s.len()
            > 1)) && (forall|i: int| 1 <= i < s.len() ==> '0' <= #[trigger] s[i] <= '9'),
{
    if s.len() > 0 && (forall|i: int| 0 <= i < s.len() ==> '0' <= #[trigger] s[i] <= '9') {
        assert(all_digits(s));
        assert('0' <= s[0] <= '9');
        assert((seq!['+'] + s).drop_first() =~= s);
    }
    if parsed_number(s) is Some {
        let signed = s.len() > 1 && s[0] == '+';
        let body = if signed {
            s.drop_first()
        } else {
            s
        };
        assert forall|i: int| 0 <= i < s.len() && (signed ==> i > 0) implies '0'
            <= #[trigger] s[i] <= '9' by {
            let j = if signed {
                i - 1
            } else {
                i
            };
            assert(body[j] == s[i]);
            assert(is_digit(body[j]));
        }
    }
}

/// An integer is written as its size, after a minus where it is below zero.
pub proof fn law_integers_are_written_with_their_sign(n: nat)
    ensures
        int_digits(n as int) == decimal(n),
        n > 0 ==> int_digits(-n) == seq!['-'] + decimal(n),
{
}

} // verus!
