//! Laws of texts: trimming, searching, cutting into lines and words, joining, and
//! numerals.

use vstd::prelude::*;

use crate::text::{
    at_newline, contains_text, decimal, ends_with, find_from, joined, lemma_find_from, lines_of,
    occurs_at, on_one_line, split_where, starts_with, strip_cr, trimmed, white_space, words_of,
};
use crate::text_lemmas::{
    blank, lemma_split_where_at, lemma_split_whole, lemma_trim_end, lemma_trim_start,
    lemma_trimmed_pad, lemma_trimmed_same, lemma_words_at, lemma_words_blank, lemma_words_solid,
    solid,
};

verus! {

// ── Trimming ────────────────────────────────────────────────────────────────

/// White space around a text is trimmed off, and nothing else is.
pub proof fn law_trimming_takes_white_space_off(
    before: Seq<char>,
    text: Seq<char>,
    after: Seq<char>,
)
    requires
        blank(before),
        blank(after),
        text.len() > 0 ==> !white_space(text.first()) && !white_space(text.last()),
    ensures
        trimmed(before + text + after) == text,
{
    lemma_trimmed_pad(before, text, after);
    lemma_trimmed_same(text);
}

/// Every text is some white space, what it is trimmed to, and some white space:
/// returns how much goes before.
pub proof fn law_trimmed_text_is_the_middle(s: Seq<char>) -> (k: int)
    ensures
        0 <= k <= k + trimmed(s).len() <= s.len(),
        s == s.take(k) + trimmed(s) + s.skip(k + trimmed(s).len()),
        blank(s.take(k)),
        blank(s.skip(k + trimmed(s).len())),
        trimmed(s).len() > 0 ==> !white_space(trimmed(s).first()) && !white_space(
            trimmed(s).last(),
        ),
{
    let t = crate::text::trim_start(s);
    lemma_trim_start(s);
    lemma_trim_end(t);
    let k = s.len() - t.len();
    let m = trimmed(s).len() as int;
    assert(s =~= s.take(k) + trimmed(s) + s.skip(k + m)) by {
        assert(t =~= s.skip(k));
        assert(trimmed(s) =~= t.take(m));
    }
    lemma_behind_is_blank(t);
    assert(s.skip(k + m) =~= t.skip(m));
    k
}

/// What is trimmed off the end of a text is white space.
proof fn lemma_behind_is_blank(t: Seq<char>)
    ensures
        blank(t.skip(crate::text::trim_end(t).len() as int)),
    decreases t.len(),
{
    let m = crate::text::trim_end(t).len() as int;
    if t.len() > 0 && white_space(t.last()) {
        let front = t.drop_last();
        lemma_behind_is_blank(front);
        lemma_trim_end(front);
        assert forall|i: int| 0 <= i < t.skip(m).len() implies white_space(
            #[trigger] t.skip(m)[i],
        ) by {
            if i < front.skip(m).len() {
                assert(front.skip(m)[i] == t.skip(m)[i]);
            } else {
                assert(t.skip(m)[i] == t.last());
            }
        }
    }
}

// ── Searching ───────────────────────────────────────────────────────────────

/// A part of a text stands in it, where it stands.
pub proof fn law_a_part_is_found(before: Seq<char>, part: Seq<char>, after: Seq<char>)
    ensures
        occurs_at(before + part + after, part, before.len() as int),
        contains_text(before + part + after, part),
        starts_with(part + after, part),
        ends_with(before + part, part),
{
    let s = before + part + after;
    let k = before.len() as int;
    assert(s.subrange(k, k + part.len()) =~= part);
    assert(occurs_at(s, part, k));
    assert((part + after).subrange(0, part.len() as int) =~= part);
    assert((before + part).subrange(k, k + part.len()) =~= part);
}

/// What is found in a text is a part of it, at that place.
pub proof fn law_what_is_found_is_a_part(s: Seq<char>, part: Seq<char>, i: int)
    ensures
        occurs_at(s, part, i) ==> 0 <= i && i + part.len() <= s.len() && s == s.take(i) + part
            + s.skip(i + part.len()),
        starts_with(s, part) ==> s == part + s.skip(part.len() as int),
        ends_with(s, part) ==> s == s.take(s.len() - part.len()) + part,
{
    if occurs_at(s, part, i) {
        assert(s =~= s.take(i) + s.subrange(i, i + part.len()) + s.skip(i + part.len()));
    }
    if starts_with(s, part) {
        assert(s =~= s.subrange(0, part.len() as int) + s.skip(part.len() as int));
    }
    if ends_with(s, part) {
        let k = s.len() - part.len();
        assert(s =~= s.take(k) + s.subrange(k, k + part.len()));
    }
}

/// A text that stands nowhere in another is not contained in it, and one that is
/// contained stands somewhere: returns what goes before it.
pub proof fn law_contained_text_stands_somewhere(s: Seq<char>, part: Seq<char>) -> (before: Seq<
    char,
>)
    requires
        contains_text(s, part),
    ensures
        before.len() + part.len() <= s.len(),
        s == before + part + s.skip((before.len() + part.len()) as int),
{
    let i = choose|i: int| occurs_at(s, part, i);
    law_what_is_found_is_a_part(s, part, i);
    s.take(i)
}

/// A search finds the first occurrence from its start on.
pub proof fn law_search_finds_the_first(
    before: Seq<char>,
    part: Seq<char>,
    after: Seq<char>,
    from: int,
)
    requires
        0 <= from <= before.len(),
    ensures
        find_from(before + part + after, part, from) matches Some(k) && from <= k <= before.len()
            && occurs_at(before + part + after, part, k) && forall|j: int|
            from <= j < k ==> !occurs_at(before + part + after, part, j),
{
    law_a_part_is_found(before, part, after);
    lemma_find_from(before + part + after, part, from);
}

// ── Lines and words ─────────────────────────────────────────────────────────

/// A text of one line that a newline ends, and more behind it: the line without
/// one carriage return at its end, then the lines of the rest.
pub proof fn law_a_newline_ends_a_line(line: Seq<char>, rest: Seq<char>)
    requires
        !line.contains('\n'),
    ensures
        line.len() == 0 || line.last() != '\r' ==> lines_of(line.push('\n') + rest) == seq![line]
            + lines_of(rest),
        lines_of(line.push('\r').push('\n') + rest) == seq![line] + lines_of(rest),
{
    lemma_line_and_rest(line, rest);
    let longer = line.push('\r');
    assert(!longer.contains('\n')) by {
        if longer.contains('\n') {
            let i = longer.index_of('\n');
            assert(longer[i] == '\n');
            assert(line[i] == '\n');
        }
    }
    lemma_line_and_rest(longer, rest);
    assert(longer.drop_last() =~= line);
}

/// The lines of a line and what follows it.
pub(crate) proof fn lemma_line_and_rest(line: Seq<char>, rest: Seq<char>)
    requires
        !line.contains('\n'),
    ensures
        lines_of(line.push('\n') + rest) == seq![crate::text::without_cr(line)] + lines_of(rest),
{
    let sep = at_newline();
    lemma_split_where_at(line, '\n', rest, sep);
    assert forall|i: int| 0 <= i < line.len() implies !sep(#[trigger] line[i]) by {
        assert(line.contains(line[i]));
    }
    lemma_split_whole(line, sep);
    crate::text::lemma_split_where_some(rest, sep);
    let all = split_where(line.push('\n') + rest, sep);
    let after = split_where(rest, sep);
    assert(all =~= seq![line] + after);
    assert(all.last() == after.last());
    assert(all.drop_last() =~= seq![line] + after.drop_last());
    assert(all.drop_last().map_values(strip_cr()) =~= seq![crate::text::without_cr(line)]
        + after.drop_last().map_values(strip_cr()));
    assert(lines_of(line.push('\n') + rest) =~= seq![crate::text::without_cr(line)] + lines_of(
        rest,
    ));
}

/// A text without a newline is one line, and an empty one is none.
pub proof fn law_the_last_line_needs_no_end(line: Seq<char>)
    requires
        !line.contains('\n'),
    ensures
        lines_of(line) == if line.len() == 0 {
            Seq::<Seq<char>>::empty()
        } else {
            seq![line]
        },
{
    let sep = at_newline();
    assert forall|i: int| 0 <= i < line.len() implies !sep(#[trigger] line[i]) by {
        assert(line.contains(line[i]));
    }
    lemma_split_whole(line, sep);
    let pieces = split_where(line, sep);
    assert(pieces.drop_last().map_values(strip_cr()) =~= Seq::<Seq<char>>::empty());
    assert(lines_of(line) =~= if line.len() == 0 {
        Seq::<Seq<char>>::empty()
    } else {
        seq![line]
    });
}

/// White space parts words, and what holds none is one word.
pub proof fn law_white_space_parts_words(a: Seq<char>, space: Seq<char>, word: Seq<char>)
    requires
        blank(space),
        space.len() > 0,
        solid(word),
        word.len() > 0,
    ensures
        words_of(a + space + word) == words_of(a).push(word),
        words_of(a + space) == words_of(a),
        words_of(space).len() == 0,
        words_of(word) == seq![word],
{
    let front = space.drop_last();
    let last = space[space.len() - 1];
    let none = Seq::<char>::empty();
    assert(blank(front)) by {
        assert forall|i: int| 0 <= i < front.len() implies white_space(#[trigger] front[i]) by {
            assert(front[i] == space[i]);
        }
    }
    assert(white_space(last));
    lemma_words_blank(space);
    lemma_words_solid(word);
    lemma_words_padded(a, front);
    lemma_words_at(a + front, last, word);
    assert((a + front).push(last) + word =~= a + space + word);
    assert(words_of(a) + seq![word] =~= words_of(a).push(word));
    lemma_words_padded(a, space);
}

/// White space behind a text adds no word.
proof fn lemma_words_padded(a: Seq<char>, space: Seq<char>)
    requires
        blank(space),
    ensures
        words_of(a + space) == words_of(a),
    decreases space.len(),
{
    if space.len() == 0 {
        assert(a + space =~= a);
    } else {
        let front = space.drop_last();
        let last = space[space.len() - 1];
        let none = Seq::<char>::empty();
        assert(blank(front)) by {
            assert forall|i: int| 0 <= i < front.len() implies white_space(#[trigger] front[i]) by {
                assert(front[i] == space[i]);
            }
        }
        assert(white_space(last));
        lemma_words_padded(a, front);
        lemma_words_at(a + front, last, none);
        assert((a + front).push(last) + none =~= a + space);
        lemma_words_blank(none);
        assert(words_of(a + front) + Seq::<Seq<char>>::empty() =~= words_of(a + front));
    }
}

// ── Joining ─────────────────────────────────────────────────────────────────

/// A separator goes between the parts that are joined, and only there.
pub proof fn law_separators_go_between_parts(
    a: Seq<Seq<char>>,
    b: Seq<Seq<char>>,
    part: Seq<char>,
    sep: Seq<char>,
)
    requires
        a.len() > 0,
        b.len() > 0,
    ensures
        joined(a + b, sep) == joined(a, sep) + sep + joined(b, sep),
        joined(seq![part], sep) == part,
        joined(Seq::empty(), sep) == Seq::<char>::empty(),
    decreases b.len(),
{
    assert((a + b).drop_last() =~= a + b.drop_last());
    assert((a + b).last() == b.last());
    if b.len() == 1 {
        assert(b.drop_last() =~= Seq::empty());
        assert(a + b.drop_last() =~= a);
        assert(joined(a + b, sep) =~= joined(a, sep) + sep + joined(b, sep));
    } else {
        law_separators_go_between_parts(a, b.drop_last(), part, sep);
        assert(joined(a + b, sep) =~= joined(a, sep) + sep + joined(b, sep));
    }
}

/// A text is put on one line by a space for each newline; every other character
/// stays, in its place.
pub proof fn law_one_line_keeps_all_but_newlines(s: Seq<char>, i: int)
    requires
        0 <= i < s.len(),
    ensures
        on_one_line(s).len() == s.len(),
        s[i] == '\n' ==> on_one_line(s)[i] == ' ',
        s[i] != '\n' ==> on_one_line(s)[i] == s[i],
{
}

// ── Numerals ────────────────────────────────────────────────────────────────

/// The number that a text of decimal digits stands for.
pub open spec fn number_in(s: Seq<char>) -> int
    decreases s.len(),
{
    if s.len() == 0 {
        0
    } else {
        10 * number_in(s.drop_last()) + (s.last() as u32 - 0x30)
    }
}

/// A numeral is made of decimal digits, without a zero in front, and stands for
/// its number.
pub proof fn law_numerals_stand_for_their_numbers(n: int)
    requires
        n >= 0,
    ensures
        number_in(decimal(n)) == n,
        decimal(n).len() > 0,
        decimal(n)[0] == '0' ==> n == 0 && decimal(n).len() == 1,
        forall|i: int| 0 <= i < decimal(n).len() ==> 0x30 <= #[trigger] decimal(n)[i] as u32 <= 0x39,
    decreases n,
{
    if n < 10 {
        assert(decimal(n).drop_last() =~= Seq::empty());
        assert(number_in(decimal(n).drop_last()) == 0);
        assert(decimal(n).last() as u32 == 0x30 + n);
    } else {
        let front = decimal(n / 10);
        law_numerals_stand_for_their_numbers(n / 10);
        assert(decimal(n).drop_last() =~= front);
        assert(decimal(n).last() as u32 == 0x30 + n % 10);
        assert forall|i: int| 0 <= i < decimal(n).len() implies 0x30 <= #[trigger] decimal(
            n,
        )[i] as u32 <= 0x39 by {
            if i < front.len() {
                assert(decimal(n)[i] == front[i]);
            }
        }
        assert(decimal(n)[0] == front[0]);
    }
}

} // verus!
