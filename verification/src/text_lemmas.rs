//! Facts about texts: what trimming leaves, and how words and pieces of a text
//! come from those of its parts.

use vstd::prelude::*;

use crate::text::{
    at_white_space, lemma_filter_push, lemma_split_where_some, non_empty, split_where, trim_end,
    trim_start, trimmed, white_space, words_of,
};

verus! {

/// Whether a text is white space throughout.
pub open spec fn blank(s: Seq<char>) -> bool {
    forall|i: int| 0 <= i < s.len() ==> white_space(#[trigger] s[i])
}

/// Whether a text holds no white space.
pub open spec fn solid(s: Seq<char>) -> bool {
    forall|i: int| 0 <= i < s.len() ==> !white_space(#[trigger] s[i])
}

// ── Trimming ────────────────────────────────────────────────────────────────

/// What is left of a text once its leading white space is gone.
pub proof fn lemma_trim_start(s: Seq<char>)
    ensures
        trim_start(s).len() > 0 ==> !white_space(trim_start(s).first()),
        trim_start(s).len() <= s.len(),
        trim_start(s) == s.skip(s.len() - trim_start(s).len()),
        blank(s.take(s.len() - trim_start(s).len())),
    decreases s.len(),
{
    if s.len() > 0 && white_space(s.first()) {
        let rest = s.drop_first();
        lemma_trim_start(rest);
        let n = s.len() - trim_start(s).len();
        assert(rest.skip(n - 1) =~= s.skip(n));
        assert forall|i: int| 0 <= i < n implies white_space(#[trigger] s.take(n)[i]) by {
            if i > 0 {
                assert(s.take(n)[i] == rest.take(n - 1)[i - 1]);
            }
        }
    } else {
        assert(s.skip(0) =~= s);
    }
}

/// What is left of a text once its trailing white space is gone.
pub proof fn lemma_trim_end(s: Seq<char>)
    ensures
        trim_end(s).len() > 0 ==> !white_space(trim_end(s).last()),
        trim_end(s).len() <= s.len(),
        trim_end(s) == s.take(trim_end(s).len() as int),
    decreases s.len(),
{
    if s.len() > 0 && white_space(s.last()) {
        lemma_trim_end(s.drop_last());
        let n = trim_end(s).len() as int;
        assert(s.drop_last().take(n) =~= s.take(n));
    } else {
        assert(s.take(s.len() as int) =~= s);
    }
}

/// A trimmed text neither begins nor ends with white space.
pub proof fn lemma_trimmed_ends(s: Seq<char>)
    ensures
        trimmed(s).len() > 0 ==> !white_space(trimmed(s).first()) && !white_space(
            trimmed(s).last(),
        ),
{
    lemma_trim_start(s);
    lemma_trim_end(trim_start(s));
}

/// A text that neither begins nor ends with white space is trimmed already.
pub proof fn lemma_trimmed_same(s: Seq<char>)
    requires
        s.len() > 0 ==> !white_space(s.first()) && !white_space(s.last()),
    ensures
        trimmed(s) == s,
{
}

/// White space after a text does not change what it is trimmed to.
pub proof fn lemma_trim_end_pad(s: Seq<char>, pad: Seq<char>)
    requires
        blank(pad),
    ensures
        trim_end(s + pad) == trim_end(s),
    decreases pad.len(),
{
    if pad.len() > 0 {
        assert((s + pad).drop_last() =~= s + pad.drop_last());
        assert((s + pad).last() == pad[pad.len() - 1]);
        assert forall|i: int| 0 <= i < pad.drop_last().len() implies white_space(
            #[trigger] pad.drop_last()[i],
        ) by {
            assert(pad.drop_last()[i] == pad[i]);
        }
        lemma_trim_end_pad(s, pad.drop_last());
    } else {
        assert(s + pad =~= s);
    }
}

/// White space before a text does not change what it is trimmed to.
pub proof fn lemma_trim_start_pad(pad: Seq<char>, s: Seq<char>)
    requires
        blank(pad),
    ensures
        trim_start(pad + s) == trim_start(s),
    decreases pad.len(),
{
    if pad.len() > 0 {
        assert((pad + s).drop_first() =~= pad.drop_first() + s);
        assert((pad + s).first() == pad[0]);
        assert forall|i: int| 0 <= i < pad.drop_first().len() implies white_space(
            #[trigger] pad.drop_first()[i],
        ) by {
            assert(pad.drop_first()[i] == pad[i + 1]);
        }
        lemma_trim_start_pad(pad.drop_first(), s);
    } else {
        assert(pad + s =~= s);
    }
}

/// A blank text is trimmed to nothing.
pub proof fn lemma_trimmed_blank(s: Seq<char>)
    requires
        blank(s),
    ensures
        trimmed(s).len() == 0,
{
    let e = Seq::<char>::empty();
    lemma_trim_start_pad(s, e);
    assert(s + e =~= s);
}

/// White space around a text does not change what it is trimmed to.
pub proof fn lemma_trimmed_pad(before: Seq<char>, s: Seq<char>, after: Seq<char>)
    requires
        blank(before),
        blank(after),
    ensures
        trimmed(before + s + after) == trimmed(s),
{
    lemma_trim_start_pad(before, s + after);
    assert(before + (s + after) =~= before + s + after);
    lemma_trim_start(s);
    let t = trim_start(s);
    let k = s.len() - t.len();
    assert(s =~= s.take(k) + t);
    lemma_trim_start_pad(s.take(k), t + after);
    assert(s.take(k) + (t + after) =~= s + after);
    if t.len() > 0 {
        assert((t + after).first() == t.first());
        assert(trim_start(t + after) == t + after);
        lemma_trim_end_pad(t, after);
    } else {
        assert(t + after =~= after);
        lemma_trimmed_blank(after);
    }
}

// ── Pieces and words ────────────────────────────────────────────────────────

/// The pieces around a separator are the pieces on each side of it.
pub proof fn lemma_split_where_at(
    a: Seq<char>,
    c: char,
    b: Seq<char>,
    sep: spec_fn(char) -> bool,
)
    requires
        sep(c),
    ensures
        split_where(a.push(c) + b, sep) == split_where(a, sep) + split_where(b, sep),
    decreases b.len(),
{
    let s = a.push(c) + b;
    if b.len() == 0 {
        assert(s =~= a.push(c));
        assert(s.drop_last() =~= a);
        assert(split_where(s, sep) =~= split_where(a, sep) + split_where(b, sep));
    } else {
        assert(s.drop_last() =~= a.push(c) + b.drop_last());
        lemma_split_where_at(a, c, b.drop_last(), sep);
        lemma_split_where_some(b.drop_last(), sep);
        let left = split_where(a, sep);
        let right = split_where(b.drop_last(), sep);
        assert((left + right).drop_last() =~= left + right.drop_last());
        assert(split_where(s, sep) =~= left + split_where(b, sep));
    }
}

/// The words around a white space are the words on each side of it.
pub proof fn lemma_words_at(a: Seq<char>, c: char, b: Seq<char>)
    requires
        white_space(c),
    ensures
        words_of(a.push(c) + b) == words_of(a) + words_of(b),
{
    let sep = at_white_space();
    lemma_split_where_at(a, c, b, sep);
    Seq::filter_distributes_over_add(split_where(a, sep), split_where(b, sep), non_empty());
}

/// An empty text has no words.
pub proof fn lemma_words_empty()
    ensures
        words_of(Seq::empty()) == Seq::<Seq<char>>::empty(),
{
    let e = Seq::<Seq<char>>::empty();
    assert(split_where(Seq::empty(), at_white_space()) =~= e.push(Seq::empty()));
    lemma_filter_push(e, Seq::empty(), non_empty());
    reveal(Seq::filter);
    assert(e.filter(non_empty()) =~= e);
}

/// A blank text has no words.
pub proof fn lemma_words_blank(s: Seq<char>)
    requires
        blank(s),
    ensures
        words_of(s) == Seq::<Seq<char>>::empty(),
    decreases s.len(),
{
    lemma_words_empty();
    if s.len() > 0 {
        let front = s.drop_last();
        assert forall|i: int| 0 <= i < front.len() implies white_space(#[trigger] front[i]) by {
            assert(front[i] == s[i]);
        }
        lemma_words_blank(front);
        assert(white_space(s[s.len() - 1]));
        lemma_words_at(front, s.last(), Seq::empty());
        assert(front.push(s.last()) + Seq::<char>::empty() =~= s);
        assert(words_of(s) =~= Seq::<Seq<char>>::empty());
    }
}

/// A text without separators is one piece.
pub proof fn lemma_split_whole(s: Seq<char>, sep: spec_fn(char) -> bool)
    requires
        forall|i: int| 0 <= i < s.len() ==> !sep(#[trigger] s[i]),
    ensures
        split_where(s, sep) == seq![s],
    decreases s.len(),
{
    if s.len() > 0 {
        let front = s.drop_last();
        assert forall|i: int| 0 <= i < front.len() implies !sep(#[trigger] front[i]) by {
            assert(front[i] == s[i]);
        }
        lemma_split_whole(front, sep);
        assert(!sep(s[s.len() - 1]));
        assert(front.push(s.last()) =~= s);
        assert(split_where(s, sep) =~= seq![s]);
    } else {
        assert(s =~= Seq::empty());
    }
}

/// A text without white space is one word.
pub proof fn lemma_words_solid(s: Seq<char>)
    requires
        solid(s),
        s.len() > 0,
    ensures
        words_of(s) == seq![s],
{
    lemma_split_whole(s, at_white_space());
    let e = Seq::<Seq<char>>::empty();
    assert(seq![s] =~= e.push(s));
    lemma_filter_push(e, s, non_empty());
    reveal(Seq::filter);
    assert(e.filter(non_empty()) =~= e);
}

/// Every piece holds only characters of the text, none of them a separator.
pub proof fn lemma_split_where_chars(s: Seq<char>, sep: spec_fn(char) -> bool)
    ensures
        forall|k: int, i: int|
            0 <= k < split_where(s, sep).len() && 0 <= i < split_where(s, sep)[k].len() ==> !sep(
                #[trigger] split_where(s, sep)[k][i],
            ) && s.contains(split_where(s, sep)[k][i]),
    decreases s.len(),
{
    if s.len() > 0 {
        let front = s.drop_last();
        lemma_split_where_chars(front, sep);
        lemma_split_where_some(front, sep);
        let pieces = split_where(front, sep);
        let all = split_where(s, sep);
        assert forall|k: int, i: int|
            0 <= k < all.len() && 0 <= i < all[k].len() implies !sep(#[trigger] all[k][i])
            && s.contains(all[k][i]) by {
            if k < pieces.len() && i < pieces[k].len() {
                assert(all[k][i] == pieces[k][i]);
                let j = front.index_of(pieces[k][i]);
                assert(front.contains(pieces[k][i]));
                assert(s[j] == front[j]);
            } else {
                assert(all[k][i] == s.last());
                assert(s[s.len() - 1] == s.last());
            }
        }
    }
}

/// A word is not empty, holds no white space, and only characters of the text.
pub proof fn lemma_words_chars(s: Seq<char>)
    ensures
        forall|k: int|
            0 <= k < words_of(s).len() ==> solid(#[trigger] words_of(s)[k]) && words_of(s)[k].len()
                > 0,
        forall|k: int, i: int|
            0 <= k < words_of(s).len() && 0 <= i < words_of(s)[k].len() ==> s.contains(
                #[trigger] words_of(s)[k][i],
            ),
{
    let sep = at_white_space();
    let pieces = split_where(s, sep);
    lemma_split_where_chars(s, sep);
    assert forall|k: int| 0 <= k < words_of(s).len() implies {
        &&& solid(#[trigger] words_of(s)[k])
        &&& words_of(s)[k].len() > 0
        &&& forall|i: int| 0 <= i < words_of(s)[k].len() ==> s.contains(#[trigger] words_of(s)[k][i])
    } by {
        let w = words_of(s)[k];
        pieces.lemma_filter_pred(non_empty(), k);
        assert(pieces.filter(non_empty()).contains(w));
        pieces.lemma_filter_contains_rev(non_empty(), w);
        let j = pieces.index_of(w);
        assert(pieces[j] == w);
        assert forall|i: int| 0 <= i < w.len() implies !white_space(#[trigger] w[i]) && s.contains(
            w[i],
        ) by {
            assert(pieces[j][i] == w[i]);
        }
    }
}

} // verus!
