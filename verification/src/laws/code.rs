//! Laws of finding and reading lists in code: where a list begins, where it ends, and
//! what is hidden in strings and comments.

use vstd::prelude::*;

use crate::install::list::{
    code_only, entries_after, items_after, lemma_closed_stays, lemma_list_read_add, list_items,
    list_read, list_start, list_with, place_after, words_after, Frame, ListView, Place, Seen,
};
use crate::laws::list::{lemma_entry_is_begun, one_entry};
use crate::text::{
    contains_text, find_from, lemma_find_from, lemma_find_from_first, occurs_at, texts, words_of,
};

verus! {

// ── Where a list begins ─────────────────────────────────────────────────────

/// Whether a text opens no string and no comment: it holds no quote, no `#` and no
/// `/`.
pub open spec fn bare_code(s: Seq<char>) -> bool {
    forall|i: int|
        0 <= i < s.len() ==> {
            let c = #[trigger] s[i];
            c != '"' && c != '\'' && c != '#' && c != '/'
        }
}

/// Where such a text leads is code.
pub(crate) proof fn lemma_bare_code(s: Seq<char>)
    requires
        bare_code(s),
    ensures
        place_after(s).in_code(),
        place_after(s).seen is Nothing || place_after(s).seen is Word,
        forall|i: int| 0 <= i < place_after(s).frames.len() ==> place_after(s).frames[i] is Group,
    decreases s.len(),
{
    if s.len() > 0 {
        let front = s.drop_last();
        assert(bare_code(front)) by {
            assert forall|i: int| 0 <= i < front.len() implies {
                let c = #[trigger] front[i];
                c != '"' && c != '\'' && c != '#' && c != '/'
            } by {
                assert(front[i] == s[i]);
            }
        }
        lemma_bare_code(front);
        assert(s[s.len() - 1] == s.last());
        let place = place_after(front);
        let next = place_after(s);
        assert(next == place.in_code_past(s.last()));
        assert forall|i: int| 0 <= i < next.frames.len() implies next.frames[i] is Group by {
            if i < place.frames.len() {
                assert(place.frames[i] is Group);
            }
        }
        if next.frames.len() > 0 {
            assert(next.frames.last() == next.frames[next.frames.len() - 1]);
        }
    }
}

/// The list that a key is set to begins behind the first `[` after the first
/// occurrence of the key, if no string and no comment is opened before.
pub proof fn law_a_list_begins_behind_its_key(
    before: Seq<char>,
    key: Seq<char>,
    between: Seq<char>,
    rest: Seq<char>,
)
    requires
        bare_code(before + key + between),
        forall|j: int|
            0 <= j < before.len() ==> !occurs_at(
                before + key + between + seq!['['] + rest,
                key,
                j,
            ),
        !between.contains('['),
    ensures
        list_start(before + key + between + seq!['['] + rest, key) == Some(
            (before.len() + key.len() + between.len() + 1) as int,
        ),
{
    let front = before + key + between;
    let s = front + seq!['['] + rest;
    let code = code_only(s);
    let n = front.len() as int;
    let k = before.len() as int;
    assert forall|i: int| 0 <= i <= n implies #[trigger] code[i] == s[i] by {
        assert(s.take(i) =~= front.take(i));
        assert(bare_code(front.take(i))) by {
            assert forall|j: int| 0 <= j < i implies {
                let c = #[trigger] front.take(i)[j];
                c != '"' && c != '\'' && c != '#' && c != '/'
            } by {
                assert(front.take(i)[j] == front[j]);
            }
        }
        lemma_bare_code(front.take(i));
    }
    assert(code.subrange(k, k + key.len()) =~= key);
    assert forall|j: int| 0 <= j < k implies !occurs_at(code, key, j) by {
        if occurs_at(code, key, j) {
            assert(s.subrange(j, j + key.len()) =~= key) by {
                assert forall|m: int| 0 <= m < key.len() implies s.subrange(j, j + key.len())[m]
                    == key[m] by {
                    assert(code.subrange(j, j + key.len())[m] == code[j + m]);
                    if j + m <= n {
                        assert(code[j + m] == s[j + m]);
                    }
                }
            }
            assert(occurs_at(s, key, j));
        }
    }
    lemma_find_from_first(code, key, 0, k);
    assert(code[n] == '[');
    assert(code.subrange(n, n + 1) =~= seq!['[']);
    assert forall|j: int| k + key.len() <= j < n implies !occurs_at(code, seq!['['], j) by {
        if occurs_at(code, seq!['['], j) {
            assert(code.subrange(j, j + 1)[0] == '[');
            assert(code[j] == s[j]);
            assert(s[j] == between[j - k - key.len()]);
            assert(between.contains('['));
        }
    }
    lemma_find_from_first(code, seq!['['], k + key.len(), n);
}

// ── What is hidden ──────────────────────────────────────────────────────────

/// Whether a text is the inside of a string in `"`: an escaped character may be
/// any, and no other is `"`, `\` or `$`.
pub open spec fn string_body(s: Seq<char>) -> bool
    decreases s.len(),
{
    ||| s.len() == 0
    ||| s.last() != '"' && s.last() != '\\' && s.last() != '$' && string_body(s.drop_last())
    ||| s.len() >= 2 && s[s.len() - 2] == '\\' && string_body(s.take(s.len() - 2))
}

/// What ends a comment that may go over lines.
pub open spec fn comment_end() -> Seq<char> {
    seq!['*', '/']
}

/// A comment that ends with its line.
pub open spec fn line_comment(c: Seq<char>) -> Seq<char> {
    seq!['#'] + c + seq!['\n']
}

/// A comment that may go over lines.
pub open spec fn block_comment(c: Seq<char>) -> Seq<char> {
    seq!['/', '*'] + c + comment_end()
}

/// A string in `"`.
pub open spec fn quoted(c: Seq<char>) -> Seq<char> {
    seq!['"'] + c + seq!['"']
}

/// Whether a text is one comment, from end to end.
pub open spec fn is_comment(s: Seq<char>) -> bool {
    ||| exists|c: Seq<char>| s == #[trigger] line_comment(c) && !c.contains('\n')
    ||| exists|c: Seq<char>| s == #[trigger] block_comment(c) && !contains_text(c, comment_end())
}

/// Whether a text is one comment or one string in `"`, from end to end.
pub open spec fn hidden(s: Seq<char>) -> bool {
    ||| is_comment(s)
    ||| exists|c: Seq<char>| s == #[trigger] quoted(c) && string_body(c)
}

/// The place in a text behind a part that leaves nothing open.
proof fn lemma_place_add(a: Seq<char>, b: Seq<char>)
    requires
        place_after(a) == place_after(Seq::empty()),
    ensures
        place_after(a + b) == place_after(b),
    decreases b.len(),
{
    if b.len() == 0 {
        assert(a + b =~= a);
        assert(b =~= Seq::empty());
    } else {
        assert((a + b).drop_last() =~= a + b.drop_last());
        lemma_place_add(a, b.drop_last());
    }
}

/// The place inside a comment that ends with its line.
proof fn lemma_in_line_comment(c: Seq<char>)
    requires
        !c.contains('\n'),
    ensures
        place_after(seq!['#'] + c) == (Place { frames: seq![Frame::Line], seen: Seen::Nothing }),
    decreases c.len(),
{
    let s = seq!['#'] + c;
    let none = Seq::<char>::empty();
    if c.len() == 0 {
        assert(s =~= seq!['#']);
        assert(s.drop_last() =~= none);
        assert(place_after(s) == place_after(none).past('#'));
        assert(place_after(s).frames =~= seq![Frame::Line]);
    } else {
        let front = c.drop_last();
        assert(!front.contains('\n')) by {
            if front.contains('\n') {
                let i = front.index_of('\n');
                assert(c[i] == '\n');
            }
        }
        lemma_in_line_comment(front);
        assert(s.drop_last() =~= seq!['#'] + front);
        assert(c.contains(c[c.len() - 1]));
        assert(s.last() == c.last());
    }
}

/// The place inside a comment that ends with `*/`.
proof fn lemma_in_block_comment(c: Seq<char>)
    requires
        !contains_text(c, comment_end()),
    ensures
        place_after(seq!['/', '*'] + c) == (Place {
            frames: seq![Frame::Block],
            seen: if c.len() > 0 && c.last() == '*' {
                Seen::Star
            } else {
                Seen::Nothing
            },
        }),
    decreases c.len(),
{
    let s = seq!['/', '*'] + c;
    let none = Seq::<char>::empty();
    let slash = seq!['/'];
    let end = comment_end();
    if c.len() == 0 {
        assert(s =~= seq!['/', '*']);
        assert(s.drop_last() =~= slash);
        assert(slash.drop_last() =~= none);
        assert(place_after(slash) == place_after(none).past('/'));
        assert(place_after(slash).frames.len() == 0);
        assert(place_after(s) == place_after(slash).past('*'));
        assert(place_after(s).frames =~= seq![Frame::Block]);
    } else {
        let front = c.drop_last();
        assert(!contains_text(front, end)) by {
            if contains_text(front, end) {
                let i = choose|i: int| occurs_at(front, end, i);
                assert(c.subrange(i, i + 2) =~= front.subrange(i, i + 2));
                assert(occurs_at(c, end, i));
            }
        }
        lemma_in_block_comment(front);
        assert(s.drop_last() =~= seq!['/', '*'] + front);
        assert(s.last() == c.last());
        if front.len() > 0 && front.last() == '*' && c.last() == '/' {
            let i = c.len() - 2;
            assert(c.subrange(i, i + 2) =~= end);
            assert(occurs_at(c, end, i));
        }
    }
}

/// The place inside a string in `"`, behind `frames`.
proof fn lemma_in_string(start: Seq<char>, c: Seq<char>)
    requires
        string_body(c),
        place_after(start).frames.len() > 0,
        place_after(start).frames.last() is Quoted,
        place_after(start).seen is Nothing,
    ensures
        place_after(start + c) == place_after(start),
    decreases c.len(),
{
    let s = start + c;
    if c.len() == 0 {
        assert(s =~= start);
    } else if c.last() != '"' && c.last() != '\\' && c.last() != '$' && string_body(
        c.drop_last(),
    ) {
        lemma_in_string(start, c.drop_last());
        assert(s.drop_last() =~= start + c.drop_last());
        assert(s.last() == c.last());
    } else {
        let n = c.len() - 2;
        let front = c.take(n);
        lemma_in_string(start, front);
        let mid = start + c.take(n + 1);
        assert(mid.drop_last() =~= start + front);
        assert(mid.last() == '\\');
        assert(place_after(mid) == place_after(start).past('\\'));
        assert(s.drop_last() =~= mid);
        assert(place_after(s) == place_after(mid).past(s.last()));
    }
}

/// What holds of a hidden text: it leaves nothing open, and of its code only the
/// characters that open it are left.
proof fn lemma_hidden(s: Seq<char>)
    requires
        hidden(s),
    ensures
        place_after(s) == place_after(Seq::empty()),
        s.len() >= 2,
        code_only(s)[0] == s[0] && (s[0] == '#' || s[0] == '/' || s[0] == '"'),
        code_only(s)[1] == ' ' || code_only(s)[1] == '*',
        forall|i: int| 2 <= i < s.len() ==> #[trigger] code_only(s)[i] == ' ',
{
    let none = Seq::<char>::empty();
    assert(s.take(0) =~= none);
    if exists|c: Seq<char>| s == #[trigger] line_comment(c) && !c.contains('\n') {
        let c = choose|c: Seq<char>| s == #[trigger] line_comment(c) && !c.contains('\n');
        assert forall|i: int| 1 <= i < s.len() implies #[trigger] code_only(s)[i] == ' ' by {
            let part = c.take(i - 1);
            assert(!part.contains('\n')) by {
                if part.contains('\n') {
                    let j = part.index_of('\n');
                    assert(c[j] == '\n');
                }
            }
            lemma_in_line_comment(part);
            assert(s.take(i) =~= seq!['#'] + part);
        }
        lemma_in_line_comment(c);
        assert(s.drop_last() =~= seq!['#'] + c);
        assert(place_after(s) == place_after(s.drop_last()).past('\n'));
        assert(place_after(s) =~= place_after(none));
    } else if exists|c: Seq<char>|
        s == #[trigger] block_comment(c) && !contains_text(c, comment_end()) {
        let end = comment_end();
        let c = choose|c: Seq<char>|
            s == #[trigger] block_comment(c) && !contains_text(c, comment_end());
        let slash = seq!['/'];
        assert(slash.drop_last() =~= none);
        assert(place_after(slash) == place_after(none).past('/'));
        assert(s.take(1) =~= slash);
        assert(code_only(s)[1] == '*');
        let starred = c.push('*');
        assert(!contains_text(starred, end)) by {
            if contains_text(starred, end) {
                let i = choose|i: int| occurs_at(starred, end, i);
                assert(starred.subrange(i, i + 2)[1] == '/');
                assert(starred[i + 1] == '/');
                assert(c.subrange(i, i + 2) =~= starred.subrange(i, i + 2));
                assert(occurs_at(c, end, i));
            }
        }
        assert forall|i: int| 2 <= i < s.len() implies #[trigger] code_only(s)[i] == ' ' by {
            let part = starred.take(i - 2);
            assert(!contains_text(part, end)) by {
                if contains_text(part, end) {
                    let j = choose|j: int| occurs_at(part, end, j);
                    assert(starred.subrange(j, j + 2) =~= part.subrange(j, j + 2));
                    assert(occurs_at(starred, end, j));
                }
            }
            lemma_in_block_comment(part);
            assert(s.take(i) =~= seq!['/', '*'] + part);
        }
        lemma_in_block_comment(starred);
        assert(s.drop_last() =~= seq!['/', '*'] + starred);
        assert(place_after(s) == place_after(s.drop_last()).past('/'));
        assert(place_after(s) =~= place_after(none));
    } else {
        let c = choose|c: Seq<char>| s == #[trigger] quoted(c) && string_body(c);
        let start = seq!['"'];
        assert(start.drop_last() =~= none);
        assert(place_after(start) == place_after(none).past('"'));
        lemma_string_is_hidden(start, c);
        assert forall|i: int| 1 <= i < s.len() implies #[trigger] code_only(s)[i] == ' ' by {
            assert(s.take(i) =~= start + c.take(i - 1));
            assert(!place_after(start + c.take(i - 1)).in_code());
        }
        lemma_in_string(start, c);
        assert(s.drop_last() =~= start + c);
        assert(place_after(s) == place_after(start).past('"'));
        assert(place_after(s) =~= place_after(none));
    }
}

/// All of a string is string.
proof fn lemma_string_is_hidden(start: Seq<char>, c: Seq<char>)
    requires
        string_body(c),
        place_after(start).frames.len() > 0,
        place_after(start).frames.last() is Quoted,
        place_after(start).seen is Nothing,
    ensures
        forall|i: int|
            0 <= i <= c.len() ==> {
                let place = #[trigger] place_after(start + c.take(i));
                place.frames == place_after(start).frames
            },
    decreases c.len(),
{
    lemma_in_string(start, c);
    assert(c.take(c.len() as int) =~= c);
    if c.len() == 0 {
        assert forall|i: int| 0 <= i <= c.len() implies {
            let place = #[trigger] place_after(start + c.take(i));
            place.frames == place_after(start).frames
        } by {
            assert(start + c.take(i) =~= start);
        }
    } else if c.last() != '"' && c.last() != '\\' && c.last() != '$' && string_body(
        c.drop_last(),
    ) {
        let front = c.drop_last();
        lemma_string_is_hidden(start, front);
        assert forall|i: int| 0 <= i <= c.len() implies {
            let place = #[trigger] place_after(start + c.take(i));
            place.frames == place_after(start).frames
        } by {
            if i < c.len() {
                assert(c.take(i) =~= front.take(i));
                assert(place_after(start + front.take(i)).frames == place_after(start).frames);
            }
        }
    } else {
        let n = c.len() - 2;
        let front = c.take(n);
        lemma_string_is_hidden(start, front);
        lemma_in_string(start, front);
        let mid = start + c.take(n + 1);
        assert(mid.drop_last() =~= start + front);
        assert(place_after(mid) == place_after(start).past('\\'));
        assert forall|i: int| 0 <= i <= c.len() implies {
            let place = #[trigger] place_after(start + c.take(i));
            place.frames == place_after(start).frames
        } by {
            if i <= n {
                assert(c.take(i) =~= front.take(i));
                assert(place_after(start + front.take(i)).frames == place_after(start).frames);
            }
        }
    }
}

/// A search that begins behind a part of a text does not depend on that part.
proof fn lemma_find_shift(a: Seq<char>, b: Seq<char>, pat: Seq<char>, from: int)
    requires
        0 <= from,
    ensures
        find_from(a + b, pat, a.len() + from) == match find_from(b, pat, from) {
            Some(k) => Some(a.len() + k),
            None => None,
        },
    decreases b.len() - from + 1,
{
    let s = a + b;
    let n = a.len() as int;
    if from + pat.len() <= b.len() {
        assert(s.subrange(n + from, n + from + pat.len()) =~= b.subrange(from, from + pat.len()));
        assert(occurs_at(s, pat, n + from) == occurs_at(b, pat, from));
        if !occurs_at(b, pat, from) {
            lemma_find_shift(a, b, pat, from + 1);
        }
    }
}

/// A comment or a string is not searched for lists: with one before it, the list of
/// a key begins in a text where it did without.
pub proof fn law_comments_and_strings_are_not_searched(
    hiding: Seq<char>,
    s: Seq<char>,
    key: Seq<char>,
)
    requires
        hidden(hiding),
        key.len() > 0,
        key[0] != '#' && key[0] != '/' && key[0] != '*' && key[0] != '"' && key[0] != ' ',
    ensures
        list_start(hiding + s, key) == match list_start(s, key) {
            Some(start) => Some(hiding.len() + start),
            None => None,
        },
{
    lemma_hidden(hiding);
    let all = hiding + s;
    let n = hiding.len() as int;
    let a = code_only(hiding);
    let b = code_only(s);
    let code = code_only(all);
    assert(code =~= a + b) by {
        assert forall|i: int| 0 <= i < all.len() implies code[i] == (a + b)[i] by {
            if i < n {
                assert(all.take(i) =~= hiding.take(i));
            } else {
                lemma_place_add(hiding, s.take(i - n));
                assert(all.take(i) =~= hiding + s.take(i - n));
            }
        }
    }
    assert forall|j: int| 0 <= j < n implies !occurs_at(code, key, j) by {
        if occurs_at(code, key, j) {
            assert(code.subrange(j, j + key.len())[0] == code[j]);
            assert(code[j] == a[j]);
            if j >= 2 {
                assert(code_only(hiding)[j] == ' ');
            }
        }
    }
    lemma_find_shift(a, b, key, 0);
    lemma_find_from(code, key, 0);
    lemma_find_from(code, key, n);
    lemma_find_from(b, key, 0);
    match find_from(b, key, 0) {
        Some(k) => {
            assert(find_from(code, key, n) == Some(n + k));
            lemma_find_from_first(code, key, 0, n + k);
            lemma_find_shift(a, b, seq!['['], k + key.len());
        },
        None => {
            match find_from(code, key, 0) {
                Some(k) => {
                    assert(k >= n);
                    assert(occurs_at(code, key, k));
                },
                None => {},
            }
        },
    }
}

// ── Reading a list ──────────────────────────────────────────────────────────

/// A list ends with the first `]` behind what was read of it, and what follows does
/// not matter.
pub proof fn law_a_list_ends_with_its_bracket(
    s: Seq<char>,
    key: Seq<char>,
    start: int,
    inside: Seq<char>,
    entries: Seq<Seq<char>>,
    last: Seq<char>,
    rest: Seq<char>,
)
    requires
        list_start(s, key) == Some(start),
        list_read(list_with(Seq::empty()), inside) == list_with(entries),
        one_entry(last),
    ensures
        s.skip(start) == inside + seq![']'] + rest ==> entries_after(s, key) == Some(entries),
        s.skip(start) == inside + last + seq![']'] + rest ==> entries_after(s, key) == Some(
            entries.push(last),
        ),
{
    let none = list_with(Seq::<Seq<char>>::empty());
    let close = seq![']'];
    if s.skip(start) == inside + close + rest {
        lemma_list_read_add(none, inside, close);
        assert(close.drop_last() =~= Seq::empty());
        assert(list_read(list_with(entries), close.drop_last()) == list_with(entries));
        assert(list_read(list_with(entries), close) == list_with(entries).read(']'));
        lemma_closed_stays(none, inside + close, rest);
    }
    if s.skip(start) == inside + last + close + rest {
        lemma_list_read_add(none, inside, last + close);
        assert(inside + (last + close) =~= inside + last + close);
        lemma_entry_is_begun(entries, last);
        assert((last + close).drop_last() =~= last);
        assert(list_read(list_with(entries), last + close) == list_read(
            list_with(entries),
            last,
        ).read(']'));
        lemma_closed_stays(none, inside + last + close, rest);
    }
}

/// A list without any `]` does not end.
pub proof fn law_a_list_without_bracket_does_not_end(s: Seq<char>, key: Seq<char>)
    requires
        list_start(s, key) matches Some(start) ==> 0 <= start <= s.len() && !s.skip(
            start,
        ).contains(']'),
    ensures
        entries_after(s, key) is None,
        words_after(s, key) is None,
        items_after(s, key).len() == 0,
{
    if let Some(start) = list_start(s, key) {
        let rest = s.skip(start);
        lemma_never_closed(rest);
        lemma_find_from(s, seq![']'], start);
        match find_from(s, seq![']'], start) {
            Some(k) => {
                assert(s.subrange(k, k + 1)[0] == ']');
                assert(rest[k - start] == ']');
            },
            None => {},
        }
    }
}

/// Only `]` ends a list.
proof fn lemma_never_closed(s: Seq<char>)
    requires
        !s.contains(']'),
    ensures
        !list_read(list_with(Seq::empty()), s).closed,
    decreases s.len(),
{
    if s.len() > 0 {
        let front = s.drop_last();
        assert(!front.contains(']')) by {
            if front.contains(']') {
                let i = front.index_of(']');
                assert(s[i] == ']');
            }
        }
        lemma_never_closed(front);
        assert(s.contains(s[s.len() - 1]));
    }
}

/// The words of a list are those up to its first `]`.
pub proof fn law_words_go_up_to_the_first_bracket(
    s: Seq<char>,
    key: Seq<char>,
    start: int,
    inside: Seq<char>,
    rest: Seq<char>,
)
    requires
        list_start(s, key) == Some(start),
        0 <= start <= s.len(),
        s.skip(start) == inside + seq![']'] + rest,
        !inside.contains(']'),
    ensures
        words_after(s, key) == Some(words_of(inside)),
{
    let k = start + inside.len();
    let tail = s.skip(start);
    assert(tail.len() == s.len() - start);
    assert(tail[inside.len() as int] == ']');
    assert(s[k] == tail[inside.len() as int]);
    assert(s.subrange(k, k + 1) =~= seq![']']);
    assert forall|j: int| start <= j < k implies !occurs_at(s, seq![']'], j) by {
        if occurs_at(s, seq![']'], j) {
            assert(s.subrange(j, j + 1)[0] == ']');
            assert(s[j] == tail[j - start]);
            assert(tail[j - start] == inside[j - start]);
            assert(inside.contains(inside[j - start]));
        }
    }
    lemma_find_from_first(s, seq![']'], start, k);
    assert(s.subrange(start, k) =~= tail.take(inside.len() as int));
    assert(tail.take(inside.len() as int) =~= inside);
}

/// What a list holds are its entries, or its words where it does not end as code.
pub proof fn law_items_are_entries_or_words(s: &str, key: &str, items: Vec<String>)
    requires
        call_ensures(list_items, (s, key), items),
    ensures
        match entries_after(s@, key@) {
            Some(entries) => texts(items@) == entries,
            None => match words_after(s@, key@) {
                Some(words) => texts(items@) == words,
                None => items@.len() == 0,
            },
        },
{
    assert(texts(items@).len() == items@.len());
}

/// A comment in a list is no entry and parts two.
pub proof fn law_a_comment_is_no_entry(entries: Seq<Seq<char>>, comment: Seq<char>)
    requires
        is_comment(comment),
    ensures
        list_read(list_with(entries), comment) == list_with(entries),
{
    if exists|c: Seq<char>| comment == #[trigger] line_comment(c) && !c.contains('\n') {
        let c = choose|c: Seq<char>| comment == #[trigger] line_comment(c) && !c.contains('\n');
        lemma_reading_line_comment(entries, c);
        assert(comment.drop_last() =~= seq!['#'] + c);
        let list = list_read(list_with(entries), seq!['#'] + c);
        assert(list.place.past('\n').frames =~= Seq::empty());
        assert(list_read(list_with(entries), comment) == list.read('\n'));
    } else {
        let end = comment_end();
        let c = choose|c: Seq<char>|
            comment == #[trigger] block_comment(c) && !contains_text(c, comment_end());
        let starred = c.push('*');
        assert(!contains_text(starred, end)) by {
            if contains_text(starred, end) {
                let i = choose|i: int| occurs_at(starred, end, i);
                assert(starred.subrange(i, i + 2)[1] == '/');
                assert(starred[i + 1] == '/');
                assert(c.subrange(i, i + 2) =~= starred.subrange(i, i + 2));
                assert(occurs_at(c, end, i));
            }
        }
        lemma_reading_block_comment(entries, starred);
        assert(comment.drop_last() =~= seq!['/', '*'] + starred);
        let list = list_read(list_with(entries), seq!['/', '*'] + starred);
        assert(list.place.past('/').frames =~= Seq::empty());
        assert(list_read(list_with(entries), comment) == list.read('/'));
    }
}

/// A list in which a comment is being read.
spec fn commented(entries: Seq<Seq<char>>, frame: Frame, seen: Seen) -> ListView {
    ListView { place: Place { frames: seq![frame], seen }, ..list_with(entries) }
}

/// Reading a comment that ends with its line.
proof fn lemma_reading_line_comment(entries: Seq<Seq<char>>, c: Seq<char>)
    requires
        !c.contains('\n'),
    ensures
        list_read(list_with(entries), seq!['#'] + c) == commented(
            entries,
            Frame::Line,
            Seen::Nothing,
        ),
    decreases c.len(),
{
    let s = seq!['#'] + c;
    let none = Seq::<char>::empty();
    if c.len() == 0 {
        assert(s =~= seq!['#']);
        assert(s.drop_last() =~= none);
        assert(list_read(list_with(entries), none) == list_with(entries));
        let list = list_with(entries).read('#');
        assert(list.place.frames =~= seq![Frame::Line]);
        assert(list_read(list_with(entries), s) == list);
    } else {
        let front = c.drop_last();
        assert(!front.contains('\n')) by {
            if front.contains('\n') {
                let i = front.index_of('\n');
                assert(c[i] == '\n');
            }
        }
        lemma_reading_line_comment(entries, front);
        assert(s.drop_last() =~= seq!['#'] + front);
        assert(c.contains(c[c.len() - 1]));
        assert(s.last() == c.last());
    }
}

/// Reading a comment that ends with `*/`.
proof fn lemma_reading_block_comment(entries: Seq<Seq<char>>, c: Seq<char>)
    requires
        !contains_text(c, comment_end()),
    ensures
        list_read(list_with(entries), seq!['/', '*'] + c) == commented(
            entries,
            Frame::Block,
            if c.len() > 0 && c.last() == '*' {
                Seen::Star
            } else {
                Seen::Nothing
            },
        ),
    decreases c.len(),
{
    let s = seq!['/', '*'] + c;
    let none = Seq::<char>::empty();
    let slash = seq!['/'];
    let end = comment_end();
    if c.len() == 0 {
        assert(s =~= seq!['/', '*']);
        assert(s.drop_last() =~= slash);
        assert(slash.drop_last() =~= none);
        assert(list_read(list_with(entries), none) == list_with(entries));
        let first = list_with(entries).read('/');
        assert(list_read(list_with(entries), slash) == first);
        assert(first.word =~= slash);
        assert(first.word.drop_last() =~= none);
        let list = first.read('*');
        assert(list.place.frames =~= seq![Frame::Block]);
        assert(list_read(list_with(entries), s) == list);
    } else {
        let front = c.drop_last();
        assert(!contains_text(front, end)) by {
            if contains_text(front, end) {
                let i = choose|i: int| occurs_at(front, end, i);
                assert(c.subrange(i, i + 2) =~= front.subrange(i, i + 2));
                assert(occurs_at(c, end, i));
            }
        }
        lemma_reading_block_comment(entries, front);
        assert(s.drop_last() =~= seq!['/', '*'] + front);
        assert(s.last() == c.last());
        if front.len() > 0 && front.last() == '*' && c.last() == '/' {
            let i = c.len() - 2;
            assert(c.subrange(i, i + 2) =~= end);
            assert(occurs_at(c, end, i));
        }
    }
}

} // verus!
