//! Laws of what is one entry of a list: strings, names, paths and what is in
//! brackets, with all that they may hold.

use vstd::prelude::*;

use crate::install::list::{
    closer, code_only, entry_start, lemma_list_read_add, list_read, list_with, opener,
    place_after, Frame, Place, Seen,
};
use crate::laws::code::{
    bare_code, block_comment, comment_end, law_a_comment_is_no_entry, lemma_bare_code,
    line_comment, quoted,
};
use crate::laws::list::{
    alone, entry_begins, lemma_entry_goes_on, lemma_entry_is_begun, lemma_nothing_begun, one_entry,
    unparted,
};
use crate::text::{ascii_alphabetic, ascii_alphanumeric, contains_text, occurs_at, white_space};
use crate::text_lemmas::solid;

verus! {

// ── Texts of code ───────────────────────────────────────────────────────────

/// Whether `c` begins and ends nothing in code, wherever it stands but behind a `/`.
pub open spec fn plain_code(c: char) -> bool {
    &&& c != '(' && c != '[' && c != '{'
    &&& c != ')' && c != ']' && c != '}'
    &&& c != '"' && c != '\'' && c != '#' && c != '/'
}

/// Whether a name can go on with `c`.
pub open spec fn name_char(c: char) -> bool {
    ascii_alphanumeric(c) || c == '_' || c == '-' || c == '\''
}

/// Whether a text is a name: it begins with a letter or `_`, and goes on with letters,
/// digits, `_`, `-` and `'`.
pub open spec fn name_text(s: Seq<char>) -> bool {
    &&& s.len() > 0
    &&& ascii_alphabetic(s[0]) || s[0] == '_'
    &&& forall|i: int| 0 <= i < s.len() ==> name_char(#[trigger] s[i])
}

/// Whether a text is code in which all that is opened is closed again. It is made of
/// plain characters, a `/` that begins no comment, names, brackets, strings and
/// comments.
pub open spec fn code_text(s: Seq<char>) -> bool
    decreases s.len(),
{
    let n = s.len() as int;
    ||| n == 0
    ||| plain_code(s.last()) && code_text(s.drop_last())
    ||| n >= 2 && s[n - 2] == '/' && plain_code(s.last()) && s.last() != '*' && code_text(
        s.take(n - 2),
    )
    ||| exists|k: int| 0 <= k < n && name_text(#[trigger] s.skip(k)) && code_text(s.take(k))
    ||| exists|k: int|
        0 <= k < n - 1 && opener(#[trigger] s[k]) && closer(s.last()) && code_text(s.take(k))
            && code_text(s.subrange(k + 1, n - 1))
    ||| exists|k: int|
        0 <= k < n - 1 && #[trigger] s[k] == '"' && s.last() == '"' && code_text(s.take(k))
            && string_text(s.subrange(k + 1, n - 1))
    ||| exists|k: int|
        0 <= k <= n - 5 && #[trigger] s[k] == '\'' && s[k + 1] == '\'' && s[n - 3] == '\''
            && s[n - 2] == '\'' && plain_code(s.last()) && s.last() != '$' && s.last() != '\\' && code_text(s.take(k)) && (k
            == 0 || !name_char(s[k - 1])) && indented_text(s.subrange(k + 2, n - 3))
    ||| exists|k: int|
        0 <= k < n - 1 && #[trigger] s[k] == '#' && s.last() == '\n' && code_text(s.take(k))
            && !s.subrange(k + 1, n - 1).contains('\n')
    ||| exists|k: int|
        0 <= k <= n - 4 && #[trigger] s[k] == '/' && s[k + 1] == '*' && s[n - 2] == '*' && s[n - 1]
            == '/' && code_text(s.take(k)) && !contains_text(
            s.subrange(k + 2, n - 2),
            comment_end(),
        )
}

/// Whether a text is the inside of a string in `"`: plain characters, a `\` with the
/// character that it escapes, a `$` that begins no interpolation, and interpolations.
pub open spec fn string_text(s: Seq<char>) -> bool
    decreases s.len(),
{
    let n = s.len() as int;
    ||| n == 0
    ||| s.last() != '"' && s.last() != '\\' && s.last() != '$' && string_text(s.drop_last())
    ||| n >= 2 && s[n - 2] == '\\' && string_text(s.take(n - 2))
    ||| n >= 2 && s[n - 2] == '$' && s.last() != '{' && s.last() != '"' && s.last() != '\\'
        && string_text(s.take(n - 2))
    ||| n >= 3 && s[n - 3] == '$' && s[n - 2] == '\\' && string_text(s.take(n - 3))
    ||| exists|k: int|
        0 <= k <= n - 3 && #[trigger] s[k] == '$' && s[k + 1] == '{' && s.last() == '}'
            && string_text(s.take(k)) && code_text(s.subrange(k + 2, n - 1))
}

/// Whether a text is the inside of an indented string: plain characters, a quote by
/// itself, the escapes that begin with two quotes, a `$` that begins no interpolation,
/// and interpolations.
pub open spec fn indented_text(s: Seq<char>) -> bool
    decreases s.len(),
{
    let n = s.len() as int;
    ||| n == 0
    ||| s.last() != '\'' && s.last() != '$' && indented_text(s.drop_last())
    ||| n >= 2 && s[n - 2] == '\'' && s.last() != '\'' && s.last() != '$' && indented_text(
        s.take(n - 2),
    )
    ||| n >= 3 && s[n - 3] == '\'' && s[n - 2] == '\'' && (s.last() == '\'' || s.last() == '$')
        && indented_text(s.take(n - 3))
    ||| n >= 4 && s[n - 4] == '\'' && s[n - 3] == '\'' && s[n - 2] == '\\' && indented_text(
        s.take(n - 4),
    )
    ||| n >= 2 && s[n - 2] == '$' && s.last() != '{' && s.last() != '\'' && indented_text(
        s.take(n - 2),
    )
    ||| exists|k: int|
        0 <= k <= n - 3 && #[trigger] s[k] == '$' && s[k + 1] == '{' && s.last() == '}'
            && indented_text(s.take(k)) && code_text(s.subrange(k + 2, n - 1))
}

// ── Passing over texts ──────────────────────────────────────────────────────

/// The place behind a text that begins at the place `p`.
spec fn passed(p: Place, s: Seq<char>) -> Place
    decreases s.len(),
{
    if s.len() == 0 {
        p
    } else {
        passed(p, s.drop_last()).past(s.last())
    }
}

/// Whether a character at the place `p` is read as a part of an entry.
spec fn taken(p: Place, c: char) -> bool {
    if p.frames.len() == 0 {
        !white_space(c) && c != ']' && p.comment_at(c) is None
    } else {
        !(p.frames.len() == 1 && p.in_comment())
    }
}

/// Whether a text that begins at the place `p` is read as a part of an entry.
spec fn reads(p: Place, s: Seq<char>) -> bool
    decreases s.len(),
{
    s.len() == 0 || (reads(p, s.drop_last()) && taken(passed(p, s.drop_last()), s.last()))
}

/// Whether the place `p` is in something that is a part of an entry.
spec fn inside(p: Place) -> bool {
    p.frames.len() > 0 && !(p.frames[0] is Line) && !(p.frames[0] is Block)
}

/// One character more.
proof fn lemma_more(p: Place, s: Seq<char>, c: char)
    ensures
        passed(p, s.push(c)) == passed(p, s).past(c),
        reads(p, s.push(c)) == (reads(p, s) && taken(passed(p, s), c)),
{
    assert(s.push(c).drop_last() =~= s);
}

/// One character.
proof fn lemma_single(p: Place, c: char)
    ensures
        passed(p, seq![c]) == p.past(c),
        reads(p, seq![c]) == taken(p, c),
{
    let none = Seq::<char>::empty();
    assert(seq![c].drop_last() =~= none);
    assert(passed(p, none) == p);
    assert(reads(p, none));
}

/// A text behind another.
proof fn lemma_then(p: Place, a: Seq<char>, b: Seq<char>)
    ensures
        passed(p, a + b) == passed(passed(p, a), b),
        reads(p, a + b) == (reads(p, a) && reads(passed(p, a), b)),
    decreases b.len(),
{
    if b.len() == 0 {
        assert(a + b =~= a);
    } else {
        assert((a + b).drop_last() =~= a + b.drop_last());
        lemma_then(p, a, b.drop_last());
    }
}

/// A text that is read from the start of an entry begins one.
proof fn lemma_begins(s: Seq<char>)
    requires
        reads(entry_start(), s),
    ensures
        entry_begins(s),
        alone(s).place == passed(entry_start(), s),
    decreases s.len(),
{
    if s.len() == 0 {
        lemma_nothing_begun();
        assert(s =~= Seq::empty());
    } else {
        let front = s.drop_last();
        lemma_begins(front);
        assert(front.take(front.len() as int) =~= front);
        assert(unparted(front));
        assert(front.push(s.last()) =~= s);
        assert(alone(s) == alone(front).read(s.last()));
        lemma_entry_goes_on(front, s.last());
    }
}

/// The inside of a comment that ends with its line.
proof fn lemma_line(p: Place, c: Seq<char>)
    requires
        inside(p),
        p.frames.last() is Line,
        p.seen is Nothing,
        !c.contains('\n'),
    ensures
        reads(p, c),
        passed(p, c) == p,
    decreases c.len(),
{
    if c.len() > 0 {
        let front = c.drop_last();
        assert(!front.contains('\n')) by {
            if front.contains('\n') {
                assert(c[front.index_of('\n')] == '\n');
            }
        }
        lemma_line(p, front);
        assert(c.contains(c[c.len() - 1]));
        assert(p.frames.len() == 1 ==> p.frames.last() == p.frames[0]);
    }
}

/// The inside of a comment that ends with `*/`.
proof fn lemma_block(p: Place, c: Seq<char>)
    requires
        inside(p),
        p.frames.last() is Block,
        p.seen is Nothing,
        !contains_text(c, comment_end()),
    ensures
        reads(p, c),
        passed(p, c).frames == p.frames,
        passed(p, c).seen == if c.len() > 0 && c.last() == '*' {
            Seen::Star
        } else {
            Seen::Nothing
        },
    decreases c.len(),
{
    if c.len() > 0 {
        let front = c.drop_last();
        let end = comment_end();
        assert(!contains_text(front, end)) by {
            if contains_text(front, end) {
                let i = choose|i: int| occurs_at(front, end, i);
                assert(c.subrange(i, i + 2) =~= front.subrange(i, i + 2));
                assert(occurs_at(c, end, i));
            }
        }
        lemma_block(p, front);
        assert(p.frames.len() == 1 ==> p.frames.last() == p.frames[0]);
        if front.len() > 0 && front.last() == '*' && c.last() == '/' {
            let i = c.len() - 2;
            assert(c.subrange(i, i + 2) =~= end);
            assert(occurs_at(c, end, i));
        }
    }
}

/// A name.
proof fn lemma_name(p: Place, c: Seq<char>)
    requires
        p.frames.len() == 0 || inside(p),
        p.in_code(),
        p.seen is Nothing || p.seen is Word || p.seen is Start,
        name_text(c),
    ensures
        reads(p, c),
        passed(p, c) == p.with(Seen::Word),
    decreases c.len(),
{
    let front = c.drop_last();
    if c.len() == 1 {
        assert(front =~= Seq::empty());
        assert(passed(p, front) == p);
        assert(reads(p, front));
        assert(c.last() == c[0]);
    } else {
        assert forall|i: int| 0 <= i < front.len() implies name_char(#[trigger] front[i]) by {
            assert(front[i] == c[i]);
        }
        lemma_name(p, front);
        assert(c.last() == c[c.len() - 1]);
    }
}

/// Whether the first `k` characters of a text are passed over as code in something that
/// was opened.
spec fn led_to(p: Place, c: Seq<char>, k: int) -> bool {
    let q = passed(p, c.take(k));
    &&& inside(p) && p.frames.last() is Group
    &&& 0 <= k <= c.len()
    &&& reads(p, c.take(k))
    &&& q.frames == p.frames
    &&& q.seen is Nothing || q.seen is Word
    &&& k == 0 || !name_char(c[k - 1]) ==> q.seen is Nothing
}

/// Whether all of a text is.
spec fn led_through(p: Place, c: Seq<char>) -> bool {
    &&& reads(p, c)
    &&& passed(p, c).frames == p.frames
    &&& passed(p, c).seen is Nothing || passed(p, c).seen is Word
    &&& c.len() == 0 || !name_char(c.last()) ==> passed(p, c).seen is Nothing
}

/// Behind some code.
proof fn lemma_led(p: Place, c: Seq<char>, k: int)
    requires
        inside(p),
        p.frames.last() is Group,
        0 <= k < c.len(),
        led_through(p, c.take(k)),
    ensures
        led_to(p, c, k),
{
    if k > 0 {
        assert(c.take(k).last() == c[k - 1]);
    }
}

/// A bracket.
proof fn lemma_group_part(p: Place, c: Seq<char>, k: int)
    requires
        led_to(p, c, k),
        k < c.len() - 1,
        opener(c[k]),
        closer(c.last()),
        code_text(c.subrange(k + 1, c.len() - 1)),
    ensures
        led_through(p, c),
    decreases c.len(), 0int,
{
    let n = c.len() as int;
    let a = passed(p, c.take(k));
    let b = c.subrange(k + 1, n - 1);
    let q = a.past(c[k]);
    assert(q.frames == p.frames.push(Frame::Group));
    lemma_code(q, b);
    lemma_bracketed(p, c, k, 1, b, 1);
    lemma_single(a, c[k]);
    lemma_single(passed(q, b), c.last());
    assert(c.subrange(k, k + 1) =~= seq![c[k]]);
    assert(c.skip(n - 1) =~= seq![c.last()]);
    assert(passed(q, b).past(c.last()).frames =~= p.frames);
}

/// A string in `"`.
proof fn lemma_string_part(p: Place, c: Seq<char>, k: int)
    requires
        led_to(p, c, k),
        k < c.len() - 1,
        c[k] == '"',
        c.last() == '"',
        string_text(c.subrange(k + 1, c.len() - 1)),
    ensures
        led_through(p, c),
    decreases c.len(), 0int,
{
    let n = c.len() as int;
    let a = passed(p, c.take(k));
    let b = c.subrange(k + 1, n - 1);
    let q = a.past('"');
    assert(q.frames == p.frames.push(Frame::Quoted));
    lemma_string(q, b);
    lemma_bracketed(p, c, k, 1, b, 1);
    lemma_single(a, '"');
    lemma_single(q, '"');
    assert(c.subrange(k, k + 1) =~= seq!['"']);
    assert(c.skip(n - 1) =~= seq!['"']);
    assert(q.past('"').frames =~= p.frames);
}

/// An indented string and the character behind it.
proof fn lemma_indented_part(p: Place, c: Seq<char>, k: int)
    requires
        led_to(p, c, k),
        k <= c.len() - 5,
        c[k] == '\'' && c[k + 1] == '\'',
        c[c.len() - 3] == '\'' && c[c.len() - 2] == '\'',
        plain_code(c.last()),
        c.last() != '$' && c.last() != '\\',
        k == 0 || !name_char(c[k - 1]),
        indented_text(c.subrange(k + 2, c.len() - 3)),
    ensures
        led_through(p, c),
    decreases c.len(), 0int,
{
    let n = c.len() as int;
    let a = passed(p, c.take(k));
    let b = c.subrange(k + 2, n - 3);
    let one = seq!['\''];
    let open = one.push('\'');
    lemma_single(a, '\'');
    lemma_more(a, one, '\'');
    let q = passed(a, open);
    assert(q.frames == p.frames.push(Frame::Indented));
    lemma_indented(q, b);
    lemma_single(q, '\'');
    lemma_more(q, one, '\'');
    let e = q.past('\'').past('\'');
    assert(e.frames =~= p.frames);
    lemma_more(q, open, c.last());
    lemma_bracketed(p, c, k, 2, b, 3);
    assert(c.subrange(k, k + 2) =~= open);
    assert(c.skip(n - 3) =~= open.push(c.last()));
}

/// A comment that ends with its line.
proof fn lemma_line_part(p: Place, c: Seq<char>, k: int)
    requires
        led_to(p, c, k),
        k < c.len() - 1,
        c[k] == '#',
        c.last() == '\n',
        !c.subrange(k + 1, c.len() - 1).contains('\n'),
    ensures
        led_through(p, c),
{
    let n = c.len() as int;
    let a = passed(p, c.take(k));
    let b = c.subrange(k + 1, n - 1);
    let q = a.past('#');
    assert(q.frames == p.frames.push(Frame::Line));
    lemma_line(q, b);
    lemma_bracketed(p, c, k, 1, b, 1);
    lemma_single(a, '#');
    lemma_single(q, '\n');
    assert(c.subrange(k, k + 1) =~= seq!['#']);
    assert(c.skip(n - 1) =~= seq!['\n']);
    assert(q.past('\n').frames =~= p.frames);
}

/// A comment that may go over lines.
proof fn lemma_block_part(p: Place, c: Seq<char>, k: int)
    requires
        led_to(p, c, k),
        k <= c.len() - 4,
        c[k] == '/' && c[k + 1] == '*',
        c[c.len() - 2] == '*' && c[c.len() - 1] == '/',
        !contains_text(c.subrange(k + 2, c.len() - 2), comment_end()),
    ensures
        led_through(p, c),
{
    let n = c.len() as int;
    let a = passed(p, c.take(k));
    let b = c.subrange(k + 2, n - 2);
    let open = seq!['/'].push('*');
    let close = seq!['*'].push('/');
    lemma_single(a, '/');
    lemma_more(a, seq!['/'], '*');
    let q = passed(a, open);
    assert(q.frames == p.frames.push(Frame::Block));
    lemma_block(q, b);
    let e = passed(q, b);
    lemma_single(e, '*');
    lemma_more(e, seq!['*'], '/');
    assert(e.past('*').past('/').frames =~= p.frames);
    lemma_bracketed(p, c, k, 2, b, 2);
    assert(c.subrange(k, k + 2) =~= open);
    assert(c.skip(n - 2) =~= close);
}

/// A plain character.
proof fn lemma_plain_part(p: Place, c: Seq<char>)
    requires
        c.len() > 0,
        led_to(p, c, c.len() - 1),
        plain_code(c.last()),
    ensures
        led_through(p, c),
{
    assert(c.drop_last() =~= c.take(c.len() - 1));
}

/// A `/` and a plain character.
proof fn lemma_slash_part(p: Place, c: Seq<char>)
    requires
        c.len() >= 2,
        led_to(p, c, c.len() - 2),
        c[c.len() - 2] == '/',
        plain_code(c.last()),
        c.last() != '*',
    ensures
        led_through(p, c),
{
    let front = c.take(c.len() - 2);
    lemma_more(p, front, '/');
    lemma_more(p, front.push('/'), c.last());
    assert(front.push('/').push(c.last()) =~= c);
}

/// A name.
proof fn lemma_name_part(p: Place, c: Seq<char>, k: int)
    requires
        led_to(p, c, k),
        k < c.len(),
        name_text(c.skip(k)),
    ensures
        led_through(p, c),
{
    lemma_name(passed(p, c.take(k)), c.skip(k));
    lemma_then(p, c.take(k), c.skip(k));
    assert(c.take(k) + c.skip(k) =~= c);
    assert(c.last() == c.skip(k)[c.len() - 1 - k]);
}

/// Code in something that was opened.
proof fn lemma_code(p: Place, c: Seq<char>)
    requires
        inside(p),
        p.frames.last() is Group,
        p.seen is Nothing,
        code_text(c),
    ensures
        led_through(p, c),
    decreases c.len(), 1int,
{
    let n = c.len() as int;
    if n == 0 {
    } else if plain_code(c.last()) && code_text(c.drop_last()) {
        assert(c.drop_last() =~= c.take(n - 1));
        lemma_code(p, c.take(n - 1));
        lemma_led(p, c, n - 1);
        lemma_plain_part(p, c);
    } else if n >= 2 && c[n - 2] == '/' && plain_code(c.last()) && c.last() != '*' && code_text(
        c.take(n - 2),
    ) {
        lemma_code(p, c.take(n - 2));
        lemma_led(p, c, n - 2);
        lemma_slash_part(p, c);
    } else if exists|k: int| 0 <= k < n && name_text(#[trigger] c.skip(k)) && code_text(c.take(k)) {
        let k = choose|k: int|
            0 <= k < n && name_text(#[trigger] c.skip(k)) && code_text(c.take(k));
        lemma_code(p, c.take(k));
        lemma_led(p, c, k);
        lemma_name_part(p, c, k);
    } else if exists|k: int|
        0 <= k < n - 1 && opener(#[trigger] c[k]) && closer(c.last()) && code_text(c.take(k))
            && code_text(c.subrange(k + 1, n - 1)) {
        let k = choose|k: int|
            0 <= k < n - 1 && opener(#[trigger] c[k]) && closer(c.last()) && code_text(c.take(k))
                && code_text(c.subrange(k + 1, n - 1));
        lemma_code(p, c.take(k));
        lemma_led(p, c, k);
        lemma_group_part(p, c, k);
    } else if exists|k: int|
        0 <= k < n - 1 && #[trigger] c[k] == '"' && c.last() == '"' && code_text(c.take(k))
            && string_text(c.subrange(k + 1, n - 1)) {
        let k = choose|k: int|
            0 <= k < n - 1 && #[trigger] c[k] == '"' && c.last() == '"' && code_text(c.take(k))
                && string_text(c.subrange(k + 1, n - 1));
        lemma_code(p, c.take(k));
        lemma_led(p, c, k);
        lemma_string_part(p, c, k);
    } else if exists|k: int|
        0 <= k <= n - 5 && #[trigger] c[k] == '\'' && c[k + 1] == '\'' && c[n - 3] == '\'' && c[n
            - 2] == '\'' && plain_code(c.last()) && c.last() != '$' && c.last() != '\\' && code_text(c.take(k)) && (k
            == 0 || !name_char(c[k - 1])) && indented_text(c.subrange(k + 2, n - 3)) {
        let k = choose|k: int|
            0 <= k <= n - 5 && #[trigger] c[k] == '\'' && c[k + 1] == '\'' && c[n - 3] == '\''
                && c[n - 2] == '\'' && plain_code(c.last()) && c.last() != '$' && c.last() != '\\' && code_text(c.take(k)) && (k
                == 0 || !name_char(c[k - 1])) && indented_text(c.subrange(k + 2, n - 3));
        lemma_code(p, c.take(k));
        lemma_led(p, c, k);
        lemma_indented_part(p, c, k);
    } else if exists|k: int|
        0 <= k < n - 1 && #[trigger] c[k] == '#' && c.last() == '\n' && code_text(c.take(k))
            && !c.subrange(k + 1, n - 1).contains('\n') {
        let k = choose|k: int|
            0 <= k < n - 1 && #[trigger] c[k] == '#' && c.last() == '\n' && code_text(c.take(k))
                && !c.subrange(k + 1, n - 1).contains('\n');
        lemma_code(p, c.take(k));
        lemma_led(p, c, k);
        lemma_line_part(p, c, k);
    } else {
        let k = choose|k: int|
            0 <= k <= n - 4 && #[trigger] c[k] == '/' && c[k + 1] == '*' && c[n - 2] == '*' && c[n
                - 1] == '/' && code_text(c.take(k)) && !contains_text(
                c.subrange(k + 2, n - 2),
                comment_end(),
            );
        lemma_code(p, c.take(k));
        lemma_led(p, c, k);
        lemma_block_part(p, c, k);
    }
}

/// A text, an opening of `i` characters behind it, the inside and a closing of `j`
/// characters.
proof fn lemma_bracketed(p: Place, c: Seq<char>, k: int, i: int, b: Seq<char>, j: int)
    requires
        0 <= k,
        0 <= i,
        0 <= j,
        k + i <= c.len() - j,
        b == c.subrange(k + i, c.len() - j),
    ensures
        ({
            let a = passed(p, c.take(k));
            let q = passed(a, c.subrange(k, k + i));
            let e = passed(q, b);
            &&& passed(p, c) == passed(e, c.skip(c.len() - j))
            &&& reads(p, c) == (reads(p, c.take(k)) && reads(a, c.subrange(k, k + i)) && reads(q, b)
                && reads(e, c.skip(c.len() - j)))
        }),
{
    let a = c.take(k);
    let o = c.subrange(k, k + i);
    let z = c.skip(c.len() - j);
    lemma_then(p, a, o);
    lemma_then(p, a + o, b);
    lemma_then(p, a + o + b, z);
    assert(a + o + b + z =~= c);
}

/// The inside of a string in `"`.
#[verifier::rlimit(40)]
proof fn lemma_string(p: Place, c: Seq<char>)
    requires
        inside(p),
        p.frames.last() is Quoted,
        p.seen is Nothing,
        string_text(c),
    ensures
        reads(p, c),
        passed(p, c) == p,
    decreases c.len(), 1int,
{
    let n = c.len() as int;
    if n == 0 {
    } else if c.last() != '"' && c.last() != '\\' && c.last() != '$' && string_text(
        c.drop_last(),
    ) {
        lemma_string(p, c.drop_last());
    } else if n >= 2 && c[n - 2] == '\\' && string_text(c.take(n - 2)) {
        lemma_string(p, c.take(n - 2));
        lemma_more(p, c.take(n - 2), '\\');
        lemma_more(p, c.take(n - 2).push('\\'), c.last());
        assert(c.take(n - 2).push('\\').push(c.last()) =~= c);
    } else if n >= 2 && c[n - 2] == '$' && c.last() != '{' && c.last() != '"' && c.last() != '\\'
        && string_text(c.take(n - 2)) {
        lemma_string(p, c.take(n - 2));
        lemma_more(p, c.take(n - 2), '$');
        lemma_more(p, c.take(n - 2).push('$'), c.last());
        assert(c.take(n - 2).push('$').push(c.last()) =~= c);
    } else if n >= 3 && c[n - 3] == '$' && c[n - 2] == '\\' && string_text(c.take(n - 3)) {
        lemma_string(p, c.take(n - 3));
        lemma_more(p, c.take(n - 3), '$');
        lemma_more(p, c.take(n - 3).push('$'), '\\');
        lemma_more(p, c.take(n - 3).push('$').push('\\'), c.last());
        assert(c.take(n - 3).push('$').push('\\').push(c.last()) =~= c);
    } else {
        let k = choose|k: int|
            0 <= k <= n - 3 && #[trigger] c[k] == '$' && c[k + 1] == '{' && c.last() == '}'
                && string_text(c.take(k)) && code_text(c.subrange(k + 2, n - 1));
        lemma_string(p, c.take(k));
        lemma_interpolation(p, c, k);
    }
}

/// An interpolation behind a text that leaves the place as it was.
proof fn lemma_interpolation(p: Place, c: Seq<char>, k: int)
    requires
        inside(p),
        p.frames.last() is Quoted || p.frames.last() is Indented,
        p.seen is Nothing,
        0 <= k <= c.len() - 3,
        c[k] == '$',
        c[k + 1] == '{',
        c.last() == '}',
        code_text(c.subrange(k + 2, c.len() - 1)),
        reads(p, c.take(k)),
        passed(p, c.take(k)) == p,
    ensures
        reads(p, c),
        passed(p, c) == p,
    decreases c.len(), 0int,
{
    let n = c.len() as int;
    let b = c.subrange(k + 2, n - 1);
    let open = seq!['$'].push('{');
    lemma_single(p, '$');
    lemma_more(p, seq!['$'], '{');
    let q = passed(p, open);
    assert(q.frames == p.frames.push(Frame::Group));
    lemma_code(q, b);
    lemma_single(passed(q, b), '}');
    assert(passed(q, b).past('}').frames =~= p.frames);
    lemma_bracketed(p, c, k, 2, b, 1);
    assert(c.subrange(k, k + 2) =~= open);
    assert(c.skip(n - 1) =~= seq!['}']);
}

/// The inside of an indented string.
#[verifier::rlimit(40)]
proof fn lemma_indented(p: Place, c: Seq<char>)
    requires
        inside(p),
        p.frames.last() is Indented,
        p.frames.len() == 1 || p.frames[p.frames.len() - 2] is Group,
        p.seen is Nothing,
        indented_text(c),
    ensures
        reads(p, c),
        passed(p, c) == p,
    decreases c.len(), 1int,
{
    let n = c.len() as int;
    if n == 0 {
    } else if c.last() != '\'' && c.last() != '$' && indented_text(c.drop_last()) {
        lemma_indented(p, c.drop_last());
    } else if n >= 2 && c[n - 2] == '\'' && c.last() != '\'' && c.last() != '$' && indented_text(
        c.take(n - 2),
    ) {
        lemma_indented(p, c.take(n - 2));
        lemma_more(p, c.take(n - 2), '\'');
        lemma_more(p, c.take(n - 2).push('\''), c.last());
        assert(c.take(n - 2).push('\'').push(c.last()) =~= c);
    } else if n >= 3 && c[n - 3] == '\'' && c[n - 2] == '\'' && (c.last() == '\'' || c.last()
        == '$') && indented_text(c.take(n - 3)) {
        lemma_indented(p, c.take(n - 3));
        lemma_more(p, c.take(n - 3), '\'');
        lemma_more(p, c.take(n - 3).push('\''), '\'');
        let q = p.past('\'').past('\'');
        assert(q.frames == p.frames.drop_last());
        assert(q.frames.len() > 0 ==> q.frames[0] == p.frames[0] && q.frames.last() is Group);
        lemma_more(p, c.take(n - 3).push('\'').push('\''), c.last());
        assert(c.take(n - 3).push('\'').push('\'').push(c.last()) =~= c);
        assert(q.past(c.last()).frames =~= p.frames);
    } else if n >= 4 && c[n - 4] == '\'' && c[n - 3] == '\'' && c[n - 2] == '\\' && indented_text(
        c.take(n - 4),
    ) {
        lemma_indented(p, c.take(n - 4));
        lemma_more(p, c.take(n - 4), '\'');
        lemma_more(p, c.take(n - 4).push('\''), '\'');
        let q = p.past('\'').past('\'');
        assert(q.frames == p.frames.drop_last());
        assert(q.frames.len() > 0 ==> q.frames[0] == p.frames[0] && q.frames.last() is Group);
        lemma_more(p, c.take(n - 4).push('\'').push('\''), '\\');
        assert(q.past('\\').frames =~= p.frames);
        lemma_more(p, c.take(n - 4).push('\'').push('\'').push('\\'), c.last());
        assert(c.take(n - 4).push('\'').push('\'').push('\\').push(c.last()) =~= c);
    } else if n >= 2 && c[n - 2] == '$' && c.last() != '{' && c.last() != '\'' && indented_text(
        c.take(n - 2),
    ) {
        lemma_indented(p, c.take(n - 2));
        lemma_more(p, c.take(n - 2), '$');
        lemma_more(p, c.take(n - 2).push('$'), c.last());
        assert(c.take(n - 2).push('$').push(c.last()) =~= c);
    } else {
        let k = choose|k: int|
            0 <= k <= n - 3 && #[trigger] c[k] == '$' && c[k + 1] == '{' && c.last() == '}'
                && indented_text(c.take(k)) && code_text(c.subrange(k + 2, n - 1));
        lemma_indented(p, c.take(k));
        lemma_interpolation(p, c, k);
    }
}

// ── One entry ───────────────────────────────────────────────────────────────

/// The start of an entry.
proof fn lemma_at_start(c: char)
    requires
        !white_space(c),
        c != ']',
        c != '#',
    ensures
        reads(entry_start(), seq![c]),
        passed(entry_start(), seq![c]) == entry_start().past(c),
{
    lemma_single(entry_start(), c);
}

/// A string is one entry, whatever it holds.
pub proof fn law_a_string_is_one_entry(c: Seq<char>)
    requires
        string_text(c),
    ensures
        one_entry(quoted(c)),
        one_entry(quoted(c.push('$'))),
{
    let start = entry_start();
    let open = seq!['"'];
    let q = start.past('"');
    lemma_at_start('"');
    assert(q.frames =~= seq![Frame::Quoted]);
    lemma_string(q, c);
    lemma_then(start, open, c);
    lemma_more(start, open + c, '"');
    assert((open + c).push('"') =~= quoted(c));
    lemma_begins(quoted(c));
    let dollar = (open + c).push('$');
    lemma_more(start, open + c, '$');
    lemma_more(start, dollar, '"');
    assert(dollar.push('"') =~= quoted(c.push('$')));
    lemma_begins(quoted(c.push('$')));
}

/// An indented string.
pub open spec fn indented(c: Seq<char>) -> Seq<char> {
    seq!['\'', '\''] + c + seq!['\'', '\'']
}

/// An indented string is one entry, whatever it holds.
pub proof fn law_an_indented_string_is_one_entry(c: Seq<char>)
    requires
        indented_text(c),
    ensures
        one_entry(indented(c)),
        one_entry(indented(c.push('$'))),
{
    let start = entry_start();
    let open = seq!['\''].push('\'');
    lemma_at_start('\'');
    lemma_more(start, seq!['\''], '\'');
    let q = start.past('\'').past('\'');
    assert(q.frames =~= seq![Frame::Indented]);
    lemma_indented(q, c);
    lemma_then(start, open, c);
    let all = open + c;
    lemma_more(start, all, '\'');
    lemma_more(start, all.push('\''), '\'');
    assert(all.push('\'').push('\'') =~= indented(c));
    lemma_begins(indented(c));
    let dollar = all.push('$');
    lemma_more(start, all, '$');
    lemma_more(start, dollar, '\'');
    lemma_more(start, dollar.push('\''), '\'');
    assert(dollar.push('\'').push('\'') =~= indented(c.push('$')));
    lemma_begins(indented(c.push('$')));
}

/// What is in brackets is one entry with them, whatever code it is.
pub proof fn law_a_group_is_one_entry(open: char, c: Seq<char>, close: char)
    requires
        open == '(' || open == '[' || open == '{',
        close == ')' || close == ']' || close == '}',
        code_text(c),
    ensures
        one_entry(seq![open] + c + seq![close]),
{
    let start = entry_start();
    lemma_at_start(open);
    let q = start.past(open);
    assert(q.frames =~= seq![Frame::Group]);
    lemma_code(q, c);
    let all = seq![open] + c;
    lemma_then(start, seq![open], c);
    lemma_more(start, all, close);
    assert(all.push(close) =~= seq![open] + c + seq![close]);
    lemma_begins(all.push(close));
}

/// A name is one entry, also with quotes in it.
pub proof fn law_a_name_is_one_entry(name: Seq<char>)
    requires
        name_text(name),
    ensures
        one_entry(name),
{
    lemma_name(entry_start(), name);
    lemma_begins(name);
}

/// The quotes in a name open no string.
pub proof fn law_names_are_code(a: Seq<char>, name: Seq<char>)
    requires
        bare_code(a),
        name_text(name),
    ensures
        code_only(a + name) == a + name,
{
    let s = a + name;
    assert forall|i: int| 0 <= i < s.len() implies code_only(s)[i] == s[i] by {
        if i <= a.len() {
            assert(s.take(i) =~= a.take(i));
            assert(bare_code(a.take(i))) by {
                assert forall|j: int| 0 <= j < i implies {
                    let c = #[trigger] a.take(i)[j];
                    c != '"' && c != '\'' && c != '#' && c != '/'
                } by {
                    assert(a.take(i)[j] == a[j]);
                }
            }
            lemma_bare_code(a.take(i));
        } else {
            let part = name.take(i - a.len());
            assert(s.take(i) =~= a + part);
            lemma_bare_code(a);
            lemma_name_in_code(a, part, name);
        }
    }
    assert(code_only(s) =~= s);
}

/// The beginning of a name, in code.
proof fn lemma_name_in_code(a: Seq<char>, part: Seq<char>, name: Seq<char>)
    requires
        place_after(a).in_code(),
        place_after(a).seen is Nothing || place_after(a).seen is Word,
        name_text(name),
        0 < part.len() <= name.len(),
        part == name.take(part.len() as int),
    ensures
        place_after(a + part) == place_after(a).with(Seen::Word),
    decreases part.len(),
{
    let front = part.drop_last();
    assert((a + part).drop_last() =~= a + front);
    assert(part.last() == name[part.len() - 1]);
    if front.len() == 0 {
        assert(a + front =~= a);
    } else {
        assert(front =~= name.take(front.len() as int));
        lemma_name_in_code(a, front, name);
    }
}

/// A path that begins with `/`, without white space and `]`, is one entry, whatever
/// else it holds, if it begins no comment.
pub proof fn law_an_absolute_path_is_one_entry(s: Seq<char>)
    requires
        s.len() > 0,
        s[0] == '/',
        s.len() > 1 ==> s[1] != '*',
        solid(s),
        !s.contains(']'),
    ensures
        one_entry(s),
{
    lemma_absolute_path(s, s.len() as int);
    assert(s.take(s.len() as int) =~= s);
    lemma_begins(s);
}

proof fn lemma_absolute_path(s: Seq<char>, k: int)
    requires
        0 < k <= s.len(),
        s[0] == '/',
        s.len() > 1 ==> s[1] != '*',
        solid(s),
        !s.contains(']'),
    ensures
        reads(entry_start(), s.take(k)),
        passed(entry_start(), s.take(k)) == entry_start().with(
            if k == 1 {
                Seen::Root
            } else {
                Seen::Path
            },
        ),
    decreases k,
{
    if k == 1 {
        assert(s.take(1) =~= seq!['/']);
        assert(!white_space(s[0]));
        lemma_at_start('/');
    } else {
        lemma_absolute_path(s, k - 1);
        lemma_more(entry_start(), s.take(k - 1), s[k - 1]);
        assert(s.take(k) =~= s.take(k - 1).push(s[k - 1]));
        assert(!white_space(s[k - 1]));
        assert(s.contains(s[k - 1]));
    }
}

/// A comment right behind a name ends the name, and is no entry itself.
pub proof fn law_a_comment_ends_a_name(entries: Seq<Seq<char>>, name: Seq<char>, c: Seq<char>)
    requires
        name_text(name),
    ensures
        !c.contains('\n') ==> list_read(list_with(entries), name + line_comment(c)) == list_with(
            entries.push(name),
        ),
        !contains_text(c, comment_end()) ==> list_read(list_with(entries), name + block_comment(c))
            == list_with(entries.push(name)),
{
    let list = list_with(entries);
    let more = list_with(entries.push(name));
    lemma_name(entry_start(), name);
    lemma_begins(name);
    lemma_entry_is_begun(entries, name);
    let begun = list_read(list, name);
    if !c.contains('\n') {
        let open = seq!['#'];
        let rest = c.push('\n');
        assert(open.drop_last() =~= Seq::empty());
        assert(list_read(more, Seq::empty()) == more);
        assert(list_read(more, open) == more.read('#'));
        assert(name.push('#').drop_last() =~= name);
        assert(list_read(list, name.push('#')) == begun.read('#'));
        assert(begun.read('#') == more.read('#'));
        lemma_list_read_add(list, name.push('#'), rest);
        lemma_list_read_add(more, open, rest);
        assert(name.push('#') + rest =~= name + line_comment(c));
        assert(open + rest =~= line_comment(c));
        law_a_comment_is_no_entry(entries.push(name), line_comment(c));
    }
    if !contains_text(c, comment_end()) {
        let slash = seq!['/'];
        let open = seq!['/', '*'];
        let rest = c + comment_end();
        assert(slash.drop_last() =~= Seq::empty());
        assert(list_read(more, Seq::empty()) == more);
        assert(list_read(more, slash) == more.read('/'));
        assert(open.drop_last() =~= slash);
        assert(list_read(more, open) == more.read('/').read('*'));
        let one = name.push('/');
        let two = one.push('*');
        assert(one.drop_last() =~= name);
        assert(two.drop_last() =~= one);
        assert(list_read(list, one) == begun.read('/'));
        assert(list_read(list, two) == begun.read('/').read('*'));
        assert(begun.read('/').word.drop_last() =~= name);
        assert(more.read('/').word.drop_last() =~= Seq::empty());
        assert(begun.read('/').read('*') == more.read('/').read('*'));
        lemma_list_read_add(list, two, rest);
        lemma_list_read_add(more, open, rest);
        assert(two + rest =~= name + block_comment(c));
        assert(open + rest =~= block_comment(c));
        law_a_comment_is_no_entry(entries.push(name), block_comment(c));
    }
}

/// The brackets.
pub proof fn law_brackets_are_these(c: char)
    ensures
        opener(c) <==> c == '(' || c == '[' || c == '{',
        closer(c) <==> c == ')' || c == ']' || c == '}',
{
}

} // verus!
