//! Text as a sequence of characters: trimming, searching, splitting, joining and
//! decimal numerals.
//!
//! The executable functions scan a text as a vector of characters, so every
//! index here counts characters, never bytes.

use vstd::prelude::*;
use vstd::string::*;

verus! {

// ── Characters ──────────────────────────────────────────────────────────────

/// The characters with the Unicode `White_Space` property.
pub open spec fn white_space(c: char) -> bool {
    ||| 0x09 <= c as u32 <= 0x0d
    ||| c as u32 == 0x20
    ||| c as u32 == 0x85
    ||| c as u32 == 0xa0
    ||| c as u32 == 0x1680
    ||| 0x2000 <= c as u32 <= 0x200a
    ||| c as u32 == 0x2028
    ||| c as u32 == 0x2029
    ||| c as u32 == 0x202f
    ||| c as u32 == 0x205f
    ||| c as u32 == 0x3000
}

/// Whether `c` has the Unicode `White_Space` property.
pub fn is_white_space(c: char) -> (r: bool)
    ensures
        r == white_space(c),
{
    let n: u32 = c as u32;
    (0x09 <= n && n <= 0x0d) || n == 0x20 || n == 0x85 || n == 0xa0 || n == 0x1680 || (0x2000 <= n
        && n <= 0x200a) || n == 0x2028 || n == 0x2029 || n == 0x202f || n == 0x205f || n == 0x3000
}

/// The ASCII letters and digits.
pub open spec fn ascii_alphanumeric(c: char) -> bool {
    ascii_alphabetic(c) || 0x30 <= c as u32 <= 0x39
}

/// The ASCII letters.
pub open spec fn ascii_alphabetic(c: char) -> bool {
    0x41 <= c as u32 <= 0x5a || 0x61 <= c as u32 <= 0x7a
}

/// Whether `c` is an ASCII letter.
pub fn is_ascii_letter(c: char) -> (r: bool)
    ensures
        r == ascii_alphabetic(c),
{
    let n: u32 = c as u32;
    (0x41 <= n && n <= 0x5a) || (0x61 <= n && n <= 0x7a)
}

/// Whether `c` is an ASCII letter or digit.
pub fn is_ascii_letter_or_digit(c: char) -> (r: bool)
    ensures
        r == ascii_alphanumeric(c),
{
    let n: u32 = c as u32;
    is_ascii_letter(c) || (0x30 <= n && n <= 0x39)
}

/// The characters of a text, in order.
pub fn chars_of(s: &str) -> (v: Vec<char>)
    ensures
        v@ == s@,
{
    let mut v: Vec<char> = Vec::new();
    for c in it: s.chars()
        invariant
            it.seq() == s@,
            v@ == s@.take(it.index()),
    {
        v.push(c);
        assert(v@ == s@.take(it.index() + 1));
    }
    assert(s@.take(s@.len() as int) == s@);
    v
}

/// Whether two texts hold the same characters.
pub fn same_text(a: &str, b: &str) -> (r: bool)
    ensures
        r == (a@ == b@),
{
    let x = chars_of(a);
    let y = chars_of(b);
    if x.len() != y.len() {
        return false;
    }
    let n: usize = x.len();
    for i in 0..n
        invariant
            x@ == a@,
            y@ == b@,
            n == x.len() == y.len(),
            forall|j: int| 0 <= j < i ==> x@[j] == y@[j],
    {
        if x[i] != y[i] {
            return false;
        }
    }
    assert(a@ =~= b@);
    true
}

// ── Trimming ────────────────────────────────────────────────────────────────

/// `s` without its leading white space.
pub open spec fn trim_start(s: Seq<char>) -> Seq<char>
    decreases s.len(),
{
    if s.len() > 0 && white_space(s.first()) {
        trim_start(s.drop_first())
    } else {
        s
    }
}

/// `s` without its trailing white space.
pub open spec fn trim_end(s: Seq<char>) -> Seq<char>
    decreases s.len(),
{
    if s.len() > 0 && white_space(s.last()) {
        trim_end(s.drop_last())
    } else {
        s
    }
}

/// `s` without its leading and trailing white space.
pub open spec fn trimmed(s: Seq<char>) -> Seq<char> {
    trim_end(trim_start(s))
}

/// The part of a text between its leading and its trailing white space.
pub fn trim<'a>(s: &'a str) -> (t: &'a str)
    ensures
        t@ == trimmed(s@),
{
    let v = chars_of(s);
    let n: usize = v.len();
    let mut i: usize = 0;
    assert(s@.skip(0) == s@);
    while i < n && is_white_space(v[i])
        invariant
            v@ == s@,
            n == v.len(),
            i <= n,
            trim_start(s@) == trim_start(s@.skip(i as int)),
        decreases n - i,
    {
        assert(s@.skip(i as int).drop_first() == s@.skip(i + 1));
        i += 1;
    }
    let ghost rest = s@.skip(i as int);
    assert(trim_start(s@) == rest);
    let mut j: usize = n;
    assert(rest.take(n - i) == rest);
    while j > i && is_white_space(v[j - 1])
        invariant
            v@ == s@,
            n == v.len(),
            i <= j <= n,
            rest == s@.skip(i as int),
            trim_end(rest) == trim_end(rest.take(j - i)),
        decreases j,
    {
        assert(rest.take(j - i).drop_last() == rest.take(j - i - 1));
        j -= 1;
    }
    assert(rest.take(j - i) == s@.subrange(i as int, j as int));
    s.substring_char(i, j)
}

// ── Searching ───────────────────────────────────────────────────────────────

/// Whether `pat` stands in `s` at index `i`.
pub open spec fn occurs_at(s: Seq<char>, pat: Seq<char>, i: int) -> bool {
    0 <= i && i + pat.len() <= s.len() && s.subrange(i, i + pat.len()) == pat
}

/// Whether `pat` stands somewhere in `s`.
pub open spec fn contains_text(s: Seq<char>, pat: Seq<char>) -> bool {
    exists|i: int| occurs_at(s, pat, i)
}

/// Whether `s` begins with `pat`.
pub open spec fn starts_with(s: Seq<char>, pat: Seq<char>) -> bool {
    occurs_at(s, pat, 0)
}

/// Whether `s` ends with `pat`.
pub open spec fn ends_with(s: Seq<char>, pat: Seq<char>) -> bool {
    occurs_at(s, pat, s.len() - pat.len())
}

/// The least index from `from` on at which `pat` stands in `s`.
pub open spec fn find_from(s: Seq<char>, pat: Seq<char>, from: int) -> Option<int>
    decreases s.len() - from + 1,
{
    if from + pat.len() > s.len() {
        None
    } else if occurs_at(s, pat, from) {
        Some(from)
    } else {
        find_from(s, pat, from + 1)
    }
}

/// What [`find_from`] finds is an occurrence, nothing before it is one, and it
/// finds nothing only where there is none.
pub proof fn lemma_find_from(s: Seq<char>, pat: Seq<char>, from: int)
    requires
        0 <= from,
    ensures
        match find_from(s, pat, from) {
            Some(k) => {
                &&& from <= k
                &&& occurs_at(s, pat, k)
                &&& forall|j: int| from <= j < k ==> !occurs_at(s, pat, j)
            },
            None => forall|j: int| from <= j ==> !occurs_at(s, pat, j),
        },
    decreases s.len() - from + 1,
{
    if from + pat.len() > s.len() {
    } else if occurs_at(s, pat, from) {
    } else {
        lemma_find_from(s, pat, from + 1);
    }
}

/// The first occurrence is the one that [`find_from`] finds.
pub proof fn lemma_find_from_first(s: Seq<char>, pat: Seq<char>, from: int, k: int)
    requires
        0 <= from <= k,
        occurs_at(s, pat, k),
        forall|j: int| from <= j < k ==> !occurs_at(s, pat, j),
    ensures
        find_from(s, pat, from) == Some(k),
{
    lemma_find_from(s, pat, from);
}

/// Whether `pat` stands in `v` at index `i`.
fn matches_at(v: &Vec<char>, pat: &Vec<char>, i: usize) -> (r: bool)
    ensures
        r == occurs_at(v@, pat@, i as int),
{
    let n: usize = v.len();
    let m: usize = pat.len();
    if m > n || i > n - m {
        return false;
    }
    for k in 0..m
        invariant
            n == v.len(),
            m == pat.len(),
            i + m <= n,
            forall|j: int| 0 <= j < k ==> v@[i + j] == pat@[j],
    {
        if v[i + k] != pat[k] {
            assert(v@.subrange(i as int, i + m)[k as int] != pat@[k as int]);
            return false;
        }
    }
    assert(v@.subrange(i as int, i + m) =~= pat@);
    true
}

/// The least index from `from` on at which `pat` stands in `v`.
pub fn find(v: &Vec<char>, pat: &Vec<char>, from: usize) -> (r: Option<usize>)
    ensures
        match r {
            Some(k) => find_from(v@, pat@, from as int) == Some(k as int) && from <= k && k
                + pat@.len() <= v@.len(),
            None => find_from(v@, pat@, from as int) is None,
        },
{
    let n: usize = v.len();
    let m: usize = pat.len();
    let mut i: usize = from;
    while m <= n && i <= n - m
        invariant
            n == v.len(),
            m == pat.len(),
            from <= i,
            find_from(v@, pat@, from as int) == find_from(v@, pat@, i as int),
        decreases n + 1 - i,
    {
        if matches_at(v, pat, i) {
            return Some(i);
        }
        if i == n - m {
            assert(find_from(v@, pat@, i + 1) is None);
            return None;
        }
        i += 1;
    }
    None
}

/// Whether `pat` stands somewhere in `s`.
pub fn has_text(s: &str, pat: &str) -> (r: bool)
    ensures
        r == contains_text(s@, pat@),
{
    let v = chars_of(s);
    let p = chars_of(pat);
    proof {
        lemma_find_from(s@, pat@, 0);
    }
    match find(&v, &p, 0) {
        Some(_) => true,
        None => false,
    }
}

/// Whether `c` is one of the characters of `s`.
pub fn has_char(s: &str, c: char) -> (r: bool)
    ensures
        r == s@.contains(c),
{
    let v = chars_of(s);
    let n: usize = v.len();
    for i in 0..n
        invariant
            v@ == s@,
            n == v.len(),
            forall|j: int| 0 <= j < i ==> s@[j] != c,
    {
        if v[i] == c {
            assert(s@[i as int] == c);
            return true;
        }
    }
    false
}

/// Whether `s` begins with `pat`.
pub fn begins_with(s: &str, pat: &str) -> (r: bool)
    ensures
        r == starts_with(s@, pat@),
{
    matches_at(&chars_of(s), &chars_of(pat), 0)
}

/// Whether `s` ends with `pat`.
pub fn finishes_with(s: &str, pat: &str) -> (r: bool)
    ensures
        r == ends_with(s@, pat@),
{
    let v = chars_of(s);
    let p = chars_of(pat);
    if p.len() > v.len() {
        return false;
    }
    matches_at(&v, &p, v.len() - p.len())
}

// ── Splitting ───────────────────────────────────────────────────────────────

/// The pieces of `s` between the characters that `sep` accepts; one more piece
/// than there are such characters.
pub open spec fn split_where(s: Seq<char>, sep: spec_fn(char) -> bool) -> Seq<Seq<char>>
    decreases s.len(),
{
    if s.len() == 0 {
        seq![Seq::empty()]
    } else {
        let pieces = split_where(s.drop_last(), sep);
        if sep(s.last()) {
            pieces.push(Seq::empty())
        } else {
            pieces.drop_last().push(pieces.last().push(s.last()))
        }
    }
}

/// [`white_space`] as a separator.
pub open spec fn at_white_space() -> spec_fn(char) -> bool {
    |c: char| white_space(c)
}

/// The newline as a separator.
pub open spec fn at_newline() -> spec_fn(char) -> bool {
    |c: char| c == '\n'
}

/// Holds of every text but the empty one.
pub open spec fn non_empty() -> spec_fn(Seq<char>) -> bool {
    |t: Seq<char>| t.len() > 0
}

/// The words of `s`: its pieces between white space, without the empty ones.
pub open spec fn words_of(s: Seq<char>) -> Seq<Seq<char>> {
    split_where(s, at_white_space()).filter(non_empty())
}

/// The texts that a sequence of strings holds.
pub open spec fn texts(v: Seq<String>) -> Seq<Seq<char>> {
    v.map_values(|s: String| s@)
}

/// There is always at least one piece.
pub proof fn lemma_split_where_some(s: Seq<char>, sep: spec_fn(char) -> bool)
    ensures
        split_where(s, sep).len() > 0,
    decreases s.len(),
{
    if s.len() > 0 {
        lemma_split_where_some(s.drop_last(), sep);
    }
}

/// How [`Seq::filter`] treats one more element.
pub proof fn lemma_filter_push<A>(s: Seq<A>, e: A, pred: spec_fn(A) -> bool)
    ensures
        s.push(e).filter(pred) == if pred(e) {
            s.filter(pred).push(e)
        } else {
            s.filter(pred)
        },
{
    reveal(Seq::filter);
    assert(s.push(e).drop_last() == s);
}

/// [`texts`] of one more string.
pub proof fn lemma_texts_push(v: Seq<String>, s: String)
    ensures
        texts(v.push(s)) == texts(v).push(s@),
{
    assert(texts(v.push(s)) =~= texts(v).push(s@));
}

/// The words of a text, in order.
pub fn words(s: &str) -> (r: Vec<String>)
    ensures
        texts(r@) == words_of(s@),
{
    let v = chars_of(s);
    let n: usize = v.len();
    let mut out: Vec<String> = Vec::new();
    let mut start: usize = 0;
    assert(texts(out@) =~= Seq::<Seq<char>>::empty());
    proof {
        reveal(Seq::filter);
        assert(split_where(s@.take(0), at_white_space()).drop_last() =~= Seq::<
            Seq<char>,
        >::empty());
        assert(s@.subrange(0, 0) =~= Seq::<char>::empty());
    }
    for i in 0..n
        invariant
            v@ == s@,
            n == v.len(),
            start <= i,
            ({
                let pieces = split_where(s@.take(i as int), at_white_space());
                &&& pieces.len() > 0
                &&& pieces.last() == s@.subrange(start as int, i as int)
                &&& texts(out@) == pieces.drop_last().filter(non_empty())
            }),
    {
        let ghost before = split_where(s@.take(i as int), at_white_space());
        let ghost after = split_where(s@.take(i + 1), at_white_space());
        proof {
            assert(s@.take(i + 1).drop_last() == s@.take(i as int));
            assert(before == before.drop_last().push(before.last()));
        }
        if is_white_space(v[i]) {
            proof {
                assert(after.drop_last() == before);
                lemma_filter_push(before.drop_last(), before.last(), non_empty());
                assert(s@.subrange(i + 1, i + 1) =~= Seq::<char>::empty());
            }
            if start < i {
                let w = s.substring_char(start, i).to_owned();
                proof {
                    lemma_texts_push(out@, w);
                }
                out.push(w);
            }
            start = i + 1;
        } else {
            proof {
                assert(after.drop_last() == before.drop_last());
                assert(s@.subrange(start as int, i + 1) =~= s@.subrange(
                    start as int,
                    i as int,
                ).push(s@[i as int]));
            }
        }
    }
    let ghost pieces = split_where(s@, at_white_space());
    proof {
        assert(s@.take(n as int) == s@);
        assert(pieces == pieces.drop_last().push(pieces.last()));
        lemma_filter_push(pieces.drop_last(), pieces.last(), non_empty());
    }
    if start < n {
        let w = s.substring_char(start, n).to_owned();
        proof {
            lemma_texts_push(out@, w);
        }
        out.push(w);
    }
    out
}

/// `s` without one carriage return at its end.
pub open spec fn without_cr(s: Seq<char>) -> Seq<char> {
    if s.len() > 0 && s.last() == '\r' {
        s.drop_last()
    } else {
        s
    }
}

/// [`without_cr`] as a function to map.
pub open spec fn strip_cr() -> spec_fn(Seq<char>) -> Seq<char> {
    |t: Seq<char>| without_cr(t)
}

/// The lines of `s`. A line ends with a newline or a carriage return and a
/// newline, which are no part of it; the last line may lack its end, and then a
/// carriage return at its end stays.
pub open spec fn lines_of(s: Seq<char>) -> Seq<Seq<char>> {
    let pieces = split_where(s, at_newline());
    let ended = pieces.drop_last().map_values(strip_cr());
    if pieces.last().len() == 0 {
        ended
    } else {
        ended.push(pieces.last())
    }
}

/// The characters of `v` from `start` up to `end`, without one carriage return
/// at the end.
fn ended_line(s: &str, v: &Vec<char>, start: usize, end: usize) -> (r: String)
    requires
        v@ == s@,
        start <= end <= v@.len(),
    ensures
        r@ == without_cr(s@.subrange(start as int, end as int)),
{
    if start < end && v[end - 1] == '\r' {
        assert(s@.subrange(start as int, end as int).drop_last() =~= s@.subrange(
            start as int,
            end - 1,
        ));
        s.substring_char(start, end - 1).to_owned()
    } else {
        s.substring_char(start, end).to_owned()
    }
}

/// The lines of a text, in order.
pub fn lines(s: &str) -> (r: Vec<String>)
    ensures
        texts(r@) == lines_of(s@),
{
    let v = chars_of(s);
    let n: usize = v.len();
    let mut out: Vec<String> = Vec::new();
    let mut start: usize = 0;
    proof {
        assert(s@.subrange(0, 0) =~= Seq::<char>::empty());
        assert(texts(out@) =~= split_where(s@.take(0), at_newline()).drop_last().map_values(
            strip_cr(),
        ));
    }
    for i in 0..n
        invariant
            v@ == s@,
            n == v.len(),
            start <= i,
            ({
                let pieces = split_where(s@.take(i as int), at_newline());
                &&& pieces.len() > 0
                &&& pieces.last() == s@.subrange(start as int, i as int)
                &&& texts(out@) == pieces.drop_last().map_values(strip_cr())
            }),
    {
        let ghost before = split_where(s@.take(i as int), at_newline());
        let ghost after = split_where(s@.take(i + 1), at_newline());
        proof {
            assert(s@.take(i + 1).drop_last() == s@.take(i as int));
        }
        if v[i] == '\n' {
            let line = ended_line(s, &v, start, i);
            proof {
                assert(after.drop_last() == before);
                lemma_texts_push(out@, line);
                assert(before.map_values(strip_cr()) =~= before.drop_last().map_values(
                    strip_cr(),
                ).push(without_cr(before.last())));
                assert(s@.subrange(i + 1, i + 1) =~= Seq::<char>::empty());
            }
            out.push(line);
            start = i + 1;
        } else {
            proof {
                assert(after.drop_last() == before.drop_last());
                assert(s@.subrange(start as int, i + 1) =~= s@.subrange(
                    start as int,
                    i as int,
                ).push(s@[i as int]));
            }
        }
    }
    assert(s@.take(n as int) == s@);
    if start < n {
        let w = s.substring_char(start, n).to_owned();
        proof {
            lemma_texts_push(out@, w);
        }
        out.push(w);
    }
    out
}

// ── Building ────────────────────────────────────────────────────────────────

/// The texts of `parts` one after another, with `sep` between neighbours.
pub open spec fn joined(parts: Seq<Seq<char>>, sep: Seq<char>) -> Seq<char>
    decreases parts.len(),
{
    if parts.len() == 0 {
        Seq::empty()
    } else if parts.len() == 1 {
        parts[0]
    } else {
        joined(parts.drop_last(), sep) + sep + parts.last()
    }
}

/// Joins the strings of `parts` from index `from` on.
pub fn join(parts: &Vec<String>, from: usize, sep: &str) -> (r: String)
    requires
        from <= parts@.len(),
    ensures
        r@ == joined(texts(parts@.skip(from as int)), sep@),
{
    let n: usize = parts.len();
    let mut out = String::new();
    let ghost all = texts(parts@.skip(from as int));
    assert(all.take(0) =~= Seq::<Seq<char>>::empty());
    for i in from..n
        invariant
            n == parts.len(),
            from <= n,
            all == texts(parts@.skip(from as int)),
            out@ == joined(all.take(i - from), sep@),
    {
        proof {
            let k = i - from;
            assert(all.take(k + 1).drop_last() =~= all.take(k));
            assert(all.take(k + 1).last() == parts@[i as int]@);
            if k == 0 {
                assert(out@ + parts@[i as int]@ =~= parts@[i as int]@);
            }
        }
        if i > from {
            out.append(sep);
        }
        out.append(parts[i].as_str());
    }
    assert(all.take(n - from) =~= all);
    out
}

/// `s` with a space in place of each newline.
pub open spec fn on_one_line(s: Seq<char>) -> Seq<char> {
    Seq::new(
        s.len(),
        |i: int|
            if s[i] == '\n' {
                ' '
            } else {
                s[i]
            },
    )
}

/// A copy of `s` with a space in place of each newline.
pub fn unbroken(s: &str) -> (r: String)
    ensures
        r@ == on_one_line(s@),
{
    let v = chars_of(s);
    let n: usize = v.len();
    let mut out = String::new();
    let mut start: usize = 0;
    proof {
        reveal_strlit(" ");
        assert(on_one_line(s@).take(0) =~= Seq::<char>::empty());
    }
    for i in 0..n
        invariant
            v@ == s@,
            n == v.len(),
            start <= i,
            " "@ == seq![' '],
            out@ == on_one_line(s@).take(start as int),
            forall|j: int| start <= j < i ==> s@[j] != '\n',
    {
        if v[i] == '\n' {
            out.append(s.substring_char(start, i));
            out.append(" ");
            assert(out@ =~= on_one_line(s@).take(i + 1));
            start = i + 1;
        }
    }
    out.append(s.substring_char(start, n));
    assert(out@ =~= on_one_line(s@));
    out
}

/// The decimal digit of a number below ten.
pub open spec fn digit(d: int) -> char {
    (0x30 + d) as char
}

/// The decimal numeral of `n`.
pub open spec fn decimal(n: int) -> Seq<char>
    decreases n,
{
    if n < 10 {
        seq![digit(n)]
    } else {
        decimal(n / 10).push(digit(n % 10))
    }
}

/// The text of one decimal digit.
fn digit_text(d: u64) -> (r: &'static str)
    requires
        d < 10,
    ensures
        r@ == seq![digit(d as int)],
{
    proof {
        reveal_strlit("0");
        reveal_strlit("1");
        reveal_strlit("2");
        reveal_strlit("3");
        reveal_strlit("4");
        reveal_strlit("5");
        reveal_strlit("6");
        reveal_strlit("7");
        reveal_strlit("8");
        reveal_strlit("9");
    }
    let r = match d {
        0 => "0",
        1 => "1",
        2 => "2",
        3 => "3",
        4 => "4",
        5 => "5",
        6 => "6",
        7 => "7",
        8 => "8",
        _ => "9",
    };
    assert(r@ =~= seq![digit(d as int)]);
    r
}

/// Appends the decimal numeral of `n` to `out`.
pub fn append_decimal(out: &mut String, n: u64)
    ensures
        final(out)@ == old(out)@ + decimal(n as int),
    decreases n,
{
    if n >= 10 {
        append_decimal(out, n / 10);
    }
    let ghost before = out@;
    out.append(digit_text(n % 10));
    proof {
        assert(before.push(digit((n % 10) as int)) =~= before + seq![digit((n % 10) as int)]);
        if n >= 10 {
            assert(out@ =~= old(out)@ + decimal((n / 10) as int).push(digit((n % 10) as int)));
        }
    }
}

} // verus!
