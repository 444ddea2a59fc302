//! Lists in Nix code: finding the list that a key is set to, and its entries.
//!
//! A text is read character by character, with a stack of what is open: brackets,
//! strings, comments. Only as much of the lexical grammar is known as it takes to
//! tell code from strings and comments and one entry of a list from the next.

use vstd::prelude::*;
use vstd::string::*;

use crate::text::{
    ascii_alphabetic, chars_of, find, find_from, is_ascii_letter, is_white_space, lemma_texts_push,
    texts, white_space, words, words_of,
};

verus! {

// ── Reading code ────────────────────────────────────────────────────────────

/// Something that is open at some place of a text.
#[derive(Debug, Clone, Copy, PartialEq, Eq, Structural)]
pub enum Frame {
    /// `(`, `[` or `{`, or the `${` of an interpolation.
    Group,
    /// A string in `"`.
    Quoted,
    /// A string in `''`.
    Indented,
    /// A comment that ends with its line.
    Line,
    /// A comment that ends with `*/`.
    Block,
}

/// What the characters just read may be the beginning of.
#[derive(Debug, Clone, Copy, PartialEq, Eq, Structural)]
pub enum Seen {
    /// Nothing that matters.
    Nothing,
    /// An entry of a list is about to begin.
    Start,
    /// A path that is an entry of a list.
    Path,
    /// A `/` at the beginning of an entry: an absolute path, or a comment.
    Root,
    /// An identifier, of which `'` may be a part.
    Word,
    /// A `/` in code.
    Slash,
    /// One `'`.
    Quote,
    /// The `''` that ends a string, unless it turns out to be an escape.
    Ended,
    /// An escape in a string.
    Escape,
    /// A `$` in a string.
    Dollar,
    /// A `*` in a comment.
    Star,
}

/// A place in a text: what is open there, and what was just read.
#[verifier::ext_equal]
pub struct Place {
    pub frames: Seq<Frame>,
    pub seen: Seen,
}

/// Whether `c` opens a bracket.
pub open spec fn opener(c: char) -> bool {
    c == '(' || c == '[' || c == '{'
}

/// Whether `c` closes a bracket.
pub open spec fn closer(c: char) -> bool {
    c == ')' || c == ']' || c == '}'
}

/// Whether `c` is a decimal digit.
pub open spec fn decimal_digit(c: char) -> bool {
    0x30 <= c as u32 <= 0x39
}

impl Place {
    /// Whether code is read here, no string and no comment.
    pub open spec fn in_code(self) -> bool {
        self.frames.len() == 0 || self.frames.last() is Group
    }

    /// Whether a comment is read here.
    pub open spec fn in_comment(self) -> bool {
        self.frames.len() > 0 && (self.frames.last() is Line || self.frames.last() is Block)
    }

    /// The place behind what opens a frame.
    pub open spec fn opened(self, frame: Frame, seen: Seen) -> Place {
        Place { frames: self.frames.push(frame), seen }
    }

    /// The place behind what closes a frame; what closes nothing is passed over.
    pub open spec fn left(self, seen: Seen) -> Place {
        Place {
            frames: if self.frames.len() > 0 {
                self.frames.drop_last()
            } else {
                self.frames
            },
            seen,
        }
    }

    /// The same frames, with something else just read.
    pub open spec fn with(self, seen: Seen) -> Place {
        Place { seen, ..self }
    }

    /// The comment that `c` opens in code.
    pub open spec fn comment_at(self, c: char) -> Option<Frame> {
        if c == '#' && self.seen != Seen::Path && self.seen != Seen::Root {
            Some(Frame::Line)
        } else if c == '*' && (self.seen == Seen::Slash || self.seen == Seen::Root) {
            Some(Frame::Block)
        } else {
            None
        }
    }

    /// The place behind a character of code.
    pub open spec fn in_code_past(self, c: char) -> Place {
        if let Some(frame) = self.comment_at(c) {
            self.opened(frame, Seen::Nothing)
        } else if self.seen == Seen::Path || self.seen == Seen::Root {
            self.with(Seen::Path)
        } else if self.seen == Seen::Start && (c == '.' || c == '<' || c == '~') {
            self.with(Seen::Path)
        } else if self.seen == Seen::Start && c == '/' {
            self.with(Seen::Root)
        } else if self.seen == Seen::Ended && (c == '\'' || c == '$') {
            self.opened(Frame::Indented, Seen::Nothing)
        } else if self.seen == Seen::Ended && c == '\\' {
            self.opened(Frame::Indented, Seen::Escape)
        } else if self.seen == Seen::Quote && c == '\'' {
            self.opened(Frame::Indented, Seen::Nothing)
        } else if c == '"' {
            self.opened(Frame::Quoted, Seen::Nothing)
        } else if opener(c) {
            self.opened(Frame::Group, Seen::Nothing)
        } else if closer(c) {
            self.left(Seen::Nothing)
        } else if c == '/' {
            self.with(Seen::Slash)
        } else if c == '\'' {
            self.with(
                if self.seen == Seen::Word {
                    Seen::Word
                } else {
                    Seen::Quote
                },
            )
        } else if ascii_alphabetic(c) || c == '_' {
            self.with(Seen::Word)
        } else if (decimal_digit(c) || c == '-') && self.seen == Seen::Word {
            self.with(Seen::Word)
        } else {
            self.with(Seen::Nothing)
        }
    }

    /// The place behind a character of a string in `"`.
    pub open spec fn in_quoted_past(self, c: char) -> Place {
        if self.seen == Seen::Escape {
            self.with(Seen::Nothing)
        } else if self.seen == Seen::Dollar && c == '{' {
            self.opened(Frame::Group, Seen::Nothing)
        } else if self.seen == Seen::Dollar && c == '$' {
            self.with(Seen::Nothing)
        } else if c == '"' {
            self.left(Seen::Nothing)
        } else if c == '\\' {
            self.with(Seen::Escape)
        } else if c == '$' {
            self.with(Seen::Dollar)
        } else {
            self.with(Seen::Nothing)
        }
    }

    /// The place behind a character of a string in `''`.
    pub open spec fn in_indented_past(self, c: char) -> Place {
        if self.seen == Seen::Escape {
            self.with(Seen::Nothing)
        } else if self.seen == Seen::Quote && c == '\'' {
            self.left(Seen::Ended)
        } else if c == '\'' {
            self.with(Seen::Quote)
        } else if self.seen == Seen::Dollar && c == '{' {
            self.opened(Frame::Group, Seen::Nothing)
        } else if self.seen == Seen::Dollar && c == '$' {
            self.with(Seen::Nothing)
        } else if c == '$' {
            self.with(Seen::Dollar)
        } else {
            self.with(Seen::Nothing)
        }
    }

    /// The place behind a character of a comment.
    pub open spec fn in_comment_past(self, c: char) -> Place {
        if self.frames.last() is Line {
            if c == '\n' {
                self.left(Seen::Nothing)
            } else {
                self.with(Seen::Nothing)
            }
        } else if self.seen == Seen::Star && c == '/' {
            self.left(Seen::Nothing)
        } else if c == '*' {
            self.with(Seen::Star)
        } else {
            self.with(Seen::Nothing)
        }
    }

    /// The place behind the character `c`.
    pub open spec fn past(self, c: char) -> Place {
        if self.in_code() {
            self.in_code_past(c)
        } else if self.frames.last() is Quoted {
            self.in_quoted_past(c)
        } else if self.frames.last() is Indented {
            self.in_indented_past(c)
        } else {
            self.in_comment_past(c)
        }
    }
}

/// The place at the end of a text that begins with code.
pub open spec fn place_after(s: Seq<char>) -> Place
    decreases s.len(),
{
    if s.len() == 0 {
        Place { frames: Seq::empty(), seen: Seen::Nothing }
    } else {
        place_after(s.drop_last()).past(s.last())
    }
}

/// A text with a space in place of each character of a string or a comment; what
/// opens it stays.
pub open spec fn code_only(s: Seq<char>) -> Seq<char> {
    Seq::new(
        s.len(),
        |i: int|
            if place_after(s.take(i)).in_code() {
                s[i]
            } else {
                ' '
            },
    )
}

/// A place in a text.
#[derive(Debug)]
struct Cursor {
    frames: Vec<Frame>,
    seen: Seen,
}

impl Cursor {
    spec fn view(&self) -> Place {
        Place { frames: self.frames@, seen: self.seen }
    }

    /// The innermost frame.
    fn top(&self) -> (r: Option<Frame>)
        ensures
            match r {
                Some(frame) => self.view().frames.len() > 0 && frame == self.view().frames.last(),
                None => self.view().frames.len() == 0,
            },
    {
        let n: usize = self.frames.len();
        if n == 0 {
            None
        } else {
            Some(self.frames[n - 1])
        }
    }

    fn in_code(&self) -> (r: bool)
        ensures
            r == self.view().in_code(),
    {
        match self.top() {
            None => true,
            Some(frame) => matches!(frame, Frame::Group),
        }
    }

    fn in_comment(&self) -> (r: bool)
        ensures
            r == self.view().in_comment(),
    {
        match self.top() {
            None => false,
            Some(frame) => matches!(frame, Frame::Line | Frame::Block),
        }
    }

    fn open(&mut self, frame: Frame, seen: Seen)
        ensures
            final(self).view() == old(self).view().opened(frame, seen),
    {
        self.frames.push(frame);
        self.seen = seen;
    }

    fn leave(&mut self, seen: Seen)
        ensures
            final(self).view() == old(self).view().left(seen),
    {
        let _ = self.frames.pop();
        self.seen = seen;
        assert(self.frames@ =~= old(self).view().left(seen).frames);
    }

    /// The comment that `c` opens in code.
    fn comment_at(&self, c: char) -> (r: Option<Frame>)
        ensures
            r == self.view().comment_at(c),
    {
        if c == '#' && self.seen != Seen::Path && self.seen != Seen::Root {
            Some(Frame::Line)
        } else if c == '*' && (self.seen == Seen::Slash || self.seen == Seen::Root) {
            Some(Frame::Block)
        } else {
            None
        }
    }

    fn pass_code(&mut self, c: char)
        ensures
            final(self).view() == old(self).view().in_code_past(c),
    {
        let n: u32 = c as u32;
        if let Some(frame) = self.comment_at(c) {
            self.open(frame, Seen::Nothing);
        } else if self.seen == Seen::Path || self.seen == Seen::Root {
            self.seen = Seen::Path;
        } else if self.seen == Seen::Start && (c == '.' || c == '<' || c == '~') {
            self.seen = Seen::Path;
        } else if self.seen == Seen::Start && c == '/' {
            self.seen = Seen::Root;
        } else if self.seen == Seen::Ended && (c == '\'' || c == '$') {
            self.open(Frame::Indented, Seen::Nothing);
        } else if self.seen == Seen::Ended && c == '\\' {
            self.open(Frame::Indented, Seen::Escape);
        } else if self.seen == Seen::Quote && c == '\'' {
            self.open(Frame::Indented, Seen::Nothing);
        } else if c == '"' {
            self.open(Frame::Quoted, Seen::Nothing);
        } else if c == '(' || c == '[' || c == '{' {
            self.open(Frame::Group, Seen::Nothing);
        } else if c == ')' || c == ']' || c == '}' {
            self.leave(Seen::Nothing);
        } else if c == '/' {
            self.seen = Seen::Slash;
        } else if c == '\'' {
            self.seen = if self.seen == Seen::Word {
                Seen::Word
            } else {
                Seen::Quote
            };
        } else if is_ascii_letter(c) || c == '_' {
            self.seen = Seen::Word;
        } else if ((0x30 <= n && n <= 0x39) || c == '-') && self.seen == Seen::Word {
            self.seen = Seen::Word;
        } else {
            self.seen = Seen::Nothing;
        }
    }

    fn pass_quoted(&mut self, c: char)
        ensures
            final(self).view() == old(self).view().in_quoted_past(c),
    {
        if self.seen == Seen::Escape {
            self.seen = Seen::Nothing;
        } else if self.seen == Seen::Dollar && c == '{' {
            self.open(Frame::Group, Seen::Nothing);
        } else if self.seen == Seen::Dollar && c == '$' {
            self.seen = Seen::Nothing;
        } else if c == '"' {
            self.leave(Seen::Nothing);
        } else if c == '\\' {
            self.seen = Seen::Escape;
        } else if c == '$' {
            self.seen = Seen::Dollar;
        } else {
            self.seen = Seen::Nothing;
        }
    }

    fn pass_indented(&mut self, c: char)
        ensures
            final(self).view() == old(self).view().in_indented_past(c),
    {
        if self.seen == Seen::Escape {
            self.seen = Seen::Nothing;
        } else if self.seen == Seen::Quote && c == '\'' {
            self.leave(Seen::Ended);
        } else if c == '\'' {
            self.seen = Seen::Quote;
        } else if self.seen == Seen::Dollar && c == '{' {
            self.open(Frame::Group, Seen::Nothing);
        } else if self.seen == Seen::Dollar && c == '$' {
            self.seen = Seen::Nothing;
        } else if c == '$' {
            self.seen = Seen::Dollar;
        } else {
            self.seen = Seen::Nothing;
        }
    }

    fn pass_comment(&mut self, frame: Frame, c: char)
        requires
            old(self).view().frames.len() > 0,
            frame == old(self).view().frames.last(),
        ensures
            final(self).view() == old(self).view().in_comment_past(c),
    {
        let line = matches!(frame, Frame::Line);
        if line {
            if c == '\n' {
                self.leave(Seen::Nothing);
            } else {
                self.seen = Seen::Nothing;
            }
        } else if self.seen == Seen::Star && c == '/' {
            self.leave(Seen::Nothing);
        } else if c == '*' {
            self.seen = Seen::Star;
        } else {
            self.seen = Seen::Nothing;
        }
    }

    /// Goes past the character `c`.
    fn pass(&mut self, c: char)
        ensures
            final(self).view() == old(self).view().past(c),
    {
        match self.top() {
            None => self.pass_code(c),
            Some(frame) => match frame {
                Frame::Group => self.pass_code(c),
                Frame::Quoted => self.pass_quoted(c),
                Frame::Indented => self.pass_indented(c),
                Frame::Line => self.pass_comment(frame, c),
                Frame::Block => self.pass_comment(frame, c),
            },
        }
    }
}

/// The characters of a text, with a space in place of each that stands in a
/// string or a comment.
fn code_chars(v: &Vec<char>) -> (r: Vec<char>)
    ensures
        r@ == code_only(v@),
{
    let n: usize = v.len();
    let mut out: Vec<char> = Vec::new();
    let mut at = Cursor { frames: Vec::new(), seen: Seen::Nothing };
    assert(at.view() =~= place_after(v@.take(0)));
    for i in 0..n
        invariant
            n == v.len(),
            at.view() == place_after(v@.take(i as int)),
            out@ == code_only(v@).take(i as int),
    {
        let c = if at.in_code() {
            v[i]
        } else {
            ' '
        };
        out.push(c);
        assert(out@ =~= code_only(v@).take(i + 1));
        at.pass(v[i]);
        assert(v@.take(i + 1).drop_last() =~= v@.take(i as int));
    }
    assert(code_only(v@).take(n as int) =~= code_only(v@));
    out
}

// ── Reading a list ──────────────────────────────────────────────────────────

/// A list that is being read: where, the entry that has begun, the entries
/// before it, and whether the list has ended.
#[verifier::ext_equal]
pub struct ListView {
    pub place: Place,
    pub word: Seq<char>,
    pub entries: Seq<Seq<char>>,
    pub closed: bool,
}

/// The place at which an entry may begin.
pub open spec fn entry_start() -> Place {
    Place { frames: Seq::empty(), seen: Seen::Start }
}

/// A list of which these entries were read.
pub open spec fn list_with(entries: Seq<Seq<char>>) -> ListView {
    ListView { place: entry_start(), word: Seq::empty(), entries, closed: false }
}

/// `entries` and then `word`, if that is not empty.
pub open spec fn with_word(entries: Seq<Seq<char>>, word: Seq<char>) -> Seq<Seq<char>> {
    if word.len() > 0 {
        entries.push(word)
    } else {
        entries
    }
}

impl ListView {
    /// The list after one more character. White space and comments part the
    /// entries, `]` ends the list; in brackets, strings and their comments all is
    /// part of the entry. A path runs to the next white space or `]`.
    pub open spec fn read(self, c: char) -> ListView {
        let place = self.place;
        if self.closed {
            self
        } else if place.frames.len() == 0 {
            if white_space(c) {
                list_with(with_word(self.entries, self.word))
            } else if c == ']' {
                ListView {
                    closed: true,
                    ..list_with(with_word(self.entries, self.word))
                }
            } else if let Some(frame) = place.comment_at(c) {
                let word = if frame is Block && self.word.len() > 0 {
                    self.word.drop_last()
                } else {
                    self.word
                };
                ListView {
                    place: place.past(c),
                    ..list_with(with_word(self.entries, word))
                }
            } else {
                ListView { place: place.past(c), word: self.word.push(c), ..self }
            }
        } else if place.frames.len() == 1 && place.in_comment() {
            if place.past(c).frames.len() == 0 {
                list_with(self.entries)
            } else {
                ListView { place: place.past(c), ..list_with(self.entries) }
            }
        } else {
            ListView { place: place.past(c), word: self.word.push(c), ..self }
        }
    }
}

/// The list after all characters of a text.
pub open spec fn list_read(list: ListView, s: Seq<char>) -> ListView
    decreases s.len(),
{
    if s.len() == 0 {
        list
    } else {
        list_read(list, s.drop_last()).read(s.last())
    }
}

/// A text is read part by part.
pub proof fn lemma_list_read_add(list: ListView, a: Seq<char>, b: Seq<char>)
    ensures
        list_read(list, a + b) == list_read(list_read(list, a), b),
    decreases b.len(),
{
    if b.len() == 0 {
        assert(a + b =~= a);
    } else {
        assert((a + b).drop_last() =~= a + b.drop_last());
        lemma_list_read_add(list, a, b.drop_last());
    }
}

/// A list that has ended stays as it is.
pub proof fn lemma_closed_stays(list: ListView, a: Seq<char>, b: Seq<char>)
    requires
        list_read(list, a).closed,
    ensures
        list_read(list, a + b) == list_read(list, a),
    decreases b.len(),
{
    if b.len() == 0 {
        assert(a + b =~= a);
    } else {
        assert((a + b).drop_last() =~= a + b.drop_last());
        lemma_closed_stays(list, a, b.drop_last());
    }
}

/// Where the list that `key` is set to begins: behind the first `[` after the
/// first `key` in the code of `s`.
pub open spec fn list_start(s: Seq<char>, key: Seq<char>) -> Option<int> {
    let code = code_only(s);
    match find_from(code, key, 0) {
        None => None,
        Some(k) => match find_from(code, seq!['['], k + key.len()) {
            None => None,
            Some(open) => Some(open + 1),
        },
    }
}

/// The entries of the list that `key` is set to in `s`, as they are written and
/// without comments between them. None where there is no such list, or it does
/// not end.
pub open spec fn entries_after(s: Seq<char>, key: Seq<char>) -> Option<Seq<Seq<char>>> {
    match list_start(s, key) {
        None => None,
        Some(start) => {
            let list = list_read(list_with(Seq::empty()), s.skip(start));
            if list.closed {
                Some(list.entries)
            } else {
                None
            }
        },
    }
}

/// The words of the list that `key` is set to in `s`, up to the first `]`,
/// whatever that belongs to. None where there is no such list, or no `]`.
pub open spec fn words_after(s: Seq<char>, key: Seq<char>) -> Option<Seq<Seq<char>>> {
    match list_start(s, key) {
        None => None,
        Some(start) => match find_from(s, seq![']'], start) {
            None => None,
            Some(close) => Some(words_of(s.subrange(start, close))),
        },
    }
}

/// What the list that `key` is set to in `s` holds: its entries, or, where it
/// does not end as code, its words up to the first `]`. Nothing where there is no
/// list.
pub open spec fn items_after(s: Seq<char>, key: Seq<char>) -> Seq<Seq<char>> {
    match entries_after(s, key) {
        Some(entries) => entries,
        None => match words_after(s, key) {
            Some(words) => words,
            None => Seq::empty(),
        },
    }
}

/// Enters the characters of `s` from `start` up to `end` as an entry, unless
/// there are none.
fn enter(s: &str, out: &mut Vec<String>, start: usize, end: usize)
    requires
        start <= end <= s@.len(),
    ensures
        texts(final(out)@) == with_word(texts(old(out)@), s@.subrange(start as int, end as int)),
{
    if start < end {
        let word = s.substring_char(start, end).to_owned();
        proof {
            lemma_texts_push(out@, word);
        }
        out.push(word);
    }
}

/// The entries of the list whose text begins at character `from` of `s`, if it
/// ends.
fn read_list(s: &str, v: &Vec<char>, from: usize) -> (r: Option<Vec<String>>)
    requires
        v@ == s@,
        from <= v@.len(),
    ensures
        ({
            let list = list_read(list_with(Seq::empty()), s@.skip(from as int));
            match r {
                Some(entries) => list.closed && texts(entries@) == list.entries,
                None => !list.closed,
            }
        }),
{
    let n: usize = v.len();
    let mut out: Vec<String> = Vec::new();
    let mut start: usize = from;
    let mut at = Cursor { frames: Vec::new(), seen: Seen::Start };
    let ghost first = list_with(Seq::empty());
    let ghost text = s@.skip(from as int);
    proof {
        assert(text.take(0) =~= Seq::empty());
        assert(texts(out@) =~= Seq::<Seq<char>>::empty());
        assert(s@.subrange(start as int, start as int) =~= Seq::empty());
        assert(at.view() =~= entry_start());
    }
    for i in from..n
        invariant
            n == v.len(),
            v@ == s@,
            from <= start <= i,
            from <= n,
            text == s@.skip(from as int),
            first == list_with(Seq::empty()),
            ({
                let list = list_read(first, text.take(i - from));
                &&& !list.closed
                &&& list.place == at.view()
                &&& list.word == s@.subrange(start as int, i as int)
                &&& list.entries == texts(out@)
            }),
    {
        let c = v[i];
        let ghost list = list_read(first, text.take(i - from));
        proof {
            assert(text.take(i + 1 - from).drop_last() =~= text.take(i - from));
            assert(list_read(first, text.take(i + 1 - from)) == list.read(c));
            assert(s@.subrange(i + 1, i + 1) =~= Seq::empty());
            assert(s@.subrange(start as int, i + 1) =~= s@.subrange(start as int, i as int).push(
                c,
            ));
        }
        if at.frames.len() == 0 {
            if is_white_space(c) {
                enter(s, &mut out, start, i);
                start = i + 1;
                at.seen = Seen::Start;
                assert(at.view() =~= entry_start());
            } else if c == ']' {
                enter(s, &mut out, start, i);
                proof {
                    lemma_closed_stays(first, text.take(i + 1 - from), text.skip(i + 1 - from));
                    assert(text.take(i + 1 - from) + text.skip(i + 1 - from) =~= text);
                }
                return Some(out);
            } else {
                match at.comment_at(c) {
                    Some(frame) => {
                        let block = matches!(frame, Frame::Block);
                        if block {
                            if start < i {
                                assert(s@.subrange(start as int, i as int).drop_last()
                                    =~= s@.subrange(start as int, i - 1));
                                enter(s, &mut out, start, i - 1);
                            }
                        } else {
                            enter(s, &mut out, start, i);
                        }
                        at.pass(c);
                        start = i + 1;
                    },
                    None => {
                        at.pass(c);
                    },
                }
            }
        } else if at.frames.len() == 1 && at.in_comment() {
            at.pass(c);
            start = i + 1;
            if at.frames.len() == 0 {
                at.seen = Seen::Start;
                assert(at.view() =~= entry_start());
            }
        } else {
            at.pass(c);
        }
    }
    assert(text.take(n - from) =~= text);
    None
}

/// Where the list that `key` is set to in `s` begins, if there is one.
fn start_of_list(s: &str, v: &Vec<char>, key: &str) -> (r: Option<usize>)
    requires
        v@ == s@,
    ensures
        match r {
            Some(start) => list_start(s@, key@) == Some(start as int) && start <= v@.len(),
            None => list_start(s@, key@) is None,
        },
{
    let code = code_chars(v);
    let p = chars_of(key);
    let n: usize = v.len();
    let bracket: Vec<char> = vec!['['];
    assert(bracket@ =~= seq!['[']);
    let k: usize = match find(&code, &p, 0) {
        Some(k) => k,
        None => return None,
    };
    assert(k + p@.len() <= n);
    match find(&code, &bracket, k + p.len()) {
        Some(open) => {
            assert(open + 1 <= n);
            Some(open + 1)
        },
        None => None,
    }
}

/// The entries of the list that `key` is set to in the code of `s`, if there is
/// one and it ends.
pub fn list_entries(s: &str, key: &str) -> (r: Option<Vec<String>>)
    ensures
        match r {
            Some(entries) => entries_after(s@, key@) == Some(texts(entries@)),
            None => entries_after(s@, key@) is None,
        },
{
    let v = chars_of(s);
    match start_of_list(s, &v, key) {
        Some(start) => read_list(s, &v, start),
        None => None,
    }
}

/// The words of the list that `key` is set to in the code of `s`, up to the first
/// `]`, if there are both.
pub fn list_words(s: &str, key: &str) -> (r: Option<Vec<String>>)
    ensures
        match r {
            Some(found) => words_after(s@, key@) == Some(texts(found@)),
            None => words_after(s@, key@) is None,
        },
{
    let v = chars_of(s);
    let start: usize = match start_of_list(s, &v, key) {
        Some(start) => start,
        None => return None,
    };
    let bracket: Vec<char> = vec![']'];
    assert(bracket@ =~= seq![']']);
    match find(&v, &bracket, start) {
        Some(close) => Some(words(s.substring_char(start, close))),
        None => None,
    }
}

/// What the list that `key` is set to in the code of `s` holds. A list that does
/// not end as code is read word by word, so that no list is lost to one bracket
/// or quote too many.
pub fn list_items(s: &str, key: &str) -> (r: Vec<String>)
    ensures
        texts(r@) == items_after(s@, key@),
{
    match list_entries(s, key) {
        Some(entries) => entries,
        None => match list_words(s, key) {
            Some(found) => found,
            None => {
                let none: Vec<String> = Vec::new();
                assert(texts(none@) =~= Seq::<Seq<char>>::empty());
                none
            },
        },
    }
}

} // verus!
