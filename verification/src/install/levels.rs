//! How deep a text may take the Nix parser.
//!
//! The parser bounds the depth of nested expressions by itself. Lists in lists,
//! signs, operators and arguments deepen its recursion or its tree beside that,
//! by a level for each, so they are counted here, over the tokens of the text.
//! What cannot add a level is left out: the head of an expression, its first
//! argument, and a list of nothing but names, numbers, paths and plain strings.
//!
//! The count holds for any text, valid or not. The parser takes any token for an
//! operand where it wants one, so an operator counts by itself. It takes any token
//! for the end of a parenthesis, so that the head and the first argument behind
//! that token may be arguments of what the parenthesis is one of: these count with
//! the parenthesis. And where it wants an attribute behind a `.`, it passes over
//! everything up to the next name, which therefore is the head of nothing.

use vstd::prelude::*;
use vstd::string::*;

use crate::text::{same_text, texts};

verus! {

/// How many levels a text may add to the tree of the parser beside its nested
/// expressions, for the tree to be built and taken down on two mebibytes of stack.
pub const MAX_LEVELS: usize = 1000;

/// A token of Nix, as far as it matters to the depth of the tree.
#[derive(Debug, Clone, Copy, PartialEq, Eq, Structural)]
pub enum Token {
    /// White space, a comment, or what is no token.
    Trivia,
    /// An identifier.
    Word,
    /// A number, a path or a URI.
    Value,
    /// What begins a string.
    Quote,
    /// The text of a string.
    Text,
    /// What ends a string.
    QuoteEnd,
    /// `rec`.
    Rec,
    /// `{`, or the `${` of an interpolation.
    Brace,
    /// `(`
    Paren,
    /// `[`
    List,
    /// `]`
    ListEnd,
    /// What closes any other bracket or an interpolation.
    Closer,
    /// `or`.
    Or,
    /// `.`
    Dot,
    /// `?`
    Question,
    /// `=`
    Assign,
    /// `;`
    Semicolon,
    /// `:`
    Colon,
    /// `++`
    Concat,
    /// What adds no level: a keyword, `,`, `@` and `...`.
    Quiet,
    /// Any other operator.
    Other,
}

/// The token of a kind that the parser gives this name.
pub open spec fn token_of(kind: Seq<char>) -> Token {
    if kind == "TOKEN_WHITESPACE"@ || kind == "TOKEN_COMMENT"@ || kind == "TOKEN_ERROR"@ {
        Token::Trivia
    } else if kind == "TOKEN_IDENT"@ {
        Token::Word
    } else if kind == "TOKEN_INTEGER"@ || kind == "TOKEN_FLOAT"@ || kind == "TOKEN_PATH"@ || kind
        == "TOKEN_URI"@ {
        Token::Value
    } else if kind == "TOKEN_STRING_START"@ {
        Token::Quote
    } else if kind == "TOKEN_STRING_CONTENT"@ {
        Token::Text
    } else if kind == "TOKEN_STRING_END"@ {
        Token::QuoteEnd
    } else if kind == "TOKEN_REC"@ {
        Token::Rec
    } else if kind == "TOKEN_R_BRACK"@ {
        Token::ListEnd
    } else if kind == "TOKEN_R_BRACE"@ || kind == "TOKEN_R_PAREN"@ || kind
        == "TOKEN_INTERPOL_END"@ {
        Token::Closer
    } else if kind == "TOKEN_OR"@ {
        Token::Or
    } else if kind == "TOKEN_DOT"@ {
        Token::Dot
    } else if kind == "TOKEN_QUESTION"@ {
        Token::Question
    } else if kind == "TOKEN_L_BRACK"@ {
        Token::List
    } else if kind == "TOKEN_L_PAREN"@ {
        Token::Paren
    } else if kind == "TOKEN_L_BRACE"@ || kind == "TOKEN_INTERPOL_START"@ {
        Token::Brace
    } else if kind == "TOKEN_ASSIGN"@ {
        Token::Assign
    } else if kind == "TOKEN_SEMICOLON"@ {
        Token::Semicolon
    } else if kind == "TOKEN_COLON"@ {
        Token::Colon
    } else if kind == "TOKEN_CONCAT"@ {
        Token::Concat
    } else if kind == "TOKEN_COMMA"@ || kind == "TOKEN_AT"@ || kind == "TOKEN_ELLIPSIS"@ || kind
        == "TOKEN_LET"@ || kind == "TOKEN_IN"@ || kind == "TOKEN_WITH"@ || kind == "TOKEN_IF"@
        || kind == "TOKEN_THEN"@ || kind == "TOKEN_ELSE"@ || kind == "TOKEN_ASSERT"@ || kind
        == "TOKEN_INHERIT"@ {
        Token::Quiet
    } else {
        Token::Other
    }
}

/// The token of a kind that the parser gives this name.
fn token_named(kind: &str) -> (t: Token)
    ensures
        t == token_of(kind@),
{
    if same_text(kind, "TOKEN_WHITESPACE") || same_text(kind, "TOKEN_COMMENT") || same_text(
        kind,
        "TOKEN_ERROR",
    ) {
        Token::Trivia
    } else if same_text(kind, "TOKEN_IDENT") {
        Token::Word
    } else if same_text(kind, "TOKEN_INTEGER") || same_text(kind, "TOKEN_FLOAT") || same_text(
        kind,
        "TOKEN_PATH",
    ) || same_text(kind, "TOKEN_URI") {
        Token::Value
    } else if same_text(kind, "TOKEN_STRING_START") {
        Token::Quote
    } else if same_text(kind, "TOKEN_STRING_CONTENT") {
        Token::Text
    } else if same_text(kind, "TOKEN_STRING_END") {
        Token::QuoteEnd
    } else if same_text(kind, "TOKEN_REC") {
        Token::Rec
    } else if same_text(kind, "TOKEN_R_BRACK") {
        Token::ListEnd
    } else if same_text(kind, "TOKEN_R_BRACE") || same_text(kind, "TOKEN_R_PAREN") || same_text(
        kind,
        "TOKEN_INTERPOL_END",
    ) {
        Token::Closer
    } else if same_text(kind, "TOKEN_OR") {
        Token::Or
    } else if same_text(kind, "TOKEN_DOT") {
        Token::Dot
    } else if same_text(kind, "TOKEN_QUESTION") {
        Token::Question
    } else if same_text(kind, "TOKEN_L_BRACK") {
        Token::List
    } else if same_text(kind, "TOKEN_L_PAREN") {
        Token::Paren
    } else if same_text(kind, "TOKEN_L_BRACE") || same_text(kind, "TOKEN_INTERPOL_START") {
        Token::Brace
    } else if same_text(kind, "TOKEN_ASSIGN") {
        Token::Assign
    } else if same_text(kind, "TOKEN_SEMICOLON") {
        Token::Semicolon
    } else if same_text(kind, "TOKEN_COLON") {
        Token::Colon
    } else if same_text(kind, "TOKEN_CONCAT") {
        Token::Concat
    } else if same_text(kind, "TOKEN_COMMA") || same_text(kind, "TOKEN_AT") || same_text(
        kind,
        "TOKEN_ELLIPSIS",
    ) || same_text(kind, "TOKEN_LET") || same_text(kind, "TOKEN_IN") || same_text(
        kind,
        "TOKEN_WITH",
    ) || same_text(kind, "TOKEN_IF") || same_text(kind, "TOKEN_THEN") || same_text(
        kind,
        "TOKEN_ELSE",
    ) || same_text(kind, "TOKEN_ASSERT") || same_text(kind, "TOKEN_INHERIT") {
        Token::Quiet
    } else {
        Token::Other
    }
}

/// What is known of the tokens read so far.
#[derive(Debug, Clone, Copy, PartialEq, Eq, Structural)]
pub struct Reading {
    /// The last token that is no trivia.
    pub last: Option<Token>,
    /// Whether an attribute may still be wanted for a `.` or a `?`, so that the
    /// parser may pass over what comes next.
    pub wanting: bool,
    /// Whether only plain entries have followed the bracket of a list that the
    /// parser is bound to read as a list.
    pub listed: bool,
    /// Whether the operand that was read is the head of an expression.
    pub head: bool,
}

/// Nothing was read.
pub open spec fn unread() -> Reading {
    Reading { last: None, wanting: false, listed: false, head: false }
}

impl Reading {
    /// Whether the last token can end an operand, so that an argument may follow.
    pub open spec fn behind_operand(self) -> bool {
        match self.last {
            Some(t) => t == Token::Word || t == Token::Value || t == Token::QuoteEnd || t
                == Token::ListEnd || t == Token::Closer || t == Token::Or,
            None => false,
        }
    }

    /// Whether the parser is bound to read `[` as the beginning of a list here.
    pub open spec fn before_list(self) -> bool {
        match self.last {
            Some(t) => !self.wanting && (t == Token::Assign || t == Token::Semicolon || t
                == Token::Colon || t == Token::Concat || t == Token::Paren || t == Token::List),
            None => false,
        }
    }

    /// Whether the token `t` leaves a list of plain entries what it is, or ends
    /// it.
    pub open spec fn plain(self, t: Token) -> bool {
        match t {
            Token::Trivia | Token::Word | Token::Value | Token::Dot | Token::Quote => true,
            Token::Text | Token::QuoteEnd => self.last == Some(Token::Quote) || self.last == Some(
                Token::Text,
            ),
            Token::ListEnd => !self.wanting,
            _ => false,
        }
    }

    /// The level of an argument that is not the first, if one begins here.
    pub open spec fn argument(self) -> int {
        if self.behind_operand() && !self.head && !self.listed {
            1
        } else {
            0
        }
    }

    /// The level of the list that was being read, if the token `t` shows that it
    /// is not a plain one.
    pub open spec fn broken(self, t: Token) -> int {
        if self.listed && !self.plain(t) {
            1
        } else {
            0
        }
    }

    /// How many levels the token `t` may add.
    pub open spec fn added(self, t: Token) -> int {
        self.broken(t) + match t {
            Token::Word | Token::Value | Token::Quote | Token::Rec | Token::Brace => self.argument(),
            Token::Paren => 2 + self.argument(),
            Token::List => if self.before_list() {
                0
            } else {
                1 + self.argument()
            },
            Token::Dot => if self.last == Some(Token::Word) {
                0
            } else {
                1
            },
            Token::Or => 2,
            Token::Question | Token::Concat | Token::Other => 1,
            _ => 0,
        }
    }

    /// What is known after the token `t`.
    pub open spec fn next(self, t: Token) -> Reading {
        match t {
            Token::Trivia => self,
            Token::Word | Token::Value | Token::Quote => Reading {
                last: Some(t),
                wanting: self.wanting && t != Token::Word && !(t == Token::Quote && self.last
                    == Some(Token::Dot)),
                listed: self.listed,
                head: if self.last == Some(Token::Dot) {
                    self.head
                } else {
                    !self.behind_operand() && !self.wanting
                },
            },
            Token::Dot => Reading { last: Some(t), wanting: true, ..self },
            _ => Reading {
                last: Some(t),
                wanting: t == Token::Question || (self.wanting && t != Token::Or),
                listed: match t {
                    Token::List => self.before_list(),
                    Token::ListEnd => false,
                    _ => self.listed && self.plain(t),
                },
                head: false,
            },
        }
    }

    /// [`Reading::behind_operand`], computed.
    fn is_behind_operand(&self) -> (r: bool)
        ensures
            r == self.behind_operand(),
    {
        match self.last {
            Some(t) => t == Token::Word || t == Token::Value || t == Token::QuoteEnd || t
                == Token::ListEnd || t == Token::Closer || t == Token::Or,
            None => false,
        }
    }

    /// [`Reading::before_list`], computed.
    fn is_before_list(&self) -> (r: bool)
        ensures
            r == self.before_list(),
    {
        match self.last {
            Some(t) => !self.wanting && (t == Token::Assign || t == Token::Semicolon || t
                == Token::Colon || t == Token::Concat || t == Token::Paren || t == Token::List),
            None => false,
        }
    }

    /// [`Reading::plain`], computed.
    fn is_plain(&self, t: Token) -> (r: bool)
        ensures
            r == self.plain(t),
    {
        match t {
            Token::Trivia | Token::Word | Token::Value | Token::Dot | Token::Quote => true,
            Token::Text | Token::QuoteEnd => self.last == Some(Token::Quote) || self.last == Some(
                Token::Text,
            ),
            Token::ListEnd => !self.wanting,
            _ => false,
        }
    }

    /// How many levels the token `t` may add.
    fn count(&self, t: Token) -> (n: usize)
        ensures
            n == self.added(t),
            n <= 4,
    {
        let argument: usize = if self.is_behind_operand() && !self.head && !self.listed {
            1
        } else {
            0
        };
        let broken: usize = if self.listed && !self.is_plain(t) {
            1
        } else {
            0
        };
        let own: usize = match t {
            Token::Word | Token::Value | Token::Quote | Token::Rec | Token::Brace => argument,
            Token::Paren => 2 + argument,
            Token::List => if self.is_before_list() {
                0
            } else {
                1 + argument
            },
            Token::Dot => if self.last == Some(Token::Word) {
                0
            } else {
                1
            },
            Token::Or => 2,
            Token::Question | Token::Concat | Token::Other => 1,
            _ => 0,
        };
        broken + own
    }

    /// Goes past the token `t`.
    fn pass(&mut self, t: Token)
        ensures
            *final(self) == old(self).next(t),
    {
        let behind_operand = self.is_behind_operand();
        let before_list = self.is_before_list();
        let plain = self.is_plain(t);
        let behind_dot = self.last == Some(Token::Dot);
        match t {
            Token::Trivia => {},
            Token::Word | Token::Value | Token::Quote => {
                if !behind_dot {
                    self.head = !behind_operand && !self.wanting;
                }
                self.wanting = self.wanting && t != Token::Word && !(t == Token::Quote
                    && behind_dot);
                self.last = Some(t);
            },
            Token::Dot => {
                self.wanting = true;
                self.last = Some(t);
            },
            _ => {
                self.wanting = t == Token::Question || (self.wanting && t != Token::Or);
                self.listed = match t {
                    Token::List => before_list,
                    Token::ListEnd => false,
                    _ => self.listed && plain,
                };
                self.head = false;
                self.last = Some(t);
            },
        }
    }
}

/// What is known after tokens of these kinds.
pub open spec fn reading_after(kinds: Seq<Seq<char>>) -> Reading
    decreases kinds.len(),
{
    if kinds.len() == 0 {
        unread()
    } else {
        reading_after(kinds.drop_last()).next(token_of(kinds.last()))
    }
}

/// How many levels tokens of these kinds may add to the tree of the parser.
pub open spec fn levels(kinds: Seq<Seq<char>>) -> int
    decreases kinds.len(),
{
    if kinds.len() == 0 {
        0
    } else {
        levels(kinds.drop_last()) + reading_after(kinds.drop_last()).added(token_of(kinds.last()))
    }
}

/// More tokens have no fewer [`levels`].
proof fn lemma_levels_grow(kinds: Seq<Seq<char>>, k: int)
    requires
        0 <= k <= kinds.len(),
    ensures
        levels(kinds.take(k)) <= levels(kinds),
    decreases kinds.len() - k,
{
    if k < kinds.len() {
        lemma_levels_grow(kinds, k + 1);
        assert(kinds.take(k + 1).drop_last() =~= kinds.take(k));
    } else {
        assert(kinds.take(k) =~= kinds);
    }
}

/// Whether tokens of these kinds add at most [`MAX_LEVELS`] levels to the tree of
/// the parser.
pub fn shallow_enough(kinds: &Vec<String>) -> (r: bool)
    ensures
        r == (levels(texts(kinds@)) <= MAX_LEVELS),
{
    let n: usize = kinds.len();
    let mut count: usize = 0;
    let mut reading = Reading { last: None, wanting: false, listed: false, head: false };
    let ghost all = texts(kinds@);
    assert(all.take(0) =~= Seq::empty());
    for i in 0..n
        invariant
            n == kinds.len(),
            all == texts(kinds@),
            count == levels(all.take(i as int)),
            count <= MAX_LEVELS,
            reading == reading_after(all.take(i as int)),
    {
        let t = token_named(kinds[i].as_str());
        let more: usize = reading.count(t);
        proof {
            assert(all.take(i + 1).drop_last() =~= all.take(i as int));
            assert(all.take(i + 1).last() == kinds@[i as int]@);
        }
        count += more;
        if count > MAX_LEVELS {
            proof {
                lemma_levels_grow(all, i + 1);
            }
            return false;
        }
        reading.pass(t);
    }
    assert(all.take(n as int) =~= all);
    true
}

} // verus!
