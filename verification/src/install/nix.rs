//! The Nix parser, as far as the installer consults it: the shape of an
//! expression, and whether a text is valid Nix.

use rnix::ast::{Expr, Param};
use rnix::Root;
use rowan::ast::AstNode;
use vstd::prelude::*;
use vstd::string::*;
use vstd::utf8::*;

use crate::install::levels::{levels, shallow_enough, MAX_LEVELS};
use crate::text::texts;

verus! {

/// One entry of an argument pattern such as `{ config, lib ? x }`.
#[derive(Debug, Clone)]
pub struct PatternEntry {
    /// The source text of the entry, default included.
    pub text: String,
    /// The name that the entry binds.
    pub name: Option<String>,
}

/// The argument pattern of a function and where it stands in the source.
#[derive(Debug, Clone)]
pub struct ArgPattern {
    /// The byte offset at which the pattern begins.
    pub start: usize,
    /// The byte offset at which it ends.
    pub end: usize,
    /// Its entries, in order.
    pub entries: Vec<PatternEntry>,
    /// The name that it binds the whole argument to, as in `{ lib, ... }@args`.
    pub bind: Option<String>,
}

/// What kind of expression a source text holds.
#[derive(Debug, Clone)]
pub enum ExprShape {
    /// A function whose argument is an attribute set pattern.
    PatternFunction(ArgPattern),
    /// A function with any other argument, such as `x: …`.
    PlainFunction,
    /// No function: an attribute set, `let … in`, `with …;`, nothing at all.
    NotFunction,
}

/// A [`PatternEntry`] with its texts.
#[verifier::ext_equal]
pub struct EntryView {
    pub text: Seq<char>,
    pub name: Option<Seq<char>>,
}

/// An [`ArgPattern`] with its texts.
#[verifier::ext_equal]
pub struct PatternView {
    pub start: int,
    pub end: int,
    pub entries: Seq<EntryView>,
    pub bind: Option<Seq<char>>,
}

/// An [`ExprShape`] with its texts.
#[verifier::ext_equal]
pub enum ShapeView {
    PatternFunction(PatternView),
    PlainFunction,
    NotFunction,
}

impl View for PatternEntry {
    type V = EntryView;

    open spec fn view(&self) -> EntryView {
        EntryView {
            text: self.text@,
            name: match self.name {
                Some(n) => Some(n@),
                None => None,
            },
        }
    }
}

impl View for ArgPattern {
    type V = PatternView;

    open spec fn view(&self) -> PatternView {
        PatternView {
            start: self.start as int,
            end: self.end as int,
            entries: self.entries@.map_values(|e: PatternEntry| e@),
            bind: match self.bind {
                Some(n) => Some(n@),
                None => None,
            },
        }
    }
}

impl View for ExprShape {
    type V = ShapeView;

    open spec fn view(&self) -> ShapeView {
        match self {
            ExprShape::PatternFunction(p) => ShapeView::PatternFunction(p@),
            ExprShape::PlainFunction => ShapeView::PlainFunction,
            ExprShape::NotFunction => ShapeView::NotFunction,
        }
    }
}

/// The shape of the expression that the Nix parser reads in `source`.
pub uninterp spec fn expr_shape(source: Seq<char>) -> ShapeView;

/// The first error that the Nix parser reports on `source`.
pub uninterp spec fn first_parse_error(source: Seq<char>) -> Option<Seq<char>>;

/// The kinds of the tokens that the Nix parser cuts `source` into, by their names.
pub uninterp spec fn token_kinds(source: Seq<char>) -> Seq<Seq<char>>;

/// The kinds of the tokens of `rnix::tokenize` on `source`, in order, each by the
/// name of its `SyntaxKind`.
///
/// The contract gives the outcome a name, since the lexical grammar is not
/// restated here. Cutting a text into tokens takes no recursion, so every text is
/// let through.
#[verifier::external_body]
fn tokenize(source: &str) -> (kinds: Vec<String>)
    ensures
        texts(kinds@) == token_kinds(source@),
{
    rnix::tokenize(source).into_iter().map(|token| format!("{:?}", token.0)).collect()
}

/// Whether the parser can take `source`: it counts bytes in 32 bits, and takes up
/// stack for every level of its tree.
pub open spec fn fits_parser(source: Seq<char>) -> bool {
    &&& encode_utf8(source).len() <= u32::MAX
    &&& levels(token_kinds(source)) <= MAX_LEVELS
}

/// Whether the parser can take `source`.
pub fn parser_can_take(source: &str) -> (r: bool)
    ensures
        r == fits_parser(source@),
{
    source.as_bytes().len() as u64 <= 0xffff_ffff && shallow_enough(&tokenize(source))
}

/// Whether the range of a pattern can be cut out of `source`.
pub open spec fn pattern_within(source: Seq<char>, pattern: PatternView) -> bool {
    &&& 0 <= pattern.start <= pattern.end
    &&& is_char_boundary(encode_utf8(source), pattern.start)
    &&& is_char_boundary(encode_utf8(source), pattern.end)
}

/// Reads `source` with `rnix::Root::parse` and reports what its expression is:
/// for `Expr::Lambda` with a `Param::Pattern`, the entries of the pattern (their
/// source text and identifier), the name it binds the argument to, and its
/// `text_range()`.
///
/// The contract gives the outcome a name, since the grammar is not restated
/// here, and claims that the range of a pattern lies between characters of the
/// source: the tree of `rnix` keeps every token of the text, so a range is made
/// of whole tokens. The parser bounds the depth of nested expressions itself, but
/// not the levels that lists in lists, signs, operators and arguments add to its
/// recursion and to its tree, which is also taken down by recursion;
/// [`fits_parser`] bounds those.
#[verifier::external_body]
pub(crate) fn parse_shape(source: &str) -> (shape: ExprShape)
    requires
        fits_parser(source@),
    ensures
        shape@ == expr_shape(source@),
        shape@ matches ShapeView::PatternFunction(p) ==> pattern_within(source@, p),
{
    match Root::parse(source).tree().expr() {
        Some(Expr::Lambda(lambda)) => match lambda.param() {
            Some(Param::Pattern(pat)) => ExprShape::PatternFunction(ArgPattern {
                start: pat.syntax().text_range().start().into(),
                end: pat.syntax().text_range().end().into(),
                bind: pat.pat_bind().and_then(|b| b.ident()).map(|i| i.to_string()),
                entries: pat.pat_entries().map(|e| PatternEntry {
                    text: e.to_string(),
                    name: e.ident().and_then(|i| i.ident_token()).map(|t| t.to_string())
                }).collect()
            }),
            _ => ExprShape::PlainFunction,
        },
        _ => ExprShape::NotFunction,
    }
}

/// The first error of `rnix::Root::parse` on `source`, as `Parse::ok` hands it
/// out and in its own words; nothing where the text is valid Nix.
///
/// The contract gives the outcome a name, since the grammar is not restated
/// here. [`fits_parser`] is asked for as by [`parse_shape`].
#[verifier::external_body]
pub(crate) fn parse_error(source: &str) -> (error: Option<String>)
    requires
        fits_parser(source@),
    ensures
        match error {
            Some(e) => first_parse_error(source@) == Some(e@),
            None => first_parse_error(source@) is None,
        },
{
    match Root::parse(source).ok() {
        Ok(_) => None,
        Err(e) => Some(e.to_string()),
    }
}

} // verus!
