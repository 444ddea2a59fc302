//! Laws of the depth that a text may take the parser to, over the kinds of its
//! tokens.

use vstd::prelude::*;
use vstd::string::*;

use crate::install::levels::{
    levels, reading_after, shallow_enough, token_of, MAX_LEVELS,
};
use crate::install::nix::{parser_can_take, token_kinds};
use crate::text::texts;

verus! {

// ── Kinds of tokens ─────────────────────────────────────────────────────────

/// White space, comments and what is no token.
pub open spec fn trivial(kind: Seq<char>) -> bool {
    ||| kind == "TOKEN_WHITESPACE"@
    ||| kind == "TOKEN_COMMENT"@
    ||| kind == "TOKEN_ERROR"@
}

/// The operators.
pub open spec fn operator(kind: Seq<char>) -> bool {
    ||| kind == "TOKEN_CONCAT"@
    ||| kind == "TOKEN_INVERT"@
    ||| kind == "TOKEN_UPDATE"@
    ||| kind == "TOKEN_ADD"@
    ||| kind == "TOKEN_SUB"@
    ||| kind == "TOKEN_MUL"@
    ||| kind == "TOKEN_DIV"@
    ||| kind == "TOKEN_AND_AND"@
    ||| kind == "TOKEN_EQUAL"@
    ||| kind == "TOKEN_IMPLICATION"@
    ||| kind == "TOKEN_LESS"@
    ||| kind == "TOKEN_LESS_OR_EQ"@
    ||| kind == "TOKEN_MORE"@
    ||| kind == "TOKEN_MORE_OR_EQ"@
    ||| kind == "TOKEN_NOT_EQUAL"@
    ||| kind == "TOKEN_OR_OR"@
    ||| kind == "TOKEN_QUESTION"@
}

/// The keywords and marks that are no part of an operand.
pub open spec fn mark(kind: Seq<char>) -> bool {
    ||| kind == "TOKEN_ASSERT"@
    ||| kind == "TOKEN_ELSE"@
    ||| kind == "TOKEN_IF"@
    ||| kind == "TOKEN_IN"@
    ||| kind == "TOKEN_INHERIT"@
    ||| kind == "TOKEN_LET"@
    ||| kind == "TOKEN_THEN"@
    ||| kind == "TOKEN_WITH"@
    ||| kind == "TOKEN_ASSIGN"@
    ||| kind == "TOKEN_AT"@
    ||| kind == "TOKEN_COLON"@
    ||| kind == "TOKEN_COMMA"@
    ||| kind == "TOKEN_ELLIPSIS"@
    ||| kind == "TOKEN_SEMICOLON"@
    ||| kind == "TOKEN_R_BRACE"@
    ||| kind == "TOKEN_R_PAREN"@
    ||| kind == "TOKEN_INTERPOL_END"@
    ||| kind == "TOKEN_R_BRACK"@
    ||| kind == "TOKEN_STRING_CONTENT"@
    ||| kind == "TOKEN_STRING_END"@
}

/// The brackets that close something other than a list.
pub open spec fn closing(kind: Seq<char>) -> bool {
    ||| kind == "TOKEN_R_BRACE"@
    ||| kind == "TOKEN_R_PAREN"@
    ||| kind == "TOKEN_INTERPOL_END"@
}

/// What begins an operand that is neither in parentheses nor a list.
pub open spec fn begins_operand(kind: Seq<char>) -> bool {
    ||| atom(kind)
    ||| kind == "TOKEN_STRING_START"@
    ||| kind == "TOKEN_REC"@
    ||| kind == "TOKEN_L_BRACE"@
    ||| kind == "TOKEN_INTERPOL_START"@
}

/// Names, numbers, paths and URIs.
pub open spec fn atom(kind: Seq<char>) -> bool {
    ||| kind == "TOKEN_IDENT"@
    ||| kind == "TOKEN_INTEGER"@
    ||| kind == "TOKEN_FLOAT"@
    ||| kind == "TOKEN_PATH"@
    ||| kind == "TOKEN_URI"@
}

/// The marks behind which a list is a list.
pub open spec fn lets_list_follow(kind: Seq<char>) -> bool {
    ||| kind == "TOKEN_ASSIGN"@
    ||| kind == "TOKEN_COLON"@
    ||| kind == "TOKEN_SEMICOLON"@
    ||| kind == "TOKEN_CONCAT"@
    ||| kind == "TOKEN_L_PAREN"@
}

/// The kinds that are compared, each a text of its own.
#[verifier::rlimit(60)]
proof fn lemma_kinds(kind: Seq<char>)
    ensures
        trivial(kind) <==> token_of(kind) is Trivia,
        operator(kind) ==> token_of(kind) is Other || token_of(kind) is Concat || token_of(
            kind,
        ) is Question,
        mark(kind) ==> token_of(kind) is Quiet || token_of(kind) is Assign || token_of(
            kind,
        ) is Colon || token_of(kind) is Semicolon || token_of(kind) is Closer || token_of(
            kind,
        ) is ListEnd || token_of(kind) is Text || token_of(kind) is QuoteEnd,
        closing(kind) <==> token_of(kind) is Closer,
        begins_operand(kind) ==> token_of(kind) is Word || token_of(kind) is Value || token_of(
            kind,
        ) is Quote || token_of(kind) is Rec || token_of(kind) is Brace,
        kind == "TOKEN_STRING_START"@ <==> token_of(kind) is Quote,
        kind == "TOKEN_STRING_CONTENT"@ <==> token_of(kind) is Text,
        kind == "TOKEN_STRING_END"@ <==> token_of(kind) is QuoteEnd,
        atom(kind) ==> token_of(kind) is Word || token_of(kind) is Value,
        kind == "TOKEN_IDENT"@ <==> token_of(kind) is Word,
        kind == "TOKEN_L_PAREN"@ <==> token_of(kind) is Paren,
        kind == "TOKEN_OR"@ <==> token_of(kind) is Or,
        kind == "TOKEN_L_BRACK"@ <==> token_of(kind) is List,
        kind == "TOKEN_R_BRACK"@ <==> token_of(kind) is ListEnd,
        kind == "TOKEN_DOT"@ <==> token_of(kind) is Dot,
        kind == "TOKEN_QUESTION"@ <==> token_of(kind) is Question,
        lets_list_follow(kind) <==> token_of(kind) is Assign || token_of(kind) is Colon || token_of(
            kind,
        ) is Semicolon || token_of(kind) is Concat || token_of(kind) is Paren,
{
    reveal_strlit("TOKEN_COMMENT");
    assert("TOKEN_COMMENT"@.len() == 13 && "TOKEN_COMMENT"@[6] == 'C'
        && "TOKEN_COMMENT"@[7] == 'O' && "TOKEN_COMMENT"@[8] == 'M' && "TOKEN_COMMENT"@[9] == 'M'
        && "TOKEN_COMMENT"@[10] == 'E');
    reveal_strlit("TOKEN_ERROR");
    assert("TOKEN_ERROR"@.len() == 11 && "TOKEN_ERROR"@[6] == 'E' && "TOKEN_ERROR"@[7] == 'R'
        && "TOKEN_ERROR"@[8] == 'R' && "TOKEN_ERROR"@[9] == 'O' && "TOKEN_ERROR"@[10] == 'R');
    reveal_strlit("TOKEN_WHITESPACE");
    assert("TOKEN_WHITESPACE"@.len() == 16 && "TOKEN_WHITESPACE"@[6] == 'W'
        && "TOKEN_WHITESPACE"@[7] == 'H' && "TOKEN_WHITESPACE"@[8] == 'I'
        && "TOKEN_WHITESPACE"@[9] == 'T' && "TOKEN_WHITESPACE"@[10] == 'E');
    reveal_strlit("TOKEN_ASSERT");
    assert("TOKEN_ASSERT"@.len() == 12 && "TOKEN_ASSERT"@[6] == 'A' && "TOKEN_ASSERT"@[7] == 'S'
        && "TOKEN_ASSERT"@[8] == 'S' && "TOKEN_ASSERT"@[9] == 'E' && "TOKEN_ASSERT"@[10] == 'R');
    reveal_strlit("TOKEN_ELSE");
    assert("TOKEN_ELSE"@.len() == 10 && "TOKEN_ELSE"@[6] == 'E' && "TOKEN_ELSE"@[7] == 'L'
        && "TOKEN_ELSE"@[8] == 'S' && "TOKEN_ELSE"@[9] == 'E');
    reveal_strlit("TOKEN_IF");
    assert("TOKEN_IF"@.len() == 8 && "TOKEN_IF"@[6] == 'I' && "TOKEN_IF"@[7] == 'F');
    reveal_strlit("TOKEN_IN");
    assert("TOKEN_IN"@.len() == 8 && "TOKEN_IN"@[6] == 'I' && "TOKEN_IN"@[7] == 'N');
    reveal_strlit("TOKEN_INHERIT");
    assert("TOKEN_INHERIT"@.len() == 13 && "TOKEN_INHERIT"@[6] == 'I'
        && "TOKEN_INHERIT"@[7] == 'N' && "TOKEN_INHERIT"@[8] == 'H' && "TOKEN_INHERIT"@[9] == 'E'
        && "TOKEN_INHERIT"@[10] == 'R');
    reveal_strlit("TOKEN_LET");
    assert("TOKEN_LET"@.len() == 9 && "TOKEN_LET"@[6] == 'L' && "TOKEN_LET"@[7] == 'E'
        && "TOKEN_LET"@[8] == 'T');
    reveal_strlit("TOKEN_OR");
    assert("TOKEN_OR"@.len() == 8 && "TOKEN_OR"@[6] == 'O' && "TOKEN_OR"@[7] == 'R');
    reveal_strlit("TOKEN_REC");
    assert("TOKEN_REC"@.len() == 9 && "TOKEN_REC"@[6] == 'R' && "TOKEN_REC"@[7] == 'E'
        && "TOKEN_REC"@[8] == 'C');
    reveal_strlit("TOKEN_THEN");
    assert("TOKEN_THEN"@.len() == 10 && "TOKEN_THEN"@[6] == 'T' && "TOKEN_THEN"@[7] == 'H'
        && "TOKEN_THEN"@[8] == 'E' && "TOKEN_THEN"@[9] == 'N');
    reveal_strlit("TOKEN_WITH");
    assert("TOKEN_WITH"@.len() == 10 && "TOKEN_WITH"@[6] == 'W' && "TOKEN_WITH"@[7] == 'I'
        && "TOKEN_WITH"@[8] == 'T' && "TOKEN_WITH"@[9] == 'H');
    reveal_strlit("TOKEN_L_BRACE");
    assert("TOKEN_L_BRACE"@.len() == 13 && "TOKEN_L_BRACE"@[6] == 'L'
        && "TOKEN_L_BRACE"@[8] == 'B' && "TOKEN_L_BRACE"@[12] == 'E');
    reveal_strlit("TOKEN_R_BRACE");
    assert("TOKEN_R_BRACE"@.len() == 13 && "TOKEN_R_BRACE"@[6] == 'R'
        && "TOKEN_R_BRACE"@[8] == 'B' && "TOKEN_R_BRACE"@[12] == 'E');
    reveal_strlit("TOKEN_L_BRACK");
    assert("TOKEN_L_BRACK"@.len() == 13 && "TOKEN_L_BRACK"@[6] == 'L'
        && "TOKEN_L_BRACK"@[8] == 'B' && "TOKEN_L_BRACK"@[12] == 'K');
    reveal_strlit("TOKEN_R_BRACK");
    assert("TOKEN_R_BRACK"@.len() == 13 && "TOKEN_R_BRACK"@[6] == 'R'
        && "TOKEN_R_BRACK"@[8] == 'B' && "TOKEN_R_BRACK"@[12] == 'K');
    reveal_strlit("TOKEN_ASSIGN");
    assert("TOKEN_ASSIGN"@.len() == 12 && "TOKEN_ASSIGN"@[6] == 'A' && "TOKEN_ASSIGN"@[7] == 'S'
        && "TOKEN_ASSIGN"@[8] == 'S' && "TOKEN_ASSIGN"@[9] == 'I' && "TOKEN_ASSIGN"@[10] == 'G');
    reveal_strlit("TOKEN_AT");
    assert("TOKEN_AT"@.len() == 8 && "TOKEN_AT"@[6] == 'A' && "TOKEN_AT"@[7] == 'T');
    reveal_strlit("TOKEN_COLON");
    assert("TOKEN_COLON"@.len() == 11 && "TOKEN_COLON"@[6] == 'C' && "TOKEN_COLON"@[7] == 'O'
        && "TOKEN_COLON"@[8] == 'L' && "TOKEN_COLON"@[9] == 'O' && "TOKEN_COLON"@[10] == 'N');
    reveal_strlit("TOKEN_COMMA");
    assert("TOKEN_COMMA"@.len() == 11 && "TOKEN_COMMA"@[6] == 'C' && "TOKEN_COMMA"@[7] == 'O'
        && "TOKEN_COMMA"@[8] == 'M' && "TOKEN_COMMA"@[9] == 'M' && "TOKEN_COMMA"@[10] == 'A');
    reveal_strlit("TOKEN_DOT");
    assert("TOKEN_DOT"@.len() == 9 && "TOKEN_DOT"@[6] == 'D' && "TOKEN_DOT"@[7] == 'O'
        && "TOKEN_DOT"@[8] == 'T');
    reveal_strlit("TOKEN_ELLIPSIS");
    assert("TOKEN_ELLIPSIS"@.len() == 14 && "TOKEN_ELLIPSIS"@[6] == 'E'
        && "TOKEN_ELLIPSIS"@[7] == 'L' && "TOKEN_ELLIPSIS"@[8] == 'L'
        && "TOKEN_ELLIPSIS"@[9] == 'I' && "TOKEN_ELLIPSIS"@[10] == 'P');
    reveal_strlit("TOKEN_QUESTION");
    assert("TOKEN_QUESTION"@.len() == 14 && "TOKEN_QUESTION"@[6] == 'Q'
        && "TOKEN_QUESTION"@[7] == 'U' && "TOKEN_QUESTION"@[8] == 'E'
        && "TOKEN_QUESTION"@[9] == 'S' && "TOKEN_QUESTION"@[10] == 'T');
    reveal_strlit("TOKEN_SEMICOLON");
    assert("TOKEN_SEMICOLON"@.len() == 15 && "TOKEN_SEMICOLON"@[6] == 'S'
        && "TOKEN_SEMICOLON"@[7] == 'E' && "TOKEN_SEMICOLON"@[8] == 'M'
        && "TOKEN_SEMICOLON"@[9] == 'I' && "TOKEN_SEMICOLON"@[10] == 'C');
    reveal_strlit("TOKEN_L_PAREN");
    assert("TOKEN_L_PAREN"@.len() == 13 && "TOKEN_L_PAREN"@[6] == 'L'
        && "TOKEN_L_PAREN"@[8] == 'P' && "TOKEN_L_PAREN"@[12] == 'N');
    reveal_strlit("TOKEN_R_PAREN");
    assert("TOKEN_R_PAREN"@.len() == 13 && "TOKEN_R_PAREN"@[6] == 'R'
        && "TOKEN_R_PAREN"@[8] == 'P' && "TOKEN_R_PAREN"@[12] == 'N');
    reveal_strlit("TOKEN_CONCAT");
    assert("TOKEN_CONCAT"@.len() == 12 && "TOKEN_CONCAT"@[6] == 'C' && "TOKEN_CONCAT"@[7] == 'O'
        && "TOKEN_CONCAT"@[8] == 'N' && "TOKEN_CONCAT"@[9] == 'C' && "TOKEN_CONCAT"@[10] == 'A');
    reveal_strlit("TOKEN_INVERT");
    assert("TOKEN_INVERT"@.len() == 12 && "TOKEN_INVERT"@[6] == 'I' && "TOKEN_INVERT"@[7] == 'N'
        && "TOKEN_INVERT"@[8] == 'V' && "TOKEN_INVERT"@[9] == 'E' && "TOKEN_INVERT"@[10] == 'R');
    reveal_strlit("TOKEN_UPDATE");
    assert("TOKEN_UPDATE"@.len() == 12 && "TOKEN_UPDATE"@[6] == 'U' && "TOKEN_UPDATE"@[7] == 'P'
        && "TOKEN_UPDATE"@[8] == 'D' && "TOKEN_UPDATE"@[9] == 'A' && "TOKEN_UPDATE"@[10] == 'T');
    reveal_strlit("TOKEN_ADD");
    assert("TOKEN_ADD"@.len() == 9 && "TOKEN_ADD"@[6] == 'A' && "TOKEN_ADD"@[7] == 'D'
        && "TOKEN_ADD"@[8] == 'D');
    reveal_strlit("TOKEN_SUB");
    assert("TOKEN_SUB"@.len() == 9 && "TOKEN_SUB"@[6] == 'S' && "TOKEN_SUB"@[7] == 'U'
        && "TOKEN_SUB"@[8] == 'B');
    reveal_strlit("TOKEN_MUL");
    assert("TOKEN_MUL"@.len() == 9 && "TOKEN_MUL"@[6] == 'M' && "TOKEN_MUL"@[7] == 'U'
        && "TOKEN_MUL"@[8] == 'L');
    reveal_strlit("TOKEN_DIV");
    assert("TOKEN_DIV"@.len() == 9 && "TOKEN_DIV"@[6] == 'D' && "TOKEN_DIV"@[7] == 'I'
        && "TOKEN_DIV"@[8] == 'V');
    reveal_strlit("TOKEN_AND_AND");
    assert("TOKEN_AND_AND"@.len() == 13 && "TOKEN_AND_AND"@[6] == 'A'
        && "TOKEN_AND_AND"@[7] == 'N' && "TOKEN_AND_AND"@[8] == 'D' && "TOKEN_AND_AND"@[9] == '_'
        && "TOKEN_AND_AND"@[10] == 'A');
    reveal_strlit("TOKEN_EQUAL");
    assert("TOKEN_EQUAL"@.len() == 11 && "TOKEN_EQUAL"@[6] == 'E' && "TOKEN_EQUAL"@[7] == 'Q'
        && "TOKEN_EQUAL"@[8] == 'U' && "TOKEN_EQUAL"@[9] == 'A' && "TOKEN_EQUAL"@[10] == 'L');
    reveal_strlit("TOKEN_IMPLICATION");
    assert("TOKEN_IMPLICATION"@.len() == 17 && "TOKEN_IMPLICATION"@[6] == 'I'
        && "TOKEN_IMPLICATION"@[7] == 'M' && "TOKEN_IMPLICATION"@[8] == 'P'
        && "TOKEN_IMPLICATION"@[9] == 'L' && "TOKEN_IMPLICATION"@[10] == 'I');
    reveal_strlit("TOKEN_LESS");
    assert("TOKEN_LESS"@.len() == 10 && "TOKEN_LESS"@[6] == 'L' && "TOKEN_LESS"@[7] == 'E'
        && "TOKEN_LESS"@[8] == 'S' && "TOKEN_LESS"@[9] == 'S');
    reveal_strlit("TOKEN_LESS_OR_EQ");
    assert("TOKEN_LESS_OR_EQ"@.len() == 16 && "TOKEN_LESS_OR_EQ"@[6] == 'L'
        && "TOKEN_LESS_OR_EQ"@[7] == 'E' && "TOKEN_LESS_OR_EQ"@[8] == 'S'
        && "TOKEN_LESS_OR_EQ"@[9] == 'S' && "TOKEN_LESS_OR_EQ"@[10] == '_');
    reveal_strlit("TOKEN_MORE");
    assert("TOKEN_MORE"@.len() == 10 && "TOKEN_MORE"@[6] == 'M' && "TOKEN_MORE"@[7] == 'O'
        && "TOKEN_MORE"@[8] == 'R' && "TOKEN_MORE"@[9] == 'E');
    reveal_strlit("TOKEN_MORE_OR_EQ");
    assert("TOKEN_MORE_OR_EQ"@.len() == 16 && "TOKEN_MORE_OR_EQ"@[6] == 'M'
        && "TOKEN_MORE_OR_EQ"@[7] == 'O' && "TOKEN_MORE_OR_EQ"@[8] == 'R'
        && "TOKEN_MORE_OR_EQ"@[9] == 'E' && "TOKEN_MORE_OR_EQ"@[10] == '_');
    reveal_strlit("TOKEN_NOT_EQUAL");
    assert("TOKEN_NOT_EQUAL"@.len() == 15 && "TOKEN_NOT_EQUAL"@[6] == 'N'
        && "TOKEN_NOT_EQUAL"@[7] == 'O' && "TOKEN_NOT_EQUAL"@[8] == 'T'
        && "TOKEN_NOT_EQUAL"@[9] == '_' && "TOKEN_NOT_EQUAL"@[10] == 'E');
    reveal_strlit("TOKEN_OR_OR");
    assert("TOKEN_OR_OR"@.len() == 11 && "TOKEN_OR_OR"@[6] == 'O' && "TOKEN_OR_OR"@[7] == 'R'
        && "TOKEN_OR_OR"@[8] == '_' && "TOKEN_OR_OR"@[9] == 'O' && "TOKEN_OR_OR"@[10] == 'R');
    reveal_strlit("TOKEN_FLOAT");
    assert("TOKEN_FLOAT"@.len() == 11 && "TOKEN_FLOAT"@[6] == 'F' && "TOKEN_FLOAT"@[7] == 'L'
        && "TOKEN_FLOAT"@[8] == 'O' && "TOKEN_FLOAT"@[9] == 'A' && "TOKEN_FLOAT"@[10] == 'T');
    reveal_strlit("TOKEN_IDENT");
    assert("TOKEN_IDENT"@.len() == 11 && "TOKEN_IDENT"@[6] == 'I' && "TOKEN_IDENT"@[7] == 'D'
        && "TOKEN_IDENT"@[8] == 'E' && "TOKEN_IDENT"@[9] == 'N' && "TOKEN_IDENT"@[10] == 'T');
    reveal_strlit("TOKEN_INTEGER");
    assert("TOKEN_INTEGER"@.len() == 13 && "TOKEN_INTEGER"@[6] == 'I'
        && "TOKEN_INTEGER"@[7] == 'N' && "TOKEN_INTEGER"@[8] == 'T' && "TOKEN_INTEGER"@[9] == 'E'
        && "TOKEN_INTEGER"@[10] == 'G');
    reveal_strlit("TOKEN_INTERPOL_END");
    assert("TOKEN_INTERPOL_END"@.len() == 18 && "TOKEN_INTERPOL_END"@[6] == 'I'
        && "TOKEN_INTERPOL_END"@[7] == 'N' && "TOKEN_INTERPOL_END"@[8] == 'T'
        && "TOKEN_INTERPOL_END"@[9] == 'E' && "TOKEN_INTERPOL_END"@[10] == 'R');
    reveal_strlit("TOKEN_INTERPOL_START");
    assert("TOKEN_INTERPOL_START"@.len() == 20 && "TOKEN_INTERPOL_START"@[6] == 'I'
        && "TOKEN_INTERPOL_START"@[7] == 'N' && "TOKEN_INTERPOL_START"@[8] == 'T'
        && "TOKEN_INTERPOL_START"@[9] == 'E' && "TOKEN_INTERPOL_START"@[10] == 'R');
    reveal_strlit("TOKEN_PATH");
    assert("TOKEN_PATH"@.len() == 10 && "TOKEN_PATH"@[6] == 'P' && "TOKEN_PATH"@[7] == 'A'
        && "TOKEN_PATH"@[8] == 'T' && "TOKEN_PATH"@[9] == 'H');
    reveal_strlit("TOKEN_URI");
    assert("TOKEN_URI"@.len() == 9 && "TOKEN_URI"@[6] == 'U' && "TOKEN_URI"@[7] == 'R'
        && "TOKEN_URI"@[8] == 'I');
    reveal_strlit("TOKEN_STRING_CONTENT");
    assert("TOKEN_STRING_CONTENT"@.len() == 20 && "TOKEN_STRING_CONTENT"@[6] == 'S'
        && "TOKEN_STRING_CONTENT"@[7] == 'T' && "TOKEN_STRING_CONTENT"@[8] == 'R'
        && "TOKEN_STRING_CONTENT"@[9] == 'I' && "TOKEN_STRING_CONTENT"@[10] == 'N');
    reveal_strlit("TOKEN_STRING_END");
    assert("TOKEN_STRING_END"@.len() == 16 && "TOKEN_STRING_END"@[6] == 'S'
        && "TOKEN_STRING_END"@[7] == 'T' && "TOKEN_STRING_END"@[8] == 'R'
        && "TOKEN_STRING_END"@[9] == 'I' && "TOKEN_STRING_END"@[10] == 'N');
    reveal_strlit("TOKEN_STRING_START");
    assert("TOKEN_STRING_START"@.len() == 18 && "TOKEN_STRING_START"@[6] == 'S'
        && "TOKEN_STRING_START"@[7] == 'T' && "TOKEN_STRING_START"@[8] == 'R'
        && "TOKEN_STRING_START"@[9] == 'I' && "TOKEN_STRING_START"@[10] == 'N');
}

/// One token more.
proof fn lemma_one_more(a: Seq<Seq<char>>, kind: Seq<char>)
    ensures
        reading_after(a.push(kind)) == reading_after(a).next(token_of(kind)),
        levels(a.push(kind)) == levels(a) + reading_after(a).added(token_of(kind)),
{
    assert(a.push(kind).drop_last() =~= a);
}

// ── Laws ────────────────────────────────────────────────────────────────────

/// No tokens have no levels, and no token takes a level away or adds more than
/// four.
pub proof fn law_tokens_add_levels(a: Seq<Seq<char>>, b: Seq<Seq<char>>)
    ensures
        levels(Seq::empty()) == 0,
        levels(a) <= levels(a + b) <= levels(a) + 4 * b.len(),
    decreases b.len(),
{
    if b.len() == 0 {
        assert(a + b =~= a);
    } else {
        let front = b.drop_last();
        law_tokens_add_levels(a, front);
        lemma_one_more(a + front, b.last());
        assert((a + front).push(b.last()) =~= a + b);
    }
}

/// White space and comments make no difference, wherever they stand.
pub proof fn law_trivia_adds_nothing(a: Seq<Seq<char>>, kind: Seq<char>, b: Seq<Seq<char>>)
    requires
        trivial(kind),
    ensures
        levels(a.push(kind) + b) == levels(a + b),
{
    lemma_one_more(a, kind);
    lemma_kinds(kind);
    lemma_same_reading(a.push(kind), a, b);
}

/// Whether no list was begun.
pub open spec fn without_lists(a: Seq<Seq<char>>) -> bool {
    forall|i: int| 0 <= i < a.len() ==> #[trigger] a[i] != "TOKEN_L_BRACK"@
}

/// Every operator adds a level; a parenthesis and an `or` add two. More they add only
/// as arguments, or where they show that a list which was taken for flat is none.
pub proof fn law_operators_add_levels(a: Seq<Seq<char>>, kind: Seq<char>)
    ensures
        operator(kind) ==> levels(a) < levels(a.push(kind)) <= levels(a) + 2,
        operator(kind) && without_lists(a) ==> levels(a.push(kind)) == levels(a) + 1,
        kind == "TOKEN_L_PAREN"@ || kind == "TOKEN_OR"@ ==> levels(a) + 2 <= levels(a.push(kind)),
        kind == "TOKEN_OR"@ && without_lists(a) ==> levels(a.push(kind)) == levels(a) + 2,
{
    lemma_one_more(a, kind);
    lemma_kinds(kind);
    if without_lists(a) {
        lemma_no_list(a);
    }
}

/// What follows a closing bracket is an argument, and adds a level as such.
pub proof fn law_operands_behind_brackets_add_levels(
    a: Seq<Seq<char>>,
    close: Seq<char>,
    kind: Seq<char>,
)
    requires
        closing(close),
    ensures
        begins_operand(kind) ==> levels(a.push(close).push(kind)) == levels(a.push(close)) + 1,
        kind == "TOKEN_L_PAREN"@ ==> levels(a.push(close).push(kind)) == levels(a.push(close)) + 3,
        kind == "TOKEN_L_BRACK"@ ==> levels(a.push(close).push(kind)) == levels(a.push(close)) + 2,
{
    lemma_one_more(a, close);
    lemma_kinds(close);
    lemma_one_more(a.push(close), kind);
    lemma_kinds(kind);
}

/// What follows an operator is the head of an expression, and adds no level but that of
/// its own brackets.
pub proof fn law_heads_add_nothing(a: Seq<Seq<char>>, before: Seq<char>, kind: Seq<char>)
    requires
        operator(before) || before == "TOKEN_L_PAREN"@,
    ensures
        begins_operand(kind) ==> levels(a.push(before).push(kind)) == levels(a.push(before)),
        kind == "TOKEN_L_PAREN"@ ==> levels(a.push(before).push(kind)) == levels(a.push(before))
            + 2,
{
    lemma_one_more(a, before);
    lemma_kinds(before);
    lemma_one_more(a.push(before), kind);
    lemma_kinds(kind);
}

/// A `.` adds a level, unless it stands behind a name.
pub proof fn law_selections_add_levels(a: Seq<Seq<char>>, before: Seq<char>)
    requires
        !trivial(before),
    ensures
        levels(a.push(before).push("TOKEN_DOT"@)) == levels(a.push(before)) + if before
            == "TOKEN_IDENT"@ {
            0int
        } else {
            1int
        },
{
    lemma_one_more(a, before);
    lemma_kinds(before);
    lemma_one_more(a.push(before), "TOKEN_DOT"@);
    lemma_kinds("TOKEN_DOT"@);
}

/// Keywords, marks and closing brackets add no level of their own: at most they show
/// that a list which was taken for flat is none.
pub proof fn law_marks_add_nothing(a: Seq<Seq<char>>, kind: Seq<char>)
    requires
        mark(kind),
    ensures
        levels(a.push(kind)) <= levels(a) + 1,
        without_lists(a) ==> levels(a.push(kind)) == levels(a),
{
    lemma_one_more(a, kind);
    lemma_kinds(kind);
    if without_lists(a) {
        lemma_no_list(a);
    }
}

proof fn lemma_no_list(a: Seq<Seq<char>>)
    requires
        without_lists(a),
    ensures
        !reading_after(a).listed,
    decreases a.len(),
{
    if a.len() > 0 {
        lemma_no_list(a.drop_last());
        assert(a.last() == a[a.len() - 1]);
        lemma_kinds(a.last());
    }
}

/// How many lists are open behind tokens.
pub open spec fn open_lists(kinds: Seq<Seq<char>>) -> int
    decreases kinds.len(),
{
    if kinds.len() == 0 {
        0
    } else if kinds.last() == "TOKEN_L_BRACK"@ {
        open_lists(kinds.drop_last()) + 1
    } else if kinds.last() == "TOKEN_R_BRACK"@ {
        open_lists(kinds.drop_last()) - 1
    } else {
        open_lists(kinds.drop_last())
    }
}

/// Every list in a list adds a level: no more lists are open anywhere than there are
/// levels, but for the innermost.
pub proof fn law_nested_lists_add_levels(kinds: Seq<Seq<char>>)
    ensures
        open_lists(kinds) <= levels(kinds) + 1,
{
    lemma_open_lists(kinds);
}

proof fn lemma_open_lists(kinds: Seq<Seq<char>>)
    ensures
        open_lists(kinds) <= levels(kinds) + if reading_after(kinds).listed {
            1int
        } else {
            0int
        },
    decreases kinds.len(),
{
    if kinds.len() > 0 {
        lemma_open_lists(kinds.drop_last());
        lemma_kinds(kinds.last());
        reveal_strlit("TOKEN_L_BRACK");
        reveal_strlit("TOKEN_R_BRACK");
        assert("TOKEN_L_BRACK"@[6] == 'L');
        assert("TOKEN_R_BRACK"@[6] == 'R');
    }
}

/// Whether tokens are names, numbers, paths and plain strings.
pub open spec fn flat(entries: Seq<Seq<char>>) -> bool
    decreases entries.len(),
{
    let n = entries.len() as int;
    ||| n == 0
    ||| (atom(entries.last()) || trivial(entries.last())) && flat(entries.drop_last())
    ||| n >= 2 && entries[n - 2] == "TOKEN_STRING_START"@ && entries.last() == "TOKEN_STRING_END"@
        && flat(entries.take(n - 2))
    ||| n >= 3 && entries[n - 3] == "TOKEN_STRING_START"@ && entries[n - 2]
        == "TOKEN_STRING_CONTENT"@ && entries.last() == "TOKEN_STRING_END"@ && flat(
        entries.take(n - 3),
    )
}

/// A list of names, numbers, paths and plain strings adds no level, however long it is,
/// where an expression is bound to begin and no attribute is looked for. It makes no
/// difference to an operator behind it either.
pub proof fn law_flat_lists_add_nothing(
    a: Seq<Seq<char>>,
    kind: Seq<char>,
    entries: Seq<Seq<char>>,
    other: Seq<char>,
)
    requires
        forall|i: int|
            0 <= i < a.len() ==> {
                let k = #[trigger] a[i];
                k != "TOKEN_DOT"@ && k != "TOKEN_QUESTION"@
            },
        lets_list_follow(kind),
        flat(entries),
    ensures
        levels(a.push(kind).push("TOKEN_L_BRACK"@) + entries.push("TOKEN_R_BRACK"@)) == levels(
            a.push(kind),
        ),
        operator(other) ==> levels(
            (a.push(kind).push("TOKEN_L_BRACK"@) + entries.push("TOKEN_R_BRACK"@)).push(other),
        ) == levels(a.push(kind)) + 1,
{
    let start = a.push(kind);
    let list = start.push("TOKEN_L_BRACK"@);
    lemma_not_wanting(a);
    lemma_one_more(a, kind);
    lemma_kinds(kind);
    lemma_one_more(start, "TOKEN_L_BRACK"@);
    lemma_kinds("TOKEN_L_BRACK"@);
    lemma_not_listed(a, kind);
    lemma_flat(list, entries);
    lemma_one_more(list + entries, "TOKEN_R_BRACK"@);
    lemma_kinds("TOKEN_R_BRACK"@);
    let all = list + entries.push("TOKEN_R_BRACK"@);
    assert((list + entries).push("TOKEN_R_BRACK"@) =~= all);
    lemma_one_more(all, other);
    lemma_kinds(other);
}

proof fn lemma_not_wanting(a: Seq<Seq<char>>)
    requires
        forall|i: int|
            0 <= i < a.len() ==> {
                let k = #[trigger] a[i];
                k != "TOKEN_DOT"@ && k != "TOKEN_QUESTION"@
            },
    ensures
        !reading_after(a).wanting,
    decreases a.len(),
{
    if a.len() > 0 {
        lemma_not_wanting(a.drop_last());
        assert(a.last() == a[a.len() - 1]);
        lemma_kinds(a.last());
    }
}

/// A list that was being read is none behind such a mark.
proof fn lemma_not_listed(a: Seq<Seq<char>>, kind: Seq<char>)
    requires
        lets_list_follow(kind),
    ensures
        !reading_after(a.push(kind)).listed,
{
    lemma_one_more(a, kind);
    lemma_kinds(kind);
}

proof fn lemma_flat(list: Seq<Seq<char>>, entries: Seq<Seq<char>>)
    requires
        reading_after(list).listed,
        !reading_after(list).wanting,
        flat(entries),
    ensures
        reading_after(list + entries).listed,
        !reading_after(list + entries).wanting,
        levels(list + entries) == levels(list),
    decreases entries.len(),
{
    let n = entries.len() as int;
    if n == 0 {
        assert(list + entries =~= list);
    } else if (atom(entries.last()) || trivial(entries.last())) && flat(entries.drop_last()) {
        let front = entries.drop_last();
        lemma_flat(list, front);
        lemma_one_more(list + front, entries.last());
        lemma_kinds(entries.last());
        assert((list + front).push(entries.last()) =~= list + entries);
    } else if n >= 2 && entries[n - 2] == "TOKEN_STRING_START"@ && entries.last()
        == "TOKEN_STRING_END"@ && flat(entries.take(n - 2)) {
        let front = list + entries.take(n - 2);
        lemma_flat(list, entries.take(n - 2));
        lemma_string_tokens(front);
        assert(front.push("TOKEN_STRING_START"@).push("TOKEN_STRING_END"@) =~= list + entries);
    } else {
        let front = list + entries.take(n - 3);
        lemma_flat(list, entries.take(n - 3));
        lemma_string_tokens(front);
        assert(front.push("TOKEN_STRING_START"@).push("TOKEN_STRING_CONTENT"@).push(
            "TOKEN_STRING_END"@,
        ) =~= list + entries);
    }
}

/// A plain string in a list.
proof fn lemma_string_tokens(list: Seq<Seq<char>>)
    requires
        reading_after(list).listed,
        !reading_after(list).wanting,
    ensures
        ({
            let empty = list.push("TOKEN_STRING_START"@).push("TOKEN_STRING_END"@);
            let full = list.push("TOKEN_STRING_START"@).push("TOKEN_STRING_CONTENT"@).push(
                "TOKEN_STRING_END"@,
            );
            &&& reading_after(empty).listed && !reading_after(empty).wanting
            &&& levels(empty) == levels(list)
            &&& reading_after(full).listed && !reading_after(full).wanting
            &&& levels(full) == levels(list)
        }),
{
    let start = list.push("TOKEN_STRING_START"@);
    lemma_one_more(list, "TOKEN_STRING_START"@);
    lemma_one_more(start, "TOKEN_STRING_END"@);
    lemma_one_more(start, "TOKEN_STRING_CONTENT"@);
    lemma_one_more(start.push("TOKEN_STRING_CONTENT"@), "TOKEN_STRING_END"@);
    lemma_kinds("TOKEN_STRING_START"@);
    lemma_kinds("TOKEN_STRING_CONTENT"@);
    lemma_kinds("TOKEN_STRING_END"@);
}

/// A list that holds anything else adds a level when that comes, beside what that adds
/// by itself.
pub proof fn law_other_lists_add_levels(
    a: Seq<Seq<char>>,
    kind: Seq<char>,
    entries: Seq<Seq<char>>,
    other: Seq<char>,
)
    requires
        forall|i: int|
            0 <= i < a.len() ==> {
                let k = #[trigger] a[i];
                k != "TOKEN_DOT"@ && k != "TOKEN_QUESTION"@
            },
        lets_list_follow(kind),
        flat(entries),
    ensures
        ({
            let before = levels(a.push(kind));
            let list = a.push(kind).push("TOKEN_L_BRACK"@) + entries;
            &&& operator(other) ==> levels(list.push(other)) == before + 2
            &&& other == "TOKEN_L_PAREN"@ || other == "TOKEN_OR"@ ==> levels(list.push(other))
                == before + 3
            &&& other == "TOKEN_REC"@ || other == "TOKEN_L_BRACE"@ || other
                == "TOKEN_INTERPOL_START"@ ==> levels(list.push(other)) == before + 1
            &&& other == "TOKEN_L_BRACK"@ ==> levels(list.push(other)) >= before + 1
        }),
{
    let start = a.push(kind);
    let list = start.push("TOKEN_L_BRACK"@);
    lemma_not_wanting(a);
    lemma_one_more(a, kind);
    lemma_kinds(kind);
    lemma_one_more(start, "TOKEN_L_BRACK"@);
    lemma_kinds("TOKEN_L_BRACK"@);
    lemma_not_listed(a, kind);
    lemma_flat(list, entries);
    lemma_one_more(list + entries, other);
    lemma_kinds(other);
    lemma_braces(other);
}

/// What begins a set is no part of a flat list.
proof fn lemma_braces(kind: Seq<char>)
    ensures
        kind == "TOKEN_REC"@ || kind == "TOKEN_L_BRACE"@ || kind == "TOKEN_INTERPOL_START"@ ==> {
            token_of(kind) is Rec || token_of(kind) is Brace
        },
{
    lemma_kinds(kind);
    reveal_strlit("TOKEN_REC");
    reveal_strlit("TOKEN_L_BRACE");
    reveal_strlit("TOKEN_INTERPOL_START");
    reveal_strlit("TOKEN_IDENT");
    reveal_strlit("TOKEN_STRING_START");
    reveal_strlit("TOKEN_INTEGER");
    reveal_strlit("TOKEN_FLOAT");
    reveal_strlit("TOKEN_PATH");
    reveal_strlit("TOKEN_URI");
    assert("TOKEN_REC"@[6] == 'R' && "TOKEN_L_BRACE"@[6] == 'L');
    assert("TOKEN_INTERPOL_START"@[10] == 'R');
    assert("TOKEN_INTEGER"@[10] == 'G' && "TOKEN_INTEGER"@[6] == 'I');
    assert("TOKEN_IDENT"@[7] == 'D' && "TOKEN_INTERPOL_START"@[7] == 'N');
    assert("TOKEN_FLOAT"@[6] == 'F' && "TOKEN_PATH"@[6] == 'P' && "TOKEN_URI"@[6] == 'U');
    assert("TOKEN_INTERPOL_START"@[6] == 'I' && "TOKEN_IDENT"@[6] == 'I');
}

/// A list adds a level where it is not bound to be read as one: at the beginning, behind
/// a `.` or a `?` whose attribute is still looked for, and behind anything but the marks
/// that let one follow.
pub proof fn law_lists_elsewhere_add_levels(
    a: Seq<Seq<char>>,
    before: Seq<char>,
    select: Seq<char>,
    kind: Seq<char>,
)
    requires
        !trivial(before),
        !lets_list_follow(before),
        before != "TOKEN_L_BRACK"@,
        select == "TOKEN_DOT"@ || select == "TOKEN_QUESTION"@,
        lets_list_follow(kind),
    ensures
        levels(Seq::empty().push("TOKEN_L_BRACK"@)) == 1,
        levels(a.push(before).push("TOKEN_L_BRACK"@)) > levels(a.push(before)),
        levels(a.push(select).push(kind).push("TOKEN_L_BRACK"@)) == levels(
            a.push(select).push(kind),
        ) + 1,
{
    let none = Seq::<Seq<char>>::empty();
    lemma_kinds("TOKEN_L_BRACK"@);
    lemma_one_more(none, "TOKEN_L_BRACK"@);
    lemma_one_more(a, before);
    lemma_kinds(before);
    lemma_one_more(a.push(before), "TOKEN_L_BRACK"@);
    lemma_one_more(a, select);
    lemma_kinds(select);
    lemma_one_more(a.push(select), kind);
    lemma_kinds(kind);
    lemma_one_more(a.push(select).push(kind), "TOKEN_L_BRACK"@);
}

/// Of a function and its arguments every argument but the first adds a level.
pub proof fn law_further_arguments_add_levels(names: Seq<Seq<char>>)
    requires
        forall|i: int| 0 <= i < names.len() ==> atom(#[trigger] names[i]),
    ensures
        levels(names) == if names.len() <= 2 {
            0
        } else {
            names.len() - 2
        },
{
    lemma_arguments(names);
}

proof fn lemma_arguments(names: Seq<Seq<char>>)
    requires
        forall|i: int| 0 <= i < names.len() ==> atom(#[trigger] names[i]),
    ensures
        levels(names) == if names.len() <= 2 {
            0
        } else {
            names.len() - 2
        },
        !reading_after(names).wanting && !reading_after(names).listed,
        names.len() > 0 ==> reading_after(names).behind_operand(),
        names.len() == 0 ==> reading_after(names).last is None,
        reading_after(names).head == (names.len() == 1),
    decreases names.len(),
{
    if names.len() > 0 {
        let front = names.drop_last();
        lemma_arguments(front);
        assert(names.last() == names[names.len() - 1]);
        lemma_kinds(names.last());
    }
}

/// Selecting an attribute of a name by a name makes no difference, whatever follows.
pub proof fn law_selected_names_count_as_names(a: Seq<Seq<char>>, b: Seq<Seq<char>>)
    requires
        forall|i: int|
            0 <= i < a.len() ==> {
                let k = #[trigger] a[i];
                k != "TOKEN_DOT"@ && k != "TOKEN_QUESTION"@
            },
    ensures
        levels(a.push("TOKEN_IDENT"@).push("TOKEN_DOT"@).push("TOKEN_IDENT"@) + b) == levels(
            a.push("TOKEN_IDENT"@) + b,
        ),
{
    let name = a.push("TOKEN_IDENT"@);
    let selected = name.push("TOKEN_DOT"@).push("TOKEN_IDENT"@);
    lemma_not_wanting(a);
    lemma_kinds("TOKEN_IDENT"@);
    lemma_kinds("TOKEN_DOT"@);
    lemma_one_more(a, "TOKEN_IDENT"@);
    lemma_one_more(name, "TOKEN_DOT"@);
    lemma_one_more(name.push("TOKEN_DOT"@), "TOKEN_IDENT"@);
    lemma_same_reading(selected, name, b);
}

/// Where the same is known, the same follows.
proof fn lemma_same_reading(a: Seq<Seq<char>>, c: Seq<Seq<char>>, b: Seq<Seq<char>>)
    requires
        reading_after(a) == reading_after(c),
        levels(a) == levels(c),
    ensures
        reading_after(a + b) == reading_after(c + b),
        levels(a + b) == levels(c + b),
    decreases b.len(),
{
    if b.len() == 0 {
        assert(a + b =~= a);
        assert(c + b =~= c);
    } else {
        let front = b.drop_last();
        lemma_same_reading(a, c, front);
        lemma_one_more(a + front, b.last());
        lemma_one_more(c + front, b.last());
        assert((a + front).push(b.last()) =~= a + b);
        assert((c + front).push(b.last()) =~= c + b);
    }
}

/// A text is shallow enough if its tokens add at most a thousand levels. Two hundred
/// and fifty tokens always do.
pub proof fn law_a_thousand_levels_are_allowed(kinds: &Vec<String>, answer: bool)
    requires
        call_ensures(shallow_enough, (kinds,), answer),
    ensures
        answer <==> levels(texts(kinds@)) <= 1000,
        kinds.len() <= 250 ==> answer,
        open_lists(texts(kinds@)) > 1001 ==> !answer,
{
    let all = texts(kinds@);
    let none = Seq::<Seq<char>>::empty();
    law_tokens_add_levels(none, all);
    assert(none + all =~= all);
    law_nested_lists_add_levels(all);
    assert(MAX_LEVELS == 1000);
}

/// The parser can take a text if its tokens are shallow enough and its bytes can be
/// counted in four bytes.
pub proof fn law_the_parser_takes_shallow_texts(source: &str, answer: bool)
    requires
        call_ensures(parser_can_take, (source,), answer),
    ensures
        answer ==> levels(token_kinds(source@)) <= 1000,
        answer ==> vstd::utf8::encode_utf8(source@).len() <= 0xffff_ffff,
        levels(token_kinds(source@)) <= 1000 && vstd::utf8::encode_utf8(source@).len()
            <= 0xffff_ffff ==> answer,
{
    assert(MAX_LEVELS == 1000);
}

} // verus!
