//! Turning generated text into a valid module function.

use vstd::prelude::*;
use vstd::string::*;
use vstd::utf8::*;

use crate::install::error::{ErrorView, InstallError};
use crate::install::nix::{
    expr_shape, first_parse_error, fits_parser, parse_error, parse_shape, parser_can_take,
    pattern_within, ArgPattern, EntryView, ExprShape, PatternEntry, PatternView, ShapeView,
};
use crate::text::{
    ascii_alphanumeric, chars_of, is_ascii_letter_or_digit, join, joined, lemma_filter_push,
    lemma_texts_push, non_empty, occurs_at, same_text, texts, trim, trimmed,
};

verus! {

/// The module function header put before a text that is no function.
pub const MODULE_HEADER: &'static str = "{ config, pkgs, lib, ... }:";

// ── Use of `pkgs` ───────────────────────────────────────────────────────────

/// The characters that continue a Nix identifier.
pub open spec fn ident_char(c: char) -> bool {
    ascii_alphanumeric(c) || c == '_' || c == '-' || c == '\''
}

/// Whether `c` continues a Nix identifier.
pub fn is_ident_char(c: char) -> (r: bool)
    ensures
        r == ident_char(c),
{
    is_ascii_letter_or_digit(c) || c == '_' || c == '-' || c == '\''
}

/// Whether `pkgs` stands at index `i` as a whole identifier.
pub open spec fn pkgs_at(s: Seq<char>, i: int) -> bool {
    &&& occurs_at(s, "pkgs"@, i)
    &&& i == 0 || !ident_char(s[i - 1])
    &&& i + 4 == s.len() || !ident_char(s[i + 4])
}

/// Whether `s` uses `pkgs`: as a whole identifier, not as a part of `nixpkgs` or
/// `pkgsCross`.
pub open spec fn uses_pkgs(s: Seq<char>) -> bool {
    exists|i: int| pkgs_at(s, i)
}

/// Whether `src` uses `pkgs` (as `with pkgs` or `pkgs.name`).
pub fn references_pkgs(src: &str) -> (r: bool)
    ensures
        r == uses_pkgs(src@),
{
    let v = chars_of(src);
    let n: usize = v.len();
    proof {
        reveal_strlit("pkgs");
    }
    if n < 4 {
        return false;
    }
    for i in 0..(n - 3)
        invariant
            v@ == src@,
            n == v.len(),
            n >= 4,
            "pkgs"@ == seq!['p', 'k', 'g', 's'],
            forall|j: int| 0 <= j < i ==> !pkgs_at(src@, j),
    {
        let here = v[i] == 'p' && v[i + 1] == 'k' && v[i + 2] == 'g' && v[i + 3] == 's';
        proof {
            let part = src@.subrange(i as int, i + 4);
            assert(part[0] == src@[i as int] && part[1] == src@[i + 1] && part[2] == src@[i + 2]
                && part[3] == src@[i + 3]);
            if here {
                assert(part =~= "pkgs"@);
            }
            assert(here == occurs_at(src@, "pkgs"@, i as int));
        }
        let before_ok = i == 0 || !is_ident_char(v[i - 1]);
        let after_ok = i + 4 == n || !is_ident_char(v[i + 4]);
        if here && before_ok && after_ok {
            assert(pkgs_at(src@, i as int));
            return true;
        }
    }
    false
}

// ── The argument pattern ────────────────────────────────────────────────────

/// Whether a pattern binds `name`: in one of its entries, or as the whole
/// argument.
pub open spec fn binds(pattern: PatternView, name: Seq<char>) -> bool {
    pattern.bind == Some(name) || exists|i: int|
        0 <= i < pattern.entries.len() && (#[trigger] pattern.entries[i]).name == Some(name)
}

/// The trimmed text of an entry.
pub open spec fn entry_text() -> spec_fn(EntryView) -> Seq<char> {
    |e: EntryView| trimmed(e.text)
}

/// The entries of a pattern as they are kept: trimmed, without empty ones.
pub open spec fn kept_entries(entries: Seq<EntryView>) -> Seq<Seq<char>> {
    entries.map_values(entry_text()).filter(non_empty())
}

/// What follows a pattern that binds the whole argument to a name.
pub open spec fn binding_text(bind: Option<Seq<char>>) -> Seq<char> {
    match bind {
        Some(name) => "@"@ + name,
        None => Seq::empty(),
    }
}

/// A pattern with the entries of the given one, then `pkgs`, then an ellipsis,
/// and the name that the given one binds the whole argument to.
pub open spec fn pattern_with_pkgs(pattern: PatternView) -> Seq<char> {
    "{ "@ + joined(kept_entries(pattern.entries).push("pkgs"@), ", "@) + ", ... }"@ + binding_text(
        pattern.bind,
    )
}

/// The text before byte `at`.
pub open spec fn text_before(s: Seq<char>, at: int) -> Seq<char> {
    decode_utf8(encode_utf8(s).subrange(0, at))
}

/// The text from byte `at` on.
pub open spec fn text_from(s: Seq<char>, at: int) -> Seq<char> {
    decode_utf8(encode_utf8(s).subrange(at, encode_utf8(s).len() as int))
}

/// `s` with `pkgs` added to its argument pattern.
pub open spec fn with_pkgs_injected(s: Seq<char>, pattern: PatternView) -> Seq<char> {
    text_before(s, pattern.start) + pattern_with_pkgs(pattern) + text_from(s, pattern.end)
}

/// Whether `pattern` binds `name`.
pub fn pattern_binds(pattern: &ArgPattern, name: &str) -> (r: bool)
    ensures
        r == binds(pattern@, name@),
{
    match &pattern.bind {
        Some(bound) => {
            if same_text(bound.as_str(), name) {
                return true;
            }
        },
        None => {},
    }
    let n: usize = pattern.entries.len();
    for i in 0..n
        invariant
            n == pattern.entries.len(),
            pattern@.bind != Some(name@),
            forall|j: int| 0 <= j < i ==> (#[trigger] pattern@.entries[j]).name != Some(name@),
    {
        assert(pattern@.entries[i as int] == pattern.entries@[i as int]@);
        match &pattern.entries[i].name {
            Some(bound) => {
                if same_text(bound.as_str(), name) {
                    return true;
                }
            },
            None => {},
        }
    }
    false
}

/// The entries of a pattern, trimmed, without empty ones.
fn keep_entries(entries: &Vec<PatternEntry>) -> (r: Vec<String>)
    ensures
        texts(r@) == kept_entries(entries@.map_values(|e: PatternEntry| e@)),
{
    let n: usize = entries.len();
    let ghost all = entries@.map_values(|e: PatternEntry| e@).map_values(entry_text());
    let mut out: Vec<String> = Vec::new();
    proof {
        reveal(Seq::filter);
        assert(texts(out@) =~= all.take(0).filter(non_empty()));
    }
    for i in 0..n
        invariant
            n == entries.len(),
            all == entries@.map_values(|e: PatternEntry| e@).map_values(entry_text()),
            texts(out@) == all.take(i as int).filter(non_empty()),
    {
        let t = trim(entries[i].text.as_str());
        proof {
            assert(all.take(i + 1) =~= all.take(i as int).push(t@));
            lemma_filter_push(all.take(i as int), t@, non_empty());
        }
        if !t.is_empty() {
            let owned = t.to_owned();
            proof {
                lemma_texts_push(out@, owned);
            }
            out.push(owned);
        }
    }
    assert(all.take(n as int) =~= all);
    out
}

/// Adds `pkgs` and an ellipsis to the argument pattern of `src`, keeping the
/// entries as they are written and the name of the whole argument.
pub fn inject_pkgs(src: &str, pattern: &ArgPattern) -> (r: String)
    requires
        pattern_within(src@, pattern@),
    ensures
        r@ == with_pkgs_injected(src@, pattern@),
{
    let mut entries = keep_entries(&pattern.entries);
    let pkgs = "pkgs".to_owned();
    proof {
        lemma_texts_push(entries@, pkgs);
    }
    entries.push(pkgs);
    assert(entries@.skip(0) =~= entries@);
    let list = join(&entries, 0, ", ");
    let head = src.split_at(pattern.start).0;
    let tail = src.split_at(pattern.end).1;
    proof {
        encode_utf8_decode_utf8(head@);
        encode_utf8_decode_utf8(tail@);
    }
    let mut out = head.to_owned();
    out.append("{ ");
    out.append(list.as_str());
    out.append(", ... }");
    match &pattern.bind {
        Some(name) => {
            out.append("@");
            out.append(name.as_str());
        },
        None => {},
    }
    out.append(tail);
    assert(out@ =~= with_pkgs_injected(src@, pattern@));
    out
}

// ── Normalization ───────────────────────────────────────────────────────────

/// `s` with a newline at its end.
pub open spec fn with_newline(s: Seq<char>) -> Seq<char> {
    if s.len() > 0 && s.last() == '\n' {
        s
    } else {
        s.push('\n')
    }
}

/// Ends `s` with a newline, if it does not end with one.
pub fn ensure_trailing_nl(s: String) -> (r: String)
    ensures
        r@ == with_newline(s@),
{
    proof {
        reveal_strlit("\n");
    }
    let v = chars_of(s.as_str());
    let n: usize = v.len();
    if n > 0 && v[n - 1] == '\n' {
        s
    } else {
        assert(s@ + "\n"@ =~= s@.push('\n'));
        s.concat("\n")
    }
}

/// Why a module function cannot be given `pkgs`.
pub open spec fn no_pattern_for_pkgs() -> Seq<char> {
    "module references `pkgs` but its argument is not an attrset pattern that can receive it"@
}

/// The module function made of a trimmed text of the given shape, if it can be
/// made one.
pub open spec fn candidate_of(t: Seq<char>, shape: ShapeView) -> Option<Seq<char>> {
    match shape {
        ShapeView::PatternFunction(p) => Some(
            if uses_pkgs(t) && !binds(p, "pkgs"@) {
                with_pkgs_injected(t, p)
            } else {
                t
            },
        ),
        ShapeView::PlainFunction => if uses_pkgs(t) {
            None
        } else {
            Some(t)
        },
        ShapeView::NotFunction => Some(MODULE_HEADER@ + "\n\n"@ + t + "\n"@),
    }
}

/// The outcome for a candidate on which the parser reports `error`.
pub open spec fn checked(candidate: Seq<char>, error: Option<Seq<char>>) -> Result<
    Seq<char>,
    Seq<char>,
> {
    match error {
        Some(e) => Err("result is not valid Nix: "@ + e),
        None => Ok(with_newline(candidate)),
    }
}

/// The module that a generated text is normalized to, or why it is not.
pub open spec fn normalized(raw: Seq<char>) -> Result<Seq<char>, Seq<char>> {
    let t = trimmed(raw);
    if t.len() == 0 {
        Err("module is empty"@)
    } else {
        match candidate_of(t, expr_shape(t)) {
            None => Err(no_pattern_for_pkgs()),
            Some(c) => checked(c, first_parse_error(c)),
        }
    }
}

/// Whether the parser can take every text that normalizing `raw` hands it.
pub open spec fn normalizable(raw: Seq<char>) -> bool {
    let t = trimmed(raw);
    t.len() == 0 || {
        &&& fits_parser(t)
        &&& candidate_of(t, expr_shape(t)) matches Some(c) ==> fits_parser(c)
    }
}

/// Whether `r` is the outcome `expected` of a normalization.
pub open spec fn same_outcome(
    r: Result<String, InstallError>,
    expected: Result<Seq<char>, Seq<char>>,
) -> bool {
    match r {
        Ok(m) => expected == Ok::<Seq<char>, Seq<char>>(m@),
        Err(e) => expected matches Err(m) && e@ == ErrorView::Normalize(m),
    }
}

/// Turns a trimmed text of the given shape into a module function: a function
/// stays as it is or gets `pkgs` added to its argument pattern, anything else is
/// put behind [`MODULE_HEADER`].
pub fn module_candidate(t: &str, shape: &ExprShape) -> (r: Result<String, InstallError>)
    requires
        shape@ matches ShapeView::PatternFunction(p) ==> pattern_within(t@, p),
    ensures
        match r {
            Ok(c) => candidate_of(t@, shape@) == Some(c@),
            Err(e) => candidate_of(t@, shape@) is None && e@ == ErrorView::Normalize(
                no_pattern_for_pkgs(),
            ),
        },
{
    let needs_pkgs = references_pkgs(t);
    match shape {
        ExprShape::PatternFunction(p) => {
            if needs_pkgs && !pattern_binds(p, "pkgs") {
                Ok(inject_pkgs(t, p))
            } else {
                Ok(t.to_owned())
            }
        },
        ExprShape::PlainFunction => {
            if needs_pkgs {
                Err(
                    InstallError::Normalize(
                        "module references `pkgs` but its argument is not an attrset pattern that can receive it".to_owned(),
                    ),
                )
            } else {
                Ok(t.to_owned())
            }
        },
        ExprShape::NotFunction => {
            let mut out = MODULE_HEADER.to_owned();
            out.append("\n\n");
            out.append(t);
            out.append("\n");
            Ok(out)
        },
    }
}

/// The verdict on a text on which the parser reports `error`.
pub fn parse_verdict(error: Option<String>) -> (r: Result<(), InstallError>)
    ensures
        match r {
            Ok(_) => error is None,
            Err(e) => error matches Some(m) && e@ == ErrorView::Normalize(
                "result is not valid Nix: "@ + m@,
            ),
        },
{
    match error {
        Some(e) => Err(
            InstallError::Normalize("result is not valid Nix: ".to_owned().concat(e.as_str())),
        ),
        None => Ok(()),
    }
}

/// Checks that `src` is valid Nix.
pub fn ensure_parses(src: &str) -> (r: Result<(), InstallError>)
    requires
        fits_parser(src@),
    ensures
        match r {
            Ok(_) => first_parse_error(src@) is None,
            Err(e) => first_parse_error(src@) matches Some(m) && e@ == ErrorView::Normalize(
                "result is not valid Nix: "@ + m,
            ),
        },
{
    parse_verdict(parse_error(src))
}

/// Turns generated text into a valid module function.
///
/// A text that is no function is put behind [`MODULE_HEADER`]. A function is
/// preserved; one that uses `pkgs` without binding it has `pkgs` added to its
/// argument pattern. The result is parsed again, and a result that is not valid
/// Nix is refused.
pub fn normalize_module(raw: &str) -> (r: Result<String, InstallError>)
    requires
        normalizable(raw@),
    ensures
        same_outcome(r, normalized(raw@)),
{
    let t = trim(raw);
    if t.is_empty() {
        return Err(InstallError::Normalize("module is empty".to_owned()));
    }
    let shape = parse_shape(t);
    match module_candidate(t, &shape) {
        Ok(candidate) => match ensure_parses(candidate.as_str()) {
            Ok(_) => Ok(ensure_trailing_nl(candidate)),
            Err(e) => Err(e),
        },
        Err(e) => Err(e),
    }
}

/// [`normalize_module`] on any text. `None` where a text to be parsed is larger
/// or may be nested deeper than the parser can take.
pub fn try_normalize_module(raw: &str) -> (r: Option<Result<String, InstallError>>)
    ensures
        match r {
            Some(outcome) => normalizable(raw@) && same_outcome(outcome, normalized(raw@)),
            None => !normalizable(raw@),
        },
{
    let t = trim(raw);
    if !t.is_empty() {
        if !parser_can_take(t) {
            return None;
        }
        let shape = parse_shape(t);
        match module_candidate(t, &shape) {
            Ok(candidate) => {
                if !parser_can_take(candidate.as_str()) {
                    return None;
                }
            },
            Err(_) => {},
        }
    }
    Some(normalize_module(raw))
}

/// Why a text is refused that the parser cannot take.
pub open spec fn beyond_parser() -> Seq<char> {
    "module is larger or nested deeper than the Nix parser can take"@
}

/// The module that a generated text is accepted as, or why it is refused: as it
/// is [`normalized`], if the parser can take it.
pub open spec fn accepted(raw: Seq<char>) -> Result<Seq<char>, Seq<char>> {
    if normalizable(raw) {
        normalized(raw)
    } else {
        Err(beyond_parser())
    }
}

/// [`normalize_module`] on any text; one that the parser cannot take is refused.
pub fn accept_module(raw: &str) -> (r: Result<String, InstallError>)
    ensures
        same_outcome(r, accepted(raw@)),
{
    match try_normalize_module(raw) {
        Some(outcome) => outcome,
        None => Err(
            InstallError::Normalize(
                "module is larger or nested deeper than the Nix parser can take".to_owned(),
            ),
        ),
    }
}

} // verus!
