//! Laws of normalization.

use vstd::prelude::*;
use vstd::utf8::*;

use crate::install::error::InstallError;
use crate::install::nix::{
    expr_shape, first_parse_error, fits_parser, pattern_within, ArgPattern, EntryView, PatternView,
    ShapeView,
};
use crate::install::normalize::{
    accept_module, binding_text, binds, candidate_of, ensure_trailing_nl, entry_text,
    ident_char, is_ident_char, kept_entries, no_pattern_for_pkgs, normalizable,
    normalize_module, normalized, pattern_binds, pattern_with_pkgs, pkgs_at, references_pkgs,
    text_before, text_from, try_normalize_module, uses_pkgs, with_newline, with_pkgs_injected,
    MODULE_HEADER,
};
use crate::laws::text::{
    law_a_part_is_found, law_trimming_takes_white_space_off, law_what_is_found_is_a_part,
};
use crate::text::{
    contains_text, ends_with, joined, lemma_filter_push, non_empty, occurs_at, starts_with,
    trimmed, white_space,
};
use crate::text_lemmas::{
    blank, lemma_trimmed_blank, lemma_trimmed_ends, lemma_trimmed_pad, lemma_trimmed_same,
};

verus! {

// ── Use of `pkgs` ───────────────────────────────────────────────────────────

/// Whether a character can be part of a Nix identifier: an ASCII letter or digit,
/// an underscore, a hyphen or an apostrophe.
pub open spec fn in_identifier(c: char) -> bool {
    ||| 'a' as u32 <= c as u32 <= 'z' as u32
    ||| 'A' as u32 <= c as u32 <= 'Z' as u32
    ||| '0' as u32 <= c as u32 <= '9' as u32
    ||| c == '_' || c == '-' || c == '\''
}

/// Whether `pkgs` between these two texts is an identifier of its own.
pub open spec fn stands_alone(before: Seq<char>, after: Seq<char>) -> bool {
    &&& before.len() > 0 ==> !in_identifier(before.last())
    &&& after.len() > 0 ==> !in_identifier(after.first())
}

/// Whether a text holds `pkgs` as an identifier of its own.
pub open spec fn holds_pkgs(s: Seq<char>) -> bool {
    exists|before: Seq<char>, after: Seq<char>|
        s == #[trigger] (before + "pkgs"@ + after) && stands_alone(before, after)
}

/// The characters of an identifier.
pub proof fn law_identifiers_are_made_of_these(c: char, r: bool)
    requires
        call_ensures(is_ident_char, (c,), r),
    ensures
        r == in_identifier(c),
        ident_char(c) == in_identifier(c),
{
}

/// A text uses `pkgs` exactly if it holds that as an identifier of its own.
proof fn lemma_uses_pkgs(s: Seq<char>)
    ensures
        uses_pkgs(s) == holds_pkgs(s),
{
    reveal_strlit("pkgs");
    let name = "pkgs"@;
    assert forall|c: char| #[trigger] ident_char(c) == in_identifier(c) by {}
    if uses_pkgs(s) {
        let i = choose|i: int| pkgs_at(s, i);
        law_what_is_found_is_a_part(s, name, i);
        let before = s.take(i);
        let after = s.skip(i + 4);
        assert(s == before + name + after);
        if i > 0 {
            assert(before.last() == s[i - 1]);
        }
        if after.len() > 0 {
            assert(after.first() == s[i + 4]);
        }
        assert(stands_alone(before, after));
    }
    if holds_pkgs(s) {
        let (before, after) = choose|before: Seq<char>, after: Seq<char>|
            s == #[trigger] (before + name + after) && stands_alone(before, after);
        law_a_part_is_found(before, name, after);
        let i = before.len() as int;
        if i > 0 {
            assert(s[i - 1] == before.last());
        }
        if after.len() > 0 {
            assert(s[i + 4] == after.first());
        }
        assert(pkgs_at(s, i));
    }
}

/// `pkgs` is found wherever it stands as an identifier of its own, whatever is
/// around it.
pub proof fn law_pkgs_is_found_wherever_it_stands_alone(
    src: &str,
    r: bool,
    before: Seq<char>,
    after: Seq<char>,
)
    requires
        call_ensures(references_pkgs, (src,), r),
        src@ == before + "pkgs"@ + after,
        stands_alone(before, after),
    ensures
        r,
{
    lemma_uses_pkgs(src@);
    assert(holds_pkgs(src@));
}

/// `pkgs` is found nowhere else: not as a part of a longer identifier.
pub proof fn law_only_pkgs_that_stands_alone_is_found(src: &str, r: bool)
    requires
        call_ensures(references_pkgs, (src,), r),
        r,
    ensures
        exists|before: Seq<char>, after: Seq<char>|
            src@ == #[trigger] (before + "pkgs"@ + after) && stands_alone(before, after),
{
    lemma_uses_pkgs(src@);
}

// ── The argument pattern ────────────────────────────────────────────────────

/// A pattern binds a name that is one of its entries, or that of the whole
/// argument, and no other.
pub proof fn law_a_pattern_binds_its_names(pattern: &ArgPattern, name: &str, r: bool)
    requires
        call_ensures(pattern_binds, (pattern, name), r),
    ensures
        r <==> (pattern.bind matches Some(n) && n@ == name@) || exists|i: int|
            0 <= i < pattern.entries@.len() && ((#[trigger] pattern.entries@[i]).name matches Some(n)
                && n@ == name@),
{
    let p = pattern@;
    if exists|i: int| 0 <= i < p.entries.len() && (#[trigger] p.entries[i]).name == Some(name@) {
        let i = choose|i: int|
            0 <= i < p.entries.len() && (#[trigger] p.entries[i]).name == Some(name@);
        assert(p.entries[i] == pattern.entries@[i]@);
    }
    if exists|i: int|
        0 <= i < pattern.entries@.len() && ((#[trigger] pattern.entries@[i]).name matches Some(n)
            && n@ == name@) {
        let i = choose|i: int|
            0 <= i < pattern.entries@.len() && ((#[trigger] pattern.entries@[i]).name matches Some(
                n,
            ) && n@ == name@);
        assert(p.entries[i] == pattern.entries@[i]@);
        assert(p.entries[i].name == Some(name@));
    }
}

/// The entries of a pattern are kept in order and as they are written, without the
/// white space around them; blank ones are not.
pub proof fn law_entries_are_kept_in_order(
    entries: Seq<EntryView>,
    entry: EntryView,
    before: Seq<char>,
    text: Seq<char>,
    after: Seq<char>,
)
    requires
        entry.text == before + text + after,
        blank(before),
        blank(after),
        text.len() > 0 ==> !white_space(text.first()) && !white_space(text.last()),
    ensures
        kept_entries(Seq::empty()).len() == 0,
        text.len() > 0 ==> kept_entries(entries.push(entry)) == kept_entries(entries).push(text),
        text.len() == 0 ==> kept_entries(entries.push(entry)) == kept_entries(entries),
{
    law_trimming_takes_white_space_off(before, text, after);
    let mapped = entries.map_values(entry_text());
    assert(entries.push(entry).map_values(entry_text()) =~= mapped.push(text));
    lemma_filter_push(mapped, text, non_empty());
    let none = Seq::<EntryView>::empty();
    assert(none.map_values(entry_text()) =~= Seq::<Seq<char>>::empty());
    reveal(Seq::filter);
}

/// `pkgs` is spliced in: the text around the pattern stays, and between goes a
/// pattern of the kept entries, `pkgs` and an ellipsis, and the name of the whole
/// argument if it had one.
pub proof fn law_pkgs_is_spliced_into_the_pattern(
    head: Seq<char>,
    old_pattern: Seq<char>,
    tail: Seq<char>,
    pattern: PatternView,
)
    requires
        pattern.start == encode_utf8(head).len(),
        pattern.end == encode_utf8(head + old_pattern).len(),
    ensures
        ({
            let s = head + old_pattern + tail;
            let list = joined(kept_entries(pattern.entries).push("pkgs"@), ", "@);
            &&& pattern.bind is None ==> with_pkgs_injected(s, pattern) == head + ("{ "@ + list
                + ", ... }"@) + tail
            &&& pattern.bind matches Some(name) ==> with_pkgs_injected(s, pattern) == head + ("{ "@
                + list + ", ... }"@ + ("@"@ + name)) + tail
        }),
{
    let s = head + old_pattern + tail;
    lemma_cut_at(head, old_pattern + tail);
    assert(head + (old_pattern + tail) =~= s);
    lemma_cut_at(head + old_pattern, tail);
    let list = joined(kept_entries(pattern.entries).push("pkgs"@), ", "@);
    let plain = "{ "@ + list + ", ... }"@;
    assert(plain + Seq::<char>::empty() =~= plain);
}

/// The parts of a text before and from a byte between them.
proof fn lemma_cut_at(a: Seq<char>, b: Seq<char>)
    ensures
        text_before(a + b, encode_utf8(a).len() as int) == a,
        text_from(a + b, encode_utf8(a).len() as int) == b,
{
    lemma_encode_add(a, b);
    let n = encode_utf8(a).len() as int;
    let all = encode_utf8(a) + encode_utf8(b);
    assert(all.subrange(0, n) =~= encode_utf8(a));
    assert(all.subrange(n, all.len() as int) =~= encode_utf8(b));
    encode_utf8_decode_utf8(a);
    encode_utf8_decode_utf8(b);
}

/// A text is encoded part by part.
proof fn lemma_encode_add(a: Seq<char>, b: Seq<char>)
    ensures
        encode_utf8(a + b) == encode_utf8(a) + encode_utf8(b),
    decreases a.len(),
{
    if a.len() == 0 {
        assert(a + b =~= b);
        assert(encode_utf8(a) + encode_utf8(b) =~= encode_utf8(b));
    } else {
        assert((a + b)[0] == a[0]);
        assert((a + b).drop_first() =~= a.drop_first() + b);
        lemma_encode_add(a.drop_first(), b);
        assert(encode_utf8(a + b) =~= encode_utf8(a) + encode_utf8(b));
    }
}

// ── Normalizing ─────────────────────────────────────────────────────────────

/// The outcome for a module function that the parser is shown: itself with a
/// newline at its end, or the first complaint.
pub open spec fn outcome_of(module: Seq<char>, r: Result<String, InstallError>) -> bool {
    match first_parse_error(module) {
        None => r matches Ok(m) && m@ == if module.len() > 0 && module.last() == '\n' {
            module
        } else {
            module + seq!['\n']
        },
        Some(e) => r matches Err(InstallError::Normalize(m)) && m@ == "result is not valid Nix: "@
            + e,
    }
}

/// What a text is normalized to. White space around it does not count. What is no
/// function is put behind the standard header. A function stays as it is, unless it
/// holds `pkgs` without binding it: then `pkgs` is spliced into its pattern, and
/// without a pattern it is refused. What is not valid Nix in the end is refused with
/// the parser's first complaint.
pub proof fn law_a_text_is_made_a_valid_function(
    raw: &str,
    r: Result<String, InstallError>,
    before: Seq<char>,
    text: Seq<char>,
    after: Seq<char>,
)
    requires
        call_ensures(normalize_module, (raw,), r),
        raw@ == before + text + after,
        blank(before),
        blank(after),
        text.len() > 0,
        !white_space(text.first()),
        !white_space(text.last()),
    ensures
        match expr_shape(text) {
            ShapeView::NotFunction => outcome_of(
                "{ config, pkgs, lib, ... }:"@ + "\n\n"@ + text + "\n"@,
                r,
            ),
            ShapeView::PlainFunction => if holds_pkgs(text) {
                r matches Err(InstallError::Normalize(m)) && m@
                    == "module references `pkgs` but its argument is not an attrset pattern that can receive it"@
            } else {
                outcome_of(text, r)
            },
            ShapeView::PatternFunction(p) => {
                let bound = p.bind == Some("pkgs"@) || exists|i: int|
                    0 <= i < p.entries.len() && (#[trigger] p.entries[i]).name == Some("pkgs"@);
                if holds_pkgs(text) && !bound {
                    outcome_of(with_pkgs_injected(text, p), r)
                } else {
                    outcome_of(text, r)
                }
            },
        },
{
    law_trimming_takes_white_space_off(before, text, after);
    lemma_uses_pkgs(text);
    assert forall|s: Seq<char>| #[trigger] with_newline(s) == if s.len() > 0 && s.last() == '\n' {
        s
    } else {
        s + seq!['\n']
    } by {
        assert(s.push('\n') =~= s + seq!['\n']);
    }
}

/// A module function with a pattern that holds `pkgs` and does not bind it is
/// normalized to one whose pattern names `pkgs`, or is refused.
pub proof fn law_used_pkgs_gets_into_the_pattern(
    raw: &str,
    r: Result<String, InstallError>,
    before: Seq<char>,
    text: Seq<char>,
    after: Seq<char>,
    pattern: PatternView,
)
    requires
        call_ensures(normalize_module, (raw,), r),
        raw@ == before + text + after,
        blank(before),
        blank(after),
        text.len() > 0,
        !white_space(text.first()),
        !white_space(text.last()),
        holds_pkgs(text),
        expr_shape(text) == ShapeView::PatternFunction(pattern),
        pattern.bind != Some("pkgs"@),
        forall|i: int|
            0 <= i < pattern.entries.len() ==> (#[trigger] pattern.entries[i]).name != Some(
                "pkgs"@,
            ),
    ensures
        r matches Ok(m) ==> exists|head: Seq<char>, list: Seq<char>, tail: Seq<char>|
            m@ == #[trigger] (head + ("{ "@ + list + "pkgs"@ + ", ... }"@) + tail),
{
    law_a_text_is_made_a_valid_function(raw, r, before, text, after);
    if let Ok(m) = r {
        let c = with_pkgs_injected(text, pattern);
        let kept = kept_entries(pattern.entries);
        let parts = kept.push("pkgs"@);
        assert(parts.drop_last() =~= kept);
        let list = if kept.len() == 0 {
            Seq::<char>::empty()
        } else {
            joined(kept, ", "@) + ", "@
        };
        assert(joined(parts, ", "@) =~= list + "pkgs"@);
        let head = text_before(text, pattern.start);
        let tail = binding_text(pattern.bind) + text_from(text, pattern.end);
        assert(c =~= head + ("{ "@ + list + "pkgs"@ + ", ... }"@) + tail);
        if m@ != c {
            assert(m@ == c + seq!['\n']);
            assert(m@ =~= head + ("{ "@ + list + "pkgs"@ + ", ... }"@) + (tail + seq!['\n']));
        }
    }
}

/// A blank text is refused as empty.
pub proof fn law_an_empty_text_is_refused_as_such(raw: &str, r: Result<String, InstallError>)
    requires
        call_ensures(normalize_module, (raw,), r),
        blank(raw@),
    ensures
        r matches Err(InstallError::Normalize(m)) && m@ == "module is empty"@,
{
    lemma_trimmed_blank(raw@);
}

/// A text is accepted or refused as it is normalized, unless the parser cannot take
/// it or the function made of it; then, and only then, it is refused for that.
pub proof fn law_only_what_the_parser_cannot_take_is_refused_for_it(
    raw: &str,
    tried: Option<Result<String, InstallError>>,
    r: Result<String, InstallError>,
    normal: Result<String, InstallError>,
)
    requires
        call_ensures(try_normalize_module, (raw,), tried),
        call_ensures(accept_module, (raw,), r),
        call_ensures(normalize_module, (raw,), normal),
    ensures
        ({
            let t = trimmed(raw@);
            let taken = t.len() == 0 || fits_parser(t) && (candidate_of(t, expr_shape(t)) matches Some(
                c,
            ) ==> fits_parser(c));
            &&& tried is Some <==> taken
            &&& taken ==> match normal {
                Ok(m) => (r matches Ok(n) && n@ == m@) && (tried->0 matches Ok(k) && k@ == m@),
                Err(e) => (r matches Err(f) && f@ == e@) && (tried->0 matches Err(g) && g@ == e@),
            }
            &&& !taken ==> (r matches Err(InstallError::Normalize(m)) && m@
                == "module is larger or nested deeper than the Nix parser can take"@)
        }),
{
}

/// A newline is put at the end of a text that does not end with one.
pub proof fn law_texts_are_ended_with_one_newline(s: String, r: String)
    requires
        call_ensures(ensure_trailing_nl, (s,), r),
    ensures
        s@.len() > 0 && s@.last() == '\n' ==> r@ == s@,
        s@.len() == 0 || s@.last() != '\n' ==> r@ == s@ + seq!['\n'],
{
    assert(s@.push('\n') =~= s@ + seq!['\n']);
}

/// What a normalization yields is a text that the parser accepts, ended with a
/// newline.
pub proof fn law_normalized_text_is_valid(raw: Seq<char>, module: Seq<char>)
    requires
        normalized(raw) == Ok::<Seq<char>, Seq<char>>(module),
    ensures
        module.len() > 0 && module.last() == '\n',
        candidate_of(trimmed(raw), expr_shape(trimmed(raw))) matches Some(candidate) && {
            &&& first_parse_error(candidate) is None
            &&& module == with_newline(candidate)
        },
{
}

/// A text that the parser does not accept, once it is made a function, is
/// refused.
pub proof fn law_invalid_text_is_refused(raw: Seq<char>, candidate: Seq<char>)
    requires
        candidate_of(trimmed(raw), expr_shape(trimmed(raw))) == Some(candidate),
        first_parse_error(candidate) is Some,
    ensures
        normalized(raw) is Err,
{
}

/// A blank text is refused.
pub proof fn law_blank_text_is_refused(raw: Seq<char>)
    requires
        blank(raw),
    ensures
        normalizable(raw),
        normalized(raw) == Err::<Seq<char>, Seq<char>>("module is empty"@),
{
    lemma_trimmed_blank(raw);
}

/// White space around a text does not count.
pub proof fn law_padding_does_not_count(before: Seq<char>, raw: Seq<char>, after: Seq<char>)
    requires
        blank(before),
        blank(after),
    ensures
        normalizable(before + raw + after) == normalizable(raw),
        normalized(before + raw + after) == normalized(raw),
{
    lemma_trimmed_pad(before, raw, after);
}

/// A text that is no function is put whole behind the header, and the module is
/// what the parser was shown.
pub proof fn law_bare_text_is_wrapped(raw: Seq<char>, module: Seq<char>)
    requires
        expr_shape(trimmed(raw)) is NotFunction,
        normalized(raw) == Ok::<Seq<char>, Seq<char>>(module),
    ensures
        starts_with(module, MODULE_HEADER@),
        module == MODULE_HEADER@ + "\n\n"@ + trimmed(raw) + "\n"@,
        first_parse_error(module) is None,
{
    reveal_strlit("\n");
    let m = MODULE_HEADER@ + "\n\n"@ + trimmed(raw) + "\n"@;
    assert(m.last() == '\n');
    assert(m.subrange(0, MODULE_HEADER@.len() as int) =~= MODULE_HEADER@);
}

/// Whether a text of this shape is a function that needs nothing added.
pub open spec fn complete_function(t: Seq<char>, shape: ShapeView) -> bool {
    match shape {
        ShapeView::PatternFunction(p) => !uses_pkgs(t) || binds(p, "pkgs"@),
        ShapeView::PlainFunction => !uses_pkgs(t),
        ShapeView::NotFunction => false,
    }
}

/// A valid function that needs nothing added is preserved, up to the white space
/// around it, and normalizing it again changes nothing.
pub proof fn law_complete_function_is_preserved(raw: Seq<char>)
    requires
        trimmed(raw).len() > 0,
        complete_function(trimmed(raw), expr_shape(trimmed(raw))),
        first_parse_error(trimmed(raw)) is None,
    ensures
        normalized(raw) == Ok::<Seq<char>, Seq<char>>(trimmed(raw).push('\n')),
        normalized(trimmed(raw).push('\n')) == normalized(raw),
{
    let t = trimmed(raw);
    let e = Seq::<char>::empty();
    lemma_trimmed_ends(raw);
    assert(white_space('\n'));
    lemma_trimmed_pad(e, t, seq!['\n']);
    assert(e + t + seq!['\n'] =~= t.push('\n'));
    lemma_trimmed_same(t);
}

/// A function that uses `pkgs` but takes no pattern is refused.
pub proof fn law_plain_function_cannot_get_pkgs(raw: Seq<char>)
    requires
        trimmed(raw).len() > 0,
        expr_shape(trimmed(raw)) is PlainFunction,
        uses_pkgs(trimmed(raw)),
    ensures
        normalized(raw) == Err::<Seq<char>, Seq<char>>(no_pattern_for_pkgs()),
{
}

/// Adding `pkgs` to a pattern changes nothing outside the pattern: what stands
/// before it and behind it in the source does so in the result.
pub proof fn law_injection_keeps_the_rest(s: Seq<char>, pattern: PatternView)
    requires
        pattern_within(s, pattern),
    ensures
        starts_with(s, text_before(s, pattern.start)),
        starts_with(with_pkgs_injected(s, pattern), text_before(s, pattern.start)),
        ends_with(s, text_from(s, pattern.end)),
        ends_with(with_pkgs_injected(s, pattern), text_from(s, pattern.end)),
{
    let bytes = encode_utf8(s);
    encode_utf8_valid_utf8(s);
    encode_utf8_decode_utf8(s);
    decode_utf8_split(bytes, pattern.start);
    decode_utf8_split(bytes, pattern.end);
    let head = text_before(s, pattern.start);
    let tail = text_from(s, pattern.end);
    let r = with_pkgs_injected(s, pattern);
    assert(s.subrange(0, head.len() as int) =~= head);
    assert(r.subrange(0, head.len() as int) =~= head);
    assert(s.subrange(s.len() - tail.len(), s.len() as int) =~= tail);
    assert(r.subrange(r.len() - tail.len(), r.len() as int) =~= tail);
}

/// Joined texts hold each of the parts.
proof fn lemma_joined_holds(parts: Seq<Seq<char>>, sep: Seq<char>, i: int)
    requires
        0 <= i < parts.len(),
    ensures
        contains_text(joined(parts, sep), parts[i]),
    decreases parts.len(),
{
    let all = joined(parts, sep);
    let part = parts[i];
    if parts.len() == 1 {
        assert(all.subrange(0, part.len() as int) =~= part);
        assert(occurs_at(all, part, 0));
    } else {
        let front = joined(parts.drop_last(), sep);
        if i == parts.len() - 1 {
            let at = (front + sep).len() as int;
            assert(all.subrange(at, at + part.len()) =~= part);
            assert(occurs_at(all, part, at));
        } else {
            lemma_joined_holds(parts.drop_last(), sep, i);
            assert(parts.drop_last()[i] == part);
            let at = choose|at: int| occurs_at(front, part, at);
            assert(all.subrange(at, at + part.len()) =~= front.subrange(at, at + part.len()));
            assert(occurs_at(all, part, at));
        }
    }
}

/// A text stands in every longer text that the one it stands in is the middle
/// of.
proof fn lemma_holds_within(before: Seq<char>, s: Seq<char>, after: Seq<char>, part: Seq<char>)
    requires
        contains_text(s, part),
    ensures
        contains_text(before + s + after, part),
{
    let all = before + s + after;
    let at = choose|at: int| occurs_at(s, part, at);
    let k = before.len() + at;
    assert(all.subrange(k, k + part.len()) =~= s.subrange(at, at + part.len()));
    assert(occurs_at(all, part, k));
}

/// A pattern with `pkgs` added names `pkgs`, takes any further argument, and binds
/// the whole argument to the name that it was bound to.
pub proof fn law_injected_pattern_names_pkgs(pattern: PatternView)
    ensures
        contains_text(pattern_with_pkgs(pattern), "pkgs"@),
        ends_with(pattern_with_pkgs(pattern), ", ... }"@ + binding_text(pattern.bind)),
{
    let kept = kept_entries(pattern.entries);
    let parts = kept.push("pkgs"@);
    let end = ", ... }"@ + binding_text(pattern.bind);
    let all = pattern_with_pkgs(pattern);
    assert(all =~= "{ "@ + joined(parts, ", "@) + end);
    lemma_joined_holds(parts, ", "@, kept.len() as int);
    lemma_holds_within("{ "@, joined(parts, ", "@), end, "pkgs"@);
    assert(all.subrange(all.len() - end.len(), all.len() as int) =~= end);
}

/// A pattern with `pkgs` added holds every entry of the pattern before as it was
/// written.
pub proof fn law_injected_pattern_holds_every_entry(pattern: PatternView, i: int)
    requires
        0 <= i < pattern.entries.len(),
    ensures
        contains_text(pattern_with_pkgs(pattern), trimmed(pattern.entries[i].text)),
{
    let kept = kept_entries(pattern.entries);
    let parts = kept.push("pkgs"@);
    let end = ", ... }"@ + binding_text(pattern.bind);
    let all = pattern_with_pkgs(pattern);
    assert(all =~= "{ "@ + joined(parts, ", "@) + end);
    let t = trimmed(pattern.entries[i].text);
    if t.len() == 0 {
        assert(all.subrange(0, 0) =~= t);
        assert(occurs_at(all, t, 0));
    } else {
        let mapped = pattern.entries.map_values(entry_text());
        assert(mapped[i] == t);
        mapped.lemma_filter_contains(non_empty(), i);
        let j = kept.index_of(t);
        assert(kept.contains(t));
        assert(parts[j] == t);
        lemma_joined_holds(parts, ", "@, j);
        lemma_holds_within("{ "@, joined(parts, ", "@), end, t);
    }
}

// ── Normalizing again ───────────────────────────────────────────────────────

/// A text with `pkgs` added neither begins nor ends with white space, if the text
/// before did not and goes on behind its pattern.
proof fn lemma_injected_is_trimmed(t: Seq<char>, pattern: PatternView)
    requires
        t.len() > 0,
        !white_space(t.first()),
        !white_space(t.last()),
        pattern_within(t, pattern),
        text_from(t, pattern.end).len() > 0,
    ensures
        ({
            let c = with_pkgs_injected(t, pattern);
            c.len() > 0 && !white_space(c.first()) && !white_space(c.last())
        }),
{
    reveal_strlit("{ ");
    law_injection_keeps_the_rest(t, pattern);
    let head = text_before(t, pattern.start);
    let tail = text_from(t, pattern.end);
    let c = with_pkgs_injected(t, pattern);
    assert(t.subrange(t.len() - tail.len(), t.len() as int)[tail.len() - 1] == tail.last());
    assert(c.last() == tail.last());
    if head.len() > 0 {
        assert(t.subrange(0, head.len() as int)[0] == head[0]);
        assert(c.first() == head[0]);
    } else {
        assert(c.first() == pattern_with_pkgs(pattern)[0]);
        assert(pattern_with_pkgs(pattern)[0] == '{');
    }
}

/// Normalizing a result again gives the same result, for every accepted text
/// whose result the parser reads as a function that needs nothing added. The
/// parser must also accept the result without the newline at its end, where the
/// text was put behind the header, and must have found a body behind a pattern
/// that `pkgs` was added to.
pub proof fn law_normalizing_again_changes_nothing(raw: Seq<char>, module: Seq<char>)
    requires
        normalized(raw) == Ok::<Seq<char>, Seq<char>>(module),
        complete_function(trimmed(module), expr_shape(trimmed(module))),
        match expr_shape(trimmed(raw)) {
            ShapeView::PatternFunction(p) => pattern_within(trimmed(raw), p) && text_from(
                trimmed(raw),
                p.end,
            ).len() > 0,
            ShapeView::PlainFunction => true,
            ShapeView::NotFunction => first_parse_error(trimmed(module)) is None,
        },
    ensures
        normalizable(module) == fits_parser(trimmed(module)),
        normalized(module) == Ok::<Seq<char>, Seq<char>>(module),
{
    reveal_strlit("\n");
    reveal_strlit("{ config, pkgs, lib, ... }:");
    let t = trimmed(raw);
    let c = candidate_of(t, expr_shape(t))->0;
    let e = Seq::<char>::empty();
    let nl = seq!['\n'];
    lemma_trimmed_ends(raw);
    assert(white_space('\n'));
    let body = if expr_shape(t) is NotFunction {
        MODULE_HEADER@ + "\n\n"@ + t
    } else {
        c
    };
    match expr_shape(t) {
        ShapeView::PatternFunction(p) => {
            lemma_injected_is_trimmed(t, p);
        },
        ShapeView::PlainFunction => {},
        ShapeView::NotFunction => {
            assert(body.first() == MODULE_HEADER@[0]);
            assert(c =~= body.push('\n'));
        },
    }
    assert(body.len() > 0 && !white_space(body.first()) && !white_space(body.last()));
    assert(module =~= body.push('\n'));
    lemma_trimmed_same(body);
    lemma_trimmed_pad(e, body, nl);
    assert(e + body + nl =~= module);
    assert(trimmed(module) == body);
}

} // verus!
