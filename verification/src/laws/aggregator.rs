//! Laws of the aggregator: what is rendered is read back, and a registration
//! keeps what was imported and adds its module once.

use vstd::prelude::*;

use crate::install::aggregator::{
    aggregator_head, aggregator_tail, aggregator_text, ambiguous, deduped, extended_imports,
    has_import, import_like, import_lines, import_of, import_words, imported_once, imports_in,
    imports_of_lines, is_registered, prior_imports, registration_changes, registration_record,
    rendered_imports, same_import, unambiguous,
};
use crate::install::files::ChangeView;
use crate::install::list::{
    code_only, entries_after, lemma_closed_stays, lemma_list_read_add, list_read, list_with,
    list_start, place_after, words_after, Frame,
};
use crate::laws::list::{
    law_path_is_one_entry, law_read_entries_are_entries, lemma_blank_is_passed,
    lemma_entries_stay, lemma_entry_is_read, lemma_no_entry_in_code, lemma_quiet_code,
    one_entry, quiet,
};
use crate::text::{
    find_from, lemma_find_from, lemma_find_from_first, occurs_at, starts_with, white_space,
    words_of,
};
use crate::text_lemmas::{
    lemma_words_at, lemma_words_blank, lemma_words_chars, lemma_words_empty, lemma_words_solid,
    solid,
};

verus! {

/// Whether the name of a plan can stand in the path of an import.
pub open spec fn listable(plan_id: Seq<char>) -> bool {
    solid(plan_id) && !plan_id.contains(']')
}

/// Whether each of these is one entry of a list.
pub open spec fn importable(imports: Seq<Seq<char>>) -> bool {
    forall|i: int| 0 <= i < imports.len() ==> one_entry(#[trigger] imports[i])
}

/// Whether each of these is a word that looks like an import: without white space
/// and `]`, and it begins with `./` or ends in `.nix`.
pub open spec fn plain(imports: Seq<Seq<char>>) -> bool {
    &&& import_words(imports)
    &&& forall|i: int| 0 <= i < imports.len() ==> solid(#[trigger] imports[i])
}

/// Whether a rendered list of these can be told: words that look like imports, or
/// entries of which none could be taken for several.
pub open spec fn readable(imports: Seq<Seq<char>>) -> bool {
    plain(imports) || (importable(imports) && unambiguous(imports))
}

/// Whether no two of these name the same module.
pub open spec fn distinct(imports: Seq<Seq<char>>) -> bool {
    forall|i: int, j: int|
        0 <= i < j < imports.len() ==> !same_import(#[trigger] imports[i], #[trigger] imports[j])
}

/// What an aggregator that held `prior` holds after a registration.
pub open spec fn registered(prior: Option<Seq<char>>, plan_id: Seq<char>) -> Option<Seq<char>> {
    if is_registered(prior, plan_id) {
        prior
    } else {
        Some(aggregator_text(extended_imports(prior, plan_id)))
    }
}

// ── Reading back ────────────────────────────────────────────────────────────

/// A word that looks like an import is not empty.
proof fn lemma_plain_import(s: Seq<char>)
    requires
        import_like()(s),
    ensures
        s.len() > 0,
{
    reveal_strlit("./");
    reveal_strlit(".nix");
}

/// The words of the lines of plain imports are the imports.
proof fn lemma_words_of_lines(imports: Seq<Seq<char>>)
    requires
        plain(imports),
    ensures
        words_of(import_lines(imports)) == imports,
    decreases imports.len(),
{
    if imports.len() == 0 {
        lemma_words_empty();
        assert(imports =~= Seq::empty());
    } else {
        reveal_strlit("    ");
        reveal_strlit("\n");
        let front = imports.drop_last();
        let last = imports.last();
        assert(plain(front)) by {
            assert forall|i: int| 0 <= i < front.len() implies solid(#[trigger] front[i])
                && import_like()(front[i]) && !front[i].contains(']') by {
                assert(front[i] == imports[i]);
            }
        }
        lemma_words_of_lines(front);
        assert(solid(imports[imports.len() - 1]) && import_like()(imports[imports.len() - 1]));
        lemma_plain_import(last);
        lemma_words_solid(last);
        // The line, from the back: the newline, the import, the four spaces.
        let before = import_lines(front) + "    "@;
        let e = Seq::<char>::empty();
        lemma_words_at(before + last, '\n', e);
        assert((before + last).push('\n') + e =~= import_lines(imports));
        lemma_words_empty();
        assert(words_of(before + last) + Seq::<Seq<char>>::empty() =~= words_of(before + last));
        let spaces = seq![' ', ' ', ' '];
        lemma_words_at(import_lines(front) + spaces, ' ', last);
        assert((import_lines(front) + spaces).push(' ') + last =~= before + last);
        lemma_words_at(import_lines(front), ' ', seq![' ', ' ']);
        assert(import_lines(front).push(' ') + seq![' ', ' '] =~= import_lines(front) + spaces);
        lemma_words_blank(seq![' ', ' ']);
        assert(words_of(import_lines(front)) + Seq::<Seq<char>>::empty() =~= words_of(
            import_lines(front),
        ));
        assert(imports =~= front.push(last));
        assert(front + seq![last] =~= front.push(last));
    }
}

/// The imports of the lines of plain imports are these.
pub(crate) proof fn lemma_imports_of_lines(imports: Seq<Seq<char>>)
    requires
        plain(imports),
    ensures
        imports_of_lines(import_lines(imports)) == Some(imports),
{
    lemma_words_of_lines(imports);
}

/// The imports that lines are read as are plain.
pub(crate) proof fn lemma_lines_are_plain(lines: Seq<char>)
    requires
        imports_of_lines(lines) is Some,
    ensures
        plain(imports_of_lines(lines)->0),
        import_lines(imports_of_lines(lines)->0) == lines,
{
    lemma_words_chars(lines);
}

/// Where the lines of plain imports are cut behind a newline, each part is the
/// lines of some of them: returns how many stand before the cut.
proof fn lemma_lines_cut(imports: Seq<Seq<char>>, a: Seq<char>, b: Seq<char>) -> (k: int)
    requires
        plain(imports),
        a + b == import_lines(imports),
        a.len() > 0 ==> a.last() == '\n',
    ensures
        0 <= k <= imports.len(),
        a == import_lines(imports.take(k)),
        b == import_lines(imports.skip(k)),
    decreases imports.len(),
{
    let n = imports.len() as int;
    assert(imports.take(n) =~= imports);
    assert(imports.skip(n) =~= Seq::empty());
    if b.len() == 0 {
        assert(a + b =~= a);
        assert(b =~= Seq::empty());
        n
    } else if n == 0 {
        assert((a + b).len() == 0);
        n
    } else {
        reveal_strlit("    ");
        reveal_strlit("\n");
        let front = imports.drop_last();
        let last = imports.last();
        assert(plain(front)) by {
            assert forall|i: int| 0 <= i < front.len() implies solid(#[trigger] front[i])
                && import_like()(front[i]) && !front[i].contains(']') by {
                assert(front[i] == imports[i]);
            }
        }
        assert(solid(imports[n - 1]));
        let line = "    "@ + last + "\n"@;
        let lines = import_lines(imports);
        let start = import_lines(front).len() as int;
        assert(lines =~= import_lines(front) + line);
        if a.len() > start {
            // The cut would be inside of a line.
            let c = a.last();
            assert((a + b)[a.len() - 1] == c);
            assert(lines[a.len() - 1] == line[a.len() - 1 - start]);
            assert(a.len() < lines.len());
            let i = a.len() - 1 - start;
            if i >= 4 {
                assert(line[i] == last[i - 4]);
                assert(!white_space(last[i - 4]));
            }
            assert(false);
            n
        } else {
            let rest = b.take(start - a.len());
            assert(a + rest =~= (a + b).take(start));
            assert(lines.take(start) =~= import_lines(front));
            let k = lemma_lines_cut(front, a, rest);
            assert(imports.take(k) =~= front.take(k));
            assert(imports.skip(k).drop_last() =~= front.skip(k));
            assert(imports.skip(k).last() == last);
            assert(b.skip(start - a.len()) =~= lines.skip(start));
            assert(lines.skip(start) =~= line);
            assert(b =~= rest + line);
            assert(b =~= import_lines(imports.skip(k)));
            k
        }
    }
}

/// Entries of which none is ambiguous have the lines of plain imports only if
/// they are these.
proof fn lemma_lines_are_told(entries: Seq<Seq<char>>, imports: Seq<Seq<char>>)
    requires
        unambiguous(entries),
        plain(imports),
        import_lines(entries) == import_lines(imports),
    ensures
        entries == imports,
    decreases entries.len(),
{
    reveal_strlit("    ");
    reveal_strlit("\n");
    if entries.len() == 0 {
        if imports.len() > 0 {
            assert(import_lines(imports).last() == '\n');
        }
        assert(entries =~= imports);
    } else {
        let front = entries.drop_last();
        let last = entries.last();
        let one = seq![last];
        assert(import_lines(one.drop_last()) =~= Seq::empty());
        let line = import_lines(one);
        assert(line =~= "    "@ + last + "\n"@);
        let a = import_lines(front);
        if front.len() > 0 {
            assert(a.last() == '\n');
        }
        assert(a + line =~= import_lines(entries));
        let k = lemma_lines_cut(imports, a, line);
        assert(plain(imports.take(k))) by {
            assert forall|i: int| 0 <= i < k implies solid(#[trigger] imports.take(k)[i])
                && import_like()(imports.take(k)[i]) && !imports.take(k)[i].contains(']') by {
                assert(imports.take(k)[i] == imports[i]);
            }
        }
        let tail = imports.skip(k);
        assert(plain(tail)) by {
            assert forall|i: int| 0 <= i < tail.len() implies solid(#[trigger] tail[i])
                && import_like()(tail[i]) && !tail[i].contains(']') by {
                assert(tail[i] == imports[i + k]);
            }
        }
        assert(unambiguous(front)) by {
            assert forall|i: int| 0 <= i < front.len() implies !ambiguous(#[trigger] front[i]) by {
                assert(front[i] == entries[i]);
            }
        }
        lemma_lines_are_told(front, imports.take(k));
        lemma_imports_of_lines(tail);
        assert(!ambiguous(entries[entries.len() - 1]));
        assert(tail == one);
        assert(entries =~= front + one);
        assert(imports =~= imports.take(k) + tail);
    }
}

/// A plain import is not ambiguous.
proof fn lemma_plain_is_unambiguous(import: Seq<char>)
    requires
        plain(seq![import]),
    ensures
        !ambiguous(import),
{
    lemma_imports_of_lines(seq![import]);
}

/// The lines of an import list are read as the imports, behind others.
proof fn lemma_lines_are_read(entries: Seq<Seq<char>>, imports: Seq<Seq<char>>)
    requires
        importable(imports),
    ensures
        list_read(list_with(entries), import_lines(imports)) == list_with(entries + imports),
    decreases imports.len(),
{
    if imports.len() == 0 {
        assert(entries + imports =~= entries);
    } else {
        reveal_strlit("    ");
        reveal_strlit("\n");
        let front = imports.drop_last();
        let last = imports.last();
        assert forall|i: int| 0 <= i < front.len() implies one_entry(#[trigger] front[i]) by {
            assert(front[i] == imports[i]);
        }
        lemma_lines_are_read(entries, front);
        assert(one_entry(imports[imports.len() - 1]));
        let line = last.push('\n');
        assert(import_lines(imports) =~= import_lines(front) + ("    "@ + line));
        lemma_list_read_add(list_with(entries), import_lines(front), "    "@ + line);
        lemma_list_read_add(list_with(entries + front), "    "@, line);
        lemma_blank_is_passed(entries + front, "    "@);
        lemma_entry_is_read(entries + front, last, '\n');
        assert((entries + front).push(last) =~= entries + imports);
    }
}

/// From its second bracket up to that of the import list, the head of an
/// aggregator is code.
proof fn lemma_head_is_code(s: Seq<char>)
    requires
        s.len() >= 26,
        s.take(26) == aggregator_head(),
    ensures
        forall|i: int| 11 <= i <= 24 ==> #[trigger] place_after(s.take(i)).in_code(),
{
    reveal_strlit("{ ... }:\n\n{\n  imports = [\n");
    let head = aggregator_head();
    assert forall|i: int| 0 <= i < 26 implies s[i] == head[i] by {
        assert(s[i] == s.take(26)[i]);
    }
    let none = Seq::<char>::empty();
    assert(s.take(0) =~= none);
    assert(place_after(none).frames.len() == 0);
    assert(s.take(1).drop_last() =~= none);
    assert(s.take(1).last() == '{');
    assert(place_after(s.take(1)) == place_after(none).past('{'));
    assert(place_after(s.take(1)).frames =~= seq![Frame::Group]);
    lemma_quiet_code(s.take(1), s.subrange(1, 6));
    assert(s.take(1) + s.subrange(1, 6) =~= s.take(6));
    assert(s.take(7).drop_last() =~= s.take(6));
    lemma_no_entry_in_code(s.take(6));
    assert(s.take(7).last() == '}');
    assert(place_after(s.take(7)) == place_after(s.take(6)).past('}'));
    assert(place_after(s.take(7)).frames.len() == 0);
    lemma_quiet_code(s.take(7), s.subrange(7, 10));
    assert(s.take(7) + s.subrange(7, 10) =~= s.take(10));
    assert(s.take(11).drop_last() =~= s.take(10));
    assert(s.take(11).last() == '{');
    assert(place_after(s.take(11)) == place_after(s.take(10)).past('{'));
    assert(place_after(s.take(11)).in_code());
    assert forall|i: int| 11 <= i <= 24 implies #[trigger] place_after(s.take(i)).in_code() by {
        let rest = s.subrange(11, i);
        assert forall|j: int| 0 <= j < rest.len() implies quiet(#[trigger] rest[j]) by {
            assert(rest[j] == head[11 + j]);
        }
        lemma_quiet_code(s.take(11), rest);
        assert(s.take(11) + rest =~= s.take(i));
    }
}

/// Where the import list begins, if so much of the head is code.
proof fn lemma_key_found(code: Seq<char>)
    requires
        code.len() >= 26,
        code.subrange(11, 25) == aggregator_head().subrange(11, 25),
        forall|i: int| 0 <= i < 11 ==> code[i] == aggregator_head()[i] || code[i] == ' ',
    ensures
        find_from(code, "imports"@, 0) == Some(14int),
        find_from(code, seq!['['], 21) == Some(24int),
{
    reveal_strlit("imports");
    reveal_strlit("{ ... }:\n\n{\n  imports = [\n");
    let head = aggregator_head();
    assert forall|i: int| 11 <= i < 25 implies code[i] == head[i] by {
        assert(code[i] == code.subrange(11, 25)[i - 11]);
    }
    assert(code.subrange(14, 21) =~= "imports"@);
    assert forall|j: int| 0 <= j < 14 implies !occurs_at(code, "imports"@, j) by {
        if occurs_at(code, "imports"@, j) {
            assert(code.subrange(j, j + 7)[0] == "imports"@[0]);
            assert(head[j] != 'i');
        }
    }
    lemma_find_from_first(code, "imports"@, 0, 14);
    assert(code.subrange(24, 25) =~= seq!['[']);
    assert forall|j: int| 21 <= j < 24 implies !occurs_at(code, seq!['['], j) by {
        if occurs_at(code, seq!['['], j) {
            assert(code.subrange(j, j + 1)[0] == '[');
            assert(head[j] != '[');
        }
    }
    lemma_find_from_first(code, seq!['['], 21, 24);
}

/// Where the import list begins in a text with the head of an aggregator.
proof fn lemma_head_found(s: Seq<char>)
    requires
        s.len() >= 26,
        s.take(26) == aggregator_head(),
    ensures
        find_from(code_only(s), "imports"@, 0) == Some(14int),
        find_from(code_only(s), seq!['['], 21) == Some(24int),
        "imports"@.len() == 7,
{
    reveal_strlit("imports");
    let head = aggregator_head();
    let code = code_only(s);
    assert forall|i: int| 0 <= i < 26 implies s[i] == head[i] by {
        assert(s[i] == s.take(26)[i]);
    }
    lemma_head_is_code(s);
    assert forall|i: int| 11 <= i < 25 implies code[i] == head[i] by {
        assert(place_after(s.take(i)).in_code());
    }
    assert(code.subrange(11, 25) =~= head.subrange(11, 25));
    lemma_key_found(code);
}

/// The import list of a rendered aggregator, as far as it is importable.
proof fn lemma_rendered_front(imports: Seq<Seq<char>>, more: Seq<char>)
    requires
        importable(imports),
    ensures
        ({
            let s = aggregator_head() + import_lines(imports) + more;
            let list = list_read(list_with(imports), more);
            entries_after(s, "imports"@) == if list.closed {
                Some(list.entries)
            } else {
                None
            }
        }),
{
    reveal_strlit("{ ... }:\n\n{\n  imports = [\n");
    let none = Seq::<Seq<char>>::empty();
    let lines = import_lines(imports);
    let s = aggregator_head() + lines + more;
    assert(s.take(26) =~= aggregator_head());
    lemma_head_found(s);
    let list = s.skip(25);
    assert(list =~= seq!['\n'] + (lines + more));
    lemma_list_read_add(list_with(none), seq!['\n'], lines + more);
    lemma_blank_is_passed(none, seq!['\n']);
    lemma_list_read_add(list_with(none), lines, more);
    lemma_lines_are_read(none, imports);
    assert(none + imports =~= imports);
}

/// The entries of a rendered aggregator are the ones it was rendered from.
proof fn lemma_rendered_entries(imports: Seq<Seq<char>>)
    requires
        importable(imports),
    ensures
        entries_after(aggregator_text(imports), "imports"@) == Some(imports),
{
    reveal_strlit("  ];\n}\n");
    let tail = aggregator_tail();
    lemma_rendered_front(imports, tail);
    let spaces = seq![' ', ' '];
    let rest = tail.skip(3);
    lemma_blank_is_passed(imports, spaces);
    assert(spaces.push(']').drop_last() =~= spaces);
    lemma_closed_stays(list_with(imports), spaces.push(']'), rest);
    assert(spaces.push(']') + rest =~= tail);
}

/// A rendered aggregator is read by its lines.
pub(crate) proof fn lemma_rendered_lines(imports: Seq<Seq<char>>)
    ensures
        rendered_imports(aggregator_text(imports)) == imports_of_lines(import_lines(imports)),
{
    let head = aggregator_head();
    let tail = aggregator_tail();
    let s = aggregator_text(imports);
    let lines = import_lines(imports);
    assert(s.subrange(0, head.len() as int) =~= head);
    assert(s.subrange(s.len() - tail.len(), s.len() as int) =~= tail);
    assert(s.subrange(head.len() as int, s.len() - tail.len()) =~= lines);
}

/// What is rendered is read back: the imports of a rendered aggregator are the
/// ones it was rendered from, in order and with every repetition. That holds of
/// all imports without white space and `]` that begin with `./` or end in `.nix`,
/// and of all other entries that a list can have, unless one of them could be
/// taken for several imports.
pub proof fn law_rendered_imports_are_read_back(imports: Seq<Seq<char>>)
    requires
        readable(imports),
    ensures
        imports_in(aggregator_text(imports)) == imports,
{
    let lines = import_lines(imports);
    lemma_rendered_lines(imports);
    if plain(imports) {
        lemma_imports_of_lines(imports);
    } else if imports_of_lines(lines) is Some {
        lemma_lines_are_plain(lines);
        lemma_lines_are_told(imports, imports_of_lines(lines)->0);
    } else {
        lemma_rendered_entries(imports);
    }
}

/// Whatever is read out of an aggregator would be read out of one that is
/// rendered from it.
pub proof fn law_imports_are_readable(content: Seq<char>)
    ensures
        readable(imports_in(content)),
{
    let found = imports_in(content);
    let key = "imports"@;
    let entries = entries_after(content, key);
    if rendered_imports(content) is Some {
        let lines = content.subrange(
            aggregator_head().len() as int,
            content.len() - aggregator_tail().len(),
        );
        lemma_lines_are_plain(lines);
    } else if entries is Some && unambiguous(entries->0) {
        assert forall|i: int| 0 <= i < found.len() implies one_entry(#[trigger] found[i]) by {
            law_read_entries_are_entries(content, key, i);
        }
    } else if words_after(content, key) is Some {
        let start = list_start(content, key)->0;
        let code = code_only(content);
        lemma_find_from(code, key, 0);
        lemma_find_from(code, seq!['['], find_from(code, key, 0)->0 + key.len());
        lemma_find_from(content, seq![']'], start);
        let close = find_from(content, seq![']'], start)->0;
        let list = content.subrange(start, close);
        let words = words_of(list);
        lemma_words_chars(list);
        assert forall|i: int| 0 <= i < found.len() implies solid(#[trigger] found[i])
            && import_like()(found[i]) && !found[i].contains(']') by {
            words.lemma_filter_pred(import_like(), i);
            assert(words.filter(import_like()).contains(found[i]));
            words.lemma_filter_contains_rev(import_like(), found[i]);
            let k = words.index_of(found[i]);
            assert(words[k] == found[i]);
            if found[i].contains(']') {
                let j = found[i].index_of(']');
                assert(words[k][j] == ']');
                assert(list.contains(']'));
                let m = list.index_of(']');
                assert(content[start + m] == ']');
                assert(content.subrange(start + m, start + m + 1) =~= seq![']']);
                assert(occurs_at(content, seq![']'], start + m));
            }
        }
        assert(plain(found));
    } else {
        assert(plain(found));
    }
}

// ── Registering ─────────────────────────────────────────────────────────────

/// What [`deduped`] keeps: imports of the list, each module once, none lost.
pub(crate) proof fn lemma_deduped(list: Seq<Seq<char>>)
    ensures
        distinct(deduped(list)),
        forall|i: int|
            0 <= i < deduped(list).len() ==> list.contains(#[trigger] deduped(list)[i]),
        forall|i: int| 0 <= i < list.len() ==> has_import(deduped(list), #[trigger] list[i]),
    decreases list.len(),
{
    if list.len() > 0 {
        let front = list.drop_last();
        let last = list.last();
        let rest = deduped(front);
        let all = deduped(list);
        lemma_deduped(front);
        assert forall|i: int| 0 <= i < all.len() implies list.contains(#[trigger] all[i]) by {
            if i < rest.len() {
                assert(all[i] == rest[i]);
                let j = front.index_of(rest[i]);
                assert(list[j] == rest[i]);
            } else {
                assert(list[list.len() - 1] == last);
            }
        }
        assert forall|i: int| 0 <= i < list.len() implies has_import(all, #[trigger] list[i]) by {
            if i < list.len() - 1 {
                assert(front[i] == list[i]);
                let j = choose|j: int| 0 <= j < rest.len() && same_import(rest[j], front[i]);
                assert(same_import(all[j], list[i]));
            } else if !has_import(rest, last) {
                assert(same_import(all[rest.len() as int], last));
            }
        }
        if !has_import(rest, last) {
            assert forall|i: int, j: int| 0 <= i < j < all.len() implies !same_import(
                #[trigger] all[i],
                #[trigger] all[j],
            ) by {
                assert(all[i] == rest[i]);
                if j < rest.len() {
                    assert(all[j] == rest[j]);
                }
            }
        }
    }
}

/// A list without two imports of the same module is left as it is.
proof fn lemma_deduped_distinct(list: Seq<Seq<char>>)
    requires
        distinct(list),
    ensures
        deduped(list) == list,
    decreases list.len(),
{
    if list.len() > 0 {
        let front = list.drop_last();
        assert forall|i: int, j: int| 0 <= i < j < front.len() implies !same_import(
            #[trigger] front[i],
            #[trigger] front[j],
        ) by {
            assert(front[i] == list[i] && front[j] == list[j]);
        }
        lemma_deduped_distinct(front);
        if has_import(front, list.last()) {
            let i = choose|i: int| 0 <= i < front.len() && same_import(front[i], list.last());
            assert(same_import(list[i], list[list.len() - 1]));
        }
        assert(front.push(list.last()) =~= list);
    }
}

/// The import of a plan can stand in an import list, if the plan's name can.
proof fn lemma_import_of(plan_id: Seq<char>)
    requires
        listable(plan_id),
    ensures
        one_entry(import_of(plan_id)),
        plain(seq![import_of(plan_id)]),
        !ambiguous(import_of(plan_id)),
{
    reveal_strlit("./");
    reveal_strlit(".nix");
    let t = import_of(plan_id);
    assert forall|i: int| 0 <= i < t.len() implies !white_space(#[trigger] t[i]) && t[i] != ']' by {
        if 2 <= i < 2 + plan_id.len() {
            assert(t[i] == plan_id[i - 2]);
        }
    }
    law_path_is_one_entry(t);
    assert(t.subrange(0, 2) =~= "./"@);
    assert(starts_with(t, "./"@));
    lemma_plain_is_unambiguous(t);
}

/// Imports out of a readable list and the import of a plan make a readable list.
proof fn lemma_readable_with(imports: Seq<Seq<char>>, plan_id: Seq<char>, all: Seq<Seq<char>>)
    requires
        listable(plan_id),
        readable(imports),
        forall|i: int|
            0 <= i < all.len() ==> imports.contains(#[trigger] all[i]) || all[i] == import_of(
                plan_id,
            ),
    ensures
        readable(all),
{
    let target = import_of(plan_id);
    lemma_import_of(plan_id);
    let one = seq![target];
    assert(one[0] == target);
    if plain(imports) {
        assert forall|i: int| 0 <= i < all.len() implies solid(#[trigger] all[i])
            && import_like()(all[i]) && !all[i].contains(']') by {
            if imports.contains(all[i]) {
                let j = imports.index_of(all[i]);
                assert(imports[j] == all[i]);
            }
        }
        assert(plain(all));
    } else {
        assert forall|i: int| 0 <= i < all.len() implies one_entry(#[trigger] all[i])
            && !ambiguous(all[i]) by {
            if imports.contains(all[i]) {
                let j = imports.index_of(all[i]);
                assert(imports[j] == all[i]);
            }
        }
        assert(importable(all) && unambiguous(all));
    }
}

/// The imports that a registration writes.
proof fn lemma_extended(prior: Option<Seq<char>>, plan_id: Seq<char>)
    requires
        listable(plan_id),
    ensures
        readable(extended_imports(prior, plan_id)),
        distinct(extended_imports(prior, plan_id)),
        imports_in(aggregator_text(extended_imports(prior, plan_id))) == extended_imports(
            prior,
            plan_id,
        ),
{
    let old_list = prior_imports(prior);
    match prior {
        Some(content) => law_imports_are_readable(content),
        None => {},
    }
    assert(readable(old_list));
    let list = old_list.push(import_of(plan_id));
    let all = extended_imports(prior, plan_id);
    lemma_deduped(list);
    assert forall|i: int| 0 <= i < all.len() implies old_list.contains(#[trigger] all[i]) || all[i]
        == import_of(plan_id) by {
        let j = list.index_of(all[i]);
        assert(list[j] == all[i]);
        if j < old_list.len() {
            assert(old_list[j] == all[i]);
        }
    }
    lemma_readable_with(old_list, plan_id, all);
    law_rendered_imports_are_read_back(all);
}

/// What the kept imports of a registration are.
proof fn lemma_kept(prior: Option<Seq<char>>, plan_id: Seq<char>)
    ensures
        ({
            let kept = deduped(prior_imports(prior));
            &&& importable(prior_imports(prior)) ==> importable(kept)
            &&& extended_imports(prior, plan_id) == kept || extended_imports(prior, plan_id)
                == kept.push(import_of(plan_id))
        }),
{
    let old_list = prior_imports(prior);
    let kept = deduped(old_list);
    lemma_deduped(old_list);
    if importable(old_list) {
        assert forall|i: int| 0 <= i < kept.len() implies one_entry(#[trigger] kept[i]) by {
            let j = old_list.index_of(kept[i]);
            assert(old_list[j] == kept[i]);
        }
    }
    assert(old_list.push(import_of(plan_id)).drop_last() =~= old_list);
}

/// Whether the import list that a registration writes is read back so far as it
/// was there before: the plan's name has no white space and no `]`, or the list
/// is read as the entries that it has as Nix code.
pub open spec fn is_read_back(prior: Option<Seq<char>>, plan_id: Seq<char>) -> bool {
    let written = aggregator_text(extended_imports(prior, plan_id));
    ||| listable(plan_id)
    ||| importable(prior_imports(prior)) && entries_after(written, "imports"@) == Some(
        imports_in(written),
    )
}

/// The kept imports are read back, whatever stands behind them.
proof fn lemma_kept_is_read(prior: Option<Seq<char>>, plan_id: Seq<char>)
    requires
        is_read_back(prior, plan_id),
    ensures
        ({
            let kept = deduped(prior_imports(prior));
            let read = imports_in(aggregator_text(extended_imports(prior, plan_id)));
            &&& read.len() >= kept.len()
            &&& read.take(kept.len() as int) == kept
        }),
{
    let kept = deduped(prior_imports(prior));
    let all = extended_imports(prior, plan_id);
    let target = import_of(plan_id);
    lemma_kept(prior, plan_id);
    if listable(plan_id) {
        lemma_extended(prior, plan_id);
        assert(all.take(kept.len() as int) =~= kept);
    } else if all == kept {
        lemma_rendered_entries(kept);
        assert(kept.take(kept.len() as int) =~= kept);
    } else {
        let more = "    "@ + target + "\n"@ + aggregator_tail();
        assert(all.drop_last() =~= kept);
        assert(aggregator_text(all) =~= aggregator_head() + import_lines(kept) + more);
        lemma_rendered_front(kept, more);
        lemma_entries_stay(list_with(kept), more);
    }
}

/// A registration keeps every import, whatever it is, up to repetitions of a
/// module. That holds of every plan whose name has no white space and no `]`, and
/// of every other plan whose import leaves the list readable.
pub proof fn law_registration_keeps_imports(prior: Option<Seq<char>>, plan_id: Seq<char>)
    requires
        is_read_back(prior, plan_id),
    ensures
        forall|i: int|
            0 <= i < prior_imports(prior).len() ==> has_import(
                prior_imports(registered(prior, plan_id)),
                #[trigger] prior_imports(prior)[i],
            ),
{
    let old_list = prior_imports(prior);
    let new_list = prior_imports(registered(prior, plan_id));
    let kept = deduped(old_list);
    lemma_deduped(old_list);
    lemma_kept_is_read(prior, plan_id);
    assert forall|i: int| 0 <= i < old_list.len() implies has_import(
        new_list,
        #[trigger] old_list[i],
    ) by {
        if is_registered(prior, plan_id) {
            assert(same_import(new_list[i], old_list[i]));
        } else {
            let j = choose|j: int| 0 <= j < kept.len() && same_import(kept[j], old_list[i]);
            assert(new_list.take(kept.len() as int)[j] == kept[j]);
            assert(same_import(new_list[j], old_list[i]));
        }
    }
}

/// The import list that a registration writes holds nothing but what was
/// imported and the module of its plan.
pub proof fn law_registration_adds_only_its_module(prior: Option<Seq<char>>, plan_id: Seq<char>)
    ensures
        forall|i: int|
            0 <= i < extended_imports(prior, plan_id).len() ==> {
                let import = #[trigger] extended_imports(prior, plan_id)[i];
                prior_imports(prior).contains(import) || import == import_of(plan_id)
            },
{
    let old_list = prior_imports(prior);
    let list = old_list.push(import_of(plan_id));
    let all = extended_imports(prior, plan_id);
    lemma_deduped(list);
    assert forall|i: int| 0 <= i < all.len() implies {
        let import = #[trigger] all[i];
        old_list.contains(import) || import == import_of(plan_id)
    } by {
        let j = list.index_of(all[i]);
        assert(list.contains(all[i]));
        assert(list[j] == all[i]);
        if j < old_list.len() {
            assert(old_list[j] == all[i]);
        }
    }
}

/// Where the imports name no module twice, a registration puts its own behind
/// them and leaves their order alone.
pub proof fn law_registration_appends(prior: Option<Seq<char>>, plan_id: Seq<char>)
    requires
        listable(plan_id),
        distinct(prior_imports(prior)),
        !is_registered(prior, plan_id),
    ensures
        prior_imports(registered(prior, plan_id)) == prior_imports(prior).push(import_of(plan_id)),
{
    lemma_extended(prior, plan_id);
    let old_list = prior_imports(prior);
    let list = old_list.push(import_of(plan_id));
    assert forall|i: int, j: int| 0 <= i < j < list.len() implies !same_import(
        #[trigger] list[i],
        #[trigger] list[j],
    ) by {
        assert(list[i] == old_list[i]);
        if j < old_list.len() {
            assert(list[j] == old_list[j]);
        }
    }
    lemma_deduped_distinct(list);
}

/// The import list that a registration writes names no module twice.
pub proof fn law_written_imports_are_distinct(prior: Option<Seq<char>>, plan_id: Seq<char>)
    ensures
        distinct(extended_imports(prior, plan_id)),
{
    lemma_deduped(prior_imports(prior).push(import_of(plan_id)));
}

/// After a registration the aggregator imports the module exactly once, however
/// often it did before.
pub proof fn law_registered_exactly_once(prior: Option<Seq<char>>, plan_id: Seq<char>)
    requires
        listable(plan_id),
    ensures
        imported_once(prior_imports(registered(prior, plan_id)), import_of(plan_id)),
{
    if !is_registered(prior, plan_id) {
        lemma_extended(prior, plan_id);
        let target = import_of(plan_id);
        let list = prior_imports(prior).push(target);
        let all = extended_imports(prior, plan_id);
        lemma_deduped(list);
        assert(list[list.len() - 1] == target);
        assert(has_import(all, target));
        let k = choose|k: int| 0 <= k < all.len() && same_import(all[k], target);
        assert forall|j: int| 0 <= j < all.len() && same_import(#[trigger] all[j], target) implies j
            == k by {
            if j < k {
                assert(same_import(all[j], all[k]));
            } else if k < j {
                assert(same_import(all[k], all[j]));
            }
        }
    }
}

/// A second registration of the same plan changes nothing.
pub proof fn law_registration_is_idempotent(
    aggregator_path: Seq<char>,
    prior: Option<Seq<char>>,
    plan_id: Seq<char>,
    process_id: u32,
)
    requires
        listable(plan_id),
    ensures
        is_registered(registered(prior, plan_id), plan_id),
        registered(registered(prior, plan_id), plan_id) == registered(prior, plan_id),
        registration_changes(aggregator_path, plan_id, registered(prior, plan_id), process_id)
            == Seq::<ChangeView>::empty(),
        !registration_record(aggregator_path, plan_id, registered(prior, plan_id)).changed,
{
    if !is_registered(prior, plan_id) {
        law_registered_exactly_once(prior, plan_id);
    }
}

} // verus!
