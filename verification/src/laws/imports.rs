//! Laws of imports: which name the same module, which are kept, how they are
//! written, and what a registration does.

use vstd::prelude::*;

use crate::install::aggregator::{
    aggregator_text, ambiguous, deduped, extract_imports, has_import, import_eq, import_like,
    import_lines, import_of, imported_once, imports_in, imports_of_lines, prior_imports,
    register_in_aggregator, render_aggregator, rendered_imports, restore_aggregator, same_import,
    text_in, without_dot_slash, AggregatorChange, AggregatorUpdate,
};
use crate::install::files::{changes, temp_path, ChangeView, FileChange};
use crate::install::list::{entries_after, words_after};
use crate::laws::aggregator::{
    law_registered_exactly_once, law_registration_keeps_imports, lemma_deduped,
    lemma_imports_of_lines, lemma_lines_are_plain, lemma_rendered_lines, listable, plain,
    registered,
};
use crate::laws::text::{law_a_part_is_found, law_what_is_found_is_a_part};
use crate::text::{joined, texts};
use crate::text_lemmas::solid;

verus! {

// ── The same module ─────────────────────────────────────────────────────────

/// `./`, so many times.
pub open spec fn dots(n: nat) -> Seq<char>
    decreases n,
{
    if n == 0 {
        Seq::empty()
    } else {
        seq!['.', '/'] + dots((n - 1) as nat)
    }
}

/// Whether a text begins with `./`.
pub open spec fn dotted(s: Seq<char>) -> bool {
    s.len() >= 2 && s[0] == '.' && s[1] == '/'
}

/// Whether two imports are the same text behind some `./` each.
pub open spec fn same_behind_dots(a: Seq<char>, b: Seq<char>) -> bool {
    exists|m: nat, n: nat, name: Seq<char>|
        a == #[trigger] (dots(m) + name) && b == #[trigger] (dots(n) + name)
}

/// Leading `./` are taken off.
proof fn lemma_dots_come_off(n: nat, name: Seq<char>)
    ensures
        without_dot_slash(dots(n) + name) == without_dot_slash(name),
    decreases n,
{
    let s = dots(n) + name;
    if n == 0 {
        assert(s =~= name);
    } else {
        let m = (n - 1) as nat;
        assert(s[0] == '.' && s[1] == '/');
        assert(s.skip(2) =~= dots(m) + name);
        lemma_dots_come_off(m, name);
    }
}

/// Nothing but leading `./` is taken off: returns how many.
proof fn lemma_only_dots_come_off(s: Seq<char>) -> (n: nat)
    ensures
        s == dots(n) + without_dot_slash(s),
        !dotted(without_dot_slash(s)),
    decreases s.len(),
{
    if dotted(s) {
        let n = lemma_only_dots_come_off(s.skip(2));
        assert(dots(n + 1) == seq!['.', '/'] + dots(n));
        assert(s =~= seq!['.', '/'] + s.skip(2));
        assert(s =~= dots(n + 1) + without_dot_slash(s));
        n + 1
    } else {
        assert(s =~= dots(0) + s);
        0
    }
}

/// Two imports name the same module exactly if they are the same text behind some
/// `./` each.
proof fn lemma_same_import(a: Seq<char>, b: Seq<char>)
    ensures
        same_import(a, b) == same_behind_dots(a, b),
{
    if same_import(a, b) {
        let m = lemma_only_dots_come_off(a);
        let n = lemma_only_dots_come_off(b);
        let name = without_dot_slash(a);
        assert(a == dots(m) + name && b == dots(n) + name);
    }
    if same_behind_dots(a, b) {
        let (m, n, name) = choose|m: nat, n: nat, name: Seq<char>|
            a == #[trigger] (dots(m) + name) && b == #[trigger] (dots(n) + name);
        lemma_dots_come_off(m, name);
        lemma_dots_come_off(n, name);
    }
}

/// Imports are compared whole, and only leading `./` do not count.
pub proof fn law_imports_are_compared_whole(a: &str, b: &str, r: bool)
    requires
        call_ensures(import_eq, (a, b), r),
    ensures
        r == same_behind_dots(a@, b@),
        !dotted(a@) && !dotted(b@) ==> r == (a@ == b@),
{
    lemma_same_import(a@, b@);
    if !dotted(a@) && !dotted(b@) {
        assert(without_dot_slash(a@) == a@);
        assert(without_dot_slash(b@) == b@);
    }
}

/// A `./` more or less before an import makes no difference.
pub proof fn law_a_leading_dot_makes_no_difference(
    a: &str,
    longer: &str,
    b: &str,
    of_a: bool,
    of_longer: bool,
)
    requires
        call_ensures(import_eq, (a, b), of_a),
        call_ensures(import_eq, (longer, b), of_longer),
        longer@ == seq!['.', '/'] + a@,
    ensures
        of_a == of_longer,
{
    assert(longer@.skip(2) =~= a@);
    assert(longer@[0] == '.' && longer@[1] == '/');
}

// ── Each module once ────────────────────────────────────────────────────────

/// Whether a list holds the import of a module, up to leading `./`.
pub open spec fn lists_module(list: Seq<Seq<char>>, import: Seq<char>) -> bool {
    exists|i: int| 0 <= i < list.len() && same_behind_dots(#[trigger] list[i], import)
}

/// Whether two lists hold the same import of a module.
proof fn lemma_lists_module(list: Seq<Seq<char>>, import: Seq<char>)
    ensures
        has_import(list, import) == lists_module(list, import),
{
    if has_import(list, import) {
        let i = choose|i: int| 0 <= i < list.len() && same_import(#[trigger] list[i], import);
        lemma_same_import(list[i], import);
    }
    if lists_module(list, import) {
        let i = choose|i: int| 0 <= i < list.len() && same_behind_dots(#[trigger] list[i], import);
        lemma_same_import(list[i], import);
        assert(same_import(list[i], import));
    }
}

/// Of each module the first import is kept, as it is written and in order: an import
/// goes behind those that were kept before, unless its module was imported before.
pub proof fn law_the_first_import_of_a_module_is_kept(list: Seq<Seq<char>>, import: Seq<char>)
    ensures
        deduped(Seq::empty()).len() == 0,
        lists_module(list, import) ==> deduped(list.push(import)) == deduped(list),
        !lists_module(list, import) ==> deduped(list.push(import)) == deduped(list).push(import),
{
    let rest = deduped(list);
    lemma_deduped(list);
    assert(list.push(import).drop_last() =~= list);
    if lists_module(list, import) {
        lemma_lists_module(list, import);
        let i = choose|i: int| 0 <= i < list.len() && same_import(#[trigger] list[i], import);
        assert(has_import(rest, list[i]));
        let j = choose|j: int| 0 <= j < rest.len() && same_import(#[trigger] rest[j], list[i]);
        assert(same_import(rest[j], import));
    } else if has_import(rest, import) {
        let j = choose|j: int| 0 <= j < rest.len() && same_import(#[trigger] rest[j], import);
        assert(list.contains(rest[j]));
        let i = list.index_of(rest[j]);
        assert(same_import(list[i], import));
        lemma_lists_module(list, import);
    }
}

// ── The text of an aggregator ───────────────────────────────────────────────

/// An aggregator is a module with an import list, in which each import has a line
/// of its own.
pub proof fn law_each_import_has_a_line(
    imports: &[String],
    longer: &[String],
    import: String,
    text: String,
    of_longer: String,
)
    requires
        call_ensures(render_aggregator, (imports,), text),
        call_ensures(render_aggregator, (longer,), of_longer),
        longer@ == imports@.push(import),
    ensures
        exists|lines: Seq<char>|
            text@ == #[trigger] ("{ ... }:\n\n{\n  imports = [\n"@ + lines + "  ];\n}\n"@)
                && of_longer@ == "{ ... }:\n\n{\n  imports = [\n"@ + (lines + "    "@ + import@
                + "\n"@) + "  ];\n}\n"@,
        imports@.len() == 0 ==> text@ == "{ ... }:\n\n{\n  imports = [\n"@ + "  ];\n}\n"@,
{
    let lines = import_lines(texts(imports@));
    assert(texts(longer@) =~= texts(imports@).push(import@));
    assert(texts(longer@).drop_last() =~= texts(imports@));
    assert(text@ == "{ ... }:\n\n{\n  imports = [\n"@ + lines + "  ];\n}\n"@);
    if imports@.len() == 0 {
        assert(lines =~= Seq::empty());
        assert(text@ =~= "{ ... }:\n\n{\n  imports = [\n"@ + "  ];\n}\n"@);
    }
}

/// Whether a word looks like an import: it begins with `./` or ends with `.nix`.
pub open spec fn looks_imported(word: Seq<char>) -> bool {
    (exists|rest: Seq<char>| word == #[trigger] ("./"@ + rest)) || exists|rest: Seq<char>|
        word == #[trigger] (rest + ".nix"@)
}

/// How words are told that look like imports.
pub proof fn law_imports_begin_or_end_like_paths(word: Seq<char>)
    ensures
        import_like()(word) == looks_imported(word),
{
    law_what_is_found_is_a_part(word, "./"@, 0);
    law_what_is_found_is_a_part(word, ".nix"@, 0);
    if exists|rest: Seq<char>| word == #[trigger] ("./"@ + rest) {
        let rest = choose|rest: Seq<char>| word == #[trigger] ("./"@ + rest);
        law_a_part_is_found(Seq::empty(), "./"@, rest);
    }
    if exists|rest: Seq<char>| word == #[trigger] (rest + ".nix"@) {
        let rest = choose|rest: Seq<char>| word == #[trigger] (rest + ".nix"@);
        law_a_part_is_found(rest, ".nix"@, Seq::empty());
    }
}

/// Words that can be read back out of a rendered list: without white space and `]`,
/// and each looks like an import.
pub proof fn law_plain_imports_are_words(imports: Seq<Seq<char>>)
    ensures
        plain(imports) <==> forall|i: int|
            0 <= i < imports.len() ==> solid(#[trigger] imports[i]) && !imports[i].contains(']')
                && looks_imported(imports[i]),
{
    assert forall|i: int| 0 <= i < imports.len() implies import_like()(#[trigger] imports[i])
        == looks_imported(imports[i]) by {
        law_imports_begin_or_end_like_paths(imports[i]);
    }
}

/// The lines of some imports, as one text.
proof fn lemma_lines_are_joined(imports: Seq<Seq<char>>)
    requires
        imports.len() > 0,
    ensures
        import_lines(imports) == "    "@ + joined(imports, "\n    "@) + "\n"@,
    decreases imports.len(),
{
    reveal_strlit("    ");
    reveal_strlit("\n");
    reveal_strlit("\n    ");
    let front = imports.drop_last();
    if imports.len() == 1 {
        assert(import_lines(front) =~= Seq::empty());
        assert(import_lines(imports) =~= "    "@ + joined(imports, "\n    "@) + "\n"@);
    } else {
        lemma_lines_are_joined(front);
        assert(import_lines(imports) =~= "    "@ + joined(imports, "\n    "@) + "\n"@);
    }
}

/// An entry would be taken for others exactly if it is several words that look like
/// imports, each on a line of its own.
pub proof fn law_only_several_words_are_ambiguous(entry: Seq<char>)
    ensures
        ambiguous(entry) <==> exists|words: Seq<Seq<char>>|
            #[trigger] plain(words) && words.len() > 1 && entry == joined(words, "\n    "@),
{
    let one = seq![entry];
    let lines = import_lines(one);
    lemma_lines_are_joined(one);
    assert(joined(one, "\n    "@) == entry);
    if ambiguous(entry) {
        let words = imports_of_lines(lines)->0;
        lemma_lines_are_plain(lines);
        if words.len() == 0 {
            reveal_strlit("\n");
            assert(import_lines(words) =~= Seq::empty());
        } else {
            lemma_lines_are_joined(words);
            lemma_framed("    "@, joined(words, "\n    "@), entry, "\n"@);
            if words.len() == 1 {
                assert(words =~= one);
            }
        }
        assert(plain(words));
    }
    if exists|words: Seq<Seq<char>>|
        #[trigger] plain(words) && words.len() > 1 && entry == joined(words, "\n    "@) {
        let words = choose|words: Seq<Seq<char>>|
            #[trigger] plain(words) && words.len() > 1 && entry == joined(words, "\n    "@);
        lemma_lines_are_joined(words);
        lemma_imports_of_lines(words);
        assert(words.len() != one.len());
    }
}

/// What stands between the same texts is the same.
proof fn lemma_framed(before: Seq<char>, a: Seq<char>, b: Seq<char>, after: Seq<char>)
    requires
        before + a + after == before + b + after,
    ensures
        a == b,
{
    let s = before + a + after;
    let n = before.len() as int;
    assert(a =~= s.subrange(n, s.len() - after.len()));
    assert(b =~= s.subrange(n, s.len() - after.len()));
}

/// The words of a list that look like imports, in order.
pub open spec fn words_imported(words: Seq<Seq<char>>) -> Seq<Seq<char>>
    decreases words.len(),
{
    if words.len() == 0 {
        Seq::empty()
    } else if looks_imported(words.last()) {
        words_imported(words.drop_last()).push(words.last())
    } else {
        words_imported(words.drop_last())
    }
}

/// Those words.
proof fn lemma_words_imported(words: Seq<Seq<char>>)
    ensures
        words.filter(import_like()) == words_imported(words),
    decreases words.len(),
{
    reveal(Seq::filter);
    if words.len() == 0 {
        assert(words.filter(import_like()) =~= Seq::empty());
    } else {
        lemma_words_imported(words.drop_last());
        law_imports_begin_or_end_like_paths(words.last());
    }
}

/// Whether an aggregator is one that was rendered from words that look like
/// imports.
pub open spec fn is_rendered(content: Seq<char>) -> bool {
    exists|imports: Seq<Seq<char>>|
        #[trigger] plain(imports) && content == aggregator_text(imports)
}

/// Whether none of these entries would be taken for several imports.
pub open spec fn all_told(entries: Seq<Seq<char>>) -> bool {
    forall|i: int| 0 <= i < entries.len() ==> !ambiguous(#[trigger] entries[i])
}

/// A rendered aggregator imports what it was rendered from. Any other imports the
/// entries of its import list, and where that does not end as code or its entries
/// would be taken for others, the words of the list that look like imports; without
/// a list, nothing.
pub proof fn law_imports_are_read_out_of_the_list(content: &str, found: Vec<String>)
    requires
        call_ensures(extract_imports, (content,), found),
    ensures
        is_rendered(content@) ==> plain(texts(found@)) && content@ == aggregator_text(texts(found@)),
        !is_rendered(content@) ==> match entries_after(content@, "imports"@) {
            Some(entries) if all_told(entries) => texts(found@) == entries,
            _ => match words_after(content@, "imports"@) {
                Some(words) => texts(found@) == words_imported(words),
                None => found@.len() == 0,
            },
        },
{
    let s = content@;
    if is_rendered(s) {
        let imports = choose|imports: Seq<Seq<char>>|
            #[trigger] plain(imports) && s == aggregator_text(imports);
        lemma_rendered_lines(imports);
        lemma_imports_of_lines(imports);
    } else {
        if rendered_imports(s) is Some {
            let head = crate::install::aggregator::aggregator_head();
            let tail = crate::install::aggregator::aggregator_tail();
            let lines = s.subrange(head.len() as int, s.len() - tail.len());
            lemma_lines_are_plain(lines);
            law_what_is_found_is_a_part(s, head, 0);
            law_what_is_found_is_a_part(s, tail, 0);
            assert(s =~= head + lines + tail);
            assert(plain(rendered_imports(s)->0) && s == aggregator_text(rendered_imports(s)->0));
        }
        match words_after(s, "imports"@) {
            Some(words) => lemma_words_imported(words),
            None => {},
        }
    }
    assert(texts(found@).len() == found@.len());
}

// ── Registration ────────────────────────────────────────────────────────────

/// Whether exactly one import of a list is that of a module.
pub open spec fn lists_module_once(list: Seq<Seq<char>>, import: Seq<char>) -> bool {
    exists|k: int|
        0 <= k < list.len() && same_behind_dots(#[trigger] list[k], import) && forall|j: int|
            0 <= j < list.len() && same_behind_dots(#[trigger] list[j], import) ==> j == k
}

/// That, of the list that was read.
proof fn lemma_lists_module_once(list: Seq<Seq<char>>, import: Seq<char>)
    ensures
        imported_once(list, import) == lists_module_once(list, import),
{
    assert forall|i: int| 0 <= i < list.len() implies same_import(#[trigger] list[i], import)
        == same_behind_dots(list[i], import) by {
        lemma_same_import(list[i], import);
    }
    if imported_once(list, import) {
        let k = choose|k: int|
            0 <= k < list.len() && same_import(#[trigger] list[k], import) && forall|j: int|
                0 <= j < list.len() && same_import(#[trigger] list[j], import) ==> j == k;
        assert(same_behind_dots(list[k], import));
    }
    if lists_module_once(list, import) {
        let k = choose|k: int|
            0 <= k < list.len() && same_behind_dots(#[trigger] list[k], import) && forall|j: int|
                0 <= j < list.len() && same_behind_dots(#[trigger] list[j], import) ==> j == k;
        assert(same_import(list[k], import));
    }
}

/// A registration does nothing exactly if the module of its plan is imported once
/// already. Otherwise it keeps a copy of the aggregator, if there was one, and puts
/// one in its place that imports what was imported and the module of its plan, each
/// module once. Its record holds what was there before.
pub proof fn law_a_registration_imports_its_module(
    aggregator_path: &str,
    plan_id: &str,
    prior: Option<String>,
    process_id: u32,
    update: AggregatorUpdate,
)
    requires
        call_ensures(
            register_in_aggregator,
            (aggregator_path, plan_id, prior, process_id),
            update,
        ),
    ensures
        ({
            let before = match prior {
                Some(content) => imports_in(content@),
                None => Seq::empty(),
            };
            let import = "./"@ + plan_id@ + ".nix"@;
            let backup = aggregator_path@ + ".bak"@;
            let temp = temp_path(aggregator_path@, process_id);
            let steps = changes(update.steps@);
            let n = steps.len();
            &&& text_in(update.change.prior) == text_in(prior)
            &&& update.change.changed == !lists_module_once(before, import)
            &&& !update.change.changed ==> n == 0 && update.change.backup is None
            &&& update.change.changed ==> {
                &&& n == if prior is Some {
                    3int
                } else {
                    2
                }
                &&& steps[n - 2] == (ChangeView::Write {
                    path: temp,
                    content: aggregator_text(deduped(before.push(import))),
                })
                &&& steps[n - 1] == (ChangeView::Commit { temp, path: aggregator_path@ })
                &&& prior matches Some(content) ==> {
                    &&& steps[0] == (ChangeView::Write { path: backup, content: content@ })
                    &&& update.change.backup matches Some(path) && path@ == backup
                }
                &&& prior is None ==> update.change.backup is None
            }
        }),
{
    let before = prior_imports(text_in(prior));
    let import = import_of(plan_id@);
    lemma_lists_module_once(before, import);
}

/// After a registration the import list that is read back holds the module of the
/// plan, and every import that was there before, up to leading `./`.
pub proof fn law_registered_imports_are_read_back(prior: Option<Seq<char>>, plan_id: Seq<char>)
    requires
        listable(plan_id),
    ensures
        ({
            let before = prior_imports(prior);
            let after = prior_imports(registered(prior, plan_id));
            &&& lists_module_once(after, "./"@ + plan_id + ".nix"@)
            &&& forall|i: int| 0 <= i < before.len() ==> lists_module(after, #[trigger] before[i])
        }),
{
    let before = prior_imports(prior);
    let after = prior_imports(registered(prior, plan_id));
    law_registered_exactly_once(prior, plan_id);
    lemma_lists_module_once(after, import_of(plan_id));
    law_registration_keeps_imports(prior, plan_id);
    assert forall|i: int| 0 <= i < before.len() implies lists_module(
        after,
        #[trigger] before[i],
    ) by {
        assert(has_import(after, before[i]));
        lemma_lists_module(after, before[i]);
    }
}

/// Putting an aggregator back writes what it held, and removes one that was not
/// there.
pub proof fn law_restoring_writes_what_was_there(
    aggregator_path: &str,
    change: &AggregatorChange,
    process_id: u32,
    steps: Vec<FileChange>,
)
    requires
        call_ensures(restore_aggregator, (aggregator_path, change, process_id), steps),
    ensures
        ({
            let temp = temp_path(aggregator_path@, process_id);
            match change.prior {
                Some(content) => changes(steps@) == seq![
                    ChangeView::Write { path: temp, content: content@ },
                    ChangeView::Commit { temp, path: aggregator_path@ },
                ],
                None => changes(steps@) == seq![ChangeView::Remove { path: aggregator_path@ }],
            }
        }),
{
}

} // verus!
