//! The aggregator: the file that imports every generated module.

use vstd::prelude::*;
use vstd::string::*;

use crate::install::files::{atomic_changes, atomic_write, changes, ChangeView, FileChange};
use crate::install::list::{entries_after, list_entries, list_words, words_after};
use crate::paths::with_suffix;
use crate::text::{
    begins_with, chars_of, ends_with, finishes_with, has_char, lemma_filter_push, lemma_texts_push,
    same_text, starts_with, texts, words, words_of,
};

verus! {

// ── Imports ─────────────────────────────────────────────────────────────────

/// Whether a word looks like an import of a module.
pub open spec fn import_like() -> spec_fn(Seq<char>) -> bool {
    |s: Seq<char>| starts_with(s, "./"@) || ends_with(s, ".nix"@)
}

/// Whether each of these words looks like an import, and none holds a `]`.
pub open spec fn import_words(words: Seq<Seq<char>>) -> bool {
    forall|i: int|
        0 <= i < words.len() ==> import_like()(#[trigger] words[i]) && !words[i].contains(']')
}

/// The imports whose lines make up a text, if these are words that look like
/// imports.
pub open spec fn imports_of_lines(lines: Seq<char>) -> Option<Seq<Seq<char>>> {
    let words = words_of(lines);
    if import_words(words) && import_lines(words) == lines {
        Some(words)
    } else {
        None
    }
}

/// The imports that an aggregator was rendered from, if these are words that look
/// like imports.
pub open spec fn rendered_imports(content: Seq<char>) -> Option<Seq<Seq<char>>> {
    let head = aggregator_head();
    let tail = aggregator_tail();
    if starts_with(content, head) && ends_with(content, tail) && head.len() + tail.len()
        <= content.len() {
        imports_of_lines(content.subrange(head.len() as int, content.len() - tail.len()))
    } else {
        None
    }
}

/// Whether an entry could not be told from several imports once it is rendered.
pub open spec fn ambiguous(entry: Seq<char>) -> bool {
    imports_of_lines(import_lines(seq![entry])) matches Some(words) && words != seq![entry]
}

/// Whether none of these entries is [`ambiguous`].
pub open spec fn unambiguous(entries: Seq<Seq<char>>) -> bool {
    forall|i: int| 0 <= i < entries.len() ==> !ambiguous(#[trigger] entries[i])
}

/// What an aggregator imports, in order: what it was rendered from, or else the
/// entries of its import list, or, where these cannot be told, the words of the
/// list that look like imports.
pub open spec fn imports_in(content: Seq<char>) -> Seq<Seq<char>> {
    let entries = entries_after(content, "imports"@);
    if let Some(imports) = rendered_imports(content) {
        imports
    } else if entries is Some && unambiguous(entries->0) {
        entries->0
    } else {
        match words_after(content, "imports"@) {
            Some(words) => words.filter(import_like()),
            None => Seq::empty(),
        }
    }
}

/// Whether a word looks like an import of a module.
fn looks_like_import(s: &str) -> (r: bool)
    ensures
        r == import_like()(s@),
{
    begins_with(s, "./") || finishes_with(s, ".nix")
}

/// The imports whose lines make up a text, if these are words that look like
/// imports.
fn read_lines(lines: &str) -> (r: Option<Vec<String>>)
    ensures
        match r {
            Some(imports) => imports_of_lines(lines@) == Some(texts(imports@)),
            None => imports_of_lines(lines@) is None,
        },
{
    let found = words(lines);
    let n: usize = found.len();
    let ghost all = texts(found@);
    for i in 0..n
        invariant
            n == found.len(),
            all == texts(found@),
            all == words_of(lines@),
            forall|j: int| 0 <= j < i ==> import_like()(#[trigger] all[j]) && !all[j].contains(']'),
    {
        let word = found[i].as_str();
        if !looks_like_import(word) || has_char(word, ']') {
            assert(!(import_like()(all[i as int]) && !all[i as int].contains(']')));
            return None;
        }
    }
    let mut rendered = String::new();
    append_lines(&mut rendered, found.as_slice());
    assert(rendered@ =~= import_lines(all));
    if same_text(rendered.as_str(), lines) {
        Some(found)
    } else {
        None
    }
}

/// The imports that an aggregator was rendered from, if these are words that look
/// like imports.
fn read_rendered(content: &str) -> (r: Option<Vec<String>>)
    ensures
        match r {
            Some(imports) => rendered_imports(content@) == Some(texts(imports@)),
            None => rendered_imports(content@) is None,
        },
{
    proof {
        reveal_strlit("{ ... }:\n\n{\n  imports = [\n");
        reveal_strlit("  ];\n}\n");
    }
    let n: usize = content.unicode_len();
    if n >= 33 && begins_with(content, "{ ... }:\n\n{\n  imports = [\n") && finishes_with(
        content,
        "  ];\n}\n",
    ) {
        read_lines(content.substring_char(26, n - 7))
    } else {
        None
    }
}

/// Whether none of these entries is [`ambiguous`].
fn all_unambiguous(entries: &Vec<String>) -> (r: bool)
    ensures
        r == unambiguous(texts(entries@)),
{
    let n: usize = entries.len();
    let ghost all = texts(entries@);
    for i in 0..n
        invariant
            n == entries.len(),
            all == texts(entries@),
            forall|j: int| 0 <= j < i ==> !ambiguous(#[trigger] all[j]),
    {
        let mut line = String::new();
        let entry: Vec<String> = vec![entries[i].clone()];
        assert(texts(entry@) =~= seq![all[i as int]]);
        append_lines(&mut line, entry.as_slice());
        assert(line@ =~= import_lines(seq![all[i as int]]));
        match read_lines(line.as_str()) {
            Some(imports) => {
                if imports.len() != 1 || !same_text(imports[0].as_str(), entries[i].as_str()) {
                    assert(ambiguous(all[i as int])) by {
                        assert(texts(imports@).len() == 1 ==> texts(imports@)[0]
                            == imports@[0]@);
                    }
                    return false;
                }
                assert(texts(imports@) =~= seq![all[i as int]]);
            },
            None => {},
        }
    }
    true
}

/// The words among these that look like imports.
fn only_imports(words: &Vec<String>) -> (r: Vec<String>)
    ensures
        texts(r@) == texts(words@).filter(import_like()),
{
    let n: usize = words.len();
    let ghost all = texts(words@);
    let mut out: Vec<String> = Vec::new();
    proof {
        reveal(Seq::filter);
        assert(texts(out@) =~= all.take(0).filter(import_like()));
    }
    for i in 0..n
        invariant
            n == words.len(),
            all == texts(words@),
            texts(out@) == all.take(i as int).filter(import_like()),
    {
        let word = words[i].as_str();
        proof {
            assert(all.take(i + 1) =~= all.take(i as int).push(word@));
            lemma_filter_push(all.take(i as int), word@, import_like());
        }
        if looks_like_import(word) {
            let owned = words[i].clone();
            proof {
                lemma_texts_push(out@, owned);
            }
            out.push(owned);
        }
    }
    assert(all.take(n as int) =~= all);
    out
}

/// What an aggregator imports, in order.
///
/// An aggregator as [`render_aggregator`] writes it is read line by line, so that
/// a path may hold any character but white space and `]`. Any other text is read
/// as Nix code: the entries of its import list, paths for the most part, and
/// whatever else a list may hold, without comments. A list that does not end as
/// code, or whose entries would not be told from several imports once they are
/// rendered, is read word by word up to the first `]`.
pub fn extract_imports(content: &str) -> (r: Vec<String>)
    ensures
        texts(r@) == imports_in(content@),
{
    if let Some(imports) = read_rendered(content) {
        return imports;
    }
    if let Some(entries) = list_entries(content, "imports") {
        if all_unambiguous(&entries) {
            return entries;
        }
    }
    match list_words(content, "imports") {
        Some(found) => only_imports(&found),
        None => {
            let none: Vec<String> = Vec::new();
            assert(texts(none@) =~= Seq::<Seq<char>>::empty());
            none
        },
    }
}

/// `s` without the `./` that it begins with, however often.
pub open spec fn without_dot_slash(s: Seq<char>) -> Seq<char>
    decreases s.len(),
{
    if s.len() >= 2 && s[0] == '.' && s[1] == '/' {
        without_dot_slash(s.skip(2))
    } else {
        s
    }
}

/// Whether two imports name the same module.
pub open spec fn same_import(a: Seq<char>, b: Seq<char>) -> bool {
    without_dot_slash(a) == without_dot_slash(b)
}

/// Whether `list` holds an import of the same module as `import`.
pub open spec fn has_import(list: Seq<Seq<char>>, import: Seq<char>) -> bool {
    exists|i: int| 0 <= i < list.len() && same_import(#[trigger] list[i], import)
}

/// Whether exactly one import in `list` is of the same module as `import`.
pub open spec fn imported_once(list: Seq<Seq<char>>, import: Seq<char>) -> bool {
    exists|k: int|
        0 <= k < list.len() && same_import(#[trigger] list[k], import) && forall|j: int|
            0 <= j < list.len() && same_import(#[trigger] list[j], import) ==> j == k
}

/// `list` with only the first import of each module.
pub open spec fn deduped(list: Seq<Seq<char>>) -> Seq<Seq<char>>
    decreases list.len(),
{
    if list.len() == 0 {
        list
    } else {
        let rest = deduped(list.drop_last());
        if has_import(rest, list.last()) {
            rest
        } else {
            rest.push(list.last())
        }
    }
}

/// The part of `s` behind every leading `./`.
fn strip_dot_slash<'a>(s: &'a str) -> (r: &'a str)
    ensures
        r@ == without_dot_slash(s@),
{
    let v = chars_of(s);
    let n: usize = v.len();
    let mut i: usize = 0;
    assert(s@.skip(0) =~= s@);
    while n - i >= 2 && v[i] == '.' && v[i + 1] == '/'
        invariant
            v@ == s@,
            n == v.len(),
            i <= n,
            without_dot_slash(s@) == without_dot_slash(s@.skip(i as int)),
        decreases n - i,
    {
        assert(s@.skip(i as int).skip(2) =~= s@.skip(i + 2));
        i += 2;
    }
    assert(s@.skip(i as int) =~= s@.subrange(i as int, n as int));
    s.substring_char(i, n)
}

/// Whether two imports name the same module: a leading `./` does not count.
pub fn import_eq(a: &str, b: &str) -> (r: bool)
    ensures
        r == same_import(a@, b@),
{
    same_text(strip_dot_slash(a), strip_dot_slash(b))
}

/// Whether `list` holds an import of the same module as `import`.
fn imports_module(list: &Vec<String>, import: &str) -> (r: bool)
    ensures
        r == has_import(texts(list@), import@),
{
    let n: usize = list.len();
    for i in 0..n
        invariant
            n == list.len(),
            forall|j: int| 0 <= j < i ==> !same_import(#[trigger] texts(list@)[j], import@),
    {
        if import_eq(list[i].as_str(), import) {
            assert(same_import(texts(list@)[i as int], import@));
            return true;
        }
    }
    false
}

/// Whether exactly one import in `list` is of the same module as `import`.
fn imports_module_once(list: &Vec<String>, import: &str) -> (r: bool)
    ensures
        r == imported_once(texts(list@), import@),
{
    let n: usize = list.len();
    let ghost all = texts(list@);
    let mut found: Option<usize> = None;
    for i in 0..n
        invariant
            n == list.len(),
            all == texts(list@),
            match found {
                Some(k) => k < i && same_import(all[k as int], import@) && forall|j: int|
                    0 <= j < i && same_import(#[trigger] all[j], import@) ==> j == k,
                None => forall|j: int| 0 <= j < i ==> !same_import(#[trigger] all[j], import@),
            },
    {
        if import_eq(list[i].as_str(), import) {
            assert(same_import(all[i as int], import@));
            match found {
                Some(k) => {
                    assert(same_import(all[k as int], import@));
                    return false;
                },
                None => {
                    found = Some(i);
                },
            }
        }
    }
    match found {
        Some(k) => {
            assert(same_import(all[k as int], import@));
            true
        },
        None => false,
    }
}

/// Keeps only the first import of each module.
pub fn dedupe_imports(imports: &mut Vec<String>)
    ensures
        texts(final(imports)@) == deduped(texts(old(imports)@)),
{
    let n: usize = imports.len();
    let mut out: Vec<String> = Vec::new();
    let ghost all = texts(imports@);
    assert(texts(out@) =~= deduped(all.take(0)));
    for i in 0..n
        invariant
            n == imports.len(),
            all == texts(imports@),
            texts(out@) == deduped(all.take(i as int)),
    {
        assert(all.take(i + 1).drop_last() =~= all.take(i as int));
        if !imports_module(&out, imports[i].as_str()) {
            let owned = imports[i].clone();
            proof {
                lemma_texts_push(out@, owned);
            }
            out.push(owned);
        }
    }
    assert(all.take(n as int) =~= all);
    *imports = out;
}

// ── The text of an aggregator ───────────────────────────────────────────────

/// How every aggregator begins.
pub open spec fn aggregator_head() -> Seq<char> {
    "{ ... }:\n\n{\n  imports = [\n"@
}

/// How every aggregator ends.
pub open spec fn aggregator_tail() -> Seq<char> {
    "  ];\n}\n"@
}

/// The lines of an import list.
pub open spec fn import_lines(imports: Seq<Seq<char>>) -> Seq<char>
    decreases imports.len(),
{
    if imports.len() == 0 {
        Seq::empty()
    } else {
        import_lines(imports.drop_last()) + "    "@ + imports.last() + "\n"@
    }
}

/// The aggregator that imports the given modules.
pub open spec fn aggregator_text(imports: Seq<Seq<char>>) -> Seq<char> {
    aggregator_head() + import_lines(imports) + aggregator_tail()
}

/// Appends the lines of an import list to `out`.
fn append_lines(out: &mut String, imports: &[String])
    ensures
        final(out)@ == old(out)@ + import_lines(texts(imports@)),
{
    let n: usize = imports.len();
    let ghost all = texts(imports@);
    let ghost before = out@;
    assert(out@ =~= before + import_lines(all.take(0)));
    for i in 0..n
        invariant
            n == imports.len(),
            all == texts(imports@),
            out@ == before + import_lines(all.take(i as int)),
    {
        out.append("    ");
        out.append(imports[i].as_str());
        out.append("\n");
        assert(all.take(i + 1).drop_last() =~= all.take(i as int));
        assert(out@ =~= before + import_lines(all.take(i + 1)));
    }
    assert(all.take(n as int) =~= all);
}

/// The aggregator that imports the given modules.
pub fn render_aggregator(imports: &[String]) -> (r: String)
    ensures
        r@ == aggregator_text(texts(imports@)),
{
    let mut out = "{ ... }:\n\n{\n  imports = [\n".to_owned();
    append_lines(&mut out, imports);
    out.append("  ];\n}\n");
    out
}

// ── Registration ────────────────────────────────────────────────────────────

/// What was done to the aggregator, and what undoing it takes.
#[derive(Debug)]
pub struct AggregatorChange {
    /// Whether the aggregator is written; not where it already had the import
    /// exactly once.
    pub changed: bool,
    /// What the aggregator held before; nothing where there was none.
    pub prior: Option<String>,
    /// Where the previous aggregator is kept.
    pub backup: Option<String>,
}

/// An [`AggregatorChange`] with its texts.
#[verifier::ext_equal]
pub struct AggregatorView {
    pub changed: bool,
    pub prior: Option<Seq<char>>,
    pub backup: Option<Seq<char>>,
}

/// The text that an optional string holds.
pub open spec fn text_in(s: Option<String>) -> Option<Seq<char>> {
    match s {
        Some(t) => Some(t@),
        None => None,
    }
}

impl View for AggregatorChange {
    type V = AggregatorView;

    open spec fn view(&self) -> AggregatorView {
        AggregatorView {
            changed: self.changed,
            prior: text_in(self.prior),
            backup: text_in(self.backup),
        }
    }
}

impl Clone for AggregatorChange {
    fn clone(&self) -> (r: AggregatorChange)
        ensures
            r@ == self@,
    {
        AggregatorChange {
            changed: self.changed,
            prior: self.prior.clone(),
            backup: self.backup.clone(),
        }
    }
}

/// A registration: the record of it, and the changes that carry it out.
#[derive(Debug, Clone)]
pub struct AggregatorUpdate {
    pub change: AggregatorChange,
    pub steps: Vec<FileChange>,
}

/// How an aggregator imports the module of a plan.
pub open spec fn import_of(plan_id: Seq<char>) -> Seq<char> {
    "./"@ + plan_id + ".nix"@
}

/// The imports of an aggregator that may not be there yet.
pub open spec fn prior_imports(prior: Option<Seq<char>>) -> Seq<Seq<char>> {
    match prior {
        Some(content) => imports_in(content),
        None => Seq::empty(),
    }
}

/// Whether the aggregator imports the module of a plan exactly once.
pub open spec fn is_registered(prior: Option<Seq<char>>, plan_id: Seq<char>) -> bool {
    imported_once(prior_imports(prior), import_of(plan_id))
}

/// The imports once the module of a plan is among them.
pub open spec fn extended_imports(prior: Option<Seq<char>>, plan_id: Seq<char>) -> Seq<Seq<char>> {
    deduped(prior_imports(prior).push(import_of(plan_id)))
}

/// Where the previous aggregator is kept.
pub open spec fn backup_path(aggregator_path: Seq<char>) -> Seq<char> {
    aggregator_path + ".bak"@
}

/// The record of a registration.
pub open spec fn registration_record(
    aggregator_path: Seq<char>,
    plan_id: Seq<char>,
    prior: Option<Seq<char>>,
) -> AggregatorView {
    AggregatorView {
        changed: !is_registered(prior, plan_id),
        prior,
        backup: if !is_registered(prior, plan_id) && prior is Some {
            Some(backup_path(aggregator_path))
        } else {
            None
        },
    }
}

/// The changes of a registration: nothing where the import is there exactly once
/// already; else the previous aggregator is kept, and the extended one takes its place.
pub open spec fn registration_changes(
    aggregator_path: Seq<char>,
    plan_id: Seq<char>,
    prior: Option<Seq<char>>,
    process_id: u32,
) -> Seq<ChangeView> {
    if is_registered(prior, plan_id) {
        Seq::empty()
    } else {
        (match prior {
            Some(content) => seq![
                ChangeView::Write { path: backup_path(aggregator_path), content },
            ],
            None => Seq::empty(),
        }) + atomic_changes(
            aggregator_path,
            aggregator_text(extended_imports(prior, plan_id)),
            process_id,
        )
    }
}

/// Registers the module of a plan in the aggregator, which holds `prior`. Where it
/// is imported exactly once already, nothing is done. Else the entries that are
/// there are kept, each module once; the previous aggregator is backed up, and the
/// new one is written in one stroke.
pub fn register_in_aggregator(
    aggregator_path: &str,
    plan_id: &str,
    prior: Option<String>,
    process_id: u32,
) -> (update: AggregatorUpdate)
    ensures
        update.change@ == registration_record(aggregator_path@, plan_id@, text_in(prior)),
        changes(update.steps@) == registration_changes(
            aggregator_path@,
            plan_id@,
            text_in(prior),
            process_id,
        ),
{
    let mut imports: Vec<String> = match &prior {
        Some(content) => extract_imports(content.as_str()),
        None => Vec::new(),
    };
    assert(texts(imports@) =~= prior_imports(text_in(prior)));
    let mut target = "./".to_owned();
    target.append(plan_id);
    target.append(".nix");
    let mut steps: Vec<FileChange> = Vec::new();
    assert(changes(steps@) =~= Seq::<ChangeView>::empty());
    if imports_module_once(&imports, target.as_str()) {
        let change = AggregatorChange { changed: false, prior, backup: None };
        return AggregatorUpdate { change, steps };
    }
    let backup: Option<String> = match &prior {
        Some(content) => {
            let path = with_suffix(aggregator_path, ".bak");
            steps.push(FileChange::Write { path: path.clone(), content: content.clone() });
            assert(changes(steps@) =~= seq![
                ChangeView::Write { path: backup_path(aggregator_path@), content: content@ },
            ]);
            Some(path)
        },
        None => None,
    };
    proof {
        lemma_texts_push(imports@, target);
    }
    imports.push(target);
    dedupe_imports(&mut imports);
    let text = render_aggregator(imports.as_slice());
    atomic_write(&mut steps, aggregator_path, text.as_str(), process_id);
    let change = AggregatorChange { changed: true, prior, backup };
    AggregatorUpdate { change, steps }
}

/// The changes that put the aggregator back to what it was.
pub open spec fn restoration_changes(
    aggregator_path: Seq<char>,
    change: AggregatorView,
    process_id: u32,
) -> Seq<ChangeView> {
    match change.prior {
        Some(content) => atomic_changes(aggregator_path, content, process_id),
        None => seq![ChangeView::Remove { path: aggregator_path }],
    }
}

/// Puts the aggregator back to what it was before a registration; one that the
/// registration created is removed.
pub fn restore_aggregator(
    aggregator_path: &str,
    change: &AggregatorChange,
    process_id: u32,
) -> (steps: Vec<FileChange>)
    ensures
        changes(steps@) == restoration_changes(aggregator_path@, change@, process_id),
{
    let mut steps: Vec<FileChange> = Vec::new();
    match &change.prior {
        Some(content) => {
            atomic_write(&mut steps, aggregator_path, content.as_str(), process_id);
            assert(changes(steps@) =~= restoration_changes(aggregator_path@, change@, process_id));
        },
        None => {
            steps.push(FileChange::Remove { path: aggregator_path.to_owned() });
            assert(changes(steps@) =~= restoration_changes(aggregator_path@, change@, process_id));
        },
    }
    steps
}

} // verus!
