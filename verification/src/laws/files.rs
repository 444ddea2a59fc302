//! Laws of the file changes: an atomic write is all or nothing, and a
//! registration can be taken back.

use vstd::prelude::*;

use crate::install::aggregator::{
    aggregator_text, backup_path, extended_imports, is_registered, registration_changes,
    registration_record, restoration_changes, AggregatorView,
};
use crate::install::files::{
    after, after_all, atomic_changes, content_at, temp_path, ChangeView, FileChange, Files,
};
use crate::laws::aggregator::registered;
use crate::text::decimal;

verus! {

/// Whether two systems hold the same files, but for those at `paths`.
pub open spec fn same_but(a: Files, b: Files, paths: Set<Seq<char>>) -> bool {
    forall|p: Seq<char>| !paths.contains(p) ==> #[trigger] content_at(a, p) == content_at(b, p)
}

// ── Lists of changes ────────────────────────────────────────────────────────

/// Two lists of changes, one after the other.
pub proof fn lemma_after_all_add(files: Files, a: Seq<ChangeView>, b: Seq<ChangeView>)
    ensures
        after_all(files, a + b) == after_all(after_all(files, a), b),
    decreases b.len(),
{
    if b.len() == 0 {
        assert(a + b =~= a);
    } else {
        assert((a + b).drop_last() =~= a + b.drop_last());
        lemma_after_all_add(files, a, b.drop_last());
    }
}

/// A list of one change.
pub proof fn lemma_after_one(files: Files, c: ChangeView)
    ensures
        after_all(files, seq![c]) == after(files, c),
{
    assert(seq![c].drop_last() =~= Seq::empty());
    assert(after_all(files, seq![c].drop_last()) == files);
}

/// The first change of a list, then the others.
pub proof fn lemma_after_all_first(files: Files, list: Seq<ChangeView>)
    requires
        list.len() > 0,
    ensures
        after_all(files, list) == after_all(after(files, list.first()), list.drop_first()),
{
    assert(seq![list.first()] + list.drop_first() =~= list);
    lemma_after_all_add(files, seq![list.first()], list.drop_first());
    lemma_after_one(files, list.first());
}

/// The numeral of a number that is not negative is made of digits.
proof fn lemma_decimal(n: int)
    requires
        n >= 0,
    ensures
        decimal(n).len() > 0,
        0x30 <= decimal(n).last() as u32 <= 0x39,
    decreases n,
{
    if n >= 10 {
        lemma_decimal(n / 10);
    }
}

/// A temporary file is none of the files that it is used beside: its name is
/// longer than that of its own file, and ends with a digit.
pub proof fn lemma_temp_path(path: Seq<char>, process_id: u32)
    ensures
        temp_path(path, process_id) != path,
        temp_path(path, process_id).len() > path.len(),
        0x30 <= temp_path(path, process_id).last() as u32 <= 0x39,
{
    reveal_strlit(".tmp.");
    lemma_decimal(process_id as int);
}

/// A backup is no file that it is used beside: its name is longer than that of
/// its own file, and ends with a letter.
pub proof fn lemma_backup_path(path: Seq<char>)
    ensures
        backup_path(path) != path,
        backup_path(path).last() == 'k',
{
    reveal_strlit(".bak");
}

// ── Atomic writing ──────────────────────────────────────────────────────────

/// What an atomic write leaves behind: the content at its path, no temporary
/// file, and every other file as it was.
pub proof fn law_atomic_write_takes_effect(
    files: Files,
    path: Seq<char>,
    content: Seq<char>,
    process_id: u32,
)
    ensures
        after_all(files, atomic_changes(path, content, process_id)) == files.remove(
            temp_path(path, process_id),
        ).insert(path, content),
{
    let list = atomic_changes(path, content, process_id);
    let temp = temp_path(path, process_id);
    lemma_temp_path(path, process_id);
    lemma_after_all_first(files, list);
    assert(list.drop_first() =~= seq![list[1]]);
    let mid = after(files, list[0]);
    lemma_after_one(mid, list[1]);
    assert(mid.remove(temp).insert(path, content) =~= files.remove(temp).insert(path, content));
}

/// At every moment of an atomic write its path holds what it held before, or all
/// of the new content; the new content only once the last change is made.
pub proof fn law_atomic_write_is_never_half_done(
    files: Files,
    path: Seq<char>,
    content: Seq<char>,
    process_id: u32,
    made: int,
)
    requires
        0 <= made <= atomic_changes(path, content, process_id).len(),
    ensures
        content_at(
            after_all(files, atomic_changes(path, content, process_id).take(made)),
            path,
        ) == if made == atomic_changes(path, content, process_id).len() {
            Some(content)
        } else {
            content_at(files, path)
        },
{
    let list = atomic_changes(path, content, process_id);
    lemma_temp_path(path, process_id);
    law_atomic_write_takes_effect(files, path, content, process_id);
    assert(list.take(2) =~= list);
    assert(list.take(1) =~= seq![list[0]]);
    lemma_after_one(files, list[0]);
    assert(list.take(0) =~= Seq::empty());
}

/// An atomic write puts all of its content into a temporary file beside its path,
/// named after the process, and then renames that.
pub proof fn law_atomic_writes_go_through_a_temporary_file(
    path: Seq<char>,
    content: Seq<char>,
    process_id: u32,
)
    ensures
        ({
            let temp = path + ".tmp."@ + decimal(process_id as int);
            atomic_changes(path, content, process_id) == seq![
                ChangeView::Write { path: temp, content },
                ChangeView::Commit { temp, path },
            ]
        }),
{
    assert(temp_path(path, process_id) =~= path + ".tmp."@ + decimal(process_id as int));
}

/// A change is reported under the path that it is about: for a rename, the one
/// that is meant to be there afterwards, or that is put out of the way.
pub proof fn law_changes_are_reported_under_their_path(change: &FileChange, subject: String)
    requires
        call_ensures(FileChange::subject, (change,), subject),
    ensures
        match change {
            FileChange::CreateDirAll { path } => subject@ == path@,
            FileChange::Write { path, content } => subject@ == path@,
            FileChange::Commit { temp, path } => subject@ == path@,
            FileChange::SetAside { path, dest } => subject@ == path@,
            FileChange::Remove { path } => subject@ == path@,
        },
{
}

// ── Registering and taking it back ──────────────────────────────────────────

/// What a registration leaves behind: the extended aggregator, a backup of the
/// previous one where it was replaced, and every other file as it was.
pub proof fn law_registration_takes_effect(
    files: Files,
    aggregator_path: Seq<char>,
    plan_id: Seq<char>,
    process_id: u32,
)
    ensures
        ({
            let prior = content_at(files, aggregator_path);
            let list = registration_changes(aggregator_path, plan_id, prior, process_id);
            let done = after_all(files, list);
            &&& content_at(done, aggregator_path) == registered(prior, plan_id)
            &&& prior is Some && !is_registered(prior, plan_id) ==> content_at(
                done,
                backup_path(aggregator_path),
            ) == prior
            &&& same_but(
                done,
                files,
                set![
                    aggregator_path,
                    backup_path(aggregator_path),
                    temp_path(aggregator_path, process_id),
                ],
            )
        }),
{
    let prior = content_at(files, aggregator_path);
    let list = registration_changes(aggregator_path, plan_id, prior, process_id);
    if is_registered(prior, plan_id) {
    } else {
        let text = aggregator_text(extended_imports(prior, plan_id));
        let write = atomic_changes(aggregator_path, text, process_id);
        lemma_backup_path(aggregator_path);
        lemma_temp_path(aggregator_path, process_id);
        match prior {
            None => {
                assert(list =~= write);
                law_atomic_write_takes_effect(files, aggregator_path, text, process_id);
            },
            Some(content) => {
                let keep = ChangeView::Write { path: backup_path(aggregator_path), content };
                lemma_after_all_add(files, seq![keep], write);
                lemma_after_one(files, keep);
                let mid = after(files, keep);
                law_atomic_write_takes_effect(mid, aggregator_path, text, process_id);
            },
        }
    }
}

/// What restoring an aggregator leaves behind.
pub proof fn lemma_restored(
    files: Files,
    aggregator_path: Seq<char>,
    record: AggregatorView,
    process_id: u32,
)
    ensures
        ({
            let undone = after_all(files, restoration_changes(aggregator_path, record, process_id));
            &&& content_at(undone, aggregator_path) == record.prior
            &&& same_but(
                undone,
                files,
                set![aggregator_path, temp_path(aggregator_path, process_id)],
            )
        }),
{
    lemma_temp_path(aggregator_path, process_id);
    match record.prior {
        Some(content) => law_atomic_write_takes_effect(
            files,
            aggregator_path,
            content,
            process_id,
        ),
        None => lemma_after_one(files, ChangeView::Remove { path: aggregator_path }),
    }
}

/// A registration can be taken back: restoring the aggregator by the record of a
/// registration gives back what it held, and no file but its backup and its
/// temporary file differs.
pub proof fn law_restoring_undoes_registering(
    files: Files,
    aggregator_path: Seq<char>,
    plan_id: Seq<char>,
    process_id: u32,
)
    ensures
        ({
            let prior = content_at(files, aggregator_path);
            let record = registration_record(aggregator_path, plan_id, prior);
            let done = after_all(
                files,
                registration_changes(aggregator_path, plan_id, prior, process_id),
            );
            let undone = after_all(done, restoration_changes(aggregator_path, record, process_id));
            &&& content_at(undone, aggregator_path) == prior
            &&& same_but(
                undone,
                files,
                set![backup_path(aggregator_path), temp_path(aggregator_path, process_id)],
            )
        }),
{
    let prior = content_at(files, aggregator_path);
    let record = registration_record(aggregator_path, plan_id, prior);
    let done = after_all(
        files,
        registration_changes(aggregator_path, plan_id, prior, process_id),
    );
    law_registration_takes_effect(files, aggregator_path, plan_id, process_id);
    lemma_restored(done, aggregator_path, record, process_id);
    let list = restoration_changes(aggregator_path, record, process_id);
    let undone = after_all(done, list);
    let apart = set![backup_path(aggregator_path), temp_path(aggregator_path, process_id)];
    assert forall|p: Seq<char>| !apart.contains(p) implies #[trigger] content_at(undone, p)
        == content_at(files, p) by {
        if p != aggregator_path {
            assert(content_at(done, p) == content_at(files, p));
        }
    }
}

} // verus!
