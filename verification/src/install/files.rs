//! Changes to the file system, as values: what is to be done, in which order,
//! and what the files hold afterwards.

use vstd::prelude::*;
use vstd::string::*;

use crate::paths::with_suffix;
use crate::text::{append_decimal, decimal};

verus! {

/// One change to the file system.
#[derive(Debug, Clone)]
pub enum FileChange {
    /// Create a directory and those above it, where they are missing.
    CreateDirAll { path: String },
    /// Write a whole file.
    Write { path: String, content: String },
    /// Rename a finished temporary file to the path it was written for.
    Commit { temp: String, path: String },
    /// Rename a file out of the way.
    SetAside { path: String, dest: String },
    /// Remove a file; one that is not there counts as removed.
    Remove { path: String },
}

/// A [`FileChange`] with its texts.
pub enum ChangeView {
    CreateDirAll { path: Seq<char> },
    Write { path: Seq<char>, content: Seq<char> },
    Commit { temp: Seq<char>, path: Seq<char> },
    SetAside { path: Seq<char>, dest: Seq<char> },
    Remove { path: Seq<char> },
}

impl View for FileChange {
    type V = ChangeView;

    open spec fn view(&self) -> ChangeView {
        match self {
            FileChange::CreateDirAll { path } => ChangeView::CreateDirAll { path: path@ },
            FileChange::Write { path, content } => ChangeView::Write {
                path: path@,
                content: content@,
            },
            FileChange::Commit { temp, path } => ChangeView::Commit { temp: temp@, path: path@ },
            FileChange::SetAside { path, dest } => ChangeView::SetAside { path: path@, dest: dest@ },
            FileChange::Remove { path } => ChangeView::Remove { path: path@ },
        }
    }
}

/// The views of a list of changes.
pub open spec fn changes(v: Seq<FileChange>) -> Seq<ChangeView> {
    v.map_values(|c: FileChange| c@)
}

impl ChangeView {
    /// The path that is reported where the change fails.
    pub open spec fn subject(self) -> Seq<char> {
        match self {
            ChangeView::CreateDirAll { path } => path,
            ChangeView::Write { path, content } => path,
            ChangeView::Commit { temp, path } => path,
            ChangeView::SetAside { path, dest } => path,
            ChangeView::Remove { path } => path,
        }
    }
}

impl FileChange {
    /// The path that is reported where the change fails.
    pub fn subject(&self) -> (path: String)
        ensures
            path@ == self@.subject(),
    {
        match self {
            FileChange::CreateDirAll { path } => path.clone(),
            FileChange::Write { path, content: _ } => path.clone(),
            FileChange::Commit { temp: _, path } => path.clone(),
            FileChange::SetAside { path, dest: _ } => path.clone(),
            FileChange::Remove { path } => path.clone(),
        }
    }
}

/// The outcome of reading a file: what it holds, that it is not there, or the
/// message of what went wrong.
pub enum ReadView {
    Content(Seq<char>),
    Missing,
    Failed(Seq<char>),
}

/// The outcome that the result of a read stands for.
pub open spec fn read_view(r: Result<Option<String>, String>) -> ReadView {
    match r {
        Ok(Some(content)) => ReadView::Content(content@),
        Ok(None) => ReadView::Missing,
        Err(message) => ReadView::Failed(message@),
    }
}

// ── What the files hold ─────────────────────────────────────────────────────

/// The files of a system by their paths. Two paths are two files unless they are
/// the same text.
pub type Files = Map<Seq<char>, Seq<char>>;

/// What a path holds.
pub open spec fn content_at(files: Files, path: Seq<char>) -> Option<Seq<char>> {
    if files.contains_key(path) {
        Some(files[path])
    } else {
        None
    }
}

/// `files` after `from` was renamed to `to`.
pub open spec fn renamed(files: Files, from: Seq<char>, to: Seq<char>) -> Files {
    if files.contains_key(from) {
        files.remove(from).insert(to, files[from])
    } else {
        files
    }
}

/// The files after a change that succeeded.
pub open spec fn after(files: Files, change: ChangeView) -> Files {
    match change {
        ChangeView::CreateDirAll { path } => files,
        ChangeView::Write { path, content } => files.insert(path, content),
        ChangeView::Commit { temp, path } => renamed(files, temp, path),
        ChangeView::SetAside { path, dest } => renamed(files, path, dest),
        ChangeView::Remove { path } => files.remove(path),
    }
}

/// The files after a list of changes that all succeeded.
pub open spec fn after_all(files: Files, list: Seq<ChangeView>) -> Files
    decreases list.len(),
{
    if list.len() == 0 {
        files
    } else {
        after(after_all(files, list.drop_last()), list.last())
    }
}

// ── Atomic writing ──────────────────────────────────────────────────────────

/// The temporary file that `path` is written to first.
pub open spec fn temp_path(path: Seq<char>, process_id: u32) -> Seq<char> {
    path + (".tmp."@ + decimal(process_id as int))
}

/// The changes that put `content` at `path` in one stroke: the content is
/// written to a temporary file beside it, which then takes its place.
pub open spec fn atomic_changes(path: Seq<char>, content: Seq<char>, process_id: u32) -> Seq<
    ChangeView,
> {
    seq![
        ChangeView::Write { path: temp_path(path, process_id), content },
        ChangeView::Commit { temp: temp_path(path, process_id), path },
    ]
}

/// Appends the changes that put `content` at `path` in one stroke, so that a
/// reader never sees a half-written file.
pub fn atomic_write(list: &mut Vec<FileChange>, path: &str, content: &str, process_id: u32)
    ensures
        changes(final(list)@) == changes(old(list)@) + atomic_changes(path@, content@, process_id),
{
    let mut suffix = ".tmp.".to_owned();
    append_decimal(&mut suffix, process_id as u64);
    let temp = with_suffix(path, suffix.as_str());
    list.push(FileChange::Write { path: temp.clone(), content: content.to_owned() });
    list.push(FileChange::Commit { temp, path: path.to_owned() });
    assert(changes(list@) =~= changes(old(list)@) + atomic_changes(path@, content@, process_id));
}

} // verus!
