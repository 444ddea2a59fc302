//! What can go wrong while a module is installed or activated.

use vstd::prelude::*;
use vstd::string::*;

use crate::execution::{boxed_view, BuildErrorView, NixBuildError};
use crate::text::{append_decimal, decimal, join, joined, lines, lines_of, texts};

verus! {

/// Why a module was not installed or not activated. Paths and the messages of
/// failed system calls are plain texts.
#[derive(Debug, Clone)]
pub enum InstallError {
    /// A file operation failed.
    Io { path: String, source: String },
    /// The generated text could not be turned into a valid module function.
    Normalize(String),
    /// There is no root configuration at this path.
    RootConfigMissing(String),
    /// The root configuration does not import the aggregator directory.
    RootNotImporting { root_config: String, import: String, rebuild: String },
    /// The rebuild ran and rejected the configuration.
    Rebuild { parsed: Option<Box<NixBuildError>>, stderr: String },
    /// The rebuild could not be run at all.
    Engine(String),
    /// No replacement module could be generated.
    Repair(String),
}

/// An [`InstallError`] with its texts.
pub enum ErrorView {
    Io { path: Seq<char>, source: Seq<char> },
    Normalize(Seq<char>),
    RootConfigMissing(Seq<char>),
    RootNotImporting { root_config: Seq<char>, import: Seq<char>, rebuild: Seq<char> },
    Rebuild { parsed: Option<BuildErrorView>, stderr: Seq<char> },
    Engine(Seq<char>),
    Repair(Seq<char>),
}

impl View for InstallError {
    type V = ErrorView;

    open spec fn view(&self) -> ErrorView {
        match self {
            InstallError::Io { path, source } => ErrorView::Io { path: path@, source: source@ },
            InstallError::Normalize(m) => ErrorView::Normalize(m@),
            InstallError::RootConfigMissing(p) => ErrorView::RootConfigMissing(p@),
            InstallError::RootNotImporting { root_config, import, rebuild } => {
                ErrorView::RootNotImporting {
                    root_config: root_config@,
                    import: import@,
                    rebuild: rebuild@,
                }
            },
            InstallError::Rebuild { parsed, stderr } => ErrorView::Rebuild {
                parsed: boxed_view(*parsed),
                stderr: stderr@,
            },
            InstallError::Engine(e) => ErrorView::Engine(e@),
            InstallError::Repair(e) => ErrorView::Repair(e@),
        }
    }
}

/// At most the last `n` elements of `s`.
pub open spec fn last_of<A>(s: Seq<A>, n: int) -> Seq<A> {
    s.skip(if s.len() > n {
        s.len() - n
    } else {
        0
    })
}

/// How a diagnostic is reported.
pub open spec fn diagnostic_text(e: BuildErrorView) -> Seq<char> {
    "  "@ + e.kind + ": "@ + e.message + match e.location {
        Some(l) => " ("@ + l.file + ":"@ + decimal(l.line) + ":"@ + decimal(l.column) + ")"@,
        None => Seq::empty(),
    }
}

impl ErrorView {
    /// The message shown to the operator.
    pub open spec fn text(self) -> Seq<char> {
        match self {
            ErrorView::Io { path, source } => "I/O error on "@ + path + ": "@ + source,
            ErrorView::Normalize(m) => "could not normalize generated module: "@ + m,
            ErrorView::RootConfigMissing(p) => "root NixOS config not found at "@ + p
                + " — cannot verify it imports the generated modules"@,
            ErrorView::RootNotImporting { root_config, import, rebuild } => {
                "generated modules directory is not imported by "@ + root_config
                    + "\n\nAdd this once to your imports:\n\n  "@ + import
                    + "\n\nThen rerun:\n\n  "@ + rebuild
            },
            ErrorView::Rebuild { parsed, stderr } => {
                "nixos-rebuild rejected the configuration\n"@ + match parsed {
                    Some(e) => diagnostic_text(e),
                    None => joined(last_of(lines_of(stderr), 8), "\n"@),
                }
            },
            ErrorView::Engine(e) => e,
            ErrorView::Repair(e) => "self-healing regeneration failed: "@ + e,
        }
    }
}

/// The text of a diagnostic.
fn describe(e: &NixBuildError) -> (r: String)
    ensures
        r@ == diagnostic_text(e@),
{
    let mut out = "  ".to_owned();
    out.append(e.kind.as_str());
    out.append(": ");
    out.append(e.message.as_str());
    match &e.location {
        Some(l) => {
            let ghost head = out@;
            out.append(" (");
            out.append(l.file.as_str());
            out.append(":");
            append_decimal(&mut out, l.line as u64);
            out.append(":");
            append_decimal(&mut out, l.column as u64);
            out.append(")");
            assert(out@ =~= head + (" ("@ + l.file@ + ":"@ + decimal(l.line as int) + ":"@
                + decimal(l.column as int) + ")"@));
        },
        None => {
            assert(out@ + Seq::<char>::empty() =~= out@);
        },
    }
    out
}

/// At most the last eight lines of what a rebuild printed.
fn last_lines(stderr: &str) -> (r: String)
    ensures
        r@ == joined(last_of(lines_of(stderr@), 8), "\n"@),
{
    let all = lines(stderr);
    let n: usize = all.len();
    let start: usize = if n > 8 {
        n - 8
    } else {
        0
    };
    assert(texts(all@.skip(start as int)) =~= last_of(lines_of(stderr@), 8));
    join(&all, start, "\n")
}

impl InstallError {
    /// The message shown to the operator.
    pub fn message(&self) -> (r: String)
        ensures
            r@ == self@.text(),
    {
        match self {
            InstallError::Io { path, source } => {
                let mut out = "I/O error on ".to_owned();
                out.append(path.as_str());
                out.append(": ");
                out.append(source.as_str());
                out
            },
            InstallError::Normalize(m) => {
                "could not normalize generated module: ".to_owned().concat(m.as_str())
            },
            InstallError::RootConfigMissing(p) => {
                let mut out = "root NixOS config not found at ".to_owned();
                out.append(p.as_str());
                out.append(" — cannot verify it imports the generated modules");
                out
            },
            InstallError::RootNotImporting { root_config, import, rebuild } => {
                let mut out = "generated modules directory is not imported by ".to_owned();
                out.append(root_config.as_str());
                out.append("\n\nAdd this once to your imports:\n\n  ");
                out.append(import.as_str());
                out.append("\n\nThen rerun:\n\n  ");
                out.append(rebuild.as_str());
                out
            },
            InstallError::Rebuild { parsed, stderr } => {
                let detail = match parsed {
                    Some(e) => describe(e),
                    None => last_lines(stderr.as_str()),
                };
                "nixos-rebuild rejected the configuration\n".to_owned().concat(detail.as_str())
            },
            InstallError::Engine(e) => e.as_str().to_owned(),
            InstallError::Repair(e) => {
                "self-healing regeneration failed: ".to_owned().concat(e.as_str())
            },
        }
    }
}

} // verus!
