//! What the installer needs to know of a system rebuild: the mode it runs in,
//! what it printed, and the diagnostic read out of that.

use vstd::prelude::*;
use vstd::string::*;

verus! {

/// How `nixos-rebuild` activates a configuration.
#[derive(Debug, Clone, Copy, PartialEq, Eq, Structural)]
pub enum BuildMode {
    /// Activate without making the configuration the boot default.
    Test,
}

impl BuildMode {
    /// The `nixos-rebuild` subcommand of a mode.
    pub open spec fn subcommand_text(self) -> Seq<char> {
        match self {
            BuildMode::Test => "test"@,
        }
    }

    /// The `nixos-rebuild` subcommand of this mode.
    pub fn subcommand(&self) -> (r: &'static str)
        ensures
            r@ == self.subcommand_text(),
    {
        match self {
            BuildMode::Test => "test",
        }
    }
}

/// What one rebuild left behind.
#[derive(Debug, Clone)]
pub struct BuildOutput {
    pub success: bool,
    pub exit_code: Option<i32>,
    pub stdout: String,
    pub stderr: String,
}

/// A place in a configuration file.
#[derive(Debug, Clone)]
pub struct SourceLocation {
    pub file: String,
    pub line: usize,
    pub column: usize,
}

/// A [`SourceLocation`] with its texts.
pub struct LocationView {
    pub file: Seq<char>,
    pub line: int,
    pub column: int,
}

impl View for SourceLocation {
    type V = LocationView;

    open spec fn view(&self) -> LocationView {
        LocationView { file: self.file@, line: self.line as int, column: self.column as int }
    }
}

/// The diagnostic of a rejected rebuild.
#[derive(Debug)]
pub struct NixBuildError {
    /// The name of the kind of error.
    pub kind: String,
    pub message: String,
    pub location: Option<SourceLocation>,
}

/// A [`NixBuildError`] with its texts.
pub struct BuildErrorView {
    pub kind: Seq<char>,
    pub message: Seq<char>,
    pub location: Option<LocationView>,
}

impl View for NixBuildError {
    type V = BuildErrorView;

    open spec fn view(&self) -> BuildErrorView {
        BuildErrorView {
            kind: self.kind@,
            message: self.message@,
            location: match self.location {
                Some(l) => Some(l@),
                None => None,
            },
        }
    }
}

impl Clone for NixBuildError {
    fn clone(&self) -> (r: NixBuildError)
        ensures
            r@ == self@,
    {
        let location = match &self.location {
            Some(l) => Some(
                SourceLocation { file: l.file.clone(), line: l.line, column: l.column },
            ),
            None => None,
        };
        NixBuildError { kind: self.kind.clone(), message: self.message.clone(), location }
    }
}

/// The view of a boxed diagnostic, if there is one.
pub open spec fn boxed_view(e: Option<Box<NixBuildError>>) -> Option<BuildErrorView> {
    match e {
        Some(b) => Some((*b)@),
        None => None,
    }
}

} // verus!
