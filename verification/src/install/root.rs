//! The root configuration must import the aggregator directory.

use vstd::prelude::*;
use vstd::string::*;

use crate::install::config::{ConfigView, NixosApplyConfig, AGGREGATOR_IMPORT};
use crate::install::error::{ErrorView, InstallError};
use crate::install::files::{read_view, ReadView};
use crate::text::{
    begins_with, contains_text, has_text, lines, lines_of, starts_with, texts, trim, trimmed,
};

verus! {

/// Whether a line is no comment and mentions the aggregator directory.
pub open spec fn line_imports_aggregator(line: Seq<char>) -> bool {
    &&& !starts_with(trimmed(line), "#"@)
    &&& contains_text(trimmed(line), "modules/ai-generated"@)
}

/// Whether a root configuration imports the aggregator directory: some line that
/// is no comment mentions it.
pub open spec fn imports_aggregator(content: Seq<char>) -> bool {
    exists|i: int|
        0 <= i < lines_of(content).len() && line_imports_aggregator(
            #[trigger] lines_of(content)[i],
        )
}

/// Whether some line of `content` that is no comment mentions
/// `modules/ai-generated`.
pub fn root_imports_aggregator(content: &str) -> (r: bool)
    ensures
        r == imports_aggregator(content@),
{
    let all = lines(content);
    let n: usize = all.len();
    for i in 0..n
        invariant
            n == all.len(),
            texts(all@) == lines_of(content@),
            forall|j: int| 0 <= j < i ==> !line_imports_aggregator(#[trigger] lines_of(content@)[j]),
    {
        assert(lines_of(content@)[i as int] == all@[i as int]@);
        let t = trim(all[i].as_str());
        if !begins_with(t, "#") && has_text(t, "modules/ai-generated") {
            assert(line_imports_aggregator(lines_of(content@)[i as int]));
            return true;
        }
    }
    assert(n == lines_of(content@).len());
    false
}

/// What is wrong with a root configuration that was read with this outcome.
pub open spec fn root_fault(config: ConfigView, read: ReadView) -> Option<ErrorView> {
    match read {
        ReadView::Content(content) => if imports_aggregator(content) {
            None
        } else {
            Some(
                ErrorView::RootNotImporting {
                    root_config: config.root_config_path,
                    import: AGGREGATOR_IMPORT@,
                    rebuild: config.rebuild_text(true),
                },
            )
        },
        ReadView::Missing => Some(ErrorView::RootConfigMissing(config.root_config_path)),
        ReadView::Failed(message) => Some(
            ErrorView::Io { path: config.root_config_path, source: message },
        ),
    }
}

/// Checks that the root configuration, which was read with the outcome `read`,
/// imports the aggregator directory. The error says what to do about it.
pub fn verify_root_config(
    config: &NixosApplyConfig,
    read: Result<Option<String>, String>,
) -> (r: Result<(), InstallError>)
    ensures
        match r {
            Ok(_) => root_fault(config@, read_view(read)) is None,
            Err(e) => root_fault(config@, read_view(read)) == Some(e@),
        },
{
    match read {
        Ok(Some(content)) => {
            if root_imports_aggregator(content.as_str()) {
                Ok(())
            } else {
                Err(
                    InstallError::RootNotImporting {
                        root_config: config.root_config_path.clone(),
                        import: AGGREGATOR_IMPORT.to_owned(),
                        rebuild: config.rebuild_command(true),
                    },
                )
            }
        },
        Ok(None) => Err(InstallError::RootConfigMissing(config.root_config_path.clone())),
        Err(source) => Err(InstallError::Io { path: config.root_config_path.clone(), source }),
    }
}

} // verus!
