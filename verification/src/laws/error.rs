//! Laws of the messages shown to the operator.

use vstd::prelude::*;

use crate::install::error::InstallError;
use crate::text::{decimal, joined, lines_of};

verus! {

/// A failed file operation is shown with its file and the reason.
pub proof fn law_file_errors_name_file_and_reason(
    path: String,
    source: String,
    message: String,
)
    requires
        call_ensures(
            InstallError::message,
            (&(InstallError::Io { path, source }),),
            message,
        ),
    ensures
        message@ == "I/O error on "@ + path@ + ": "@ + source@,
{
}

/// A refused module is shown with the reason, and so is a repair that gave none; a
/// rebuild that could not be run is shown as the reason alone.
pub proof fn law_refusals_give_the_reason(
    reason: String,
    of_refusal: String,
    of_repair: String,
    of_engine: String,
)
    requires
        call_ensures(InstallError::message, (&InstallError::Normalize(reason),), of_refusal),
        call_ensures(InstallError::message, (&InstallError::Repair(reason),), of_repair),
        call_ensures(InstallError::message, (&InstallError::Engine(reason),), of_engine),
    ensures
        of_refusal@ == "could not normalize generated module: "@ + reason@,
        of_repair@ == "self-healing regeneration failed: "@ + reason@,
        of_engine@ == reason@,
{
}

/// A fault of the root configuration is shown with the file, and where the import
/// is missing, with the line to add and the command to run.
pub proof fn law_root_faults_say_what_to_do(
    root_config: String,
    import: String,
    rebuild: String,
    of_missing: String,
    of_fault: String,
)
    requires
        call_ensures(
            InstallError::message,
            (&InstallError::RootConfigMissing(root_config),),
            of_missing,
        ),
        call_ensures(
            InstallError::message,
            (&(InstallError::RootNotImporting { root_config, import, rebuild }),),
            of_fault,
        ),
    ensures
        of_missing@ == "root NixOS config not found at "@ + root_config@
            + " — cannot verify it imports the generated modules"@,
        of_fault@ == "generated modules directory is not imported by "@ + root_config@
            + "\n\nAdd this once to your imports:\n\n  "@ + import@ + "\n\nThen rerun:\n\n  "@
            + rebuild@,
{
}

/// A rejected rebuild is shown by its diagnostic, with the place if there is one;
/// without a diagnostic, by the last eight lines of its output, or all of them
/// where there are fewer.
pub proof fn law_rejections_show_the_diagnostic_or_the_end(e: InstallError, message: String)
    requires
        call_ensures(InstallError::message, (&e,), message),
    ensures
        e matches InstallError::Rebuild { parsed, stderr } ==> match parsed {
            Some(d) => match d.location {
                Some(l) => message@ == "nixos-rebuild rejected the configuration\n"@ + ("  "@
                    + d.kind@ + ": "@ + d.message@ + (" ("@ + l.file@ + ":"@ + decimal(
                    l.line as int,
                ) + ":"@ + decimal(l.column as int) + ")"@)),
                None => message@ == "nixos-rebuild rejected the configuration\n"@ + ("  "@ + d.kind@
                    + ": "@ + d.message@),
            },
            None => {
                let all = lines_of(stderr@);
                exists|k: int|
                    0 <= k <= all.len() && (k == 0 && all.len() <= 8 || all.len() == k + 8)
                        && message@ == "nixos-rebuild rejected the configuration\n"@ + joined(
                        #[trigger] all.skip(k),
                        "\n"@,
                    )
            },
        },
{
    match e {
        InstallError::Rebuild { parsed, stderr } => match parsed {
            Some(d) => {
                let head = "  "@ + d.kind@ + ": "@ + d.message@;
                assert(head + Seq::<char>::empty() =~= head);
            },
            None => {
                let all = lines_of(stderr@);
                let k = if all.len() > 8 {
                    all.len() - 8
                } else {
                    0
                };
                assert(all.skip(k) == crate::install::error::last_of(all, 8));
            },
        },
        _ => {},
    }
}

} // verus!
