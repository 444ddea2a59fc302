//! Installing a generated module into a NixOS configuration, and activating it.
//!
//! A generated module is made a valid module function, written to the directory
//! of generated modules, and imported by the aggregator in that directory, which
//! the root configuration must import. Then the system is rebuilt, with a bounded
//! number of repairs, and afterwards the expected programs are looked for.
//!
//! Nothing here touches a file or runs a program. What is to be read, changed or
//! run is handed out as a value, and the outcome is handed back.

pub mod activate;
pub mod aggregator;
pub mod config;
pub mod error;
pub mod files;
pub mod levels;
pub mod list;
pub mod nix;
pub mod normalize;
pub mod packages;
pub mod provenance;
pub mod register;
pub mod root;

pub use self::activate::{
    activate, ActivateReport, ActivateStep, RepairEvent, MAX_REPAIR_ATTEMPTS,
};
pub use self::aggregator::{
    register_in_aggregator, restore_aggregator, AggregatorChange, AggregatorUpdate,
};
pub use self::config::{NixosApplyConfig, AGGREGATOR_IMPORT, DEFAULT_CONFIG_DIR};
pub use self::error::InstallError;
pub use self::files::FileChange;
pub use self::normalize::{
    normalize_module, references_pkgs, try_normalize_module, MODULE_HEADER,
};
pub use self::packages::{
    package_to_binary, parse_system_packages, verify_binaries, BinaryProbe, BinaryReport,
    FsBinaryProbe, MissingBinary,
};
pub use self::provenance::build_repair_prompt;
pub use self::register::{register_module, RegisterReport, RegisterStep};
pub use self::root::{root_imports_aggregator, verify_root_config};
