//! The core of `nix-agent`, which installs generated NixOS modules: the rules of
//! the interactive session, and those of installing and activating a module.
//!
//! [`chat`] holds the session, [`install`] the installer. Both work on plain
//! values; reading, writing and running is left to the caller. [`laws`] states
//! what holds of them as a whole.

pub mod chat;
pub mod execution;
pub mod install;
pub mod laws;
pub mod paths;
pub mod plan;
pub mod text;
pub mod text_lemmas;
