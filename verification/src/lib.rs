//! Decision logic of the OpenHarness desktop host.

pub mod boot;
pub mod error;
pub mod failure;
pub mod json;
pub mod launch;
pub mod locale;
pub mod logs;
pub mod paths;
pub mod preferences;
pub mod runtime_paths;
pub mod sessions;
pub mod shell_env;
pub mod state;
pub mod stream;
pub mod supervisor;
pub mod text;
pub mod ui;
pub mod update;
pub mod version;
