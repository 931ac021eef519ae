use vstd::prelude::*;
pub mod text;
pub mod diff;
pub mod exit;
pub mod fmt;
pub mod tools;
pub mod routes;
pub mod first_run;
pub mod session_ref;
pub mod session_names;
pub mod sessions;
pub mod plugin_rows;
pub mod plugin;
pub mod claude_compat;
pub mod diag;
pub mod memory;
pub mod render;
pub mod cli;
pub mod oneshot;
pub mod trust;
pub mod paths;
pub mod provider_save;
pub mod shell_offer;
pub mod window_setup;
