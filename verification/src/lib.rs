//! Decision logic of a desktop manager for the Codex application.

pub mod catalog;
pub mod catalog_laws;
pub mod choice_laws;
pub mod config_file;
pub mod config_laws;
pub mod digest;
pub mod edit_laws;
pub mod env_file;
pub mod errors;
pub mod file_swap;
pub mod file_swap_laws;
pub mod gateway;
pub mod gateway_laws;
pub mod install_flow;
pub mod install_root;
pub mod install_root_laws;
pub mod line_laws;
pub mod lines;
pub mod link_laws;
pub mod operations;
pub mod policy;
pub mod resume;
pub mod save_again;
pub mod settings;
pub mod shell;
pub mod shell_laws;
pub mod sorted;
pub mod store;
pub mod target;
pub mod text;
pub mod text_laws;
pub mod theme_flow;
pub mod theme_tx;
pub mod theme_tx_laws;
pub mod url_policy;
