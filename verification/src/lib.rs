//! Verified core of the `pi` coding agent: package specs, the package
//! registry and subcommands, the scoped-model panel, skill and
//! prompt-template handling, resource loading and system-prompt assembly,
//! keybinding tables, provider credentials, the JSON-RPC frame handling,
//! and the decisions of the print, interactive and startup drivers.
pub mod text;
pub mod package_spec;
pub mod paths;
pub mod scoped_models;
pub mod skills;
pub mod prompt_templates;
pub mod keybindings;
pub mod registry;
pub mod installer;
pub mod system_prompt;
pub mod reload;
pub mod print_mode;
pub mod rpc;
pub mod interactive;
pub mod provider;
pub mod startup_log;
pub mod package_commands;
pub mod resource_loader;
