//! Verified core logic of the IOTA node, SDK and Move tooling.
pub mod base_types;
pub mod move_types;
pub mod object;
pub mod storage;
pub mod error;
pub mod system_objects;
pub mod epoch_start;
pub mod client_config;
pub mod address_seed;
pub mod consistency;
pub mod text;
pub mod diagnostics;
pub mod annotated_visitor;
pub mod file_format;
pub mod global_storage_access;
pub mod dynamic_field;
pub mod bcs_format;
pub mod deny_list;
pub mod rest_types;
pub mod keypair_file;
pub mod archival;
pub mod keytool;
pub mod migration;
pub mod source_files;
pub mod consensus;
pub mod tic_tac_toe;
pub mod orchestrator;
pub mod typing_expand;
pub mod move_parser;
pub mod move_lexer;
