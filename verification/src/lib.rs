//! Service-group naming, service binds, binding modes and health-check
//! intervals; the launcher's service table and its decisions about the
//! supervisor; what templates see of bound service groups; and decisions
//! of the `bio pkg` commands.

pub mod binding_mode;
pub mod binds;
pub mod error;
pub mod health_check;
pub mod launcher;
pub mod pkg_cli;
pub mod pkg_path_for;
pub mod service_bind;
pub mod service_group;
pub mod service_table;
pub mod sup_version;
pub mod text;
pub mod text_order;
