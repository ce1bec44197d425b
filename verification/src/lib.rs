//! Core logic of a menu-bar system monitor: display-string formatting for
//! CPU and RAM readings, a shared snapshot of the latest values, parsing of
//! the compressed-memory report, icon payload handling, and the login-item
//! eligibility rules.
pub mod format;
pub mod icons;
pub mod login_item;
pub mod metrics;
pub mod text;
pub mod vm_stat;
