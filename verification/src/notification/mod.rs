//! Notifications: Feishu card rendering, delivery decisions and their values.
pub mod types;
pub mod feishu;
pub mod runtime;
