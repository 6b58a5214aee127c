//! Bulk user migration engine: structured log sink, retry state machine,
//! dependent-call planning and admission control.

pub mod text;
pub mod log_line;
pub mod db_logger;
pub mod retry;
pub mod chain;
pub mod gate;
pub mod user;
pub mod config;
