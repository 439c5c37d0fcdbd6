//! Lending log for items handed out during an event: an append-only log of
//! operations, its reconciliation into a canonical log, the projection of the
//! loans that are still open, and the consistency checks over them.

pub mod operation;
pub mod reconcile;
pub mod replay;
pub mod text;
pub mod args;
pub mod display;
pub mod report;
pub mod record;
pub mod commands;

pub use args::{parse_arg, DlmArg};
pub use commands::get_lend_data;
pub use operation::{LendData, LendType, Stamp};
pub use reconcile::organize_lend_data;
pub use replay::make_now_lend_data_lst;
pub use report::{
    lend_data_to_message_with_config_data, make_config_data, make_lend_data_str, ConfigData,
    ShowLendData,
};
