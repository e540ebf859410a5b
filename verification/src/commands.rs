//! The commands that edit the reminder table.

pub mod look;
pub mod remind;
pub mod rm_remind;
