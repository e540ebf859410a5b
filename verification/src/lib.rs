//! A chat bot's rules, verified: weekly reminders for channels, with the
//! table of reminder definitions, the commands that edit and list it, and
//! the three-tier schedule that takes a reminder up as its time approaches
//! and delivers it once, at its second; beside them the bot's smaller rule
//! books: the ledger of debts, the list of bans, the answer to short-video
//! links and the list of language-service models.
//!
//! The library holds state and decides; it never waits, sends or writes.
//! Its caller owns the timers and the files, reads the clock through
//! [`clock::now_in`] or hands a [`clock::Moment`] in, and carries out what
//! the passes of [`schedule::ReminderStore`] hand back.

pub mod anti_tiktok;
pub mod ban;
pub mod cash;
pub mod clock;
pub mod commands;
pub mod laws;
pub mod models;
pub mod reminder;
pub mod schedule;
pub mod sequences;
pub mod table;
pub mod text;
