//! ctf-man: managing CTF challenge folders. The library holds the program's
//! decisions (the TUI's state and its reaction to every key, what the screens
//! show, challenge naming, planning new challenges, the filesystem sync, the
//! CTFtime import) with their contracts; the program around it performs the
//! terminal, database, network and filesystem work they ask for.
use vstd::prelude::*;

pub mod actions;
pub mod cli;
pub mod config;
pub mod ctftime;
pub mod dispatch;
pub mod import;
pub mod keys;
pub mod listing;
pub mod models;
pub mod onboarding;
pub mod runner;
pub mod seed;
pub mod settings_state;
pub mod state;
pub mod sync;
pub mod templates;
pub mod text;
pub mod view;

verus! {

} // verus!
