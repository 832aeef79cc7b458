//! The logic of Diskette, a desktop front end for the Yandex Disk command
//! line client: the arguments of each command, what its output tells, the
//! configuration file, and how the window responds to events.
use vstd::prelude::*;

pub mod catalogs;
pub mod command_line;
pub mod command_options;
pub mod command_output;
pub mod command_request;
pub mod i18n;
pub mod services;
pub mod setup;
pub mod setup_storage;
pub mod size;
pub mod text;
pub mod ui;

verus! {

} // verus!
