use vstd::prelude::*;

pub mod account_id;
pub mod commands;
pub mod network_name;
pub mod registry;
pub mod text;
