use vstd::prelude::*;

pub mod text;
pub mod cred;
pub mod login;
pub mod config;
pub mod json;
pub mod console;
pub mod apm;
pub mod container;
pub mod db;
pub mod commands;
pub mod tc3;
pub mod reqable;
pub mod capi;
pub mod cdp;

verus! {

} // verus!
