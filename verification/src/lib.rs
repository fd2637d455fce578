use vstd::prelude::*;

pub mod text;
pub mod taxonomy;
pub mod connections;
pub mod error;
pub mod s3;
pub mod order;
pub mod remote;
pub mod ftp;
pub mod sftp;
pub mod localfs;
pub mod session;
pub mod logging;
pub mod secret_store;
pub mod commands;

verus! {
} // verus!
