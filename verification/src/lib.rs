use vstd::prelude::*;

pub mod text;
pub mod decimal;
pub mod config;
pub mod db;
pub mod sessions;
pub mod routes;
pub mod paging;
pub mod resources;
pub mod hashing;
pub mod replies;
pub mod markdown;
pub mod posting;
