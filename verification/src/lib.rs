use vstd::prelude::*;

pub mod archive;
pub mod assets;
pub mod beans;
pub mod cache;
pub mod cli;
pub mod config;
pub mod create;
pub mod doctor;
pub mod error;
pub mod global_config;
pub mod graphql;
pub mod json;
pub mod markdown;
pub mod memory;
pub mod migrate;
pub mod model;
pub mod paths;
pub mod query;
pub mod refs;
pub mod rename;
pub mod roadmap;
pub mod search;
pub mod sort;
pub mod storage;
pub mod suggest;
pub mod text;
pub mod update;
