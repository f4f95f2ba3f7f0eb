use vstd::prelude::*;

pub mod header;
pub mod branches;
pub mod block_provider;
pub mod headers;
pub mod id_set;
pub mod orphan_handler;
pub mod ibd;
pub mod da;
pub mod blob;
pub mod fork_choice;
pub mod broadcaster;
pub mod transaction_manager;
pub mod merkle;
pub mod leadership;
pub mod blend_test_utils;
pub mod carnot;
pub mod storage;
pub mod consensus;
pub mod service_loop;
pub mod sync_path;
pub mod processor;
pub mod sync_requests;
pub mod pol_cache;
