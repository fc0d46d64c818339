use vstd::prelude::*;

pub mod api;
pub mod api_info;
pub mod bench;
pub mod cache;
pub mod cookies;
pub mod cred;
pub mod error;
pub mod json;
pub mod lodash;
pub mod net;
pub mod path_lodash;
pub mod plugin;
pub mod text;
pub mod wbi;

verus! {
} // verus!
