use vstd::prelude::*;

pub mod file_id;
pub mod infer_session;
pub mod text;
pub mod lua_type;
pub mod member_map;
pub mod render_level;
pub mod db_index;
pub mod instantiate;
pub mod key_order;
pub mod render_spec;
pub mod humanize_type;
pub mod type_check_context;
pub mod cache;
pub mod module_ref;
pub mod infer_require;
pub mod infer_cache_manager;
pub mod logger;

verus! {
}
