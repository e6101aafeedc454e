use vstd::prelude::*;

pub mod text;
pub mod ordered;
pub mod network_parse;
pub mod bridge_origin;
pub mod connectivity;
pub mod frontend_assets;
pub mod checkpoint;
pub mod checkpoint_run;
pub mod checkpoint_monitor;
pub mod browser_ws;
pub mod conversation_log;
pub mod speech;
pub mod speech_windows;
pub mod launch;
pub mod goal_response;
pub mod port_status;
pub mod checkpoint_restore;
pub mod web_text;
pub mod cron;
pub mod knowledge_sync;
pub mod checkpoint_list;
pub mod serve_launch;
pub mod codex_thread;
pub mod paste_writeback;

verus! {

} // verus!
