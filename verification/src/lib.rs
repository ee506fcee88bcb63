//! Verified core logic of the reflect terminal UI: diff rendering and file
//! change summaries, the terminal's frames and the drawing of their
//! differences, streamed command output, the `/debug-config` report,
//! status surfaces and the lookups behind them, the terminal title's
//! activity, MCP startup tracking, reasoning shortcuts and streamed
//! reasoning, key routing and the quit shortcut, how turns end, `/usage`
//! cards, server requests, the plugin catalog, and the choice of clipboard
//! backend.

pub mod bytes;
pub mod chat_helpers;
pub mod chat_state;
pub mod clipboard;
pub mod config;
pub mod debug_config;
pub mod diff_line;
pub mod diff_render;
pub mod diff_summary;
pub mod diff_theme;
pub mod exec_output;
pub mod key_routing;
pub mod live_output;
pub mod mcp_startup;
pub mod paths;
pub mod plugin_list;
pub mod plugins;
pub mod quit_shortcut;
pub mod reasoning;
pub mod reasoning_stream;
pub mod screen_diff;
pub mod server_requests;
pub mod replay;
pub mod sorted_map;
pub mod status;
pub mod term_ops;
pub mod terminal_state;
pub mod status_lookups;
pub mod stream_events;
pub mod style;
pub mod token_activity;
pub mod turn_outcome;
pub mod text;
pub mod title_activity;
pub mod width;
pub mod workspace_roots;
pub mod wrap;
