//! Input encoding, pacing and overlay-state logic of the noa terminal,
//! stated as contracts and proved with Verus.

pub mod applescript;
pub mod attach;
pub mod bytes;
pub mod civil;
pub mod hotkey;
pub mod ime;
pub mod input_queue;
pub mod io_loop;
pub mod ipc_grid;
pub mod ipc_registry;
pub mod ipc_shared;
pub mod keyboard;
pub mod kitty;
pub mod latency;
pub mod link;
pub mod menu_keys;
pub mod mouse;
pub mod notification;
pub mod overlay;
pub mod paste;
pub mod process_monitor;
pub mod record_view;
pub mod redraw;
pub mod sidebar;
pub mod text;
pub mod throttle;
pub mod window_tabs;
pub mod wire;

