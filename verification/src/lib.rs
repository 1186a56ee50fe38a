//! Native-shell core for a webview JSON editor: the extension filter,
//! the pending-intent queue, the startup-race-safe event bridge, the
//! menu model with its mutable recent-files region, and the stateless
//! JSON command surface. The host process (window, native menu, file
//! I/O, message channel) sits outside and hands plain values in.
pub mod bridge;
pub mod filter;
pub mod json;
pub mod menu;
pub mod queue;
