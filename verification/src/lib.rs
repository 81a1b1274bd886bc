//! Plugin scripting for a pixel editor: the session context handed to
//! scripts, the script engine, the plugin host and its hook dispatch, hot
//! reload, and the headless platform.

pub mod text;
pub mod error;
pub mod settings;
pub mod session;
pub mod value;
pub mod vm;
pub mod engine;
pub mod ctx;
pub mod platform;
pub mod discovery;
pub mod watcher;
pub mod journal;
pub mod hooks;
pub mod loading;
pub mod host;
pub mod laws;
