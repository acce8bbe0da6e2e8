//! Window and workspace orchestration: a logical model of application windows
//! grouped into workspaces, deterministic layout algorithms over them, and a
//! mirror of the operating system's windows kept through a platform driver.
pub mod config;
pub mod error;
pub mod layout;
mod sources;
pub mod system_window;
mod text;
pub mod window_manager;
pub mod workspace;

pub use config::{Config, KeyBindings};
pub use error::WmError;
pub use layout::{LayoutType, Rect};
pub use system_window::{SystemWindow, SystemWindowManager};
pub use window_manager::{ManagedWindow, WindowManager, WindowPosition, WindowSize, WindowState};
pub use workspace::Workspace;
