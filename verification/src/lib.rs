//! Support for embedded projects (STM32 and other Cortex-M) in the Zed editor.
//!
//! When a project is opened, it is looked at ([`project`]). An embedded one is
//! given the configuration files that it lacks ([`generate`]): tasks ([`tasks`])
//! and debug scenarios ([`debug`]) for every build target that its CMake presets
//! name ([`presets`], [`chip`], [`paths`]), run by the tools of the machine ([`tools`]). The
//! status bar then has buttons that build, flash and debug it
//! ([`status_buttons`]); debugging stops in the main function ([`breakpoint`]).
//!
//! What each part is for is stated in [`laws`].
//!
//! The library decides; reading directories, writing files and showing buttons
//! are left to the program around it.

pub mod breakpoint;
pub mod chip;
pub mod debug;
pub mod generate;
pub mod json;
pub mod json_text;
pub mod laws;
pub mod order;
pub mod paths;
pub mod presets;
pub mod project;
pub mod status_buttons;
pub mod tasks;
pub mod text;
pub mod tools;

pub use chip::infer_chip;
pub use generate::generate;
pub use presets::Preset;
pub use project::is_embedded_project;
pub use status_buttons::EmbeddedButtons;
pub use tasks::read_tasks_labels;
