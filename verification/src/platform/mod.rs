pub mod macos;
pub mod windows;
