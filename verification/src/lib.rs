//! Smoke testing and screenshot capture for Flatpak applications.
pub mod apple_dh;
pub mod capture;
pub mod cli;
pub mod command;
pub mod display;
pub mod installer;
pub mod laws;
pub mod number;
pub mod ocr;
pub mod output;
pub mod process;
pub mod result;
pub mod screenshot;
pub mod session;
pub mod text;
pub mod time;
pub mod tools;
pub mod verify;
pub mod vnc;
