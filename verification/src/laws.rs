//! What holds of whole operations, in terms of what goes in and what comes out.
pub mod frames;
pub mod windows;
pub mod sessions;
pub mod installations;
pub mod texts;
pub mod labels;
pub mod numbers;
pub mod searches;
pub mod steps;
pub mod runs;
pub mod handshakes;
pub mod recipes;
pub mod settings;
pub mod desktops;
pub mod pictures;
pub mod values;
