//! The desktop that an app is captured on: its windows and what is done to them.
use vstd::prelude::*;

verus! {

#[derive(Debug, Clone, Copy, PartialEq, Eq, Structural)]
pub struct Rect {
    pub x: i32,
    pub y: i32,
    pub width: u32,
    pub height: u32,
}

/// How many pixels of a picture a window's pixel takes.
#[derive(Debug, Clone)]
pub struct Scale {
    /// It is exactly one.
    pub one: bool,
    /// How it is written.
    pub written: String,
}

/// A window of an app. The frame is what the user sees of it, and the buffer holds shadows too.
#[derive(Debug, Clone)]
pub struct Window {
    pub id: u64,
    pub title: String,
    pub app_id: String,
    pub transient: bool,
    pub frame: Rect,
    pub buffer: Rect,
    pub scale: Scale,
}

/// What is done to a window. A click's place is counted in halves of a pixel.
#[derive(Debug)]
pub enum Input {
    Click { x: i32, y: i32 },
    Key(Vec<u32>),
    Text(String),
}

} // verus!
