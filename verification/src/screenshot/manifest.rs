//! What a capture of screenshots tells of them.
use crate::text;
use crate::text::owned;
use vstd::prelude::*;

verus! {

/// The screenshots of a run, as they are written to `screenshots.json`.
#[derive(Debug)]
pub struct Manifest {
    pub schema_version: u8,
    pub desktop: String,
    pub desktop_version: Option<String>,
    pub language: String,
    pub scale: u32,
    pub recipe_version: u32,
    pub app_ref: Option<String>,
    pub failed_step_index: Option<usize>,
    pub captures: Vec<Capture>,
}

/// One screenshot.
#[derive(Debug)]
pub struct Capture {
    pub name: String,
    pub path: String,
    pub caption: String,
    pub language: String,
    pub width: u32,
    pub height: u32,
    pub window_width: u32,
    pub window_height: u32,
}

/// Whether two manifests tell the same of the app and of the desktop.
pub open spec fn heads_agree(a: Manifest, b: Manifest) -> bool {
    &&& a.schema_version == b.schema_version
    &&& a.desktop@ == b.desktop@
    &&& text::option_view(a.desktop_version) == text::option_view(b.desktop_version)
    &&& a.language@ == b.language@
    &&& a.scale == b.scale
    &&& a.recipe_version == b.recipe_version
    &&& text::option_view(a.app_ref) == text::option_view(b.app_ref)
}

fn copied(value: &Option<String>) -> (out: Option<String>)
    ensures
        text::option_view(out) == text::option_view(*value),
{
    match value {
        Some(value) => Some(owned(value.as_str())),
        None => None,
    }
}

impl Manifest {
    /// What every manifest tells of itself, of the desktop and of the pictures.
    pub open spec fn standard(&self) -> bool {
        &&& self.schema_version == 1
        &&& self.desktop@ == "gnome"@
        &&& self.language@ == "en"@
        &&& self.scale == 1
        &&& self.recipe_version == 1
    }

    /// A manifest at the beginning of a capture, when nothing is known yet.
    pub open spec fn begins(&self) -> bool {
        &&& self.standard()
        &&& self.desktop_version is None
        &&& self.app_ref is None
        &&& self.failed_step_index is None
        &&& self.captures@.len() == 0
    }

    /// A manifest that tells the same of the app and of the desktop, with no screenshots.
    pub fn without_captures(&self) -> (out: Self)
        ensures
            heads_agree(out, *self),
            out.failed_step_index is None,
            out.captures@.len() == 0,
    {
        Manifest {
            schema_version: self.schema_version,
            desktop: owned(self.desktop.as_str()),
            desktop_version: copied(&self.desktop_version),
            language: owned(self.language.as_str()),
            scale: self.scale,
            recipe_version: self.recipe_version,
            app_ref: copied(&self.app_ref),
            failed_step_index: None,
            captures: Vec::new(),
        }
    }

    pub fn new() -> (out: Self)
        ensures
            out.begins(),
    {
        Manifest {
            schema_version: 1,
            desktop: owned("gnome"),
            desktop_version: None,
            language: owned("en"),
            scale: 1,
            recipe_version: 1,
            app_ref: None,
            failed_step_index: None,
            captures: Vec::new(),
        }
    }
}

} // verus!
