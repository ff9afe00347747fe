//! Skin definitions as read from a skin XML file, and the errors of reading
//! one.
use vstd::prelude::*;

verus! {

/// A game entity definition from the skin XML.
#[derive(Debug, Clone)]
pub struct EntityDef {
    pub id: Option<String>,
    pub sprite: Option<String>,
    /// Long-note head sprite
    pub head_sprite: Option<String>,
    /// Long-note body sprite
    pub body_sprite: Option<String>,
    /// Long-note tail sprite
    pub tail_sprite: Option<String>,
    pub x: i32,
    pub y: i32,
    pub layer: u32,
}

/// A complete skin definition from the XML.
#[derive(Debug, Clone)]
pub struct SkinDef {
    pub name: String,
    pub width: u32,
    pub height: u32,
    pub judgment_line_y: u32,
    pub entities: Vec<EntityDef>,
}

/// A skin definition as plain values.
pub ghost struct SkinView {
    pub name: Seq<char>,
    pub width: u32,
    pub height: u32,
    pub judgment_line_y: u32,
    pub entities: Seq<EntityDef>,
}

impl View for SkinDef {
    type V = SkinView;

    open spec fn view(&self) -> SkinView {
        SkinView {
            name: self.name@,
            width: self.width,
            height: self.height,
            judgment_line_y: self.judgment_line_y,
            entities: self.entities@,
        }
    }
}

/// Why a skin file could not be read.
#[derive(Debug)]
pub enum XmlError {
    Io(std::io::Error),
    Parse(String),
    MissingAttribute(String),
    InvalidAttributeValue { attr: String, value: String },
}

} // verus!
