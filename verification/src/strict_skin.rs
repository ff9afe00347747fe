//! The strict skin reader: every skin names itself and its size, every frame
//! its id, file and rectangle, every sprite and entity its id, and a value
//! that does not read is an error. It reads the reader events of a
//! resources document; whether a frame's `scale` and `alpha` read as
//! floating-point numbers is handed in per event.
use vstd::prelude::*;
use crate::numbers::{parse_i32, parse_u32, spec_parse_i32, spec_parse_u32};
use crate::skin::XmlError;
use crate::text::{lowercase_of, str_eq, to_lowercase};
use crate::xml::{get_attr, spec_get_attr, XmlAttr, XmlEvent, XmlTag};
use vstd::string::StringExecFns;

verus! {

/// A frame of a skin: its id, image file (as written), rectangle, and the
/// text of its `scale` and `alpha` when given.
#[derive(Debug, Clone)]
pub struct StrictFrame {
    pub id: String,
    pub file: String,
    pub x: u32,
    pub y: u32,
    pub w: u32,
    pub h: u32,
    pub scale: Option<String>,
    pub alpha: Option<String>,
}

/// An entity of a skin; its id is required.
#[derive(Debug, Clone)]
pub struct StrictEntity {
    pub id: String,
    pub sprite: Option<String>,
    pub x: i32,
    pub y: i32,
    pub head_sprite: Option<String>,
    pub body_sprite: Option<String>,
    pub tail_sprite: Option<String>,
    pub layer: u32,
}

/// An animated sprite: its id, the frames it names, its frame speed and
/// whether it loops.
#[derive(Debug)]
pub struct StrictSprite {
    pub id: String,
    pub frame_refs: Vec<String>,
    pub frame_speed_ms: u32,
    pub loop_animation: bool,
}

/// A sprite as a value.
pub ghost struct StrictSpriteView {
    pub id: String,
    pub frame_refs: Seq<String>,
    pub frame_speed_ms: u32,
    pub loop_animation: bool,
}

impl View for StrictSprite {
    type V = StrictSpriteView;

    open spec fn view(&self) -> StrictSpriteView {
        StrictSpriteView {
            id: self.id,
            frame_refs: self.frame_refs@,
            frame_speed_ms: self.frame_speed_ms,
            loop_animation: self.loop_animation,
        }
    }
}

/// A skin with its frames, sprites and entities.
#[derive(Debug)]
pub struct StrictSkin {
    pub name: String,
    pub width: u32,
    pub height: u32,
    pub judgment_line_y: u32,
    pub frames: Vec<StrictFrame>,
    pub sprites: Vec<StrictSprite>,
    pub entities: Vec<StrictEntity>,
}

/// A skin as a value.
pub ghost struct StrictSkinView {
    pub name: String,
    pub width: u32,
    pub height: u32,
    pub judgment_line_y: u32,
    pub frames: Seq<StrictFrame>,
    pub sprites: Seq<StrictSpriteView>,
    pub entities: Seq<StrictEntity>,
}

impl View for StrictSkin {
    type V = StrictSkinView;

    open spec fn view(&self) -> StrictSkinView {
        StrictSkinView {
            name: self.name,
            width: self.width,
            height: self.height,
            judgment_line_y: self.judgment_line_y,
            frames: self.frames@,
            sprites: self.sprites@.map_values(|s: StrictSprite| s@),
            entities: self.entities@,
        }
    }
}

/// Why the strict reader refuses a document.
pub ghost enum StrictError {
    Parse(String),
    Missing(Seq<char>),
    Invalid(Seq<char>, Seq<char>),
}

/// `e` is the error `se`.
pub open spec fn spec_error_is(e: XmlError, se: StrictError) -> bool {
    match se {
        StrictError::Parse(m) => e == XmlError::Parse(m),
        StrictError::Missing(a) => e matches XmlError::MissingAttribute(x) && x@ == a,
        StrictError::Invalid(a, v) => e matches XmlError::InvalidAttributeValue { attr, value }
            && attr@ == a && value@ == v,
    }
}

/// `r` is the outcome `s`.
pub open spec fn spec_outcome_is<T>(r: Result<T, XmlError>, s: Result<T, StrictError>) -> bool {
    match (r, s) {
        (Ok(a), Ok(b)) => a == b,
        (Err(e), Err(se)) => spec_error_is(e, se),
        _ => false,
    }
}

/// A required attribute.
pub open spec fn spec_required(attrs: Seq<XmlAttr>, name: Seq<char>) -> Result<String, StrictError> {
    match spec_get_attr(attrs, name) {
        Some(v) => Ok(v),
        None => Err(StrictError::Missing(name)),
    }
}

/// A required `u32` attribute.
pub open spec fn spec_required_u32(attrs: Seq<XmlAttr>, name: Seq<char>) -> Result<u32, StrictError> {
    match spec_get_attr(attrs, name) {
        None => Err(StrictError::Missing(name)),
        Some(v) => match spec_parse_u32(v@) {
            Some(n) => Ok(n),
            None => Err(StrictError::Invalid(name, v@)),
        },
    }
}

/// An optional `i32` attribute: `default` when absent, an error when it
/// does not read.
pub open spec fn spec_optional_i32(attrs: Seq<XmlAttr>, name: Seq<char>, default: i32) -> Result<i32, StrictError> {
    match spec_get_attr(attrs, name) {
        None => Ok(default),
        Some(v) => match spec_parse_i32(v@) {
            Some(n) => Ok(n),
            None => Err(StrictError::Invalid(name, v@)),
        },
    }
}

/// An optional floating-point attribute, kept as text; `reads` says whether
/// its text reads as a number.
pub open spec fn spec_float_attr(attrs: Seq<XmlAttr>, name: Seq<char>, reads: bool) -> Result<Option<String>, StrictError> {
    match spec_get_attr(attrs, name) {
        None => Ok(None),
        Some(v) => if reads {
            Ok(Some(v))
        } else {
            Err(StrictError::Invalid(name, v@))
        },
    }
}

fn missing(name: &str) -> (e: XmlError)
    ensures
        spec_error_is(e, StrictError::Missing(name@)),
{
    XmlError::MissingAttribute(String::from_str(name))
}

fn invalid(name: &str, value: String) -> (e: XmlError)
    ensures
        spec_error_is(e, StrictError::Invalid(name@, value@)),
{
    XmlError::InvalidAttributeValue { attr: String::from_str(name), value }
}

fn required(attrs: &Vec<XmlAttr>, name: &str) -> (r: Result<String, XmlError>)
    ensures
        spec_outcome_is(r, spec_required(attrs@, name@)),
{
    match get_attr(attrs, name) {
        Some(v) => Ok(v),
        None => Err(missing(name)),
    }
}

fn required_u32(attrs: &Vec<XmlAttr>, name: &str) -> (r: Result<u32, XmlError>)
    ensures
        spec_outcome_is(r, spec_required_u32(attrs@, name@)),
{
    match get_attr(attrs, name) {
        None => Err(missing(name)),
        Some(v) => match parse_u32(v.as_str()) {
            Some(n) => Ok(n),
            None => Err(invalid(name, v)),
        },
    }
}

fn optional_i32(attrs: &Vec<XmlAttr>, name: &str, default: i32) -> (r: Result<i32, XmlError>)
    ensures
        spec_outcome_is(r, spec_optional_i32(attrs@, name@, default)),
{
    match get_attr(attrs, name) {
        None => Ok(default),
        Some(v) => match parse_i32(v.as_str()) {
            Some(n) => Ok(n),
            None => Err(invalid(name, v)),
        },
    }
}

fn float_attr(attrs: &Vec<XmlAttr>, name: &str, reads: bool) -> (r: Result<Option<String>, XmlError>)
    ensures
        spec_outcome_is(r, spec_float_attr(attrs@, name@, reads)),
{
    match get_attr(attrs, name) {
        None => Ok(None),
        Some(v) => if reads {
            Ok(Some(v))
        } else {
            Err(invalid(name, v))
        },
    }
}

/// The frame an empty `<frame>` tag of a skin defines; `floats` says
/// whether its `scale` and `alpha` read as numbers.
pub open spec fn spec_strict_frame(attrs: Seq<XmlAttr>, floats: (bool, bool)) -> Result<StrictFrame, StrictError> {
    match spec_required(attrs, "id"@) {
        Err(e) => Err(e),
        Ok(id) => match spec_required(attrs, "file"@) {
            Err(e) => Err(e),
            Ok(file) => match spec_required_u32(attrs, "x"@) {
                Err(e) => Err(e),
                Ok(x) => match spec_required_u32(attrs, "y"@) {
                    Err(e) => Err(e),
                    Ok(y) => match spec_required_u32(attrs, "w"@) {
                        Err(e) => Err(e),
                        Ok(w) => match spec_required_u32(attrs, "h"@) {
                            Err(e) => Err(e),
                            Ok(h) => match spec_float_attr(attrs, "scale"@, floats.0) {
                                Err(e) => Err(e),
                                Ok(scale) => match spec_float_attr(attrs, "alpha"@, floats.1) {
                                    Err(e) => Err(e),
                                    Ok(alpha) => Ok(StrictFrame { id, file, x, y, w, h, scale, alpha }),
                                },
                            },
                        },
                    },
                },
            },
        },
    }
}

fn strict_frame(attrs: &Vec<XmlAttr>, floats: (bool, bool)) -> (r: Result<StrictFrame, XmlError>)
    ensures
        spec_outcome_is(r, spec_strict_frame(attrs@, floats)),
{
    let id = match required(attrs, "id") {
        Ok(v) => v,
        Err(e) => return Err(e),
    };
    let file = match required(attrs, "file") {
        Ok(v) => v,
        Err(e) => return Err(e),
    };
    let x = match required_u32(attrs, "x") {
        Ok(v) => v,
        Err(e) => return Err(e),
    };
    let y = match required_u32(attrs, "y") {
        Ok(v) => v,
        Err(e) => return Err(e),
    };
    let w = match required_u32(attrs, "w") {
        Ok(v) => v,
        Err(e) => return Err(e),
    };
    let h = match required_u32(attrs, "h") {
        Ok(v) => v,
        Err(e) => return Err(e),
    };
    let scale = match float_attr(attrs, "scale", floats.0) {
        Ok(v) => v,
        Err(e) => return Err(e),
    };
    let alpha = match float_attr(attrs, "alpha", floats.1) {
        Ok(v) => v,
        Err(e) => return Err(e),
    };
    Ok(StrictFrame { id, file, x, y, w, h, scale, alpha })
}

/// The entity an empty `<entity>` tag defines on `layer` (its own `layer`
/// attribute wins when it reads).
pub open spec fn spec_strict_entity(attrs: Seq<XmlAttr>, layer: u32) -> Result<StrictEntity, StrictError> {
    match spec_required(attrs, "id"@) {
        Err(e) => Err(e),
        Ok(id) => match spec_optional_i32(attrs, "x"@, 0) {
            Err(e) => Err(e),
            Ok(x) => match spec_optional_i32(attrs, "y"@, 0) {
                Err(e) => Err(e),
                Ok(y) => Ok(
                    StrictEntity {
                        id,
                        sprite: spec_get_attr(attrs, "sprite"@),
                        x,
                        y,
                        head_sprite: spec_get_attr(attrs, "head"@),
                        body_sprite: spec_get_attr(attrs, "body"@),
                        tail_sprite: spec_get_attr(attrs, "tail"@),
                        layer: match spec_required_u32(attrs, "layer"@) {
                            Ok(n) => n,
                            Err(_) => layer,
                        },
                    },
                ),
            },
        },
    }
}

fn strict_entity(attrs: &Vec<XmlAttr>, layer: u32) -> (r: Result<StrictEntity, XmlError>)
    ensures
        spec_outcome_is(r, spec_strict_entity(attrs@, layer)),
{
    let id = match required(attrs, "id") {
        Ok(v) => v,
        Err(e) => return Err(e),
    };
    let sprite = get_attr(attrs, "sprite");
    let x = match optional_i32(attrs, "x", 0) {
        Ok(v) => v,
        Err(e) => return Err(e),
    };
    let y = match optional_i32(attrs, "y", 0) {
        Ok(v) => v,
        Err(e) => return Err(e),
    };
    let head_sprite = get_attr(attrs, "head");
    let body_sprite = get_attr(attrs, "body");
    let tail_sprite = get_attr(attrs, "tail");
    let layer = match required_u32(attrs, "layer") {
        Ok(n) => n,
        Err(_) => layer,
    };
    Ok(StrictEntity { id, sprite, x, y, head_sprite, body_sprite, tail_sprite, layer })
}

/// The name, width, height and judgment line a `<skin>` tag must give.
pub open spec fn spec_strict_header(attrs: Seq<XmlAttr>) -> Result<(String, u32, u32, u32), StrictError> {
    match spec_required(attrs, "name"@) {
        Err(e) => Err(e),
        Ok(name) => match spec_required_u32(attrs, "width"@) {
            Err(e) => Err(e),
            Ok(w) => match spec_required_u32(attrs, "height"@) {
                Err(e) => Err(e),
                Ok(h) => match spec_required_u32(attrs, "judgment_line"@) {
                    Err(e) => Err(e),
                    Ok(j) => Ok((name, w, h, j)),
                },
            },
        },
    }
}

fn strict_header(attrs: &Vec<XmlAttr>) -> (r: Result<(String, u32, u32, u32), XmlError>)
    ensures
        spec_outcome_is(r, spec_strict_header(attrs@)),
{
    let name = match required(attrs, "name") {
        Ok(v) => v,
        Err(e) => return Err(e),
    };
    let w = match required_u32(attrs, "width") {
        Ok(v) => v,
        Err(e) => return Err(e),
    };
    let h = match required_u32(attrs, "height") {
        Ok(v) => v,
        Err(e) => return Err(e),
    };
    let j = match required_u32(attrs, "judgment_line") {
        Ok(v) => v,
        Err(e) => return Err(e),
    };
    Ok((name, w, h, j))
}

/// "true", "1" or "yes".
pub open spec fn spec_truthy(s: Seq<char>) -> bool {
    s == "true"@ || s == "1"@ || s == "yes"@
}

/// A sprite as its `<sprite>` tag opens it: its required id, its frame speed
/// (50 unless a `u32` is given) and whether it loops (unless told otherwise).
pub open spec fn spec_strict_sprite_head(attrs: Seq<XmlAttr>) -> Result<StrictSpriteView, StrictError> {
    match spec_required(attrs, "id"@) {
        Err(e) => Err(e),
        Ok(id) => Ok(
            StrictSpriteView {
                id,
                frame_refs: Seq::empty(),
                frame_speed_ms: match spec_get_attr(attrs, "framespeed"@) {
                    Some(v) => match spec_parse_u32(v@) {
                        Some(n) => n,
                        None => 50,
                    },
                    None => 50,
                },
                loop_animation: match spec_get_attr(attrs, "loop"@) {
                    Some(v) => spec_truthy(lowercase_of(v@)),
                    None => true,
                },
            },
        ),
    }
}

fn strict_sprite_head(attrs: &Vec<XmlAttr>) -> (r: Result<StrictSprite, XmlError>)
    ensures
        match (r, spec_strict_sprite_head(attrs@)) {
            (Ok(s), Ok(sv)) => s@ == sv,
            (Err(e), Err(se)) => spec_error_is(e, se),
            _ => false,
        },
{
    let id = match required(attrs, "id") {
        Ok(v) => v,
        Err(e) => return Err(e),
    };
    let frame_speed_ms = match get_attr(attrs, "framespeed") {
        Some(v) => match parse_u32(v.as_str()) {
            Some(n) => n,
            None => 50,
        },
        None => 50,
    };
    let loop_animation = match get_attr(attrs, "loop") {
        Some(v) => {
            let low = to_lowercase(v.as_str());
            str_eq(low.as_str(), "true") || str_eq(low.as_str(), "1") || str_eq(low.as_str(), "yes")
        },
        None => true,
    };
    let s = StrictSprite { id, frame_refs: Vec::new(), frame_speed_ms, loop_animation };
    assert(s@.frame_refs =~= Seq::<String>::empty());
    Ok(s)
}

/// Where the strict reader is: between skins, inside a skin (with the
/// layers opened so far), or inside a sprite of a skin.
pub ghost enum StrictMode {
    Top,
    Skin { skin: StrictSkinView, layer: int },
    Sprite { skin: StrictSkinView, layer: int, sprite: StrictSpriteView },
}

/// `skin` with `sprite` added.
pub open spec fn spec_with_sprite(skin: StrictSkinView, sprite: StrictSpriteView) -> StrictSkinView {
    StrictSkinView { sprites: skin.sprites.push(sprite), ..skin }
}

/// The skins read once the input ends in `mode`: an open sprite is added to
/// its skin and an open skin is kept.
pub open spec fn spec_strict_end(mode: StrictMode, skins: Seq<StrictSkinView>) -> Seq<StrictSkinView> {
    match mode {
        StrictMode::Top => skins,
        StrictMode::Skin { skin, layer } => skins.push(skin),
        StrictMode::Sprite { skin, layer, sprite } => skins.push(spec_with_sprite(skin, sprite)),
    }
}

/// The skins of the events from `i` on, in `mode`, after `skins`: `None`
/// where a skin opens more layers than a `u32` counts. Between skins, a
/// start or empty `<skin>` tag opens a skin (its header must read); inside a
/// skin, `<layer>` tags count layers, `<sprite>` tags open sprites, empty
/// `<frame>` and `<entity>` tags add frames and entities, and `</skin>`
/// closes it; inside a sprite, empty `<frame>` tags name frames and
/// `</sprite>` closes it. A tag name that is not UTF-8 (where it is read) or
/// a reader error is a parse error; the end of the input ends the walk.
pub open spec fn spec_strict_walk(
    events: Seq<XmlEvent>,
    floats: Seq<(bool, bool)>,
    i: int,
    mode: StrictMode,
    skins: Seq<StrictSkinView>,
) -> Option<Result<Seq<StrictSkinView>, StrictError>>
    decreases events.len() - i, 1int,
{
    if i < 0 || i >= events.len() {
        Some(Ok(spec_strict_end(mode, skins)))
    } else {
        match events[i] {
            XmlEvent::Eof => Some(Ok(spec_strict_end(mode, skins))),
            XmlEvent::Error(m) => Some(Err(StrictError::Parse(m))),
            XmlEvent::Start(tag) => match mode {
                StrictMode::Top => spec_strict_open(events, floats, i, tag, skins),
                StrictMode::Skin { skin, layer } => match tag.name {
                    Err(m) => Some(Err(StrictError::Parse(m))),
                    Ok(n) => if n@ == "layer"@ {
                        if layer >= u32::MAX {
                            None
                        } else {
                            spec_strict_walk(events, floats, i + 1, StrictMode::Skin { skin, layer: layer + 1 }, skins)
                        }
                    } else if n@ == "sprite"@ {
                        match tag.attrs {
                            Err(m) => Some(Err(StrictError::Parse(m))),
                            Ok(a) => match spec_strict_sprite_head(a@) {
                                Err(e) => Some(Err(e)),
                                Ok(sp) => spec_strict_walk(
                                    events,
                                    floats,
                                    i + 1,
                                    StrictMode::Sprite { skin, layer, sprite: sp },
                                    skins,
                                ),
                            },
                        }
                    } else {
                        spec_strict_walk(events, floats, i + 1, mode, skins)
                    },
                },
                StrictMode::Sprite { .. } => spec_strict_walk(events, floats, i + 1, mode, skins),
            },
            XmlEvent::Empty(tag) => match mode {
                StrictMode::Top => spec_strict_open(events, floats, i, tag, skins),
                StrictMode::Skin { skin, layer } => match tag.name {
                    Err(m) => Some(Err(StrictError::Parse(m))),
                    Ok(n) => if n@ == "frame"@ {
                        match tag.attrs {
                            Err(m) => Some(Err(StrictError::Parse(m))),
                            Ok(a) => match spec_strict_frame(a@, floats[i]) {
                                Err(e) => Some(Err(e)),
                                Ok(f) => spec_strict_walk(
                                    events,
                                    floats,
                                    i + 1,
                                    StrictMode::Skin {
                                        skin: StrictSkinView { frames: skin.frames.push(f), ..skin },
                                        layer,
                                    },
                                    skins,
                                ),
                            },
                        }
                    } else if n@ == "entity"@ {
                        match tag.attrs {
                            Err(m) => Some(Err(StrictError::Parse(m))),
                            Ok(a) => match spec_strict_entity(a@, layer as u32) {
                                Err(e) => Some(Err(e)),
                                Ok(en) => spec_strict_walk(
                                    events,
                                    floats,
                                    i + 1,
                                    StrictMode::Skin {
                                        skin: StrictSkinView { entities: skin.entities.push(en), ..skin },
                                        layer,
                                    },
                                    skins,
                                ),
                            },
                        }
                    } else {
                        spec_strict_walk(events, floats, i + 1, mode, skins)
                    },
                },
                StrictMode::Sprite { skin, layer, sprite } => match tag.name {
                    Err(m) => Some(Err(StrictError::Parse(m))),
                    Ok(n) => if n@ == "frame"@ {
                        match tag.attrs {
                            Err(m) => Some(Err(StrictError::Parse(m))),
                            Ok(a) => spec_strict_walk(
                                events,
                                floats,
                                i + 1,
                                StrictMode::Sprite {
                                    skin,
                                    layer,
                                    sprite: match spec_get_attr(a@, "ref"@) {
                                        Some(r) => StrictSpriteView {
                                            frame_refs: sprite.frame_refs.push(r),
                                            ..sprite
                                        },
                                        None => sprite,
                                    },
                                },
                                skins,
                            ),
                        }
                    } else {
                        spec_strict_walk(events, floats, i + 1, mode, skins)
                    },
                },
            },
            XmlEvent::End(name) => match mode {
                StrictMode::Top => spec_strict_walk(events, floats, i + 1, mode, skins),
                StrictMode::Skin { skin, layer } => match name {
                    Err(m) => Some(Err(StrictError::Parse(m))),
                    Ok(n) => if n@ == "skin"@ {
                        spec_strict_walk(events, floats, i + 1, StrictMode::Top, skins.push(skin))
                    } else {
                        spec_strict_walk(events, floats, i + 1, mode, skins)
                    },
                },
                StrictMode::Sprite { skin, layer, sprite } => match name {
                    Err(m) => Some(Err(StrictError::Parse(m))),
                    Ok(n) => if n@ == "sprite"@ {
                        spec_strict_walk(
                            events,
                            floats,
                            i + 1,
                            StrictMode::Skin { skin: spec_with_sprite(skin, sprite), layer },
                            skins,
                        )
                    } else {
                        spec_strict_walk(events, floats, i + 1, mode, skins)
                    },
                },
            },
            XmlEvent::Other => spec_strict_walk(events, floats, i + 1, mode, skins),
        }
    }
}

/// A start or empty tag between skins: a `<skin>` tag opens a skin when its
/// attributes and header read; any other tag is passed over.
pub open spec fn spec_strict_open(
    events: Seq<XmlEvent>,
    floats: Seq<(bool, bool)>,
    i: int,
    tag: XmlTag,
    skins: Seq<StrictSkinView>,
) -> Option<Result<Seq<StrictSkinView>, StrictError>>
    decreases events.len() - i, 0int,
{
    if 0 <= i < events.len() {
        match tag.name {
            Err(m) => Some(Err(StrictError::Parse(m))),
            Ok(n) => if n@ == "skin"@ {
                match tag.attrs {
                    Err(m) => Some(Err(StrictError::Parse(m))),
                    Ok(a) => match spec_strict_header(a@) {
                        Err(e) => Some(Err(e)),
                        Ok((name, width, height, judgment_line_y)) => spec_strict_walk(
                            events,
                            floats,
                            i + 1,
                            StrictMode::Skin {
                                skin: StrictSkinView {
                                    name,
                                    width,
                                    height,
                                    judgment_line_y,
                                    frames: Seq::empty(),
                                    sprites: Seq::empty(),
                                    entities: Seq::empty(),
                                },
                                layer: 0,
                            },
                            skins,
                        ),
                    },
                }
            } else {
                spec_strict_walk(events, floats, i + 1, StrictMode::Top, skins)
            },
        }
    } else {
        Some(Ok(skins))
    }
}

/// `r` is the outcome of the strict reader over `events`.
pub open spec fn spec_strict_result(
    r: Option<Result<Vec<StrictSkin>, XmlError>>,
    events: Seq<XmlEvent>,
    floats: Seq<(bool, bool)>,
) -> bool {
    match (r, spec_strict_walk(events, floats, 0, StrictMode::Top, Seq::empty())) {
        (None, None) => true,
        (Some(Ok(skins)), Some(Ok(sv))) => skins@.map_values(|k: StrictSkin| k@) == sv,
        (Some(Err(e)), Some(Err(se))) => spec_error_is(e, se),
        _ => false,
    }
}

/// A start or empty tag between skins: the header of a `<skin>` tag, or
/// `None` for any other tag.
fn open_tag(tag: &XmlTag) -> (r: Result<Option<(String, u32, u32, u32)>, XmlError>)
    ensures
        match tag.name {
            Err(m) => r is Err && spec_error_is(r->Err_0, StrictError::Parse(m)),
            Ok(n) => if n@ == "skin"@ {
                match tag.attrs {
                    Err(m) => r is Err && spec_error_is(r->Err_0, StrictError::Parse(m)),
                    Ok(a) => match (r, spec_strict_header(a@)) {
                        (Ok(Some(h)), Ok(sh)) => h == sh,
                        (Err(e), Err(se)) => spec_error_is(e, se),
                        _ => false,
                    },
                }
            } else {
                r matches Ok(None)
            },
        },
{
    match &tag.name {
        Err(m) => Err(XmlError::Parse(m.clone())),
        Ok(n) => if str_eq(n.as_str(), "skin") {
            match &tag.attrs {
                Err(m) => Err(XmlError::Parse(m.clone())),
                Ok(a) => match strict_header(a) {
                    Err(e) => Err(e),
                    Ok(h) => Ok(Some(h)),
                },
            }
        } else {
            Ok(None)
        },
    }
}

/// Where the reader's locals say it is.
#[derive(Clone, Copy, PartialEq, Eq, Structural)]
enum StrictPlace {
    Top,
    Skin,
    Sprite,
}

/// The walk mode held by the locals of `read_strict_document`.
spec fn spec_strict_mode_of(
    place: StrictPlace,
    name: String,
    width: u32,
    height: u32,
    judgment_line_y: u32,
    frames: Seq<StrictFrame>,
    sprites: Seq<StrictSprite>,
    entities: Seq<StrictEntity>,
    layer: u32,
    sprite: StrictSpriteView,
) -> StrictMode {
    let skin = StrictSkinView {
        name,
        width,
        height,
        judgment_line_y,
        frames,
        sprites: sprites.map_values(|s: StrictSprite| s@),
        entities,
    };
    match place {
        StrictPlace::Top => StrictMode::Top,
        StrictPlace::Skin => StrictMode::Skin { skin, layer: layer as int },
        StrictPlace::Sprite => StrictMode::Sprite { skin, layer: layer as int, sprite },
    }
}

/// Read the skins of a resources document from its reader events with the
/// strict reader; `floats[i]` says whether the `scale` and `alpha` of event
/// `i` read as numbers. `None` where a skin opens more layers than a `u32`
/// counts.
pub fn read_strict_document(events: &Vec<XmlEvent>, floats: &Vec<(bool, bool)>) -> (r: Option<Result<Vec<StrictSkin>, XmlError>>)
    requires
        floats@.len() == events@.len(),
    ensures
        spec_strict_result(r, events@, floats@),
{
    let ghost total = spec_strict_walk(events@, floats@, 0, StrictMode::Top, Seq::empty());
    let mut skins: Vec<StrictSkin> = Vec::new();
    let ghost mut sv: Seq<StrictSkinView> = Seq::empty();
    let mut place = StrictPlace::Top;
    let mut name = String::new();
    let mut width: u32 = 0;
    let mut height: u32 = 0;
    let mut judgment_line_y: u32 = 0;
    let mut frames: Vec<StrictFrame> = Vec::new();
    let mut sprites: Vec<StrictSprite> = Vec::new();
    let mut entities: Vec<StrictEntity> = Vec::new();
    let mut layer: u32 = 0;
    let mut sprite = StrictSprite { id: String::new(), frame_refs: Vec::new(), frame_speed_ms: 0, loop_animation: false };
    let mut i: usize = 0;
    assert(skins@.map_values(|k: StrictSkin| k@) =~= sv);
    loop
        invariant
            i <= events@.len(),
            floats@.len() == events@.len(),
            total == spec_strict_walk(events@, floats@, 0, StrictMode::Top, Seq::empty()),
            skins@.map_values(|k: StrictSkin| k@) == sv,
            total == spec_strict_walk(
                events@,
                floats@,
                i as int,
                spec_strict_mode_of(place, name, width, height, judgment_line_y, frames@, sprites@, entities@, layer, sprite@),
                sv,
            ),
        decreases events@.len() - i,
    {
        let at_end = i == events.len() || matches!(events[i], XmlEvent::Eof);
        if at_end {
            if place != StrictPlace::Top {
                if place == StrictPlace::Sprite {
                    let ghost before = sprites@;
                    sprites.push(sprite);
                    assert(sprites@.map_values(|s: StrictSprite| s@) =~= before.map_values(|s: StrictSprite| s@).push(sprites@.last()@));
                }
                let skin = StrictSkin { name, width, height, judgment_line_y, frames, sprites, entities };
                proof {
                    sv = sv.push(skin@);
                }
                skins.push(skin);
                assert(skins@.map_values(|k: StrictSkin| k@) =~= sv);
            }
            return Some(Ok(skins));
        }
        match &events[i] {
            XmlEvent::Eof => {
                return Some(Ok(skins));
            },
            XmlEvent::Error(m) => {
                return Some(Err(XmlError::Parse(m.clone())));
            },
            XmlEvent::Start(tag) => {
                if place == StrictPlace::Top {
                    assert(total == spec_strict_open(events@, floats@, i as int, *tag, sv));
                    match open_tag(tag) {
                        Err(e) => {
                            return Some(Err(e));
                        },
                        Ok(None) => {},
                        Ok(Some((nm, w, h, j))) => {
                            name = nm;
                            width = w;
                            height = h;
                            judgment_line_y = j;
                            frames = Vec::new();
                            sprites = Vec::new();
                            entities = Vec::new();
                            layer = 0;
                            place = StrictPlace::Skin;
                            assert(sprites@.map_values(|s: StrictSprite| s@) =~= Seq::<StrictSpriteView>::empty());
                        },
                    }
                } else if place == StrictPlace::Skin {
                    match &tag.name {
                        Err(m) => {
                            return Some(Err(XmlError::Parse(m.clone())));
                        },
                        Ok(n) => {
                            if str_eq(n.as_str(), "layer") {
                                if layer == u32::MAX {
                                    return None;
                                }
                                layer = layer + 1;
                            } else if str_eq(n.as_str(), "sprite") {
                                match &tag.attrs {
                                    Err(m) => {
                                        return Some(Err(XmlError::Parse(m.clone())));
                                    },
                                    Ok(a) => {
                                        match strict_sprite_head(a) {
                                            Err(e) => {
                                                return Some(Err(e));
                                            },
                                            Ok(sp) => {
                                                sprite = sp;
                                                place = StrictPlace::Sprite;
                                            },
                                        }
                                    },
                                }
                            }
                        },
                    }
                }
            },
            XmlEvent::Empty(tag) => {
                if place == StrictPlace::Top {
                    assert(total == spec_strict_open(events@, floats@, i as int, *tag, sv));
                    match open_tag(tag) {
                        Err(e) => {
                            return Some(Err(e));
                        },
                        Ok(None) => {},
                        Ok(Some((nm, w, h, j))) => {
                            name = nm;
                            width = w;
                            height = h;
                            judgment_line_y = j;
                            frames = Vec::new();
                            sprites = Vec::new();
                            entities = Vec::new();
                            layer = 0;
                            place = StrictPlace::Skin;
                            assert(sprites@.map_values(|s: StrictSprite| s@) =~= Seq::<StrictSpriteView>::empty());
                        },
                    }
                } else {
                match &tag.name {
                    Err(m) => {
                        return Some(Err(XmlError::Parse(m.clone())));
                    },
                    Ok(n) => {
                        if place == StrictPlace::Skin {
                            if str_eq(n.as_str(), "frame") {
                                match &tag.attrs {
                                    Err(m) => {
                                        return Some(Err(XmlError::Parse(m.clone())));
                                    },
                                    Ok(a) => {
                                        match strict_frame(a, floats[i]) {
                                            Err(e) => {
                                                return Some(Err(e));
                                            },
                                            Ok(f) => {
                                                frames.push(f);
                                            },
                                        }
                                    },
                                }
                            } else if str_eq(n.as_str(), "entity") {
                                match &tag.attrs {
                                    Err(m) => {
                                        return Some(Err(XmlError::Parse(m.clone())));
                                    },
                                    Ok(a) => {
                                        match strict_entity(a, layer) {
                                            Err(e) => {
                                                return Some(Err(e));
                                            },
                                            Ok(en) => {
                                                entities.push(en);
                                            },
                                        }
                                    },
                                }
                            }
                        } else {
                            if str_eq(n.as_str(), "frame") {
                                match &tag.attrs {
                                    Err(m) => {
                                        return Some(Err(XmlError::Parse(m.clone())));
                                    },
                                    Ok(a) => {
                                        match get_attr(a, "ref") {
                                            Some(r) => {
                                                sprite.frame_refs.push(r);
                                            },
                                            None => {},
                                        }
                                    },
                                }
                            }
                        }
                    },
                }
                }
            },
            XmlEvent::End(end_name) => {
                if place != StrictPlace::Top {
                    match end_name {
                        Err(m) => {
                            return Some(Err(XmlError::Parse(m.clone())));
                        },
                        Ok(n) => {
                            if place == StrictPlace::Sprite {
                                if str_eq(n.as_str(), "sprite") {
                                    let ghost before = sprites@;
                                    sprites.push(sprite);
                                    assert(sprites@.map_values(|s: StrictSprite| s@) =~= before.map_values(|s: StrictSprite| s@).push(sprites@.last()@));
                                    sprite = StrictSprite { id: String::new(), frame_refs: Vec::new(), frame_speed_ms: 0, loop_animation: false };
                                    place = StrictPlace::Skin;
                                }
                            } else if str_eq(n.as_str(), "skin") {
                                let skin = StrictSkin { name, width, height, judgment_line_y, frames, sprites, entities };
                                proof {
                                    sv = sv.push(skin@);
                                }
                                skins.push(skin);
                                assert(skins@.map_values(|k: StrictSkin| k@) =~= sv);
                                name = String::new();
                                frames = Vec::new();
                                sprites = Vec::new();
                                entities = Vec::new();
                                place = StrictPlace::Top;
                            }
                        },
                    }
                }
            },
            XmlEvent::Other => {},
        }
        i = i + 1;
    }
}

} // verus!
