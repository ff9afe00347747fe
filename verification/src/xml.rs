//! Skin XML documents read as the sequence of events an XML reader yields:
//! which skins they define (header and entities) and where their sprites
//! start.
use vstd::prelude::*;
use crate::numbers::{parse_i32, parse_u32, spec_parse_i32, spec_parse_u32};
use crate::skin::{EntityDef, SkinDef, SkinView, XmlError};
use crate::text::str_eq;
use vstd::string::StringExecFns;
use crate::text::{utf8_text, utf8_text_of};
use quick_xml::events::attributes::Attributes;
use quick_xml::events::Event;
use quick_xml::Reader;

verus! {

/// An attribute of an element: its name and value, each absent when not
/// valid UTF-8.
#[derive(Debug, Clone)]
pub struct XmlAttr {
    pub key: Option<String>,
    pub value: Option<String>,
}

/// A start or empty-element tag: its name (or the error of reading it as
/// UTF-8) and its attributes (or the error of reading them).
#[derive(Debug)]
pub struct XmlTag {
    pub name: Result<String, String>,
    pub attrs: Result<Vec<XmlAttr>, String>,
}

/// One event of the XML reader.
#[derive(Debug)]
pub enum XmlEvent {
    Start(XmlTag),
    Empty(XmlTag),
    End(Result<String, String>),
    Eof,
    Error(String),
    Other,
}

/// The value of the first attribute named `name`.
pub open spec fn spec_get_attr(attrs: Seq<XmlAttr>, name: Seq<char>) -> Option<String>
    decreases attrs.len(),
{
    if attrs.len() == 0 {
        None
    } else if attrs[0].key matches Some(k) && k@ == name {
        attrs[0].value
    } else {
        spec_get_attr(attrs.drop_first(), name)
    }
}

/// A `u32` attribute, or `default` when absent or not a `u32`.
pub open spec fn spec_attr_u32(attrs: Seq<XmlAttr>, name: Seq<char>, default: u32) -> u32 {
    match spec_get_attr(attrs, name) {
        Some(v) => match spec_parse_u32(v@) {
            Some(n) => n,
            None => default,
        },
        None => default,
    }
}

/// An `i32` attribute, or `default` when absent or not an `i32`.
pub open spec fn spec_attr_i32(attrs: Seq<XmlAttr>, name: Seq<char>, default: i32) -> i32 {
    match spec_get_attr(attrs, name) {
        Some(v) => match spec_parse_i32(v@) {
            Some(n) => n,
            None => default,
        },
        None => default,
    }
}

/// The value of the first attribute named `name`.
pub fn get_attr(attrs: &Vec<XmlAttr>, name: &str) -> (r: Option<String>)
    ensures
        r == spec_get_attr(attrs@, name@),
{
    let mut i: usize = 0;
    assert(attrs@.subrange(0, attrs@.len() as int) =~= attrs@);
    while i < attrs.len()
        invariant
            i <= attrs@.len(),
            spec_get_attr(attrs@, name@) == spec_get_attr(
                attrs@.subrange(i as int, attrs@.len() as int),
                name@,
            ),
        decreases attrs@.len() - i,
    {
        let rest = Ghost(attrs@.subrange(i as int, attrs@.len() as int));
        assert(rest@.drop_first() =~= attrs@.subrange(i + 1, attrs@.len() as int));
        assert(rest@[0] == attrs@[i as int]);
        match &attrs[i].key {
            Some(k) => {
                if str_eq(k.as_str(), name) {
                    return match &attrs[i].value {
                        Some(v) => Some(v.clone()),
                        None => None,
                    };
                }
            },
            None => {},
        }
        i = i + 1;
    }
    None
}

/// A `u32` attribute, or `default` when absent or not a `u32`.
pub fn attr_u32(attrs: &Vec<XmlAttr>, name: &str, default: u32) -> (r: u32)
    ensures
        r == spec_attr_u32(attrs@, name@, default),
{
    match get_attr(attrs, name) {
        Some(v) => match parse_u32(v.as_str()) {
            Some(n) => n,
            None => default,
        },
        None => default,
    }
}

/// An `i32` attribute, or `default` when absent or not an `i32`.
pub fn attr_i32(attrs: &Vec<XmlAttr>, name: &str, default: i32) -> (r: i32)
    ensures
        r == spec_attr_i32(attrs@, name@, default),
{
    match get_attr(attrs, name) {
        Some(v) => match parse_i32(v.as_str()) {
            Some(n) => n,
            None => default,
        },
        None => default,
    }
}

/// The entity an `<entity>` element defines on the given layer.
pub open spec fn spec_entity(attrs: Seq<XmlAttr>, layer: u32) -> EntityDef {
    EntityDef {
        id: spec_get_attr(attrs, "id"@),
        sprite: spec_get_attr(attrs, "sprite"@),
        head_sprite: spec_get_attr(attrs, "head"@),
        body_sprite: spec_get_attr(attrs, "body"@),
        tail_sprite: spec_get_attr(attrs, "tail"@),
        x: spec_attr_i32(attrs, "x"@, 0),
        y: spec_attr_i32(attrs, "y"@, 0),
        layer,
    }
}

fn entity_from(attrs: &Vec<XmlAttr>, layer: u32) -> (e: EntityDef)
    ensures
        e == spec_entity(attrs@, layer),
{
    EntityDef {
        id: get_attr(attrs, "id"),
        sprite: get_attr(attrs, "sprite"),
        head_sprite: get_attr(attrs, "head"),
        body_sprite: get_attr(attrs, "body"),
        tail_sprite: get_attr(attrs, "tail"),
        x: attr_i32(attrs, "x", 0),
        y: attr_i32(attrs, "y", 0),
        layer,
    }
}

/// Header of a `<skin>` element: name (default "unnamed") and size and
/// judgment line (defaults 800, 600 and 480).
pub ghost struct SkinHeader {
    pub name: Seq<char>,
    pub width: u32,
    pub height: u32,
    pub judgment_line_y: u32,
}

pub open spec fn spec_skin_header(attrs: Seq<XmlAttr>) -> SkinHeader {
    SkinHeader {
        name: match spec_get_attr(attrs, "name"@) {
            Some(n) => n@,
            None => "unnamed"@,
        },
        width: spec_attr_u32(attrs, "width"@, 800),
        height: spec_attr_u32(attrs, "height"@, 600),
        judgment_line_y: spec_attr_u32(attrs, "judgment_line"@, 480),
    }
}

/// A finished skin.
pub open spec fn spec_skin_of(h: SkinHeader, entities: Seq<EntityDef>) -> SkinView {
    SkinView {
        name: h.name,
        width: h.width,
        height: h.height,
        judgment_line_y: h.judgment_line_y,
        entities,
    }
}

/// Where the document walk is: between top-level elements, inside a sprite,
/// or inside a skin (its header, the layers opened so far and its entities).
pub ghost enum DocMode {
    Top,
    Sprite,
    Skin { header: SkinHeader, layer: int, entities: Seq<EntityDef> },
}

/// What the document holds once the reader reports its end in `mode`: an
/// open skin is kept as it stands.
pub open spec fn spec_doc_end(mode: DocMode, skins: Seq<SkinView>, sprites: Seq<int>) -> Result<
    (Seq<SkinView>, Seq<int>),
    XmlError,
> {
    match mode {
        DocMode::Skin { header, layer, entities } => Ok(
            (skins.push(spec_skin_of(header, entities)), sprites),
        ),
        _ => Ok((skins, sprites)),
    }
}

/// The skins and sprite start positions of the events from `i` on, in
/// `mode`. Between elements, `<sprite>` and `<skin>` tags open a sprite or a
/// skin (their attributes must read); inside a sprite, empty `<frame>` tags
/// must have readable attributes and `</sprite>` closes it; inside a skin,
/// `<layer>` tags count layers, empty `<entity>` tags add entities on the
/// current layer and `</skin>` closes it. A tag name that is not UTF-8 or a
/// reader error ends the walk with a parse error; the end of the input ends
/// it with what was read.
pub open spec fn spec_doc_walk(
    events: Seq<XmlEvent>,
    i: int,
    mode: DocMode,
    skins: Seq<SkinView>,
    sprites: Seq<int>,
) -> Option<Result<(Seq<SkinView>, Seq<int>), XmlError>>
    decreases events.len() - i, 1int,
{
    if i < 0 || i >= events.len() {
        Some(spec_doc_end(mode, skins, sprites))
    } else {
        match events[i] {
            XmlEvent::Eof => Some(spec_doc_end(mode, skins, sprites)),
            XmlEvent::Error(m) => Some(Err(XmlError::Parse(m))),
            XmlEvent::Start(tag) => match tag.name {
                Err(m) => if mode is Sprite {
                    spec_doc_walk(events, i + 1, mode, skins, sprites)
                } else {
                    Some(Err(XmlError::Parse(m)))
                },
                Ok(n) => match mode {
                    DocMode::Top => spec_doc_open(events, i, n@, tag.attrs, skins, sprites),
                    DocMode::Sprite => spec_doc_walk(events, i + 1, mode, skins, sprites),
                    DocMode::Skin { header, layer, entities } => if n@ == "layer"@ && layer
                        >= u32::MAX {
                        None
                    } else {
                        spec_doc_walk(
                            events,
                            i + 1,
                            DocMode::Skin {
                                header,
                                layer: if n@ == "layer"@ {
                                    layer + 1
                                } else {
                                    layer
                                },
                                entities,
                            },
                            skins,
                            sprites,
                        )
                    },
                },
            },
            XmlEvent::Empty(tag) => match tag.name {
                Err(m) => Some(Err(XmlError::Parse(m))),
                Ok(n) => match mode {
                    DocMode::Top => spec_doc_open(events, i, n@, tag.attrs, skins, sprites),
                    DocMode::Sprite => if n@ == "frame"@ {
                        match tag.attrs {
                            Err(m) => Some(Err(XmlError::Parse(m))),
                            Ok(_) => spec_doc_walk(events, i + 1, mode, skins, sprites),
                        }
                    } else {
                        spec_doc_walk(events, i + 1, mode, skins, sprites)
                    },
                    DocMode::Skin { header, layer, entities } => if n@ == "entity"@ {
                        match tag.attrs {
                            Err(m) => Some(Err(XmlError::Parse(m))),
                            Ok(a) => spec_doc_walk(
                                events,
                                i + 1,
                                DocMode::Skin {
                                    header,
                                    layer,
                                    entities: entities.push(spec_entity(a@, layer as u32)),
                                },
                                skins,
                                sprites,
                            ),
                        }
                    } else {
                        spec_doc_walk(events, i + 1, mode, skins, sprites)
                    },
                },
            },
            XmlEvent::End(name) => match mode {
                DocMode::Top => spec_doc_walk(events, i + 1, mode, skins, sprites),
                DocMode::Sprite => match name {
                    Err(m) => Some(Err(XmlError::Parse(m))),
                    Ok(n) => if n@ == "sprite"@ {
                        spec_doc_walk(events, i + 1, DocMode::Top, skins, sprites)
                    } else {
                        spec_doc_walk(events, i + 1, mode, skins, sprites)
                    },
                },
                DocMode::Skin { header, layer, entities } => match name {
                    Err(m) => Some(Err(XmlError::Parse(m))),
                    Ok(n) => if n@ == "skin"@ {
                        spec_doc_walk(
                            events,
                            i + 1,
                            DocMode::Top,
                            skins.push(spec_skin_of(header, entities)),
                            sprites,
                        )
                    } else {
                        spec_doc_walk(events, i + 1, mode, skins, sprites)
                    },
                },
            },
            XmlEvent::Other => spec_doc_walk(events, i + 1, mode, skins, sprites),
        }
    }
}

/// A tag met between top-level elements: a sprite or a skin opens (when its
/// attributes read), anything else is passed over.
pub open spec fn spec_doc_open(
    events: Seq<XmlEvent>,
    i: int,
    name: Seq<char>,
    attrs: Result<Vec<XmlAttr>, String>,
    skins: Seq<SkinView>,
    sprites: Seq<int>,
) -> Option<Result<(Seq<SkinView>, Seq<int>), XmlError>>
    decreases events.len() - i, 0int,
{
    if 0 <= i < events.len() {
        if name == "sprite"@ {
            match attrs {
                Err(m) => Some(Err(XmlError::Parse(m))),
                Ok(_) => spec_doc_walk(events, i + 1, DocMode::Sprite, skins, sprites.push(i)),
            }
        } else if name == "skin"@ {
            match attrs {
                Err(m) => Some(Err(XmlError::Parse(m))),
                Ok(a) => spec_doc_walk(
                    events,
                    i + 1,
                    DocMode::Skin { header: spec_skin_header(a@), layer: 0, entities: Seq::empty() },
                    skins,
                    sprites,
                ),
            }
        } else {
            spec_doc_walk(events, i + 1, DocMode::Top, skins, sprites)
        }
    } else {
        Some(Ok((skins, sprites)))
    }
}


/// Skins (in document order) and the positions of the events that open
/// sprites, read from a skin document's events.
pub struct SkinDocument {
    pub skins: Vec<SkinDef>,
    pub sprite_starts: Vec<usize>,
}

/// Where the walk is between top-level elements, in a sprite or in a skin.
#[derive(Clone, Copy, PartialEq, Eq, Structural)]
enum Place {
    Top,
    Sprite,
    Skin,
}

/// The walk state held by the locals of `parse_skin_document`.
spec fn spec_mode_of(
    place: Place,
    name: String,
    width: u32,
    height: u32,
    judgment_line_y: u32,
    layer: u32,
    entities: Seq<EntityDef>,
) -> DocMode {
    match place {
        Place::Top => DocMode::Top,
        Place::Sprite => DocMode::Sprite,
        Place::Skin => DocMode::Skin {
            header: SkinHeader { name: name@, width, height, judgment_line_y },
            layer: layer as int,
            entities,
        },
    }
}

/// The document `d` holds the skins and sprite positions `s`.
pub open spec fn spec_document_matches(d: SkinDocument, s: (Seq<SkinView>, Seq<int>)) -> bool {
    &&& d.skins@.len() == s.0.len()
    &&& forall|k: int| 0 <= k < s.0.len() ==> #[trigger] d.skins@[k]@ == s.0[k]
    &&& d.sprite_starts@.len() == s.1.len()
    &&& forall|k: int| 0 <= k < s.1.len() ==> #[trigger] d.sprite_starts@[k] == s.1[k]
}

/// The document `d` read from `events`, as the walk gives it: `None` where
/// a skin opens more layers than a `u32` counts.
pub open spec fn spec_document_result(
    r: Option<Result<SkinDocument, XmlError>>,
    events: Seq<XmlEvent>,
) -> bool {
    match (r, spec_doc_walk(events, 0, DocMode::Top, Seq::empty(), Seq::empty())) {
        (Some(Ok(d)), Some(Ok(s))) => spec_document_matches(d, s),
        (Some(Err(e)), Some(Err(se))) => e == se,
        (None, None) => true,
        _ => false,
    }
}

/// Walk a skin document's events; `None` where a skin's layer count would
/// pass `u32::MAX`.
fn read_document(events: &Vec<XmlEvent>) -> (r: Option<Result<SkinDocument, XmlError>>)
    ensures
        spec_document_result(r, events@),
{
    let ghost total = spec_doc_walk(events@, 0, DocMode::Top, Seq::empty(), Seq::empty());
    let mut skins: Vec<SkinDef> = Vec::new();
    let mut sprite_starts: Vec<usize> = Vec::new();
    let mut place = Place::Top;
    let mut name = String::new();
    let mut width: u32 = 0;
    let mut height: u32 = 0;
    let mut judgment_line_y: u32 = 0;
    let mut layer: u32 = 0;
    let mut entities: Vec<EntityDef> = Vec::new();
    let mut i: usize = 0;
    let ghost mut skins_view: Seq<SkinView> = Seq::empty();
    let ghost mut sprites_view: Seq<int> = Seq::empty();
    loop
        invariant
            i <= events@.len(),
            total == spec_doc_walk(events@, 0, DocMode::Top, Seq::empty(), Seq::empty()),
            skins@.len() == skins_view.len(),
            forall|k: int| 0 <= k < skins_view.len() ==> #[trigger] skins@[k]@ == skins_view[k],
            sprite_starts@.len() == sprites_view.len(),
            forall|k: int|
                0 <= k < sprites_view.len() ==> #[trigger] sprite_starts@[k] == sprites_view[k],
            total == spec_doc_walk(
                events@,
                i as int,
                spec_mode_of(place, name, width, height, judgment_line_y, layer, entities@),
                skins_view,
                sprites_view,
            ),
        decreases events@.len() - i,
    {
        let at_end = i == events.len() || matches!(events[i], XmlEvent::Eof);
        if at_end {
            if place == Place::Skin {
                let ghost sv = spec_skin_of(
                    SkinHeader { name: name@, width, height, judgment_line_y },
                    entities@,
                );
                skins.push(SkinDef { name, width, height, judgment_line_y, entities });
                proof {
                    skins_view = skins_view.push(sv);
                }
            }
            return Some(Ok(SkinDocument { skins, sprite_starts }));
        }
        match &events[i] {
            XmlEvent::Eof => {
                return Some(Ok(SkinDocument { skins, sprite_starts }));
            },
            XmlEvent::Error(m) => {
                return Some(Err(XmlError::Parse(m.clone())));
            },
            XmlEvent::Start(tag) => {
                match &tag.name {
                    Err(m) => {
                        if place != Place::Sprite {
                            return Some(Err(XmlError::Parse(m.clone())));
                        }
                    },
                    Ok(n) => {
                        if place == Place::Top {
                            assert(total == spec_doc_open(
                                events@,
                                i as int,
                                n@,
                                tag.attrs,
                                skins_view,
                                sprites_view,
                            ));
                            if str_eq(n.as_str(), "sprite") {
                                match &tag.attrs {
                                    Err(m) => {
                                        return Some(Err(XmlError::Parse(m.clone())));
                                    },
                                    Ok(_) => {
                                        sprite_starts.push(i);
                                        proof {
                                            sprites_view = sprites_view.push(i as int);
                                        }
                                        place = Place::Sprite;
                                    },
                                }
                            } else if str_eq(n.as_str(), "skin") {
                                match &tag.attrs {
                                    Err(m) => {
                                        return Some(Err(XmlError::Parse(m.clone())));
                                    },
                                    Ok(a) => {
                                        name = match get_attr(a, "name") {
                                            Some(v) => v,
                                            None => String::from_str("unnamed"),
                                        };
                                        width = attr_u32(a, "width", 800);
                                        height = attr_u32(a, "height", 600);
                                        judgment_line_y = attr_u32(a, "judgment_line", 480);
                                        layer = 0;
                                        entities = Vec::new();
                                        place = Place::Skin;
                                    },
                                }
                            }
                        } else if place == Place::Skin {
                            if str_eq(n.as_str(), "layer") {
                                if layer == u32::MAX {
                                    return None;
                                }
                                layer = layer + 1;
                            }
                        }
                    },
                }
            },
            XmlEvent::Empty(tag) => {
                match &tag.name {
                    Err(m) => {
                        return Some(Err(XmlError::Parse(m.clone())));
                    },
                    Ok(n) => {
                        if place == Place::Top {
                            assert(total == spec_doc_open(
                                events@,
                                i as int,
                                n@,
                                tag.attrs,
                                skins_view,
                                sprites_view,
                            ));
                            if str_eq(n.as_str(), "sprite") {
                                match &tag.attrs {
                                    Err(m) => {
                                        return Some(Err(XmlError::Parse(m.clone())));
                                    },
                                    Ok(_) => {
                                        sprite_starts.push(i);
                                        proof {
                                            sprites_view = sprites_view.push(i as int);
                                        }
                                        place = Place::Sprite;
                                    },
                                }
                            } else if str_eq(n.as_str(), "skin") {
                                match &tag.attrs {
                                    Err(m) => {
                                        return Some(Err(XmlError::Parse(m.clone())));
                                    },
                                    Ok(a) => {
                                        name = match get_attr(a, "name") {
                                            Some(v) => v,
                                            None => String::from_str("unnamed"),
                                        };
                                        width = attr_u32(a, "width", 800);
                                        height = attr_u32(a, "height", 600);
                                        judgment_line_y = attr_u32(a, "judgment_line", 480);
                                        layer = 0;
                                        entities = Vec::new();
                                        place = Place::Skin;
                                    },
                                }
                            }
                        } else if place == Place::Sprite {
                            if str_eq(n.as_str(), "frame") {
                                if let Err(m) = &tag.attrs {
                                    return Some(Err(XmlError::Parse(m.clone())));
                                }
                            }
                        } else {
                            if str_eq(n.as_str(), "entity") {
                                match &tag.attrs {
                                    Err(m) => {
                                        return Some(Err(XmlError::Parse(m.clone())));
                                    },
                                    Ok(a) => {
                                        let e = entity_from(a, layer);
                                        entities.push(e);
                                    },
                                }
                            }
                        }
                    },
                }
            },
            XmlEvent::End(end_name) => {
                if place != Place::Top {
                    match end_name {
                        Err(m) => {
                            return Some(Err(XmlError::Parse(m.clone())));
                        },
                        Ok(n) => {
                            if place == Place::Sprite {
                                if str_eq(n.as_str(), "sprite") {
                                    place = Place::Top;
                                }
                            } else if str_eq(n.as_str(), "skin") {
                                let ghost sv = spec_skin_of(
                                    SkinHeader { name: name@, width, height, judgment_line_y },
                                    entities@,
                                );
                                skins.push(
                                    SkinDef {
                                        name,
                                        width,
                                        height,
                                        judgment_line_y,
                                        entities,
                                    },
                                );
                                proof {
                                    skins_view = skins_view.push(sv);
                                }
                                name = String::new();
                                entities = Vec::new();
                                place = Place::Top;
                            }
                        },
                    }
                }
            },
            XmlEvent::Other => {},
        }
        i = i + 1;
    }
}

/// Read the skins of a skin document from its events, and note where its
/// sprites start. No skin may open more layers than a `u32` counts (the
/// layer counter would overflow).
pub fn parse_skin_document(events: &Vec<XmlEvent>) -> (r: Result<SkinDocument, XmlError>)
    requires
        spec_doc_walk(events@, 0, DocMode::Top, Seq::empty(), Seq::empty()) is Some,
    ensures
        spec_document_result(Some(r), events@),
{
    match read_document(events) {
        Some(r) => r,
        None => {
            proof {
                assert(false);
            }
            Err(XmlError::Parse(String::new()))
        },
    }
}

/// One event of the XML reader before its text is read as UTF-8: a start
/// or empty-element tag as its content bytes (name, then attributes) and the
/// length of its name, the name bytes of an end tag, or any other event.
#[derive(Debug)]
pub enum RawXmlEvent {
    Start(Vec<u8>, usize),
    Empty(Vec<u8>, usize),
    End(Vec<u8>),
    Other,
}

/// A tag's name lies within its content.
pub open spec fn spec_raw_name_fits(e: RawXmlEvent) -> bool {
    match e {
        RawXmlEvent::Start(c, n) => n <= c@.len(),
        RawXmlEvent::Empty(c, n) => n <= c@.len(),
        _ => true,
    }
}

/// What quick-xml's reader over the text `xml` (`Reader::from_str`, with
/// `trim_text(true)`) yields from its `read_event` calls: the events before
/// the end of input or the first error, and the message of that error
/// (`None` at the end of input).
pub uninterp spec fn xml_reader_events(xml: Seq<char>) -> (Seq<RawXmlEvent>, Option<String>);

/// What quick-xml's `Attributes::new(content, name_len)` yields, collected
/// into the (key, value) bytes of each attribute or the message of the first
/// error.
pub uninterp spec fn xml_tag_attributes(content: Seq<char>, name_len: usize) -> Result<Seq<(Vec<u8>, Vec<u8>)>, String>;

/// Runs quick-xml's reader (`Reader::from_str`, text trimmed) over `xml`,
/// calling `read_event` until the end of input or the first error, and keeps
/// each event one for one. Claimed: the result is `xml_reader_events` of the
/// text, and the name of each tag lies within its content (the reader
/// measures the name inside the content it wraps).
#[verifier::external_body]
fn read_reader_events(xml: &str) -> (r: (Vec<RawXmlEvent>, Option<String>))
    ensures
        (r.0@, r.1) == xml_reader_events(xml@),
        forall|i: int| 0 <= i < r.0@.len() ==> spec_raw_name_fits(#[trigger] r.0@[i]),
{
    let mut reader = Reader::from_str(xml);
    reader.config_mut().trim_text(true);
    let mut out = Vec::new();
    loop {
        match reader.read_event() {
            Ok(Event::Start(e)) => out.push(RawXmlEvent::Start(e.to_vec(), e.name().0.len())),
            Ok(Event::Empty(e)) => out.push(RawXmlEvent::Empty(e.to_vec(), e.name().0.len())),
            Ok(Event::End(e)) => out.push(RawXmlEvent::End(e.name().0.to_vec())),
            Ok(Event::Eof) => return (out, None),
            Err(e) => return (out, Some(e.to_string())),
            Ok(_) => out.push(RawXmlEvent::Other),
        }
    }
}

/// Reads the attributes of a tag with quick-xml's `Attributes::new` over its
/// content from `name_len` on, collecting the (key, value) bytes or the first
/// error's message. Claimed: the result is `xml_tag_attributes` of the
/// arguments. `name_len` must lie within the content's bytes, as the
/// iterator slices them there.
#[verifier::external_body]
fn read_tag_attributes(content: &str, name_len: usize) -> (r: Result<Vec<(Vec<u8>, Vec<u8>)>, String>)
    requires
        name_len <= vstd::utf8::encode_utf8(content@).len(),
    ensures
        match r {
            Ok(v) => xml_tag_attributes(content@, name_len) == Ok::<Seq<(Vec<u8>, Vec<u8>)>, String>(v@),
            Err(m) => xml_tag_attributes(content@, name_len) == Err::<Seq<(Vec<u8>, Vec<u8>)>, String>(m),
        },
{
    Attributes::new(content, name_len)
        .map(|a| a.map(|a| (a.key.0.to_vec(), a.value.to_vec())))
        .collect::<Result<Vec<_>, _>>()
        .map_err(|e| e.to_string())
}

/// Text read as UTF-8, when it is.
pub open spec fn spec_utf8_opt(b: Seq<u8>) -> Option<String> {
    match utf8_text_of(b) {
        Ok(s) => Some(s),
        Err(_) => None,
    }
}

/// The attribute read from a key and a value.
pub open spec fn spec_attr_of(p: (Vec<u8>, Vec<u8>)) -> XmlAttr {
    XmlAttr { key: spec_utf8_opt(p.0@), value: spec_utf8_opt(p.1@) }
}

/// `t` is the tag read from content bytes `c` whose first `n` bytes are its
/// name: the name as UTF-8 text, and the attributes that quick-xml reads from
/// the content (when the content is UTF-8 text).
pub open spec fn spec_tag_of(t: XmlTag, c: Seq<u8>, n: usize) -> bool {
    &&& t.name == utf8_text_of(c.take(n as int))
    &&& match utf8_text_of(c) {
        Err(m) => t.attrs == Err::<Vec<XmlAttr>, String>(m),
        Ok(s) => match xml_tag_attributes(s@, n) {
            Err(m) => t.attrs == Err::<Vec<XmlAttr>, String>(m),
            Ok(ps) => t.attrs matches Ok(v) && v@ == ps.map_values(|p: (Vec<u8>, Vec<u8>)| spec_attr_of(p)),
        },
    }
}

/// `e` is the event read from the reader event `raw`.
pub open spec fn spec_event_of(e: XmlEvent, raw: RawXmlEvent) -> bool {
    match raw {
        RawXmlEvent::Start(c, n) => e matches XmlEvent::Start(t) && spec_tag_of(t, c@, n),
        RawXmlEvent::Empty(c, n) => e matches XmlEvent::Empty(t) && spec_tag_of(t, c@, n),
        RawXmlEvent::End(b) => e == XmlEvent::End(utf8_text_of(b@)),
        RawXmlEvent::Other => e == XmlEvent::Other,
    }
}

/// `evs` are the events of the reader over the text `xml`: one per reader
/// event, then `Eof` at the end of input or `Error` with the reader's message.
pub open spec fn spec_xml_events(evs: Seq<XmlEvent>, xml: Seq<char>) -> bool {
    let (raws, end) = xml_reader_events(xml);
    &&& evs.len() == raws.len() + 1
    &&& forall|i: int| 0 <= i < raws.len() ==> spec_event_of(#[trigger] evs[i], raws[i])
    &&& evs.last() == match end {
        None => XmlEvent::Eof,
        Some(m) => XmlEvent::Error(m),
    }
}

/// The tag read from content bytes `c` whose first `n` bytes are its name.
fn read_tag(c: &Vec<u8>, n: usize) -> (t: XmlTag)
    requires
        n <= c@.len(),
    ensures
        spec_tag_of(t, c@, n),
{
    let name = utf8_text(vstd::slice::slice_subrange(c.as_slice(), 0, n));
    assert(c@.subrange(0, n as int) == c@.take(n as int));
    let attrs = match utf8_text(c.as_slice()) {
        Err(m) => Err(m),
        Ok(s) => match read_tag_attributes(s.as_str(), n) {
            Err(m) => Err(m),
            Ok(ps) => {
                let mut v: Vec<XmlAttr> = Vec::new();
                let mut k: usize = 0;
                while k < ps.len()
                    invariant
                        k <= ps@.len(),
                        v@ == ps@.take(k as int).map_values(|q: (Vec<u8>, Vec<u8>)| spec_attr_of(q)),
                    decreases ps@.len() - k,
                {
                    let ghost p = ps@[k as int];
                    let key = utf8_text(ps[k].0.as_slice()).ok();
                    let value = utf8_text(ps[k].1.as_slice()).ok();
                    assert(key == spec_utf8_opt(p.0@));
                    assert(value == spec_utf8_opt(p.1@));
                    let a = XmlAttr { key, value };
                    assert(a == spec_attr_of(p));
                    v.push(a);
                    assert(ps@.take(k as int + 1) == ps@.take(k as int).push(p));
                    assert(v@ =~= ps@.take(k as int + 1).map_values(|q: (Vec<u8>, Vec<u8>)| spec_attr_of(q)));
                    k = k + 1;
                }
                assert(ps@.take(ps@.len() as int) == ps@);
                Ok(v)
            },
        },
    };
    XmlTag { name, attrs }
}

/// The events of quick-xml's reader over the text `xml` (text trimmed), read
/// as UTF-8, up to and including the end of input or the first error.
pub fn read_xml_events(xml: &str) -> (r: Vec<XmlEvent>)
    ensures
        spec_xml_events(r@, xml@),
{
    let (raws, end) = read_reader_events(xml);
    let mut out: Vec<XmlEvent> = Vec::new();
    let mut i: usize = 0;
    while i < raws.len()
        invariant
            i <= raws@.len(),
            out@.len() == i,
            (raws@, end) == xml_reader_events(xml@),
            forall|j: int| 0 <= j < raws@.len() ==> spec_raw_name_fits(#[trigger] raws@[j]),
            forall|j: int| 0 <= j < i ==> spec_event_of(#[trigger] out@[j], raws@[j]),
        decreases raws@.len() - i,
    {
        let ghost raw = raws@[i as int];
        assert(spec_raw_name_fits(raw));
        let ev = match &raws[i] {
            RawXmlEvent::Start(c, n) => XmlEvent::Start(read_tag(c, *n)),
            RawXmlEvent::Empty(c, n) => XmlEvent::Empty(read_tag(c, *n)),
            RawXmlEvent::End(b) => XmlEvent::End(utf8_text(b.as_slice())),
            RawXmlEvent::Other => XmlEvent::Other,
        };
        out.push(ev);
        i = i + 1;
    }
    let last = match end {
        None => XmlEvent::Eof,
        Some(m) => XmlEvent::Error(m),
    };
    out.push(last);
    out
}

/// Read a skin document from its text: the reader's events, and the skins
/// and sprite positions read from them (`None` where a skin opens more
/// layers than a `u32` counts).
pub fn parse_skin_str(xml: &str) -> (r: (Vec<XmlEvent>, Option<Result<SkinDocument, XmlError>>))
    ensures
        spec_xml_events(r.0@, xml@),
        spec_document_result(r.1, r.0@),
{
    let events = read_xml_events(xml);
    let doc = read_document(&events);
    (events, doc)
}

impl SkinDocument {
    /// The skin named `name`; when several are, the last one read (a later
    /// definition replaces an earlier one).
    pub fn get_skin(&self, name: &str) -> (r: Option<&SkinDef>)
        ensures
            match r {
                Some(s) => exists|k: int|
                    0 <= k < self.skins@.len() && self.skins@[k] == *s && s.name@ == name@
                        && forall|j: int|
                        k < j < self.skins@.len() ==> #[trigger] self.skins@[j].name@ != name@,
                None => forall|j: int|
                    0 <= j < self.skins@.len() ==> #[trigger] self.skins@[j].name@ != name@,
            },
    {
        let mut k = self.skins.len();
        while k > 0
            invariant
                k <= self.skins@.len(),
                forall|j: int| k <= j < self.skins@.len() ==> #[trigger] self.skins@[j].name@ != name@,
            decreases k,
        {
            k = k - 1;
            if str_eq(self.skins[k].name.as_str(), name) {
                return Some(&self.skins[k]);
            }
        }
        None
    }
}

} // verus!
