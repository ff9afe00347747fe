use open2jam::skin::XmlError;
use open2jam::strict_skin::{read_strict_document, StrictSkin};
use open2jam::xml::{get_attr, read_xml_events, XmlEvent};

/// The strict reader over `xml`, told which scale and alpha values read as
/// numbers.
fn strict(xml: &str) -> Result<Vec<StrictSkin>, XmlError> {
    let events = read_xml_events(xml);
    let floats: Vec<(bool, bool)> = events
        .iter()
        .map(|e| match e {
            XmlEvent::Empty(t) => match &t.attrs {
                Ok(a) => {
                    let reads = |n: &str| get_attr(a, n).map_or(true, |v| v.parse::<f32>().is_ok());
                    (reads("scale"), reads("alpha"))
                }
                Err(_) => (true, true),
            },
            _ => (true, true),
        })
        .collect();
    read_strict_document(&events, &floats).expect("layer count fits")
}

fn skin<'a>(skins: &'a [StrictSkin], name: &str) -> &'a StrictSkin {
    skins.iter().rev().find(|s| s.name == name).expect("skin present")
}

const TEST_SKIN: &str = r#"<?xml version="1.0" encoding="UTF-8"?>
<Resources>
  <skin name="test_skin" width="800" height="600" judgment_line="480">
    <layer>
      <frame id="note1" file="notes.png" x="0" y="0" w="32" h="25" scale="1.0"/>
      <frame id="note1_pressed" file="notes.png" x="32" y="0" w="32" h="25"/>
      <frame id="long_body" file="notes.png" x="64" y="0" w="32" h="8"/>
      <frame id="long_tail" file="notes.png" x="96" y="0" w="32" h="10"/>
      <entity id="NOTE_1" sprite="note1_sprite" x="100"/>
      <entity id="NOTE_2" sprite="note1_sprite" x="200"/>
      <entity id="LONG_NOTE_1" head="note1_sprite" body="long_body" tail="long_tail" x="100"/>
    </layer>
    <layer>
      <sprite id="note1_sprite" framespeed="50" loop="true">
        <frame ref="note1"/>
        <frame ref="note1_pressed"/>
      </sprite>
      <entity id="JUDGMENT_LINE" sprite="judgment_area" x="0" y="480"/>
    </layer>
  </skin>
</Resources>"#;

#[test]
fn strict_skin_header() {
    let skins = strict(TEST_SKIN).expect("valid");
    let s = skin(&skins, "test_skin");
    assert_eq!((s.width, s.height, s.judgment_line_y), (800, 600, 480));
}

#[test]
fn strict_skin_frames() {
    let skins = strict(TEST_SKIN).expect("valid");
    let s = skin(&skins, "test_skin");
    assert_eq!(s.frames.len(), 4);
    let note1 = s.frames.iter().find(|f| f.id == "note1").expect("note1");
    assert_eq!((note1.x, note1.y, note1.w, note1.h), (0, 0, 32, 25));
    assert_eq!(note1.scale.as_deref(), Some("1.0"));
    assert_eq!(note1.file, "notes.png");
    assert!(s.frames[1].alpha.is_none());
}

#[test]
fn strict_skin_sprites() {
    let skins = strict(TEST_SKIN).expect("valid");
    let s = skin(&skins, "test_skin");
    assert_eq!(s.sprites.len(), 1);
    let sp = &s.sprites[0];
    assert_eq!(sp.id, "note1_sprite");
    assert_eq!(sp.frame_refs, vec!["note1", "note1_pressed"]);
    assert_eq!(sp.frame_speed_ms, 50);
    assert!(sp.loop_animation);
}

#[test]
fn strict_skin_entities() {
    let skins = strict(TEST_SKIN).expect("valid");
    let s = skin(&skins, "test_skin");
    assert_eq!(s.entities.len(), 4);
    let note1 = s.entities.iter().find(|e| e.id == "NOTE_1").expect("NOTE_1");
    assert_eq!(note1.sprite.as_deref(), Some("note1_sprite"));
    assert_eq!((note1.x, note1.layer), (100, 1));
    let long = s.entities.iter().find(|e| e.id == "LONG_NOTE_1").expect("LONG_NOTE_1");
    assert_eq!(long.head_sprite.as_deref(), Some("note1_sprite"));
    assert_eq!(long.body_sprite.as_deref(), Some("long_body"));
    assert_eq!(long.tail_sprite.as_deref(), Some("long_tail"));
    let judgment = s.entities.iter().find(|e| e.id == "JUDGMENT_LINE").expect("JUDGMENT_LINE");
    assert_eq!((judgment.y, judgment.layer), (480, 2));
}

#[test]
fn strict_skin_missing_name() {
    let xml = r#"<Resources><skin width="800" height="600" judgment_line="480"></skin></Resources>"#;
    assert!(matches!(strict(xml), Err(XmlError::MissingAttribute(a)) if a == "name"));
}

#[test]
fn strict_skin_multiple_skins() {
    let xml = r#"<?xml version="1.0"?>
<Resources>
  <skin name="skin_a" width="800" height="600" judgment_line="480">
    <layer><entity id="NOTE_1" x="100"/></layer>
  </skin>
  <skin name="skin_b" width="1024" height="768" judgment_line="600">
    <layer><entity id="NOTE_1" x="200"/></layer>
  </skin>
</Resources>"#;
    let skins = strict(xml).expect("valid");
    assert_eq!(skins.len(), 2);
    assert_eq!(skin(&skins, "skin_b").width, 1024);
    assert_eq!(skin(&skins, "skin_a").width, 800);
}

#[test]
fn strict_skin_entity_layer_override() {
    let xml = r#"<Resources><skin name="test" width="800" height="600" judgment_line="480">
<layer><entity id="NOTE_1" x="100" layer="5"/><entity id="N2" layer="x"/></layer></skin></Resources>"#;
    let skins = strict(xml).expect("valid");
    assert_eq!(skins[0].entities[0].layer, 5);
    assert_eq!(skins[0].entities[1].layer, 1);
}

#[test]
fn strict_skin_value_errors_come_in_document_order() {
    let bad_width = r#"<R><skin name="k" width="wide" height="1" judgment_line="1"/></R>"#;
    assert!(matches!(strict(bad_width),
        Err(XmlError::InvalidAttributeValue { attr, value }) if attr == "width" && value == "wide"));
    let bad_scale = r#"<R><skin name="k" width="1" height="1" judgment_line="1">
<frame id="f" file="a.png" x="0" y="0" w="1" h="1" scale="big"/><entity x="1"/></skin></R>"#;
    assert!(matches!(strict(bad_scale),
        Err(XmlError::InvalidAttributeValue { attr, value }) if attr == "scale" && value == "big"));
    let no_entity_id = r#"<R><skin name="k" width="1" height="1" judgment_line="1"><entity x="1"/></skin></R>"#;
    assert!(matches!(strict(no_entity_id), Err(XmlError::MissingAttribute(a)) if a == "id"));
    let bad_x = r#"<R><skin name="k" width="1" height="1" judgment_line="1"><entity id="e" x="1.5"/></skin></R>"#;
    assert!(matches!(strict(bad_x), Err(XmlError::InvalidAttributeValue { attr, .. }) if attr == "x"));
    let no_frame_h = r#"<R><skin name="k" width="1" height="1" judgment_line="1"><frame id="f" file="a" x="0" y="0" w="1"/></skin></R>"#;
    assert!(matches!(strict(no_frame_h), Err(XmlError::MissingAttribute(a)) if a == "h"));
}

#[test]
fn strict_sprite_defaults_and_unclosed_skin() {
    let xml = r#"<R><skin name="k" width="1" height="2" judgment_line="3"><sprite id="s" framespeed="x" loop="NO"><frame ref="a"/>"#;
    let skins = strict(xml).expect("valid");
    let sp = &skins[0].sprites[0];
    assert_eq!(sp.frame_speed_ms, 50);
    assert!(!sp.loop_animation);
    assert_eq!(sp.frame_refs, vec!["a"]);
    let yes = r#"<R><skin name="k" width="1" height="2" judgment_line="3"><sprite id="s" loop="YES"></sprite></skin></R>"#;
    assert!(strict(yes).expect("valid")[0].sprites[0].loop_animation);
}
