use open2jam::prefab::{NotePrefabs, NUM_LANES};
use open2jam::skin::XmlError;
use open2jam::xml::{parse_skin_document, parse_skin_str, SkinDocument, XmlEvent};

/// The skins and sprite positions of a skin document's text.
fn doc_of(xml: &str) -> Result<SkinDocument, XmlError> {
    parse_skin_str(xml).1.expect("layer count fits")
}

const TEST_SKIN: &str = r#"<?xml version="1.0"?>
<Resources>
  <skin name="test" width="800" height="600" judgment_line="480">
    <layer>
      <frame id="note1" file="notes.png" x="0" y="0" w="32" h="25"/>
      <frame id="long_body" file="notes.png" x="64" y="0" w="32" h="8"/>
      <frame id="long_tail" file="notes.png" x="96" y="0" w="32" h="10"/>
      <entity id="NOTE_1" sprite="note1_sprite" x="100"/>
      <entity id="NOTE_2" sprite="note1_sprite" x="200"/>
      <entity id="NOTE_3" sprite="note1_sprite" x="300"/>
      <entity id="LONG_NOTE_1" head="note1_sprite" body="long_body" tail="long_tail" x="100"/>
      <entity id="LONG_NOTE_2" head="note1_sprite" body="long_body" tail="long_tail" x="200"/>
    </layer>
  </skin>
</Resources>"#;

#[test]
fn xml_test_parse_skin_header() {
    let xml = r#"<Resources><skin name="test" width="800" height="600" judgment_line="480">
<layer><entity id="NOTE_1" sprite="note1" x="100"/></layer>
</skin></Resources>"#;
    let doc = doc_of(xml).expect("Failed to parse");
    let skin = doc.get_skin("test").expect("Skin not found");
    assert_eq!(skin.width, 800);
    assert_eq!(skin.judgment_line_y, 480);
    assert_eq!(skin.entities.len(), 1);
    assert_eq!(skin.entities[0].id.as_deref(), Some("NOTE_1"));
    assert_eq!(skin.entities[0].sprite.as_deref(), Some("note1"));
}

#[test]
fn test_build_prefabs_from_skin() {
    let doc = doc_of(TEST_SKIN).expect("Failed to parse");
    let skin = doc.get_skin("test").expect("Skin not found");
    let prefabs = NotePrefabs::from_skin(skin);

    assert_eq!(prefabs.judgment_line_y, 480);
    assert_eq!(prefabs.skin_width, 800);
    assert_eq!(prefabs.skin_height, 600);

    let lane0 = &prefabs.lanes[0];
    assert_eq!(lane0.lane, 0);
    assert_eq!(lane0.x, 100);
    assert_eq!(lane0.sprite_id.as_deref(), Some("note1_sprite"));

    let lane1 = &prefabs.lanes[1];
    assert_eq!(lane1.x, 200);

    let lane2 = &prefabs.lanes[2];
    assert_eq!(lane2.x, 300);

    for lane in 3..NUM_LANES {
        assert_eq!(prefabs.lanes[lane].x, 0);
        assert!(prefabs.lanes[lane].sprite_id.is_none());
    }
}

#[test]
fn test_prefabs_has_all_lanes() {
    let doc = doc_of(TEST_SKIN).expect("Failed to parse");
    let skin = doc.get_skin("test").expect("Skin not found");
    let prefabs = NotePrefabs::from_skin(skin);
    for lane in 0..NUM_LANES {
        assert_eq!(prefabs.lanes[lane].lane, lane);
    }
}

#[test]
fn skin_defaults_and_layers() {
    let xml = r#"<Resources>
<skin>
  <layer><entity id="A" x="-5" y="+7"/></layer>
  <layer><entity id="B" x="abc" y="99999999999"/></layer>
</skin>
</Resources>"#;
    let doc = doc_of(xml).expect("valid");
    let skin = doc.get_skin("unnamed").expect("default name");
    assert_eq!((skin.width, skin.height, skin.judgment_line_y), (800, 600, 480));
    assert_eq!(skin.entities.len(), 2);
    assert_eq!((skin.entities[0].x, skin.entities[0].y, skin.entities[0].layer), (-5, 7, 1));
    assert_eq!((skin.entities[1].x, skin.entities[1].y, skin.entities[1].layer), (0, 0, 2));
}

#[test]
fn sprites_are_located_and_skipped() {
    let xml = r#"<Resources>
<sprite id="s1" framespeed="60"><frame x="0" y="0" w="1" h="1" file="a.png"/></sprite>
<skin name="k"><entity id="E"/></skin>
</Resources>"#;
    let (evs, doc) = parse_skin_str(xml);
    let doc = doc.expect("layer count fits").expect("valid");
    let again = parse_skin_document(&evs).expect("valid");
    assert_eq!(again.sprite_starts, doc.sprite_starts);
    assert_eq!(doc.sprite_starts.len(), 1);
    assert!(matches!(&evs[doc.sprite_starts[0]], XmlEvent::Start(_)));
    assert_eq!(doc.skins.len(), 1);
    assert_eq!(doc.skins[0].entities[0].layer, 0);
}

#[test]
fn later_skin_with_same_name_wins() {
    let xml = r#"<R><skin name="k" width="1"/><skin name="k" width="2"></skin></R>"#;
    // The empty first skin reads on until the next closing skin tag.
    let doc = doc_of(xml).expect("valid");
    assert_eq!(doc.skins.len(), 1);
    let xml = r#"<R><skin name="k" width="1"></skin><skin name="k" width="2"></skin></R>"#;
    let doc = doc_of(xml).expect("valid");
    assert_eq!(doc.skins.len(), 2);
    assert_eq!(doc.get_skin("k").expect("present").width, 2);
    assert!(doc.get_skin("other").is_none());
}

#[test]
fn bad_attributes_and_reader_errors_are_parse_errors() {
    let dup = r#"<R><skin name="k"><entity id="a" id="b"/></skin></R>"#;
    assert!(matches!(doc_of(dup), Err(XmlError::Parse(_))));
    let unclosed = r#"<R><skin name="k"></wrong></R>"#;
    assert!(matches!(doc_of(unclosed), Err(XmlError::Parse(_))));
}

#[test]
fn unfinished_skin_is_kept_at_end_of_input() {
    let doc = doc_of(r#"<skin name="open"><entity id="X"/>"#).expect("valid");
    assert_eq!(doc.skins.len(), 1);
    assert_eq!(doc.skins[0].name, "open");
    assert_eq!(doc.skins[0].entities.len(), 1);
}

#[test]
fn skin_text_is_read_into_reader_events() {
    let (evs, doc) = parse_skin_str(r#"<R a="1"><s/></R>"#);
    assert!(doc.expect("layer count fits").expect("valid").skins.is_empty());
    assert_eq!(evs.len(), 4);
    match &evs[0] {
        XmlEvent::Start(t) => {
            assert_eq!(t.name.as_deref(), Ok("R"));
            let attrs = t.attrs.as_ref().expect("attributes");
            assert_eq!(attrs[0].key.as_deref(), Some("a"));
            assert_eq!(attrs[0].value.as_deref(), Some("1"));
        }
        _ => panic!("expected a start tag"),
    }
    assert!(matches!(&evs[1], XmlEvent::Empty(t) if t.name.as_deref() == Ok("s")));
    assert!(matches!(&evs[2], XmlEvent::End(Ok(n)) if n == "R"));
    assert!(matches!(&evs[3], XmlEvent::Eof));
}

#[test]
fn reader_errors_end_the_events() {
    let (evs, doc) = parse_skin_str(r#"<R><skin name="k"></wrong></R>"#);
    assert!(matches!(evs.last(), Some(XmlEvent::Error(_))));
    assert!(matches!(doc, Some(Err(XmlError::Parse(_)))));
    let (evs, _) = parse_skin_str(r#"<R><e k="v" k="w"/></R>"#);
    match &evs[1] {
        XmlEvent::Empty(t) => assert!(t.attrs.is_err()),
        _ => panic!("expected an empty tag"),
    }
}
