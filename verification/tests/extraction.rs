//! Tests of the pure attribute/field extraction over parsed records and
//! of the state machine that folds events into records.

use collection_graph::events::{Attribute, Element, Event};
use collection_graph::models::{Album, TrackLocation};
use collection_graph::parser::{
    get_attribute, get_element_attribute, Node, NodeType, ParseError, ParserState, RootSection,
    Step,
};

fn attr(name: &str, value: &str) -> Attribute {
    Attribute { name: name.to_string(), value: value.to_string() }
}

fn elem(name: &str, attrs: Vec<Attribute>) -> Element {
    Element { name: name.to_string(), attributes: attrs }
}

fn start(name: &str, attrs: Vec<Attribute>) -> Event {
    Event::StartElement(elem(name, attrs))
}

fn end(name: &str) -> Event {
    Event::EndElement { name: name.to_string() }
}

#[test]
fn first_attribute_wins() {
    let attrs = vec![attr("KEY", "one"), attr("OTHER", "x"), attr("KEY", "two")];
    assert_eq!(get_attribute(&attrs, "KEY").as_deref(), Some("one"));
    assert_eq!(get_attribute(&attrs, "OTHER").as_deref(), Some("x"));
    assert_eq!(get_attribute(&attrs, "MISSING"), None);
}

#[test]
fn first_element_wins() {
    let node = Node {
        node_type: NodeType::Track,
        attributes: vec![attr("TITLE", "t")],
        elements: vec![
            elem("ALBUM", vec![attr("TITLE", "first")]),
            elem("ALBUM", vec![attr("TITLE", "second")]),
        ],
    };
    let found = node.get_element_with_name("ALBUM").unwrap();
    assert_eq!(get_element_attribute(found, "TITLE").as_deref(), Some("first"));
    assert!(node.get_element_with_name("INFO").is_none());
    assert_eq!(node.get_elements_attribute("ALBUM", "TITLE").as_deref(), Some("first"));
    assert_eq!(node.get_elements_attribute("ALBUM", "MISSING"), None);
    assert_eq!(node.get_elements_attribute("INFO", "TITLE"), None);
    assert_eq!(node.get_attribute("TITLE").as_deref(), Some("t"));
}

#[test]
fn primary_key_concatenates() {
    let loc = TrackLocation {
        volume: "C".to_string(),
        path: "/music/".to_string(),
        filename: "a.mp3".to_string(),
    };
    assert_eq!(loc.as_primary_key(), "C/music/a.mp3");
}

#[test]
fn machine_captures_track_record() {
    let mut state = ParserState::new();
    assert!(matches!(state.step(start("DJ_PLAYLISTS", vec![])), Step::Continue));
    assert!(matches!(state.step(start("COLLECTION", vec![])), Step::Continue));
    assert_eq!(state.root, RootSection::Collection);
    assert!(matches!(state.step(start("ENTRY", vec![attr("TITLE", "Song")])), Step::Continue));
    assert!(matches!(state.step(start("LOCATION", vec![attr("VOLUME", "C")])), Step::Continue));
    assert!(matches!(state.step(end("LOCATION")), Step::Continue));
    match state.step(end("ENTRY")) {
        Step::Emit(node) => {
            assert!(matches!(node.node_type, NodeType::Track));
            assert_eq!(node.attributes.len(), 1);
            assert_eq!(node.attributes[0].value, "Song");
            assert_eq!(node.elements.len(), 1);
            assert_eq!(node.elements[0].name, "LOCATION");
        }
        _ => panic!("expected a completed record"),
    }
    // The accumulator is reset for the next record.
    assert!(state.record.is_none());
    assert!(matches!(state.step(end("COLLECTION")), Step::Continue));
    assert_eq!(state.root, RootSection::Outside);
}

#[test]
fn machine_skips_stray_record_end() {
    let mut state = ParserState::new();
    state.step(start("COLLECTION", vec![]));
    assert!(matches!(state.step(end("ENTRY")), Step::Continue));
    assert!(state.record.is_none());
}

#[test]
fn machine_gates_playlist_records_on_type() {
    let mut state = ParserState::new();
    state.step(start("PLAYLISTS", vec![]));
    // A folder node is no record header; its end tag closes nothing.
    assert!(matches!(state.step(start("NODE", vec![attr("TYPE", "FOLDER")])), Step::Continue));
    assert!(state.record.is_none());
    assert!(matches!(
        state.step(start("NODE", vec![attr("TYPE", "PLAYLIST"), attr("NAME", "P")])),
        Step::Continue
    ));
    assert!(state.record.is_some());
    match state.step(end("NODE")) {
        Step::Emit(node) => {
            assert!(matches!(node.node_type, NodeType::Playlist));
            assert_eq!(node.attributes.len(), 2);
        }
        _ => panic!("expected a completed record"),
    }
    assert!(matches!(state.step(end("NODE")), Step::Continue));
}

#[test]
fn machine_fails_on_unclosed_record() {
    let mut state = ParserState::new();
    state.step(start("COLLECTION", vec![]));
    state.step(start("ENTRY", vec![attr("TITLE", "Song")]));
    match state.step(end("COLLECTION")) {
        Step::Fail(e) => assert_eq!(e, ParseError::UnclosedRecord),
        _ => panic!("expected the pass to fail"),
    }
}

#[test]
fn machine_surfaces_source_error() {
    let mut state = ParserState::new();
    match state.step(Event::SourceError) {
        Step::Fail(e) => assert_eq!(e, ParseError::Source),
        _ => panic!("expected the pass to fail"),
    }
}

#[test]
fn machine_finishes_on_end_of_document() {
    let mut state = ParserState::new();
    assert!(matches!(state.step(Event::EndDocument), Step::Finished));
    assert!(matches!(state.step(Event::Other), Step::Continue));
}

#[test]
fn entry_end_outside_collection_is_ignored() {
    let mut state = ParserState::new();
    state.step(start("PLAYLISTS", vec![]));
    state.step(start("NODE", vec![attr("TYPE", "PLAYLIST"), attr("NAME", "P")]));
    // An ENTRY end tag inside the playlists section closes no record.
    assert!(matches!(state.step(end("ENTRY")), Step::Continue));
    assert!(state.record.is_some());
}

#[test]
fn albums_compare_by_title() {
    let a = Album { title: "Y".to_string(), tracks: vec![0] };
    let b = Album { title: "Y".to_string(), tracks: vec![1, 2] };
    let c = Album { title: "Z".to_string(), tracks: vec![0] };
    assert!(a == b);
    assert!(a != c);
}
