//! End-to-end and graph-builder tests: real XML documents through the
//! streaming parser, and constructed records through the graph builder.

use collection_graph::events::{Attribute, Element};
use collection_graph::models::{Artist, CollectionData, Track, TrackError};
use collection_graph::parser::{CollectionParser, Node, NodeType, ParseError};

fn attr(name: &str, value: &str) -> Attribute {
    Attribute { name: name.to_string(), value: value.to_string() }
}

fn elem(name: &str, attrs: Vec<Attribute>) -> Element {
    Element { name: name.to_string(), attributes: attrs }
}

fn track_node(title: Option<&str>, artist: Option<&str>, album: Option<&str>, key: Option<(&str, &str, &str)>) -> Node {
    let mut attributes = Vec::new();
    if let Some(t) = title {
        attributes.push(attr("TITLE", t));
    }
    if let Some(a) = artist {
        attributes.push(attr("ARTIST", a));
    }
    let mut elements = Vec::new();
    if let Some(al) = album {
        elements.push(elem("ALBUM", vec![attr("TITLE", al)]));
    }
    if let Some((vol, dir, file)) = key {
        elements.push(elem(
            "LOCATION",
            vec![attr("VOLUME", vol), attr("DIR", dir), attr("FILE", file)],
        ));
    }
    Node { node_type: NodeType::Track, attributes, elements }
}

fn playlist_node(name: Option<&str>, keys: Vec<&str>) -> Node {
    let mut attributes = vec![attr("TYPE", "PLAYLIST")];
    if let Some(n) = name {
        attributes.push(attr("NAME", n));
    }
    let elements = keys
        .into_iter()
        .map(|k| elem("PRIMARYKEY", vec![attr("KEY", k)]))
        .collect();
    Node { node_type: NodeType::Playlist, attributes, elements }
}

fn ingest_document(doc: &str) -> CollectionData {
    let mut data = CollectionData::new();
    let mut parser = CollectionParser::new(doc.as_bytes().to_vec());
    loop {
        match parser.next_node() {
            Ok(Some(node)) => data.add_node(&node),
            Ok(None) => break,
            Err(e) => panic!("unexpected parse error: {:?}", e),
        }
    }
    data
}

#[test]
fn end_to_end_two_entries() {
    let doc = r#"<?xml version="1.0" encoding="UTF-8"?>
<DJ_PLAYLISTS>
  <COLLECTION>
    <ENTRY TITLE="Song A" ARTIST="X">
      <ALBUM TITLE="Y" TRACK="1"/>
      <INFO PLAYTIME_FLOAT="215.2" BPM="128.0"/>
      <LOCATION VOLUME="C" DIR="/d/" FILE="a.mp3"/>
    </ENTRY>
    <ENTRY TITLE="Song B" ARTIST="X">
      <ALBUM TITLE="Y" TRACK="2"/>
      <INFO PLAYTIME_FLOAT="180.0"/>
      <LOCATION VOLUME="C" DIR="/d/" FILE="b.mp3"/>
    </ENTRY>
  </COLLECTION>
</DJ_PLAYLISTS>"#;
    let data = ingest_document(doc);
    assert_eq!(data.tracks.len(), 2);
    assert_eq!(data.artists.len(), 1);
    assert_eq!(data.albums.len(), 1);
    assert_eq!(data.playlists.len(), 0);
    assert_eq!(data.artists[0].name, "X");
    assert_eq!(data.albums[0].title, "Y");
    // The one artist is linked to both tracks and to exactly one album.
    let artist_tracks = data.artists[0].get_tracks(&data);
    assert_eq!(artist_tracks.len(), 2);
    assert_eq!(artist_tracks[0].title, "Song A");
    assert_eq!(artist_tracks[1].title, "Song B");
    assert_eq!(data.artists[0].albums.len(), 1);
    assert_eq!(data.albums[0].tracks.len(), 2);
    assert_eq!(data.tracks[0].album_track_number, Some(1));
    assert_eq!(data.tracks[1].album_track_number, Some(2));
    assert_eq!(data.tracks[0].duration_seconds.as_deref(), Some("215.2"));
    assert_eq!(data.tracks[0].bpm.as_deref(), Some("128.0"));
    assert_eq!(data.tracks[1].bpm, None);
    assert_eq!(data.tracks[0].artist, Some(0));
    assert_eq!(data.tracks[0].album, Some(0));
}

#[test]
fn playlist_resolves_only_earlier_tracks() {
    // Track "A" is ingested before the playlist, track "B" after it:
    // the playlist resolves exactly the member for "A".
    let doc = r#"<DJ_PLAYLISTS>
  <COLLECTION>
    <ENTRY TITLE="Song A" ARTIST="X">
      <LOCATION VOLUME="C" DIR="/d/" FILE="a.mp3"/>
    </ENTRY>
  </COLLECTION>
  <PLAYLISTS>
    <NODE TYPE="PLAYLIST" NAME="Mix">
      <PRIMARYKEY KEY="C/d/a.mp3"/>
      <PRIMARYKEY KEY="C/d/b.mp3"/>
    </NODE>
  </PLAYLISTS>
  <COLLECTION>
    <ENTRY TITLE="Song B" ARTIST="X">
      <LOCATION VOLUME="C" DIR="/d/" FILE="b.mp3"/>
    </ENTRY>
  </COLLECTION>
</DJ_PLAYLISTS>"#;
    let data = ingest_document(doc);
    assert_eq!(data.tracks.len(), 2);
    assert_eq!(data.playlists.len(), 1);
    assert_eq!(data.playlists[0].name, "Mix");
    assert_eq!(data.playlists[0].tracks, vec![0]);
}

#[test]
fn playlist_ordering_with_nodes() {
    let mut data = CollectionData::new();
    data.add_node(&track_node(Some("Song A"), None, None, Some(("C", "/d/", "a.mp3"))));
    data.add_node(&playlist_node(Some("P"), vec!["C/d/a.mp3", "C/d/b.mp3"]));
    data.add_node(&track_node(Some("Song B"), None, None, Some(("C", "/d/", "b.mp3"))));
    assert_eq!(data.tracks.len(), 2);
    assert_eq!(data.playlists.len(), 1);
    // Only the earlier track resolves; the later one is absent.
    assert_eq!(data.playlists[0].tracks, vec![0]);
}

#[test]
fn artists_and_albums_deduplicate() {
    let mut data = CollectionData::new();
    for file in ["a.mp3", "b.mp3", "c.mp3"] {
        data.add_node(&track_node(Some("T"), Some("Same Artist"), Some("Same Album"), Some(("C", "/d/", file))));
    }
    assert_eq!(data.tracks.len(), 3);
    assert_eq!(data.artists.len(), 1);
    assert_eq!(data.albums.len(), 1);
    assert_eq!(data.artists[0].get_tracks(&data).len(), 3);
    assert_eq!(data.artists[0].albums, vec![0]);
    assert_eq!(data.albums[0].tracks, vec![0, 1, 2]);
}

#[test]
fn distinct_keys_stay_distinct() {
    let mut data = CollectionData::new();
    data.add_node(&track_node(Some("T1"), Some("A1"), Some("Al1"), Some(("C", "/d/", "a.mp3"))));
    data.add_node(&track_node(Some("T2"), Some("A2"), Some("Al2"), Some(("C", "/d/", "b.mp3"))));
    assert_eq!(data.artists.len(), 2);
    assert_eq!(data.albums.len(), 2);
    assert_eq!(data.artists[0].name, "A1");
    assert_eq!(data.artists[1].name, "A2");
}

#[test]
fn missing_title_rejects_track() {
    let mut data = CollectionData::new();
    data.add_node(&track_node(None, Some("X"), Some("Y"), Some(("C", "/d/", "a.mp3"))));
    // No track, no back-references; the artist and album entities exist
    // but link nothing.
    assert_eq!(data.tracks.len(), 0);
    assert_eq!(data.artists.len(), 1);
    assert_eq!(data.albums.len(), 1);
    assert_eq!(data.artists[0].get_tracks(&data).len(), 0);
    assert_eq!(data.albums[0].tracks.len(), 0);
    // A later, complete record is unaffected.
    data.add_node(&track_node(Some("Song"), Some("X"), Some("Y"), Some(("C", "/d/", "b.mp3"))));
    assert_eq!(data.tracks.len(), 1);
    assert_eq!(data.artists.len(), 1);
    assert_eq!(data.artists[0].get_tracks(&data).len(), 1);
}

#[test]
fn missing_location_rejects_track() {
    let mut data = CollectionData::new();
    data.add_node(&track_node(Some("Song"), Some("X"), None, None));
    assert_eq!(data.tracks.len(), 0);
    assert_eq!(data.artists.len(), 1);
    assert_eq!(data.artists[0].get_tracks(&data).len(), 0);
}

#[test]
fn incomplete_location_rejects_track() {
    // A LOCATION element that lacks the FILE attribute is no complete
    // composite.
    let mut data = CollectionData::new();
    let node = Node {
        node_type: NodeType::Track,
        attributes: vec![attr("TITLE", "Song")],
        elements: vec![elem("LOCATION", vec![attr("VOLUME", "C"), attr("DIR", "/d/")])],
    };
    data.add_node(&node);
    assert_eq!(data.tracks.len(), 0);
}

#[test]
fn malformed_bpm_is_absent_not_fatal() {
    let mut data = CollectionData::new();
    let node = Node {
        node_type: NodeType::Track,
        attributes: vec![attr("TITLE", "Song")],
        elements: vec![
            elem("INFO", vec![attr("PLAYTIME_FLOAT", "N/A"), attr("BPM", "N/A")]),
            elem("LOCATION", vec![attr("VOLUME", "C"), attr("DIR", "/d/"), attr("FILE", "a.mp3")]),
        ],
    };
    data.add_node(&node);
    assert_eq!(data.tracks.len(), 1);
    assert_eq!(data.tracks[0].bpm, None);
    assert_eq!(data.tracks[0].duration_seconds, None);
}

#[test]
fn well_formed_float_is_kept() {
    let mut data = CollectionData::new();
    let node = Node {
        node_type: NodeType::Track,
        attributes: vec![attr("TITLE", "Song")],
        elements: vec![
            elem("INFO", vec![attr("PLAYTIME_FLOAT", "123.5"), attr("BPM", "128.00")]),
            elem("LOCATION", vec![attr("VOLUME", "C"), attr("DIR", "/d/"), attr("FILE", "a.mp3")]),
        ],
    };
    data.add_node(&node);
    assert_eq!(data.tracks.len(), 1);
    assert_eq!(data.tracks[0].bpm.as_deref(), Some("128.00"));
    assert_eq!(data.tracks[0].duration_seconds.as_deref(), Some("123.5"));
}

#[test]
fn malformed_track_number_is_absent() {
    let mut data = CollectionData::new();
    let node = Node {
        node_type: NodeType::Track,
        attributes: vec![attr("TITLE", "Song")],
        elements: vec![
            elem("ALBUM", vec![attr("TITLE", "Y"), attr("TRACK", "oops")]),
            elem("LOCATION", vec![attr("VOLUME", "C"), attr("DIR", "/d/"), attr("FILE", "a.mp3")]),
        ],
    };
    data.add_node(&node);
    assert_eq!(data.tracks.len(), 1);
    assert_eq!(data.tracks[0].album_track_number, None);
}

#[test]
fn playlist_without_name_is_dropped() {
    let mut data = CollectionData::new();
    data.add_node(&track_node(Some("Song A"), None, None, Some(("C", "/d/", "a.mp3"))));
    data.add_node(&playlist_node(None, vec!["C/d/a.mp3"]));
    assert_eq!(data.playlists.len(), 0);
    assert_eq!(data.tracks.len(), 1);
}

#[test]
fn duplicate_location_key_resolves_to_last() {
    let mut data = CollectionData::new();
    data.add_node(&track_node(Some("First"), None, None, Some(("C", "/d/", "a.mp3"))));
    data.add_node(&track_node(Some("Second"), None, None, Some(("C", "/d/", "a.mp3"))));
    data.add_node(&playlist_node(Some("P"), vec!["C/d/a.mp3"]));
    assert_eq!(data.playlists[0].tracks, vec![1]);
}

#[test]
fn unrecognized_root_content_is_skipped() {
    let doc = r#"<DJ_PLAYLISTS>
  <HEAD COMPANY="someone"/>
  <COLLECTION>
    <ENTRY TITLE="Song A">
      <LOCATION VOLUME="C" DIR="/d/" FILE="a.mp3"/>
    </ENTRY>
  </COLLECTION>
</DJ_PLAYLISTS>"#;
    let data = ingest_document(doc);
    assert_eq!(data.tracks.len(), 1);
}

#[test]
fn playlists_section_gates_on_type() {
    // A NODE without TYPE="PLAYLIST" is no playlist record; nested
    // playlist nodes inside it are still found.
    let doc = r#"<DJ_PLAYLISTS>
  <PLAYLISTS>
    <NODE TYPE="FOLDER" NAME="Folder">
      <NODE TYPE="PLAYLIST" NAME="Inner"></NODE>
    </NODE>
  </PLAYLISTS>
</DJ_PLAYLISTS>"#;
    let data = ingest_document(doc);
    assert_eq!(data.playlists.len(), 1);
    assert_eq!(data.playlists[0].name, "Inner");
}

#[test]
fn parser_reports_source_error() {
    let mut parser = CollectionParser::new(b"<COLLECTION><<".to_vec());
    let mut saw_error = false;
    loop {
        match parser.next_node() {
            Ok(Some(_)) => {}
            Ok(None) => break,
            Err(e) => {
                assert_eq!(e, ParseError::Source);
                saw_error = true;
                break;
            }
        }
    }
    assert!(saw_error);
    // A failed pass repeats its terminal error.
    assert!(matches!(parser.next_node(), Err(ParseError::Source)));
}

#[test]
fn skipped_records_are_counted() {
    let mut data = CollectionData::new();
    assert_eq!(data.skipped_records, 0);
    data.add_node(&track_node(Some("Good"), None, None, Some(("C", "/d/", "a.mp3"))));
    assert_eq!(data.skipped_records, 0);
    data.add_node(&track_node(None, Some("X"), None, Some(("C", "/d/", "b.mp3"))));
    assert_eq!(data.skipped_records, 1);
    data.add_node(&track_node(Some("No location"), None, None, None));
    assert_eq!(data.skipped_records, 2);
    data.add_node(&playlist_node(None, vec!["C/d/a.mp3"]));
    assert_eq!(data.skipped_records, 3);
    data.add_node(&playlist_node(Some("Named"), vec![]));
    assert_eq!(data.skipped_records, 3);
    assert_eq!(data.tracks.len(), 1);
    assert_eq!(data.playlists.len(), 1);
}

#[test]
fn get_tracks_filters_unresolvable_references() {
    let mut data = CollectionData::new();
    data.add_node(&track_node(Some("Song"), None, None, Some(("C", "/d/", "a.mp3"))));
    // A back-reference to an entity the graph does not hold resolves to
    // absent rather than fail.
    let stray = Artist {
        name: "ghostly".to_string(),
        albums: Vec::new(),
        tracks: vec![0, 7],
    };
    let resolved = stray.get_tracks(&data);
    assert_eq!(resolved.len(), 1);
    assert_eq!(resolved[0].title, "Song");
}

#[test]
fn missing_title_takes_precedence() {
    let node = Node {
        node_type: NodeType::Track,
        attributes: vec![],
        elements: vec![],
    };
    assert_eq!(Track::new(&node, None, None).err(), Some(TrackError::MissingTitle));
    let node_with_title = Node {
        node_type: NodeType::Track,
        attributes: vec![attr("TITLE", "Song")],
        elements: vec![],
    };
    assert_eq!(
        Track::new(&node_with_title, None, None).err(),
        Some(TrackError::MissingLocation)
    );
}

#[test]
fn ingest_all_drives_whole_document() {
    let doc = r#"<DJ_PLAYLISTS>
  <COLLECTION>
    <ENTRY TITLE="Song A" ARTIST="X">
      <LOCATION VOLUME="C" DIR="/d/" FILE="a.mp3"/>
    </ENTRY>
  </COLLECTION>
</DJ_PLAYLISTS>"#;
    let mut data = CollectionData::new();
    let mut parser = CollectionParser::new(doc.as_bytes().to_vec());
    assert!(data.ingest_all(&mut parser).is_ok());
    assert_eq!(data.tracks.len(), 1);
    assert_eq!(data.artists.len(), 1);
}

#[test]
fn ingest_all_surfaces_source_error() {
    let mut data = CollectionData::new();
    let mut parser = CollectionParser::new(b"not xml <".to_vec());
    assert!(matches!(data.ingest_all(&mut parser), Err(ParseError::Source)));
}

#[test]
fn finished_parser_stays_finished() {
    let mut parser = CollectionParser::new(b"<DJ_PLAYLISTS></DJ_PLAYLISTS>".to_vec());
    assert!(matches!(parser.next_node(), Ok(None)));
    assert!(matches!(parser.next_node(), Ok(None)));
}
