//! Stage two of the pipeline: the entity graph.
//!
//! [`CollectionData`] owns every entity by value in indexed collections;
//! all cross-references among entities -- track to artist or album,
//! artist to its tracks and albums, album to its tracks, playlist to its
//! member tracks -- are stored as indices into those collections and
//! resolved through `CollectionData` at read time. The graph therefore
//! holds no ownership cycles and no dangling handles.
//!
//! Ingestion is single-pass: [`CollectionData::add_node`] is the one
//! mutating entry point, called once per parsed record in source order.

use vstd::prelude::*;
use vstd::string::StrSliceExecFns;
use vstd::string::StringExecFns;

use crate::events::{AttributeView, ElementView, Event};
use crate::parser::{CollectionParser, Node, NodeType, NodeView, ParseError, ParserStateView};
use crate::parser::{spec_attribute, spec_element_with_name, spec_elements_attribute};
use crate::parser::{spec_events, spec_pull, spec_step, PullOutcome, StepView};
use crate::utils::{spec_is_float_literal, spec_parse_u16};

verus! {

/// The composite (volume, directory path, filename) identifying a
/// track's source file: a track's identity, and the key playlists
/// resolve their members by.
pub struct TrackLocation {
    pub volume: String,
    pub path: String,
    pub filename: String,
}

/// The mathematical value of a [`TrackLocation`].
#[verifier::ext_equal]
pub struct TrackLocationView {
    pub volume: Seq<char>,
    pub path: Seq<char>,
    pub filename: Seq<char>,
}

impl View for TrackLocation {
    type V = TrackLocationView;

    open spec fn view(&self) -> TrackLocationView {
        TrackLocationView {
            volume: self.volume@,
            path: self.path@,
            filename: self.filename@,
        }
    }
}

impl DeepView for TrackLocation {
    type V = TrackLocationView;

    open spec fn deep_view(&self) -> TrackLocationView {
        self.view()
    }
}

impl Clone for TrackLocation {
    fn clone(&self) -> (res: TrackLocation)
        ensures
            res == *self,
    {
        TrackLocation {
            volume: self.volume.clone(),
            path: self.path.clone(),
            filename: self.filename.clone(),
        }
    }
}

/// The primary key of a location: volume, directory path and filename
/// run together.
pub open spec fn spec_primary_key(l: TrackLocationView) -> Seq<char> {
    l.volume + l.path + l.filename
}

/// Why a track record could not be constructed.
#[derive(Clone, Copy, PartialEq, Eq, Structural, Debug)]
pub enum TrackError {
    /// The record carries no `TITLE` attribute.
    MissingTitle,
    /// The record carries no complete location composite: a `LOCATION`
    /// child with `VOLUME`, `DIR` and `FILE` attributes.
    MissingLocation,
}

/// One track of the collection. Immutable once constructed; owned by
/// [`CollectionData`].
pub struct Track {
    pub title: String,
    pub location: TrackLocation,
    /// Index of the linked artist in `CollectionData::artists`, if one
    /// was resolved at construction time.
    pub artist: Option<usize>,
    /// Index of the linked album in `CollectionData::albums`, if one was
    /// resolved at construction time.
    pub album: Option<usize>,
    pub album_track_number: Option<u16>,
    /// The playback length in seconds, kept as the source's well-formed
    /// float literal; a malformed value is absent.
    pub duration_seconds: Option<String>,
    /// The tempo, kept as the source's well-formed float literal; a
    /// malformed value is absent.
    pub bpm: Option<String>,
}

/// The mathematical value of a [`Track`].
#[verifier::ext_equal]
pub struct TrackView {
    pub title: Seq<char>,
    pub location: TrackLocationView,
    pub artist: Option<usize>,
    pub album: Option<usize>,
    pub album_track_number: Option<u16>,
    pub duration_seconds: Option<Seq<char>>,
    pub bpm: Option<Seq<char>>,
}

impl View for Track {
    type V = TrackView;

    open spec fn view(&self) -> TrackView {
        TrackView {
            title: self.title@,
            location: self.location@,
            artist: self.artist,
            album: self.album,
            album_track_number: self.album_track_number,
            duration_seconds: self.duration_seconds.deep_view(),
            bpm: self.bpm.deep_view(),
        }
    }
}

impl DeepView for Track {
    type V = TrackView;

    open spec fn deep_view(&self) -> TrackView {
        self.view()
    }
}

impl Clone for Track {
    fn clone(&self) -> (res: Track)
        ensures
            res == *self,
    {
        Track {
            title: self.title.clone(),
            location: self.location.clone(),
            artist: self.artist,
            album: self.album,
            album_track_number: self.album_track_number,
            duration_seconds: match &self.duration_seconds {
                Some(s) => Some(s.clone()),
                None => None,
            },
            bpm: match &self.bpm {
                Some(s) => Some(s.clone()),
                None => None,
            },
        }
    }
}

/// One artist: identified by name, with back-references to its tracks
/// and albums as indices into [`CollectionData`].
pub struct Artist {
    pub name: String,
    pub albums: Vec<usize>,
    pub tracks: Vec<usize>,
}

/// The mathematical value of an [`Artist`].
#[verifier::ext_equal]
pub struct ArtistView {
    pub name: Seq<char>,
    pub albums: Seq<usize>,
    pub tracks: Seq<usize>,
}

impl View for Artist {
    type V = ArtistView;

    open spec fn view(&self) -> ArtistView {
        ArtistView { name: self.name@, albums: self.albums@, tracks: self.tracks@ }
    }
}

impl DeepView for Artist {
    type V = ArtistView;

    open spec fn deep_view(&self) -> ArtistView {
        self.view()
    }
}

/// One album: identified by title alone (an album is not qualified by
/// artist, so same-titled albums merge), with back-references to its
/// tracks.
pub struct Album {
    pub title: String,
    pub tracks: Vec<usize>,
}

/// The mathematical value of an [`Album`].
#[verifier::ext_equal]
pub struct AlbumView {
    pub title: Seq<char>,
    pub tracks: Seq<usize>,
}

impl View for Album {
    type V = AlbumView;

    open spec fn view(&self) -> AlbumView {
        AlbumView { title: self.title@, tracks: self.tracks@ }
    }
}

impl DeepView for Album {
    type V = AlbumView;

    open spec fn deep_view(&self) -> AlbumView {
        self.view()
    }
}

/// One playlist: identified by name, with its member tracks as indices
/// into [`CollectionData`], in playlist order.
pub struct Playlist {
    pub name: String,
    pub tracks: Vec<usize>,
}

/// The mathematical value of a [`Playlist`].
#[verifier::ext_equal]
pub struct PlaylistView {
    pub name: Seq<char>,
    pub tracks: Seq<usize>,
}

impl View for Playlist {
    type V = PlaylistView;

    open spec fn view(&self) -> PlaylistView {
        PlaylistView { name: self.name@, tracks: self.tracks@ }
    }
}

impl DeepView for Playlist {
    type V = PlaylistView;

    open spec fn deep_view(&self) -> PlaylistView {
        self.view()
    }
}

/// The aggregate root: the owning collections of every entity of the
/// graph.
pub struct CollectionData {
    pub tracks: Vec<Track>,
    pub artists: Vec<Artist>,
    pub albums: Vec<Album>,
    pub playlists: Vec<Playlist>,
    /// Diagnostic channel: how many malformed records ingestion has
    /// dropped (a track without its required fields, a playlist without
    /// a name). Dropping stays silent -- ingestion continues -- but the
    /// count is there for a caller that wants to surface it. Saturates
    /// rather than wrap.
    pub skipped_records: u64,
}

/// The mathematical value of a [`CollectionData`].
#[verifier::ext_equal]
pub struct CollectionDataView {
    pub tracks: Seq<TrackView>,
    pub artists: Seq<ArtistView>,
    pub albums: Seq<AlbumView>,
    pub playlists: Seq<PlaylistView>,
}

impl View for CollectionData {
    type V = CollectionDataView;

    open spec fn view(&self) -> CollectionDataView {
        CollectionDataView {
            tracks: self.tracks.deep_view(),
            artists: self.artists.deep_view(),
            albums: self.albums.deep_view(),
            playlists: self.playlists.deep_view(),
        }
    }
}

impl TrackLocation {
    /// The location composite of a track record: the `VOLUME`, `DIR` and
    /// `FILE` attributes of its `LOCATION` child element. Any part
    /// missing, including the element itself, leaves the whole composite
    /// absent.
    pub fn new_from_node(node: &Node) -> (r: Option<TrackLocation>)
        ensures
            r.deep_view() == spec_location_of_node(node@),
    {
        match node.get_element_with_name("LOCATION") {
            Some(elem) => {
                let volume = crate::parser::get_element_attribute(elem, "VOLUME");
                let path = crate::parser::get_element_attribute(elem, "DIR");
                let filename = crate::parser::get_element_attribute(elem, "FILE");
                match (volume, path, filename) {
                    (Some(volume), Some(path), Some(filename)) => Some(
                        TrackLocation { volume, path, filename },
                    ),
                    _ => None,
                }
            },
            None => None,
        }
    }

    /// The key under which playlists refer to this location.
    pub fn as_primary_key(&self) -> (r: String)
        ensures
            r@ == spec_primary_key(self@),
    {
        let mut r = self.volume.clone();
        r.append(self.path.as_str());
        r.append(self.filename.as_str());
        r
    }
}

/// The location composite a track record describes, if complete.
pub open spec fn spec_location_of_node(n: NodeView) -> Option<TrackLocationView> {
    match spec_element_with_name(n.elements, "LOCATION"@) {
        Some(elem) => match (
            spec_attribute(elem.attributes, "VOLUME"@),
            spec_attribute(elem.attributes, "DIR"@),
            spec_attribute(elem.attributes, "FILE"@),
        ) {
            (Some(volume), Some(path), Some(filename)) => Some(
                TrackLocationView { volume, path, filename },
            ),
            _ => None,
        },
        None => None,
    }
}

/// Best-effort coercion of an optional attribute into a 16-bit number:
/// a missing or malformed value is absent, never an error.
pub open spec fn spec_coerce_u16(o: Option<Seq<char>>) -> Option<u16> {
    match o {
        Some(s) => spec_parse_u16(s),
        None => None,
    }
}

/// Best-effort coercion of an optional attribute into a float literal:
/// the value is kept exactly when it is well formed; a missing or
/// malformed value is absent, never an error.
pub open spec fn spec_coerce_float(o: Option<Seq<char>>) -> Option<Seq<char>> {
    match o {
        Some(s) => if spec_is_float_literal(s) {
            Some(s)
        } else {
            None
        },
        None => None,
    }
}

/// The track a record describes, with the already-resolved artist and
/// album links: its `TITLE` attribute and location composite are
/// required; the numeric fields coerce best-effort.
pub open spec fn spec_track_of_node(
    n: NodeView,
    artist: Option<usize>,
    album: Option<usize>,
) -> Result<TrackView, TrackError> {
    match spec_attribute(n.attributes, "TITLE"@) {
        None => Err(TrackError::MissingTitle),
        Some(title) => match spec_location_of_node(n) {
            None => Err(TrackError::MissingLocation),
            Some(location) => Ok(
                TrackView {
                    title,
                    location,
                    artist,
                    album,
                    album_track_number: spec_coerce_u16(
                        spec_elements_attribute(n.elements, "ALBUM"@, "TRACK"@),
                    ),
                    duration_seconds: spec_coerce_float(
                        spec_elements_attribute(n.elements, "INFO"@, "PLAYTIME_FLOAT"@),
                    ),
                    bpm: spec_coerce_float(spec_elements_attribute(n.elements, "INFO"@, "BPM"@)),
                },
            ),
        },
    }
}

/// The value of a `Result` of track construction.
pub open spec fn spec_track_result_view(r: Result<Track, TrackError>) -> Result<
    TrackView,
    TrackError,
> {
    match r {
        Ok(t) => Ok(t@),
        Err(e) => Err(e),
    }
}

/// Coerces an optional attribute value into a kept-or-absent float
/// literal, exactly as [`spec_coerce_float`] says.
fn coerce_float_string(o: Option<String>) -> (r: Option<String>)
    ensures
        r.deep_view() == spec_coerce_float(o.deep_view()),
{
    match o {
        Some(s) => {
            if crate::utils::is_float_literal(s.as_str()) {
                Some(s)
            } else {
                None
            }
        },
        None => None,
    }
}

impl Track {
    /// Constructs the track a record describes. A record without a
    /// `TITLE` attribute, or without a complete location composite, is
    /// rejected as a whole -- the title check comes first -- and no
    /// partial track is produced. The duration coerces from the info
    /// descriptor's `PLAYTIME_FLOAT` attribute, the tempo from its
    /// `BPM` attribute, and the album track number from the album
    /// descriptor's `TRACK` attribute, all best-effort: a malformed
    /// value leaves its field absent and never fails the record.
    pub fn new(node: &Node, artist: Option<usize>, album: Option<usize>) -> (r: Result<
        Track,
        TrackError,
    >)
        ensures
            spec_track_result_view(r) == spec_track_of_node(node@, artist, album),
    {
        let title = match node.get_attribute("TITLE") {
            Some(title) => title,
            None => {
                return Err(TrackError::MissingTitle);
            },
        };
        let location = match TrackLocation::new_from_node(node) {
            Some(location) => location,
            None => {
                return Err(TrackError::MissingLocation);
            },
        };
        let album_track_number = match node.get_elements_attribute("ALBUM", "TRACK") {
            Some(s) => crate::utils::parse_option_str(s),
            None => None,
        };
        let duration_seconds = coerce_float_string(
            node.get_elements_attribute("INFO", "PLAYTIME_FLOAT"),
        );
        let bpm = coerce_float_string(node.get_elements_attribute("INFO", "BPM"));
        Ok(Track { title, location, artist, album, album_track_number, duration_seconds, bpm })
    }
}

impl Artist {
    /// A fresh artist with the given name and no links yet.
    pub fn new(name: String) -> (r: Artist)
        ensures
            r@.name == name@,
            r@.albums == Seq::<usize>::empty(),
            r@.tracks == Seq::<usize>::empty(),
    {
        Artist { name, albums: Vec::new(), tracks: Vec::new() }
    }

    /// Records a back-reference to one more of this artist's tracks.
    pub fn add_track(&mut self, track: usize)
        ensures
            final(self)@.name == old(self)@.name,
            final(self)@.albums == old(self)@.albums,
            final(self)@.tracks == old(self)@.tracks.push(track),
    {
        self.tracks.push(track);
    }

    /// Records a back-reference to an album, unless one to the same
    /// album is already held: identity, not structural equality, keeps
    /// the set free of duplicates.
    pub fn add_album(&mut self, album: usize)
        ensures
            final(self)@.name == old(self)@.name,
            final(self)@.tracks == old(self)@.tracks,
            final(self)@.albums == if old(self)@.albums.contains(album) {
                old(self)@.albums
            } else {
                old(self)@.albums.push(album)
            },
    {
        if !contains_index(&self.albums, album) {
            self.albums.push(album);
        }
    }
}

/// The tracks a list of back-reference indices resolves to, in list
/// order; an index pointing outside the track collection is filtered
/// out transparently.
pub open spec fn spec_resolved_tracks(idxs: Seq<usize>, tracks: Seq<TrackView>) -> Seq<TrackView>
    decreases idxs.len(),
{
    if idxs.len() == 0 {
        Seq::empty()
    } else {
        let rest = spec_resolved_tracks(idxs.drop_last(), tracks);
        if (idxs.last() as int) < tracks.len() {
            rest.push(tracks[idxs.last() as int])
        } else {
            rest
        }
    }
}

impl Artist {
    /// The artist's linked tracks, resolved from its back-references
    /// through the owning graph; a reference to an entity the graph
    /// does not hold resolves to absent rather than fail.
    pub fn get_tracks(&self, data: &CollectionData) -> (r: Vec<Track>)
        ensures
            r.deep_view() == spec_resolved_tracks(self@.tracks, data@.tracks),
    {
        let mut out: Vec<Track> = Vec::new();
        proof {
            assert(self@.tracks.take(0) =~= Seq::<usize>::empty());
            assert(out.deep_view() =~= spec_resolved_tracks(self@.tracks.take(0), data@.tracks));
        }
        let mut i: usize = 0;
        while i < self.tracks.len()
            invariant
                i <= self@.tracks.len(),
                out.deep_view() == spec_resolved_tracks(self@.tracks.take(i as int), data@.tracks),
            decreases self@.tracks.len() - i,
        {
            proof {
                assert(self@.tracks.take(i + 1).drop_last() =~= self@.tracks.take(i as int));
                assert(self@.tracks.take(i + 1).last() == self@.tracks[i as int]);
            }
            let ti = self.tracks[i];
            if ti < data.tracks.len() {
                let ghost before: Seq<TrackView> = out.deep_view();
                out.push(data.tracks[ti].clone());
                proof {
                    assert(out.deep_view() =~= before.push(data@.tracks[ti as int]));
                }
            }
            i += 1;
        }
        proof {
            assert(self@.tracks.take(self@.tracks.len() as int) =~= self@.tracks);
        }
        out
    }
}

impl Album {
    /// A fresh album with the given title and no links yet.
    pub fn new(title: String) -> (r: Album)
        ensures
            r@.title == title@,
            r@.tracks == Seq::<usize>::empty(),
    {
        Album { title, tracks: Vec::new() }
    }

    /// Records a back-reference to one more of this album's tracks.
    pub fn add_track(&mut self, track: usize)
        ensures
            final(self)@.title == old(self)@.title,
            final(self)@.tracks == old(self)@.tracks.push(track),
    {
        self.tracks.push(track);
    }
}

impl PartialEq for Album {
    /// Albums are compared by their identity key: the title.
    fn eq(&self, other: &Album) -> (r: bool) {
        crate::utils::str_eq(self.title.as_str(), other.title.as_str())
    }
}

impl vstd::std_specs::cmp::PartialEqSpecImpl for Album {
    open spec fn obeys_eq_spec() -> bool {
        true
    }

    open spec fn eq_spec(&self, other: &Album) -> bool {
        self.title@ == other.title@
    }
}

impl Playlist {
    /// A playlist with the given name and already-resolved member track
    /// indices.
    pub fn new(name: String, tracks: Vec<usize>) -> (r: Playlist)
        ensures
            r@.name == name@,
            r@.tracks == tracks@,
    {
        Playlist { name, tracks }
    }
}

/// The identity keys of the artists, in insertion order.
pub open spec fn spec_artist_keys(artists: Seq<ArtistView>) -> Seq<Seq<char>> {
    artists.map_values(|a: ArtistView| a.name)
}

/// The identity keys of the albums, in insertion order.
pub open spec fn spec_album_keys(albums: Seq<AlbumView>) -> Seq<Seq<char>> {
    albums.map_values(|a: AlbumView| a.title)
}

/// The position of the first key equal to `key`, scanning in insertion
/// order, or `None` when no key matches.
pub open spec fn spec_find_key(keys: Seq<Seq<char>>, key: Seq<char>) -> Option<int>
    decreases keys.len(),
{
    if keys.len() == 0 {
        None
    } else if keys[0] == key {
        Some(0)
    } else {
        match spec_find_key(keys.drop_first(), key) {
            Some(i) => Some(i + 1),
            None => None,
        }
    }
}

/// A first-match scan and [`spec_find_key`] agree: if every key before
/// `i` differs and the key at `i` (when it exists) matches, the find
/// yields `i`, or `None` when `i` runs off the end.
proof fn lemma_find_key_characterization(keys: Seq<Seq<char>>, key: Seq<char>, i: int)
    requires
        0 <= i <= keys.len(),
        forall|k: int| 0 <= k < i ==> keys[k] != key,
        i < keys.len() ==> keys[i] == key,
    ensures
        spec_find_key(keys, key) == if i < keys.len() {
            Some(i)
        } else {
            None::<int>
        },
    decreases keys.len(),
{
    if keys.len() == 0 {
    } else if keys[0] == key {
        assert(i == 0);
    } else {
        assert(i >= 1);
        assert forall|k: int| 0 <= k < i - 1 implies keys.drop_first()[k] != key by {
            assert(keys.drop_first()[k] == keys[k + 1]);
        }
        assert(i - 1 < keys.drop_first().len() ==> keys.drop_first()[i - 1] == key);
        lemma_find_key_characterization(keys.drop_first(), key, i - 1);
    }
}

/// The position of the last track whose location key equals `key`, or
/// `None` when no track matches. The last occurrence wins when several
/// tracks share one key.
pub open spec fn spec_find_track(tracks: Seq<TrackView>, key: Seq<char>) -> Option<int>
    decreases tracks.len(),
{
    if tracks.len() == 0 {
        None
    } else if spec_primary_key(tracks.last().location) == key {
        Some(tracks.len() - 1)
    } else {
        spec_find_track(tracks.drop_last(), key)
    }
}

/// The member tracks a playlist record resolves to, against the tracks
/// ingested so far: for each child element carrying a `KEY` attribute,
/// in order, the track that key resolves to; keys that resolve to no
/// track are omitted.
pub open spec fn spec_resolve_members(tracks: Seq<TrackView>, elems: Seq<ElementView>) -> Seq<
    usize,
>
    decreases elems.len(),
{
    if elems.len() == 0 {
        Seq::empty()
    } else {
        let rest = spec_resolve_members(tracks, elems.drop_last());
        match spec_attribute(elems.last().attributes, "KEY"@) {
            Some(key) => match spec_find_track(tracks, key) {
                Some(i) => rest.push(i as usize),
                None => rest,
            },
            None => rest,
        }
    }
}

/// What resolving or creating the album of a track record does: no
/// album title, no link and no change; a known title links the first
/// album carrying it; a new title appends a fresh album, linked, with no
/// tracks yet.
pub open spec fn spec_get_or_create_album(d: CollectionDataView, n: NodeView) -> (
    CollectionDataView,
    Option<usize>,
) {
    match spec_elements_attribute(n.elements, "ALBUM"@, "TITLE"@) {
        None => (d, None),
        Some(title) => match spec_find_key(spec_album_keys(d.albums), title) {
            Some(i) => (d, Some(i as usize)),
            None => (
                CollectionDataView {
                    tracks: d.tracks,
                    artists: d.artists,
                    albums: d.albums.push(AlbumView { title, tracks: Seq::empty() }),
                    playlists: d.playlists,
                },
                Some(d.albums.len() as usize),
            ),
        },
    }
}

/// What resolving or creating the artist of a track record does; the
/// same find-or-create rule as for albums, keyed by the record's own
/// `ARTIST` attribute.
pub open spec fn spec_get_or_create_artist(d: CollectionDataView, n: NodeView) -> (
    CollectionDataView,
    Option<usize>,
) {
    match spec_attribute(n.attributes, "ARTIST"@) {
        None => (d, None),
        Some(name) => match spec_find_key(spec_artist_keys(d.artists), name) {
            Some(i) => (d, Some(i as usize)),
            None => (
                CollectionDataView {
                    tracks: d.tracks,
                    artists: d.artists.push(
                        ArtistView { name, albums: Seq::empty(), tracks: Seq::empty() },
                    ),
                    albums: d.albums,
                    playlists: d.playlists,
                },
                Some(d.artists.len() as usize),
            ),
        },
    }
}

/// What ingesting a track record does. The album, then the artist, are
/// resolved or created. A record whose track construction fails changes
/// nothing further. Otherwise the track is appended, the artist gains a
/// back-reference to it (and to the album, deduplicated), and the album
/// gains a back-reference to it.
pub open spec fn spec_add_track_node(d: CollectionDataView, n: NodeView) -> CollectionDataView {
    let (d1, album) = spec_get_or_create_album(d, n);
    let (d2, artist) = spec_get_or_create_artist(d1, n);
    match spec_track_of_node(n, artist, album) {
        Err(_) => d2,
        Ok(track) => {
            let ti = d2.tracks.len() as usize;
            let d3 = CollectionDataView {
                tracks: d2.tracks.push(track),
                artists: d2.artists,
                albums: d2.albums,
                playlists: d2.playlists,
            };
            let d4 = match artist {
                Some(ai) => {
                    let a = d3.artists[ai as int];
                    let with_track = ArtistView {
                        name: a.name,
                        albums: a.albums,
                        tracks: a.tracks.push(ti),
                    };
                    let linked = match album {
                        Some(bi) => if with_track.albums.contains(bi) {
                            with_track
                        } else {
                            ArtistView {
                                name: with_track.name,
                                albums: with_track.albums.push(bi),
                                tracks: with_track.tracks,
                            }
                        },
                        None => with_track,
                    };
                    CollectionDataView {
                        tracks: d3.tracks,
                        artists: d3.artists.update(ai as int, linked),
                        albums: d3.albums,
                        playlists: d3.playlists,
                    }
                },
                None => d3,
            };
            match album {
                Some(bi) => {
                    let b = d4.albums[bi as int];
                    CollectionDataView {
                        tracks: d4.tracks,
                        artists: d4.artists,
                        albums: d4.albums.update(
                            bi as int,
                            AlbumView { title: b.title, tracks: b.tracks.push(ti) },
                        ),
                        playlists: d4.playlists,
                    }
                },
                None => d4,
            }
        },
    }
}

/// What ingesting a playlist record does: its member references are
/// resolved against the tracks ingested so far, and the playlist is
/// appended -- unless the record carries no `NAME` attribute, in which
/// case it is dropped whole.
pub open spec fn spec_add_playlist_node(d: CollectionDataView, n: NodeView) -> CollectionDataView {
    let members = spec_resolve_members(d.tracks, n.elements);
    match spec_attribute(n.attributes, "NAME"@) {
        None => d,
        Some(name) => CollectionDataView {
            tracks: d.tracks,
            artists: d.artists,
            albums: d.albums,
            playlists: d.playlists.push(PlaylistView { name, tracks: members }),
        },
    }
}

/// What ingesting one record does, by its kind.
pub open spec fn spec_add_node(d: CollectionDataView, n: NodeView) -> CollectionDataView {
    match n.node_type {
        NodeType::Track => spec_add_track_node(d, n),
        NodeType::Playlist => spec_add_playlist_node(d, n),
    }
}

/// Whether ingesting this record drops it as malformed: a track record
/// whose construction fails, or a playlist record without a `NAME`
/// attribute.
pub open spec fn spec_record_dropped(d: CollectionDataView, n: NodeView) -> bool {
    match n.node_type {
        NodeType::Track => {
            let (d1, album) = spec_get_or_create_album(d, n);
            let (d2, artist) = spec_get_or_create_artist(d1, n);
            spec_track_of_node(n, artist, album) is Err
        },
        NodeType::Playlist => spec_attribute(n.attributes, "NAME"@) is None,
    }
}

/// The skipped-record count after one more record: up by one for a
/// dropped record, saturating at the counter's ceiling.
pub open spec fn spec_skipped_after(skipped: u64, dropped: bool) -> u64 {
    if dropped && skipped < u64::MAX {
        (skipped + 1) as u64
    } else {
        skipped
    }
}

/// How one whole ingestion run ends.
pub enum RunOutcome {
    /// The document ended cleanly.
    Completed,
    /// The pass failed; everything ingested before the failure is kept.
    Faulted(ParseError),
    /// The stream ran out while the parser was still accumulating;
    /// whatever the source yields beyond its stream is terminal.
    Exhausted,
}

/// The graph an ingestion run builds, and how the run ends.
#[verifier::ext_equal]
pub struct IngestRunView {
    pub graph: CollectionDataView,
    pub outcome: RunOutcome,
}

/// Folds the whole pipeline over one event stream: each event steps the
/// record machine of [`spec_step`], and each record the machine emits
/// is ingested by [`spec_add_node`], until the stream decides how the
/// run ends.
pub open spec fn spec_ingest_events(
    d: CollectionDataView,
    s: ParserStateView,
    evs: Seq<Event>,
) -> IngestRunView
    decreases evs.len(),
{
    if evs.len() == 0 {
        IngestRunView { graph: d, outcome: RunOutcome::Exhausted }
    } else {
        let stepped = spec_step(s, evs[0]);
        match stepped.1 {
            StepView::Continue => spec_ingest_events(d, stepped.0, evs.drop_first()),
            StepView::Emit(n) => spec_ingest_events(
                spec_add_node(d, n),
                stepped.0,
                evs.drop_first(),
            ),
            StepView::Finished => IngestRunView { graph: d, outcome: RunOutcome::Completed },
            StepView::Fail(e) => IngestRunView { graph: d, outcome: RunOutcome::Faulted(e) },
        }
    }
}

/// An ingestion run is one pull followed by the run over what the pull
/// leaves: the record it yields, if any, ingested into the graph, and
/// the run carried on from the state and stream the pull leaves.
proof fn lemma_ingest_events_pull(d: CollectionDataView, s: ParserStateView, evs: Seq<Event>)
    ensures
        ({
            let p = spec_pull(s, evs);
            spec_ingest_events(d, s, evs) == match p.outcome {
                PullOutcome::Record(n) => spec_ingest_events(spec_add_node(d, n), p.state, p.rest),
                PullOutcome::End => IngestRunView { graph: d, outcome: RunOutcome::Completed },
                PullOutcome::Fault(e) => IngestRunView {
                    graph: d,
                    outcome: RunOutcome::Faulted(e),
                },
                PullOutcome::Exhausted => IngestRunView {
                    graph: d,
                    outcome: RunOutcome::Exhausted,
                },
            }
        }),
    decreases evs.len(),
{
    if evs.len() > 0 {
        let stepped = spec_step(s, evs[0]);
        match stepped.1 {
            StepView::Continue => {
                lemma_ingest_events_pull(d, stepped.0, evs.drop_first());
            },
            _ => {},
        }
    }
}

impl CollectionData {
    /// An empty graph. It trivially holds the graph invariants that
    /// ingestion preserves: distinct identity keys and consistent
    /// links.
    pub fn new() -> (r: CollectionData)
        ensures
            r@.tracks == Seq::<TrackView>::empty(),
            r@.artists == Seq::<ArtistView>::empty(),
            r@.albums == Seq::<AlbumView>::empty(),
            r@.playlists == Seq::<PlaylistView>::empty(),
            spec_unique_artists(r@),
            spec_unique_albums(r@),
            spec_links_wf(r@),
            r.skipped_records == 0,
    {
        let r = CollectionData {
            tracks: Vec::new(),
            artists: Vec::new(),
            albums: Vec::new(),
            playlists: Vec::new(),
            skipped_records: 0,
        };
        proof {
            assert(r@.tracks =~= Seq::<TrackView>::empty());
            assert(r@.artists =~= Seq::<ArtistView>::empty());
            assert(r@.albums =~= Seq::<AlbumView>::empty());
            assert(r@.playlists =~= Seq::<PlaylistView>::empty());
        }
        r
    }

    /// The first artist with this name, in insertion order, if any.
    fn find_artist(&self, name: &String) -> (r: Option<usize>)
        ensures
            spec_find_key(spec_artist_keys(self@.artists), name@) == match r {
                Some(i) => Some(i as int),
                None => None::<int>,
            },
            r matches Some(i) ==> i < self@.artists.len(),
    {
        let mut i: usize = 0;
        while i < self.artists.len()
            invariant
                i <= self@.artists.len(),
                forall|k: int| 0 <= k < i ==> self@.artists[k].name != name@,
            decreases self@.artists.len() - i,
        {
            if crate::utils::str_eq(self.artists[i].name.as_str(), name.as_str()) {
                proof {
                    assert(spec_artist_keys(self@.artists)[i as int] == self@.artists[i as int].name);
                    assert forall|k: int| 0 <= k < i implies spec_artist_keys(self@.artists)[k]
                        != name@ by {
                        assert(spec_artist_keys(self@.artists)[k] == self@.artists[k].name);
                    }
                    lemma_find_key_characterization(spec_artist_keys(self@.artists), name@, i as int);
                }
                return Some(i);
            }
            i += 1;
        }
        proof {
            assert forall|k: int| 0 <= k < self@.artists.len() implies spec_artist_keys(
                self@.artists,
            )[k] != name@ by {
                assert(spec_artist_keys(self@.artists)[k] == self@.artists[k].name);
            }
            lemma_find_key_characterization(
                spec_artist_keys(self@.artists),
                name@,
                self@.artists.len() as int,
            );
        }
        None
    }

    /// The first album with this title, in insertion order, if any.
    fn find_album(&self, title: &String) -> (r: Option<usize>)
        ensures
            spec_find_key(spec_album_keys(self@.albums), title@) == match r {
                Some(i) => Some(i as int),
                None => None::<int>,
            },
            r matches Some(i) ==> i < self@.albums.len(),
    {
        let mut i: usize = 0;
        while i < self.albums.len()
            invariant
                i <= self@.albums.len(),
                forall|k: int| 0 <= k < i ==> self@.albums[k].title != title@,
            decreases self@.albums.len() - i,
        {
            if crate::utils::str_eq(self.albums[i].title.as_str(), title.as_str()) {
                proof {
                    assert(spec_album_keys(self@.albums)[i as int] == self@.albums[i as int].title);
                    assert forall|k: int| 0 <= k < i implies spec_album_keys(self@.albums)[k]
                        != title@ by {
                        assert(spec_album_keys(self@.albums)[k] == self@.albums[k].title);
                    }
                    lemma_find_key_characterization(spec_album_keys(self@.albums), title@, i as int);
                }
                return Some(i);
            }
            i += 1;
        }
        proof {
            assert forall|k: int| 0 <= k < self@.albums.len() implies spec_album_keys(
                self@.albums,
            )[k] != title@ by {
                assert(spec_album_keys(self@.albums)[k] == self@.albums[k].title);
            }
            lemma_find_key_characterization(
                spec_album_keys(self@.albums),
                title@,
                self@.albums.len() as int,
            );
        }
        None
    }

    /// The track this location key resolves to: the last one ingested
    /// under that key, if any.
    fn find_track_by_key(&self, key: &String) -> (r: Option<usize>)
        ensures
            spec_find_track(self@.tracks, key@) == match r {
                Some(i) => Some(i as int),
                None => None::<int>,
            },
            r matches Some(i) ==> i < self@.tracks.len(),
    {
        let mut i: usize = self.tracks.len();
        proof {
            assert(self@.tracks.take(i as int) =~= self@.tracks);
        }
        while i > 0
            invariant
                i <= self@.tracks.len(),
                spec_find_track(self@.tracks, key@) == spec_find_track(
                    self@.tracks.take(i as int),
                    key@,
                ),
            decreases i,
        {
            i -= 1;
            let pk = self.tracks[i].location.as_primary_key();
            proof {
                assert(self@.tracks.take(i + 1).last() == self@.tracks[i as int]);
                assert(self@.tracks.take(i + 1).drop_last() =~= self@.tracks.take(i as int));
            }
            if crate::utils::str_eq(pk.as_str(), key.as_str()) {
                return Some(i);
            }
        }
        proof {
            assert(self@.tracks.take(0) =~= Seq::<TrackView>::empty());
        }
        None
    }
}

impl CollectionData {
    /// Resolves or creates the album a track record names, exactly as
    /// [`spec_get_or_create_album`] says.
    fn get_or_create_album_for_node(&mut self, node: &Node) -> (r: Option<usize>)
        ensures
            final(self)@ == spec_get_or_create_album(old(self)@, node@).0,
            r == spec_get_or_create_album(old(self)@, node@).1,
            r matches Some(i) ==> i < final(self)@.albums.len(),
            final(self).skipped_records == old(self).skipped_records,
    {
        match node.get_elements_attribute("ALBUM", "TITLE") {
            None => None,
            Some(title) => {
                let ghost title_v: Seq<char> = title@;
                match self.find_album(&title) {
                    Some(i) => Some(i),
                    None => {
                        let idx = self.albums.len();
                        self.albums.push(Album::new(title));
                        proof {
                            assert(self.albums.deep_view() =~= old(self).albums.deep_view().push(
                                AlbumView { title: title_v, tracks: Seq::empty() },
                            ));
                            assert(self@ =~= spec_get_or_create_album(old(self)@, node@).0);
                        }
                        Some(idx)
                    },
                }
            },
        }
    }

    /// Resolves or creates the artist a track record names, exactly as
    /// [`spec_get_or_create_artist`] says.
    fn get_or_create_artist_for_node(&mut self, node: &Node) -> (r: Option<usize>)
        ensures
            final(self)@ == spec_get_or_create_artist(old(self)@, node@).0,
            r == spec_get_or_create_artist(old(self)@, node@).1,
            r matches Some(i) ==> i < final(self)@.artists.len(),
            final(self).skipped_records == old(self).skipped_records,
    {
        match node.get_attribute("ARTIST") {
            None => None,
            Some(name) => {
                let ghost name_v: Seq<char> = name@;
                match self.find_artist(&name) {
                    Some(i) => Some(i),
                    None => {
                        let idx = self.artists.len();
                        self.artists.push(Artist::new(name));
                        proof {
                            assert(self.artists.deep_view() =~= old(self).artists.deep_view().push(
                                ArtistView {
                                    name: name_v,
                                    albums: Seq::empty(),
                                    tracks: Seq::empty(),
                                },
                            ));
                            assert(self@ =~= spec_get_or_create_artist(old(self)@, node@).0);
                        }
                        Some(idx)
                    },
                }
            },
        }
    }

    /// Resolves the member references of a playlist record against the
    /// tracks ingested so far, exactly as [`spec_resolve_members`] says.
    fn resolve_members(&self, node: &Node) -> (r: Vec<usize>)
        ensures
            r@ == spec_resolve_members(self@.tracks, node@.elements),
    {
        let mut members: Vec<usize> = Vec::new();
        proof {
            assert(node@.elements.take(0) =~= Seq::<ElementView>::empty());
            assert(members@ =~= spec_resolve_members(self@.tracks, node@.elements.take(0)));
        }
        let mut i: usize = 0;
        while i < node.elements.len()
            invariant
                i <= node@.elements.len(),
                members@ == spec_resolve_members(self@.tracks, node@.elements.take(i as int)),
            decreases node@.elements.len() - i,
        {
            proof {
                assert(node@.elements.take(i + 1).drop_last() =~= node@.elements.take(i as int));
                assert(node@.elements.take(i + 1).last() == node@.elements[i as int]);
            }
            match crate::parser::get_element_attribute(&node.elements[i], "KEY") {
                Some(key) => {
                    match self.find_track_by_key(&key) {
                        Some(ti) => {
                            members.push(ti);
                        },
                        None => {},
                    }
                },
                None => {},
            }
            i += 1;
        }
        proof {
            assert(node@.elements.take(node@.elements.len() as int) =~= node@.elements);
        }
        members
    }

    /// Ingests one track record, exactly as [`spec_add_track_node`]
    /// says: album and artist are resolved or created first; a record
    /// whose track construction fails leaves everything else unchanged;
    /// otherwise the track is appended and the back-references are
    /// wired in both directions.
    fn add_track_node(&mut self, node: &Node)
        requires
            node@.node_type == NodeType::Track,
        ensures
            final(self)@ == spec_add_track_node(old(self)@, node@),
            final(self).skipped_records == spec_skipped_after(
                old(self).skipped_records,
                spec_record_dropped(old(self)@, node@),
            ),
    {
        let ghost d0: CollectionDataView = self@;
        let album = self.get_or_create_album_for_node(node);
        let ghost d1: CollectionDataView = self@;
        let artist = self.get_or_create_artist_for_node(node);
        let ghost d2: CollectionDataView = self@;
        match Track::new(node, artist, album) {
            Err(_) => {
                self.note_skipped();
                proof {
                    assert(self@ =~= spec_add_track_node(d0, node@));
                }
            },
            Ok(track) => {
                let ghost track_v: TrackView = track@;
                let ti = self.tracks.len();
                self.tracks.push(track);
                proof {
                    assert(self.tracks.deep_view() =~= d2.tracks.push(track_v));
                }
                let ghost d3: CollectionDataView = self@;
                if let Some(ai) = artist {
                    let a = &mut self.artists[ai];
                    a.add_track(ti);
                    if let Some(bi) = album {
                        a.add_album(bi);
                    }
                }
                proof {
                    if artist is Some {
                        let ai = artist->0 as int;
                        assert(self.artists.deep_view() =~= d3.artists.update(
                            ai,
                            self.artists.deep_view()[ai],
                        ));
                    }
                }
                let ghost d4: CollectionDataView = self@;
                if let Some(bi) = album {
                    let b = &mut self.albums[bi];
                    b.add_track(ti);
                }
                proof {
                    if album is Some {
                        let bi = album->0 as int;
                        assert(self.albums.deep_view() =~= d4.albums.update(
                            bi,
                            self.albums.deep_view()[bi],
                        ));
                    }
                    assert(self@ =~= spec_add_track_node(d0, node@));
                }
            },
        }
    }

    /// Ingests one playlist record, exactly as [`spec_add_playlist_node`]
    /// says: member references resolve only against tracks ingested
    /// before this record; a record without a `NAME` attribute is
    /// dropped whole.
    fn add_playlist_node(&mut self, node: &Node)
        requires
            node@.node_type == NodeType::Playlist,
        ensures
            final(self)@ == spec_add_playlist_node(old(self)@, node@),
            final(self).skipped_records == spec_skipped_after(
                old(self).skipped_records,
                spec_record_dropped(old(self)@, node@),
            ),
    {
        let members = self.resolve_members(node);
        let ghost members_v: Seq<usize> = members@;
        match node.get_attribute("NAME") {
            Some(name) => {
                let ghost name_v: Seq<char> = name@;
                self.playlists.push(Playlist::new(name, members));
                proof {
                    assert(self.playlists.deep_view() =~= old(self).playlists.deep_view().push(
                        PlaylistView { name: name_v, tracks: members_v },
                    ));
                    assert(self@ =~= spec_add_playlist_node(old(self)@, node@));
                }
            },
            None => {
                self.note_skipped();
            },
        }
    }

    /// Counts one more dropped record, saturating at the ceiling.
    fn note_skipped(&mut self)
        ensures
            final(self)@ == old(self)@,
            final(self).skipped_records == spec_skipped_after(old(self).skipped_records, true),
    {
        if self.skipped_records < u64::MAX {
            self.skipped_records = self.skipped_records + 1;
        }
    }

    /// The single mutating entry point: ingests one parsed record into
    /// the graph, exactly as [`spec_add_node`] says. It keeps the graph
    /// invariants: identity keys stay distinct, and every link keeps
    /// pointing at an entity the graph owns, listed among that entity's
    /// own tracks.
    pub fn add_node(&mut self, node: &Node)
        ensures
            final(self)@ == spec_add_node(old(self)@, node@),
            final(self).skipped_records == spec_skipped_after(
                old(self).skipped_records,
                spec_record_dropped(old(self)@, node@),
            ),
            spec_unique_artists(old(self)@) && spec_unique_albums(old(self)@)
                ==> spec_unique_artists(final(self)@) && spec_unique_albums(final(self)@),
            spec_links_wf(old(self)@) ==> spec_links_wf(final(self)@),
    {
        proof {
            vstd::std_specs::vec::axiom_spec_len(&self.tracks);
            vstd::std_specs::vec::axiom_spec_len(&self.artists);
            vstd::std_specs::vec::axiom_spec_len(&self.albums);
            if spec_unique_artists(self@) && spec_unique_albums(self@) {
                lemma_add_node_preserves_unique_keys(self@, node@);
            }
            if spec_links_wf(self@) {
                lemma_add_node_preserves_links(self@, node@);
            }
        }
        match node.node_type {
            NodeType::Track => {
                self.add_track_node(node);
            },
            NodeType::Playlist => {
                self.add_playlist_node(node);
            },
        }
    }

    /// Drives one whole ingestion pass: pulls records from the parser
    /// one at a time, in source order, and ingests each, until the
    /// document ends cleanly (`Ok`) or the pass fails (`Err`, with the
    /// graph keeping everything ingested before the failure).
    ///
    /// The graph afterwards is exactly the fold of [`spec_add_node`]
    /// over the records that the parser's event stream yields, as
    /// [`spec_ingest_events`] says, and the result reports how that run
    /// ends. The graph invariants of [`CollectionData::add_node`] hold
    /// throughout.
    pub fn ingest_all(&mut self, parser: &mut CollectionParser) -> (r: Result<(), ParseError>)
        ensures
            final(parser).terminated,
            spec_unique_artists(old(self)@) && spec_unique_albums(old(self)@)
                ==> spec_unique_artists(final(self)@) && spec_unique_albums(final(self)@),
            spec_links_wf(old(self)@) ==> spec_links_wf(final(self)@),
            final(self).skipped_records >= old(self).skipped_records,
            r matches Err(e) ==> final(parser).error == Some(e),
            old(parser).terminated ==> final(self)@ == old(self)@ && r == (match old(
                parser,
            ).error {
                Some(e) => Err::<(), ParseError>(e),
                None => Ok::<(), ParseError>(()),
            }),
            !old(parser).terminated ==> ({
                let run = spec_ingest_events(
                    old(self)@,
                    old(parser).state@,
                    spec_events(old(parser).source),
                );
                &&& final(self)@ == run.graph
                &&& match run.outcome {
                    RunOutcome::Completed => r == Ok::<(), ParseError>(()),
                    RunOutcome::Faulted(e) => r == Err::<(), ParseError>(e),
                    RunOutcome::Exhausted => r == Ok::<(), ParseError>(()) || r == Err::<
                        (),
                        ParseError,
                    >(ParseError::Source),
                }
            }),
    {
        if parser.terminated {
            return match parser.error {
                Some(e) => Err(e),
                None => Ok(()),
            };
        }
        loop
            invariant
                !parser.terminated,
                !old(parser).terminated,
                spec_unique_artists(old(self)@) && spec_unique_albums(old(self)@)
                    ==> spec_unique_artists(self@) && spec_unique_albums(self@),
                spec_links_wf(old(self)@) ==> spec_links_wf(self@),
                self.skipped_records >= old(self).skipped_records,
                spec_ingest_events(
                    old(self)@,
                    old(parser).state@,
                    spec_events(old(parser).source),
                ) == spec_ingest_events(self@, parser.state@, spec_events(parser.source)),
            decreases spec_events(parser.source).len(),
        {
            let ghost d: CollectionDataView = self@;
            let ghost s: ParserStateView = parser.state@;
            let ghost evs: Seq<Event> = spec_events(parser.source);
            proof {
                lemma_ingest_events_pull(d, s, evs);
            }
            match parser.next_node() {
                Ok(Some(node)) => {
                    self.add_node(&node);
                },
                Ok(None) => {
                    return Ok(());
                },
                Err(e) => {
                    return Err(e);
                },
            }
        }
    }
}

/// Whether some position of `s` holds the index `t`.
pub open spec fn spec_contains_idx(s: Seq<usize>, t: int) -> bool {
    exists|k: int| 0 <= k < s.len() && s[k] as int == t
}

/// Artist uniqueness: any two artists of the graph carry distinct
/// names.
pub open spec fn spec_unique_artists(d: CollectionDataView) -> bool {
    forall|i: int, j: int|
        0 <= i < j < d.artists.len() ==> d.artists[i].name != d.artists[j].name
}

/// Album uniqueness: any two albums of the graph carry distinct titles.
pub open spec fn spec_unique_albums(d: CollectionDataView) -> bool {
    forall|i: int, j: int|
        0 <= i < j < d.albums.len() ==> d.albums[i].title != d.albums[j].title
}

/// Link consistency: every stored back-reference points inside the
/// graph (no ghost entities), and every track linked to an artist or an
/// album appears in that entity's own track list.
pub open spec fn spec_links_wf(d: CollectionDataView) -> bool {
    (forall|t: int|
        0 <= t < d.tracks.len() && d.tracks[t].artist is Some ==> (d.tracks[t].artist->0 as int)
            < d.artists.len()) && (forall|t: int|
        0 <= t < d.tracks.len() && d.tracks[t].album is Some ==> (d.tracks[t].album->0 as int)
            < d.albums.len()) && (forall|a: int, k: int|
        0 <= a < d.artists.len() && 0 <= k < d.artists[a].tracks.len() ==> (d.artists[a].tracks[k]
            as int) < d.tracks.len()) && (forall|a: int, k: int|
        0 <= a < d.artists.len() && 0 <= k < d.artists[a].albums.len() ==> (d.artists[a].albums[k]
            as int) < d.albums.len()) && (forall|b: int, k: int|
        0 <= b < d.albums.len() && 0 <= k < d.albums[b].tracks.len() ==> (d.albums[b].tracks[k]
            as int) < d.tracks.len()) && (forall|p: int, k: int|
        0 <= p < d.playlists.len() && 0 <= k < d.playlists[p].tracks.len() ==> (
        d.playlists[p].tracks[k] as int) < d.tracks.len()) && (forall|t: int|
        0 <= t < d.tracks.len() && d.tracks[t].artist is Some ==> spec_contains_idx(
            d.artists[d.tracks[t].artist->0 as int].tracks,
            t,
        )) && (forall|t: int|
        0 <= t < d.tracks.len() && d.tracks[t].album is Some ==> spec_contains_idx(
            d.albums[d.tracks[t].album->0 as int].tracks,
            t,
        ))
}

/// A found track index lies inside the track collection.
proof fn lemma_find_track_in_bounds(tracks: Seq<TrackView>, key: Seq<char>)
    ensures
        spec_find_track(tracks, key) matches Some(i) ==> 0 <= i < tracks.len(),
    decreases tracks.len(),
{
    if tracks.len() > 0 && spec_primary_key(tracks.last().location) != key {
        lemma_find_track_in_bounds(tracks.drop_last(), key);
    }
}

/// Every resolved playlist member lies inside the track collection.
proof fn lemma_resolve_members_in_bounds(tracks: Seq<TrackView>, elems: Seq<ElementView>)
    requires
        tracks.len() <= usize::MAX,
    ensures
        forall|k: int|
            0 <= k < spec_resolve_members(tracks, elems).len() ==> (spec_resolve_members(
                tracks,
                elems,
            )[k] as int) < tracks.len(),
    decreases elems.len(),
{
    if elems.len() > 0 {
        lemma_resolve_members_in_bounds(tracks, elems.drop_last());
        let rest = spec_resolve_members(tracks, elems.drop_last());
        let res = spec_resolve_members(tracks, elems);
        match spec_attribute(elems.last().attributes, "KEY"@) {
            Some(key) => {
                lemma_find_track_in_bounds(tracks, key);
                assert forall|k: int| 0 <= k < res.len() implies (res[k] as int)
                    < tracks.len() by {
                    if spec_find_track(tracks, key) is Some && k == rest.len() {
                        assert(res[k] == (spec_find_track(tracks, key)->0 as usize));
                    } else {
                        assert(res[k] == rest[k]);
                    }
                }
            },
            None => {
                assert(res == rest);
            },
        }
    }
}

/// A key the find misses is carried by no entity at all.
proof fn lemma_find_key_none(keys: Seq<Seq<char>>, key: Seq<char>)
    ensures
        spec_find_key(keys, key) is None ==> forall|k: int| 0 <= k < keys.len() ==> keys[k] != key,
    decreases keys.len(),
{
    if keys.len() > 0 && keys[0] != key {
        lemma_find_key_none(keys.drop_first(), key);
        if spec_find_key(keys, key) is None {
            assert forall|k: int| 0 <= k < keys.len() implies keys[k] != key by {
                if k > 0 {
                    assert(keys.drop_first()[k - 1] == keys[k]);
                }
            }
        }
    }
}

/// A found key index lies inside the key sequence.
proof fn lemma_find_key_in_bounds(keys: Seq<Seq<char>>, key: Seq<char>)
    ensures
        spec_find_key(keys, key) matches Some(i) ==> 0 <= i < keys.len() && keys[i] == key,
    decreases keys.len(),
{
    if keys.len() > 0 && keys[0] != key {
        lemma_find_key_in_bounds(keys.drop_first(), key);
        if spec_find_key(keys, key) is Some {
            let i = spec_find_key(keys, key)->0;
            assert(keys.drop_first()[i - 1] == keys[i]);
        }
    }
}

/// Dedup invariant: however many track records reference one artist
/// name or one album title, ingesting a record keeps the graph at
/// exactly one artist entity per distinct name and one album entity per
/// distinct title.
pub proof fn lemma_add_node_preserves_unique_keys(d: CollectionDataView, n: NodeView)
    requires
        spec_unique_artists(d),
        spec_unique_albums(d),
    ensures
        spec_unique_artists(spec_add_node(d, n)),
        spec_unique_albums(spec_add_node(d, n)),
{
    match n.node_type {
        NodeType::Playlist => {
            assert(spec_add_node(d, n) == spec_add_playlist_node(d, n));
            assert(spec_add_node(d, n).albums == d.albums);
            assert(spec_add_node(d, n).artists == d.artists);
        },
        NodeType::Track => {
            let (d1, album) = spec_get_or_create_album(d, n);
            let (d2, artist) = spec_get_or_create_artist(d1, n);
            // The find-or-create steps append a key only when the find
            // shows it absent.
            match spec_elements_attribute(n.elements, "ALBUM"@, "TITLE"@) {
                Some(title) => {
                    lemma_find_key_none(spec_album_keys(d.albums), title);
                    assert forall|i: int, j: int|
                        0 <= i < j < d1.albums.len() implies d1.albums[i].title
                        != d1.albums[j].title by {
                        if j < d.albums.len() {
                        } else {
                            assert(spec_album_keys(d.albums)[i] == d.albums[i].title);
                        }
                    }
                },
                None => {},
            }
            match spec_attribute(n.attributes, "ARTIST"@) {
                Some(name) => {
                    lemma_find_key_none(spec_artist_keys(d1.artists), name);
                    assert forall|i: int, j: int|
                        0 <= i < j < d2.artists.len() implies d2.artists[i].name
                        != d2.artists[j].name by {
                        if j < d1.artists.len() {
                        } else {
                            assert(spec_artist_keys(d1.artists)[i] == d1.artists[i].name);
                        }
                    }
                },
                None => {},
            }
            // The linking steps rewrite track lists only; names and
            // titles stay as they were.
            let d5 = spec_add_track_node(d, n);
            if album is Some {
                lemma_find_key_in_bounds(spec_album_keys(d.albums), spec_elements_attribute(
                    n.elements,
                    "ALBUM"@,
                    "TITLE"@,
                )->0);
            }
            if artist is Some {
                lemma_find_key_in_bounds(spec_artist_keys(d1.artists), spec_attribute(
                    n.attributes,
                    "ARTIST"@,
                )->0);
            }
            match spec_track_of_node(n, artist, album) {
                Err(_) => {
                    assert(d5 == d2);
                },
                Ok(track) => {
                    assert(d5.artists.len() == d2.artists.len());
                    assert forall|i: int| 0 <= i < d5.artists.len() implies d5.artists[i].name
                        == d2.artists[i].name by {}
                    assert forall|i: int| 0 <= i < d5.albums.len() implies d5.albums[i].title
                        == d2.albums[i].title by {}
                },
            }
        },
    }
}

/// Back-reference consistency: ingesting a record keeps every link of
/// the graph pointing at an entity the graph owns, and every track
/// linked to an artist or album listed among that entity's own tracks.
pub proof fn lemma_add_node_preserves_links(d: CollectionDataView, n: NodeView)
    requires
        spec_links_wf(d),
        d.tracks.len() <= usize::MAX,
        d.artists.len() <= usize::MAX,
        d.albums.len() <= usize::MAX,
    ensures
        spec_links_wf(spec_add_node(d, n)),
{
    match n.node_type {
        NodeType::Playlist => {
            lemma_resolve_members_in_bounds(d.tracks, n.elements);
        },
        NodeType::Track => {
            let (d1, album) = spec_get_or_create_album(d, n);
            let (d2, artist) = spec_get_or_create_artist(d1, n);
            if album is Some {
                lemma_find_key_in_bounds(spec_album_keys(d.albums), spec_elements_attribute(
                    n.elements,
                    "ALBUM"@,
                    "TITLE"@,
                )->0);
            }
            if artist is Some {
                lemma_find_key_in_bounds(spec_artist_keys(d1.artists), spec_attribute(
                    n.attributes,
                    "ARTIST"@,
                )->0);
            }
            match spec_track_of_node(n, artist, album) {
                Err(_) => {
                },
                Ok(track) => {
                    let d5 = spec_add_track_node(d, n);
                    let ti = d2.tracks.len() as usize;
                    assert forall|t: int|
                        0 <= t < d5.tracks.len() && d5.tracks[t].artist is Some implies
                        spec_contains_idx(d5.artists[d5.tracks[t].artist->0 as int].tracks, t) by {
                        let ai = d5.tracks[t].artist->0 as int;
                        if t < d2.tracks.len() {
                            let s_old = d2.artists[ai].tracks;
                            let s_new = d5.artists[ai].tracks;
                            let w = choose|k: int| 0 <= k < s_old.len() && s_old[k] as int == t;
                            assert(s_new[w] as int == t);
                        } else {
                            let s_new = d5.artists[ai].tracks;
                            assert(s_new[s_new.len() - 1] as int == t);
                        }
                    }
                    assert forall|t: int|
                        0 <= t < d5.tracks.len() && d5.tracks[t].album is Some implies
                        spec_contains_idx(d5.albums[d5.tracks[t].album->0 as int].tracks, t) by {
                        let bi = d5.tracks[t].album->0 as int;
                        if t < d2.tracks.len() {
                            let s_old = d2.albums[bi].tracks;
                            let s_new = d5.albums[bi].tracks;
                            let w = choose|k: int| 0 <= k < s_old.len() && s_old[k] as int == t;
                            assert(s_new[w] as int == t);
                        } else {
                            let s_new = d5.albums[bi].tracks;
                            assert(s_new[s_new.len() - 1] as int == t);
                        }
                    }
                },
            }
        },
    }
}

/// Required-field rejection: a track record lacking a title or a
/// complete location composite leaves the track collection, the
/// playlists, and every existing entity's links exactly as they were;
/// at most a fresh artist or album entity, with no tracks linked, is
/// created.
pub proof fn lemma_required_field_rejection(d: CollectionDataView, n: NodeView)
    requires
        n.node_type == NodeType::Track,
        spec_attribute(n.attributes, "TITLE"@) is None || spec_location_of_node(n) is None,
    ensures
        spec_add_node(d, n).tracks == d.tracks,
        spec_add_node(d, n).playlists == d.playlists,
        forall|i: int| 0 <= i < d.artists.len() ==> spec_add_node(d, n).artists[i] == d.artists[i],
        forall|i: int| 0 <= i < d.albums.len() ==> spec_add_node(d, n).albums[i] == d.albums[i],
        forall|i: int|
            d.artists.len() <= i < spec_add_node(d, n).artists.len() ==> spec_add_node(
                d,
                n,
            ).artists[i].tracks == Seq::<usize>::empty(),
        forall|i: int|
            d.albums.len() <= i < spec_add_node(d, n).albums.len() ==> spec_add_node(
                d,
                n,
            ).albums[i].tracks == Seq::<usize>::empty(),
{
    let (d1, album) = spec_get_or_create_album(d, n);
    let (d2, artist) = spec_get_or_create_artist(d1, n);
    assert(spec_track_of_node(n, artist, album) is Err);
}

/// Playlist ordering dependency: a playlist record resolves its member
/// references against the tracks ingested before it alone, so every
/// member of the playlist it appends points below the track count at
/// that moment; a key matching only a later track resolves to absent.
pub proof fn lemma_playlist_sees_only_prior_tracks(d: CollectionDataView, n: NodeView)
    requires
        n.node_type == NodeType::Playlist,
        d.tracks.len() <= usize::MAX,
    ensures
        spec_add_node(d, n).tracks == d.tracks,
        spec_add_node(d, n).playlists.len() > d.playlists.len() ==> forall|k: int|
            0 <= k < spec_add_node(d, n).playlists.last().tracks.len() ==> (spec_add_node(
                d,
                n,
            ).playlists.last().tracks[k] as int) < d.tracks.len(),
{
    lemma_resolve_members_in_bounds(d.tracks, n.elements);
}

/// Find-or-create resolution: ingesting a track record that names an
/// artist leaves an artist entity under exactly that name in the graph,
/// whether it already existed or was created by this record.
pub proof fn lemma_track_node_artist_resolved(d: CollectionDataView, n: NodeView)
    requires
        n.node_type == NodeType::Track,
    ensures
        spec_attribute(n.attributes, "ARTIST"@) matches Some(name) ==> exists|i: int|
            0 <= i < spec_add_node(d, n).artists.len() && spec_add_node(d, n).artists[i].name
                == name,
{
    if spec_attribute(n.attributes, "ARTIST"@) is Some {
        let name = spec_attribute(n.attributes, "ARTIST"@)->0;
        let (d1, album) = spec_get_or_create_album(d, n);
        let (d2, artist) = spec_get_or_create_artist(d1, n);
        lemma_find_key_in_bounds(spec_artist_keys(d1.artists), name);
        let ai = match spec_find_key(spec_artist_keys(d1.artists), name) {
            Some(i) => i,
            None => d1.artists.len() as int,
        };
        if spec_find_key(spec_artist_keys(d1.artists), name) is Some {
            assert(spec_artist_keys(d1.artists)[ai] == d1.artists[ai].name);
        }
        assert(d2.artists[ai].name == name);
        let d5 = spec_add_node(d, n);
        assert(d5.artists[ai].name == name);
    }
}

/// Whether `v` holds `x`.
fn contains_index(v: &Vec<usize>, x: usize) -> (r: bool)
    ensures
        r == v@.contains(x),
{
    let mut i: usize = 0;
    while i < v.len()
        invariant
            i <= v@.len(),
            forall|k: int| 0 <= k < i ==> v@[k] != x,
        decreases v@.len() - i,
    {
        if v[i] == x {
            return true;
        }
        i += 1;
    }
    false
}

} // verus!
