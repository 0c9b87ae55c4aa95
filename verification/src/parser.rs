//! Stage one of the pipeline: the streaming structural parser.
//!
//! [`Node`] is the parser's output: one semantically typed record per
//! complete `ENTRY` (track) or `NODE` (playlist) record of the source
//! document, carrying the record's own attributes and its immediate child
//! elements in document order.
//!
//! This module also holds the pure attribute/field extraction functions
//! over a node's attribute set and child-element list: first match by
//! name, or absent.

use vstd::prelude::*;

use crate::events::{Attribute, AttributeView, Element, ElementView, Event};

verus! {

/// Which kind of record a [`Node`] is.
#[derive(Clone, Copy, PartialEq, Eq, Structural, Debug)]
pub enum NodeType {
    Track,
    Playlist,
}

/// One complete record of the source document.
pub struct Node {
    pub node_type: NodeType,
    /// The attributes of the record's own start tag.
    pub attributes: Vec<Attribute>,
    /// The record's nested child elements, in document order, each with
    /// its own attributes.
    pub elements: Vec<Element>,
}

/// The mathematical value of a [`Node`].
pub struct NodeView {
    pub node_type: NodeType,
    pub attributes: Seq<AttributeView>,
    pub elements: Seq<ElementView>,
}

impl View for Node {
    type V = NodeView;

    open spec fn view(&self) -> NodeView {
        NodeView {
            node_type: self.node_type,
            attributes: self.attributes.deep_view(),
            elements: self.elements.deep_view(),
        }
    }
}

/// The value of the first attribute named `key`, or `None` when no
/// attribute carries that name.
pub open spec fn spec_attribute(attrs: Seq<AttributeView>, key: Seq<char>) -> Option<Seq<char>>
    decreases attrs.len(),
{
    if attrs.len() == 0 {
        None
    } else if attrs[0].name == key {
        Some(attrs[0].value)
    } else {
        spec_attribute(attrs.drop_first(), key)
    }
}

/// The first element named `name`, or `None` when no element carries that
/// name.
pub open spec fn spec_element_with_name(elems: Seq<ElementView>, name: Seq<char>) -> Option<
    ElementView,
>
    decreases elems.len(),
{
    if elems.len() == 0 {
        None
    } else if elems[0].name == name {
        Some(elems[0])
    } else {
        spec_element_with_name(elems.drop_first(), name)
    }
}

/// The value of attribute `key` on the first element named `name`:
/// the composition of [`spec_element_with_name`] and [`spec_attribute`].
pub open spec fn spec_elements_attribute(
    elems: Seq<ElementView>,
    name: Seq<char>,
    key: Seq<char>,
) -> Option<Seq<char>> {
    match spec_element_with_name(elems, name) {
        Some(elem) => spec_attribute(elem.attributes, key),
        None => None,
    }
}

/// First matching attribute by name, or absent.
pub fn get_attribute(attributes: &Vec<Attribute>, key: &str) -> (r: Option<String>)
    ensures
        r.deep_view() == spec_attribute(attributes.deep_view(), key@),
{
    let ghost all: Seq<AttributeView> = attributes.deep_view();
    proof {
        assert(all.skip(0) =~= all);
    }
    let mut i: usize = 0;
    while i < attributes.len()
        invariant
            i <= attributes.len(),
            all == attributes.deep_view(),
            spec_attribute(all, key@) == spec_attribute(all.skip(i as int), key@),
        decreases attributes.len() - i,
    {
        if crate::utils::str_eq(attributes[i].name.as_str(), key) {
            assert(all.skip(i as int)[0] == all[i as int]);
            return Some(attributes[i].value.clone());
        }
        proof {
            assert(all.skip(i as int)[0] == all[i as int]);
            assert(all.skip(i as int).drop_first() =~= all.skip(i + 1));
        }
        i += 1;
    }
    proof {
        assert(all.skip(i as int) =~= Seq::<AttributeView>::empty());
    }
    None
}

/// First matching attribute by name on one element, or absent; the element
/// form of [`get_attribute`].
pub fn get_element_attribute(element: &Element, attribute_key: &str) -> (r: Option<String>)
    ensures
        r.deep_view() == spec_attribute(element@.attributes, attribute_key@),
{
    get_attribute(&element.attributes, attribute_key)
}

impl Node {
    /// First matching attribute of the record's own start tag, or absent.
    pub fn get_attribute(&self, key: &str) -> (r: Option<String>)
        ensures
            r.deep_view() == spec_attribute(self@.attributes, key@),
    {
        get_attribute(&self.attributes, key)
    }

    /// First child element by tag name, or absent.
    pub fn get_element_with_name<'a>(&'a self, lookup_name: &str) -> (r: Option<&'a Element>)
        ensures
            r.deep_view() == spec_element_with_name(self@.elements, lookup_name@),
    {
        let ghost all: Seq<ElementView> = self.elements.deep_view();
        proof {
            assert(all.skip(0) =~= all);
        }
        let mut i: usize = 0;
        while i < self.elements.len()
            invariant
                i <= self.elements.len(),
                all == self.elements.deep_view(),
                spec_element_with_name(all, lookup_name@) == spec_element_with_name(
                    all.skip(i as int),
                    lookup_name@,
                ),
            decreases self.elements.len() - i,
        {
            if crate::utils::str_eq(self.elements[i].name.as_str(), lookup_name) {
                assert(all.skip(i as int)[0] == all[i as int]);
                return Some(&self.elements[i]);
            }
            proof {
                assert(all.skip(i as int)[0] == all[i as int]);
                assert(all.skip(i as int).drop_first() =~= all.skip(i + 1));
            }
            i += 1;
        }
        proof {
            assert(all.skip(i as int) =~= Seq::<ElementView>::empty());
        }
        None
    }

    /// The composition of [`Node::get_element_with_name`] and
    /// [`get_element_attribute`]: attribute `attribute_key` on the first
    /// child element named `element_name`, or absent.
    pub fn get_elements_attribute(&self, element_name: &str, attribute_key: &str) -> (r: Option<
        String,
    >)
        ensures
            r.deep_view() == spec_elements_attribute(self@.elements, element_name@, attribute_key@),
    {
        match self.get_element_with_name(element_name) {
            Some(element) => get_element_attribute(element, attribute_key),
            None => None,
        }
    }
}

/// Which root section of the document is currently open.
#[derive(Clone, Copy, PartialEq, Eq, Structural, Debug)]
pub enum RootSection {
    /// No recognized root section is open; unrecognized root content is
    /// skipped silently.
    Outside,
    /// Inside the `COLLECTION` section of `ENTRY` (track) records.
    Collection,
    /// Inside the `PLAYLISTS` section of `NODE` (playlist) records.
    Playlists,
}

/// A record whose start tag has been seen but whose matching end tag has
/// not: the attributes of its header and the child elements accumulated
/// so far.
pub struct PartialRecord {
    pub attributes: Vec<Attribute>,
    pub elements: Vec<Element>,
}

/// The mathematical value of a [`PartialRecord`].
pub struct PartialRecordView {
    pub attributes: Seq<AttributeView>,
    pub elements: Seq<ElementView>,
}

impl View for PartialRecord {
    type V = PartialRecordView;

    open spec fn view(&self) -> PartialRecordView {
        PartialRecordView {
            attributes: self.attributes.deep_view(),
            elements: self.elements.deep_view(),
        }
    }
}

/// The whole state of the streaming parser between two events: the open
/// root section, and the open record, if any.
pub struct ParserState {
    pub root: RootSection,
    pub record: Option<PartialRecord>,
}

/// The mathematical value of a [`ParserState`].
pub struct ParserStateView {
    pub root: RootSection,
    pub record: Option<PartialRecordView>,
}

impl View for ParserState {
    type V = ParserStateView;

    open spec fn view(&self) -> ParserStateView {
        ParserStateView { root: self.root, record: self.record.deep_view() }
    }
}

impl DeepView for PartialRecord {
    type V = PartialRecordView;

    open spec fn deep_view(&self) -> PartialRecordView {
        self.view()
    }
}

/// A terminal condition of one parsing pass.
#[derive(Clone, Copy, PartialEq, Eq, Structural, Debug)]
pub enum ParseError {
    /// The underlying token source failed; the pass ends early.
    Source,
    /// A root section ended while a record was still open: the document
    /// shape is inconsistent, fatal for the pass.
    UnclosedRecord,
}

/// What one event did to the parser: nothing visible yet, a completed
/// record, the end of the document, or a fatal condition.
pub enum Step {
    Continue,
    Emit(Node),
    Finished,
    Fail(ParseError),
}

/// The mathematical value of a [`Step`].
pub enum StepView {
    Continue,
    Emit(NodeView),
    Finished,
    Fail(ParseError),
}

impl View for Step {
    type V = StepView;

    open spec fn view(&self) -> StepView {
        match self {
            Step::Continue => StepView::Continue,
            Step::Emit(node) => StepView::Emit(node@),
            Step::Finished => StepView::Finished,
            Step::Fail(e) => StepView::Fail(*e),
        }
    }
}

/// The transition on a start tag.
///
/// Outside any section, `COLLECTION` or `PLAYLISTS` opens the matching
/// section and anything else is skipped. Inside a section with no open
/// record, the tag becomes the record header -- in the playlists section
/// only when its `TYPE` attribute is `PLAYLIST`, otherwise it is skipped.
/// Inside an open record, the tag is appended to the record's child list.
pub open spec fn spec_step_start(s: ParserStateView, elem: ElementView) -> (ParserStateView,
    StepView,
) {
    match s.root {
        RootSection::Outside => {
            let root = if elem.name == "COLLECTION"@ {
                RootSection::Collection
            } else if elem.name == "PLAYLISTS"@ {
                RootSection::Playlists
            } else {
                RootSection::Outside
            };
            (ParserStateView { root, record: s.record }, StepView::Continue)
        },
        RootSection::Collection => match s.record {
            None => (
                ParserStateView {
                    root: s.root,
                    record: Some(
                        PartialRecordView {
                            attributes: elem.attributes,
                            elements: Seq::empty(),
                        },
                    ),
                },
                StepView::Continue,
            ),
            Some(rec) => (
                ParserStateView {
                    root: s.root,
                    record: Some(
                        PartialRecordView {
                            attributes: rec.attributes,
                            elements: rec.elements.push(elem),
                        },
                    ),
                },
                StepView::Continue,
            ),
        },
        RootSection::Playlists => match s.record {
            None => {
                if spec_attribute(elem.attributes, "TYPE"@) == Some("PLAYLIST"@) {
                    (
                        ParserStateView {
                            root: s.root,
                            record: Some(
                                PartialRecordView {
                                    attributes: elem.attributes,
                                    elements: Seq::empty(),
                                },
                            ),
                        },
                        StepView::Continue,
                    )
                } else {
                    (s, StepView::Continue)
                }
            },
            Some(rec) => (
                ParserStateView {
                    root: s.root,
                    record: Some(
                        PartialRecordView {
                            attributes: rec.attributes,
                            elements: rec.elements.push(elem),
                        },
                    ),
                },
                StepView::Continue,
            ),
        },
    }
}

/// The transition on an end tag.
///
/// The end of a root section requires that no record is open (else the
/// pass fails) and returns the parser to [`RootSection::Outside`]. The
/// end of `ENTRY` inside the collection section, or of `NODE` inside the
/// playlists section, completes the open record and emits it as a track
/// or playlist node; with no record open it is skipped. Every other end
/// tag is skipped.
pub open spec fn spec_step_end(s: ParserStateView, name: Seq<char>) -> (ParserStateView, StepView) {
    if name == "COLLECTION"@ || name == "PLAYLISTS"@ {
        match s.record {
            Some(_) => (s, StepView::Fail(ParseError::UnclosedRecord)),
            None => (
                ParserStateView { root: RootSection::Outside, record: s.record },
                StepView::Continue,
            ),
        }
    } else if name == "ENTRY"@ && s.root == RootSection::Collection {
        match s.record {
            Some(rec) => (
                ParserStateView { root: s.root, record: None },
                StepView::Emit(
                    NodeView {
                        node_type: NodeType::Track,
                        attributes: rec.attributes,
                        elements: rec.elements,
                    },
                ),
            ),
            None => (s, StepView::Continue),
        }
    } else if name == "NODE"@ && s.root == RootSection::Playlists {
        match s.record {
            Some(rec) => (
                ParserStateView { root: s.root, record: None },
                StepView::Emit(
                    NodeView {
                        node_type: NodeType::Playlist,
                        attributes: rec.attributes,
                        elements: rec.elements,
                    },
                ),
            ),
            None => (s, StepView::Continue),
        }
    } else {
        (s, StepView::Continue)
    }
}

/// The full transition of the parser on one event: the next state and
/// what the event did.
pub open spec fn spec_step(s: ParserStateView, event: Event) -> (ParserStateView, StepView) {
    match event {
        Event::StartElement(elem) => spec_step_start(s, elem@),
        Event::EndElement { name } => spec_step_end(s, name@),
        Event::EndDocument => (s, StepView::Finished),
        Event::SourceError => (s, StepView::Fail(ParseError::Source)),
        Event::Other => (s, StepView::Continue),
    }
}

impl ParserState {
    /// The state before any event: outside every section, no open record.
    pub fn new() -> (r: ParserState)
        ensures
            r@.root == RootSection::Outside,
            r@.record is None,
    {
        ParserState { root: RootSection::Outside, record: None }
    }

    /// Feeds one event through the parser, exactly as [`spec_step`]
    /// describes.
    pub fn step(&mut self, event: Event) -> (r: Step)
        ensures
            (final(self)@, r@) == spec_step(old(self)@, event),
    {
        match event {
            Event::StartElement(elem) => self.step_start(elem),
            Event::EndElement { name } => self.step_end(name),
            Event::EndDocument => Step::Finished,
            Event::SourceError => Step::Fail(ParseError::Source),
            Event::Other => Step::Continue,
        }
    }

    fn step_start(&mut self, elem: Element) -> (r: Step)
        ensures
            (final(self)@, r@) == spec_step_start(old(self)@, elem@),
    {
        match self.root {
            RootSection::Outside => {
                if crate::utils::str_eq(elem.name.as_str(), "COLLECTION") {
                    self.root = RootSection::Collection;
                } else if crate::utils::str_eq(elem.name.as_str(), "PLAYLISTS") {
                    self.root = RootSection::Playlists;
                }
                Step::Continue
            },
            RootSection::Collection => {
                match &mut self.record {
                    Some(rec) => {
                        rec.elements.push(elem);
                        proof {
                            assert(final(self)@.record->0.elements =~= old(
                                self,
                            )@.record->0.elements.push(elem@));
                        }
                    },
                    None => {
                        self.record = Some(
                            PartialRecord { attributes: elem.attributes, elements: Vec::new() },
                        );
                        proof {
                            assert(final(self)@.record->0.elements =~= Seq::<ElementView>::empty());
                        }
                    },
                }
                Step::Continue
            },
            RootSection::Playlists => {
                match &mut self.record {
                    Some(rec) => {
                        rec.elements.push(elem);
                        proof {
                            assert(final(self)@.record->0.elements =~= old(
                                self,
                            )@.record->0.elements.push(elem@));
                        }
                    },
                    None => {
                        let accept = match get_attribute(&elem.attributes, "TYPE") {
                            Some(value) => crate::utils::str_eq(value.as_str(), "PLAYLIST"),
                            None => false,
                        };
                        if accept {
                            self.record = Some(
                                PartialRecord { attributes: elem.attributes, elements: Vec::new() },
                            );
                            proof {
                                assert(final(self)@.record->0.elements =~= Seq::<
                                    ElementView,
                                >::empty());
                            }
                        }
                    },
                }
                Step::Continue
            },
        }
    }

    fn step_end(&mut self, name: String) -> (r: Step)
        ensures
            (final(self)@, r@) == spec_step_end(old(self)@, name@),
    {
        if crate::utils::str_eq(name.as_str(), "COLLECTION") || crate::utils::str_eq(
            name.as_str(),
            "PLAYLISTS",
        ) {
            if self.record.is_some() {
                Step::Fail(ParseError::UnclosedRecord)
            } else {
                self.root = RootSection::Outside;
                Step::Continue
            }
        } else if crate::utils::str_eq(name.as_str(), "ENTRY") && matches!(
            self.root,
            RootSection::Collection,
        ) {
            match self.record.take() {
                Some(rec) => Step::Emit(
                    Node {
                        node_type: NodeType::Track,
                        attributes: rec.attributes,
                        elements: rec.elements,
                    },
                ),
                None => Step::Continue,
            }
        } else if crate::utils::str_eq(name.as_str(), "NODE") && matches!(
            self.root,
            RootSection::Playlists,
        ) {
            match self.record.take() {
                Some(rec) => Step::Emit(
                    Node {
                        node_type: NodeType::Playlist,
                        attributes: rec.attributes,
                        elements: rec.elements,
                    },
                ),
                None => Step::Continue,
            }
        } else {
            Step::Continue
        }
    }
}

/// Holds the outside pull parser over one in-memory document. The
/// struct is opaque to the verifier (the reader's type cannot be
/// declared to it, as its type parameter carries an I/O trait bound);
/// everything the library learns of the stream goes through
/// [`next_event`].
#[verifier::external_body]
pub struct EventSource {
    reader: xml::reader::EventReader<std::io::Cursor<Vec<u8>>>,
}

/// The events the source will still yield before its first terminal
/// result (end of document or source error), in order, as this library
/// maps them. The source wraps an in-memory byte buffer and the outside
/// pull parser is deterministic under its default configuration, so
/// this is a well-defined finite sequence.
pub uninterp spec fn spec_events(s: EventSource) -> Seq<Event>;

/// The event stream that one document denotes: what a fresh source over
/// exactly these bytes will yield. A function of the bytes alone, for
/// the same reason [`spec_events`] is well defined.
pub uninterp spec fn spec_document_events(document: Seq<u8>) -> Seq<Event>;

/// Relies on xml::reader::EventReader::new: wraps an in-memory document
/// for pull-based parsing. The fresh source's stream is the one its
/// bytes denote.
#[verifier::external_body]
fn new_event_source(document: Vec<u8>) -> (r: EventSource)
    ensures
        spec_events(r) == spec_document_events(document@),
{
    EventSource { reader: xml::reader::EventReader::new(std::io::Cursor::new(document)) }
}

/// Relies on xml::reader::EventReader::next: pulls the next structural
/// event of the document. Start and end tags keep their local name and
/// attributes; every other event kind the source may report is
/// collapsed to [`Event::Other`]; a read or parse error becomes the
/// terminal [`Event::SourceError`]. While the stream has events left,
/// the pull yields its head and leaves the tail; an exhausted stream
/// yields only terminal events, repeatedly, and stays exhausted.
#[verifier::external_body]
fn next_event(source: &mut EventSource) -> (ev: Event)
    ensures
        spec_events(*old(source)).len() > 0 ==> ev == spec_events(*old(source))[0] && spec_events(
            *final(source),
        ) == spec_events(*old(source)).drop_first(),
        spec_events(*old(source)).len() == 0 ==> (ev is EndDocument || ev is SourceError)
            && spec_events(*final(source)).len() == 0,
{
    match source.reader.next() {
        Ok(xml::reader::XmlEvent::StartElement { name, attributes, .. }) => Event::StartElement(Element {
            name: name.local_name,
            attributes: attributes.into_iter().map(|a| Attribute { name: a.name.local_name, value: a.value }).collect(),
        }),
        Ok(xml::reader::XmlEvent::EndElement { name }) => Event::EndElement { name: name.local_name },
        Ok(xml::reader::XmlEvent::EndDocument) => Event::EndDocument,
        Ok(_) => Event::Other,
        Err(_) => Event::SourceError,
    }
}

/// How one pull over a given event stream ends.
pub enum PullOutcome {
    /// A record completed: the first non-`Continue` step emitted it.
    Record(NodeView),
    /// The document ended cleanly.
    End,
    /// The pass failed: a source error or an inconsistent document
    /// shape.
    Fault(ParseError),
    /// The stream ran out while the parser was still accumulating;
    /// whatever the source yields beyond its stream is terminal.
    Exhausted,
}

/// The effect of pulling one record: the machine of [`spec_step`] folds
/// over the stream until its first non-`Continue` step.
#[verifier::ext_equal]
pub struct PullView {
    pub outcome: PullOutcome,
    /// The parser state after the deciding step (or after the whole
    /// stream, when it ran out).
    pub state: ParserStateView,
    /// The unconsumed suffix of the stream.
    pub rest: Seq<Event>,
}

/// Folds [`spec_step`] from state `s` over the stream `evs` until the
/// first step that is not a `Continue`, and says how that pull ends:
/// the deciding step's outcome, the state it leaves, and the events it
/// leaves unconsumed.
pub open spec fn spec_pull(s: ParserStateView, evs: Seq<Event>) -> PullView
    decreases evs.len(),
{
    if evs.len() == 0 {
        PullView { outcome: PullOutcome::Exhausted, state: s, rest: evs }
    } else {
        let stepped = spec_step(s, evs[0]);
        match stepped.1 {
            StepView::Continue => spec_pull(stepped.0, evs.drop_first()),
            StepView::Emit(n) => PullView {
                outcome: PullOutcome::Record(n),
                state: stepped.0,
                rest: evs.drop_first(),
            },
            StepView::Finished => PullView {
                outcome: PullOutcome::End,
                state: stepped.0,
                rest: evs.drop_first(),
            },
            StepView::Fail(e) => PullView {
                outcome: PullOutcome::Fault(e),
                state: stepped.0,
                rest: evs.drop_first(),
            },
        }
    }
}

/// The result a finished parsing pass repeats: its error, or a clean
/// end of the stream.
pub open spec fn spec_terminal(e: Option<ParseError>) -> Result<Option<Node>, ParseError> {
    match e {
        Some(err) => Err(err),
        None => Ok(None),
    }
}

/// The streaming parser over one in-memory document: a forward-only,
/// non-restartable source of [`Node`] records. Each pull loops the
/// verified [`ParserState::step`] over events of the underlying token
/// source until a record completes, the document ends, or the pass
/// fails.
pub struct CollectionParser {
    pub state: ParserState,
    /// Whether the pass is over, cleanly or not; a finished parser
    /// repeats its terminal result.
    pub terminated: bool,
    /// The terminal error of a failed pass.
    pub error: Option<ParseError>,
    pub source: EventSource,
}

impl CollectionParser {
    /// A parser at the start of the given document: its stream is the
    /// one the document's bytes denote.
    pub fn new(document: Vec<u8>) -> (r: CollectionParser)
        ensures
            r.state@.root == RootSection::Outside,
            r.state@.record is None,
            !r.terminated,
            r.error is None,
            spec_events(r.source) == spec_document_events(document@),
    {
        CollectionParser {
            state: ParserState::new(),
            terminated: false,
            error: None,
            source: new_event_source(document),
        }
    }

    /// Pulls the next complete record: `Ok(Some(node))` for a record,
    /// `Ok(None)` at the clean end of the document, `Err` when the
    /// source fails or the document shape is inconsistent. A finished
    /// pass stays finished and repeats its terminal result.
    ///
    /// The result is exactly the outcome of folding the verified
    /// [`spec_step`] over the source's event stream, as [`spec_pull`]
    /// says: a record iff the first non-`Continue` step emits one, a
    /// clean end iff it is `Finished`, an error iff it is `Fail` -- and
    /// the unconsumed suffix of the stream is what remains.
    pub fn next_node(&mut self) -> (r: Result<Option<Node>, ParseError>)
        ensures
            old(self).terminated ==> *final(self) == *old(self) && r == spec_terminal(
                old(self).error,
            ),
            r matches Ok(o) ==> final(self).error == old(self).error,
            r matches Err(e) ==> final(self).terminated && final(self).error == Some(e),
            r matches Ok(o) && o is None ==> final(self).terminated,
            r matches Ok(o) && o is Some ==> !final(self).terminated && spec_events(
                final(self).source,
            ).len() < spec_events(old(self).source).len(),
            !old(self).terminated ==> ({
                let p = spec_pull(old(self).state@, spec_events(old(self).source));
                &&& final(self).state@ == p.state
                &&& spec_events(final(self).source) == p.rest
                &&& match p.outcome {
                    PullOutcome::Record(n) => match r {
                        Ok(Some(node)) => node@ == n,
                        _ => false,
                    },
                    PullOutcome::End => r == Ok::<Option<Node>, ParseError>(None),
                    PullOutcome::Fault(e) => r == Err::<Option<Node>, ParseError>(e),
                    PullOutcome::Exhausted => r == Ok::<Option<Node>, ParseError>(None) || r
                        == Err::<Option<Node>, ParseError>(ParseError::Source),
                }
            }),
    {
        if self.terminated {
            return match self.error {
                Some(e) => Err(e),
                None => Ok(None),
            };
        }
        loop
            invariant
                !self.terminated,
                !old(self).terminated,
                self.error == old(self).error,
                spec_events(self.source).len() <= spec_events(old(self).source).len(),
                spec_pull(old(self).state@, spec_events(old(self).source)) == spec_pull(
                    self.state@,
                    spec_events(self.source),
                ),
            decreases spec_events(self.source).len(),
        {
            let ghost evs0: Seq<Event> = spec_events(self.source);
            let ghost s0: ParserStateView = self.state@;
            let ev = next_event(&mut self.source);
            proof {
                if evs0.len() == 0 {
                    assert(spec_events(self.source) =~= evs0);
                }
            }
            match self.state.step(ev) {
                Step::Continue => {
                    proof {
                        // An exhausted stream yields only terminal
                        // events, and the machine never continues on
                        // one of those.
                        assert(evs0.len() > 0);
                    }
                },
                Step::Emit(node) => {
                    proof {
                        assert(evs0.len() > 0);
                        assert(spec_pull(s0, evs0) == PullView {
                            outcome: PullOutcome::Record(node@),
                            state: self.state@,
                            rest: evs0.drop_first(),
                        });
                    }
                    return Ok(Some(node));
                },
                Step::Finished => {
                    self.terminated = true;
                    return Ok(None);
                },
                Step::Fail(e) => {
                    self.terminated = true;
                    self.error = Some(e);
                    return Err(e);
                },
            }
        }
    }
}

} // verus!
