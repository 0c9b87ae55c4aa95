//! The structural XML events that the streaming parser consumes, and the
//! attribute/element records it accumulates from them.
//!
//! An [`Event`] is the library's own model of one event of the underlying
//! XML token source: a start tag with its attributes, an end tag, the end
//! of the document, or a terminal source error. Anything else the source
//! may report (character data, comments, processing instructions) is
//! collapsed into [`Event::Other`], which the parser skips.

use vstd::prelude::*;

verus! {

/// One `name="value"` attribute of a start tag.
pub struct Attribute {
    pub name: String,
    pub value: String,
}

/// The mathematical value of an [`Attribute`]: both strings as character
/// sequences.
pub struct AttributeView {
    pub name: Seq<char>,
    pub value: Seq<char>,
}

impl View for Attribute {
    type V = AttributeView;

    open spec fn view(&self) -> AttributeView {
        AttributeView { name: self.name@, value: self.value@ }
    }
}

impl DeepView for Attribute {
    type V = AttributeView;

    open spec fn deep_view(&self) -> AttributeView {
        self.view()
    }
}

/// A start tag: its local name and its attributes, in document order.
///
/// The parser also uses this shape for the child elements it records
/// inside a track or playlist record.
pub struct Element {
    pub name: String,
    pub attributes: Vec<Attribute>,
}

/// The mathematical value of an [`Element`].
pub struct ElementView {
    pub name: Seq<char>,
    pub attributes: Seq<AttributeView>,
}

impl View for Element {
    type V = ElementView;

    open spec fn view(&self) -> ElementView {
        ElementView { name: self.name@, attributes: self.attributes.deep_view() }
    }
}

impl DeepView for Element {
    type V = ElementView;

    open spec fn deep_view(&self) -> ElementView {
        self.view()
    }
}

/// One structural event of the XML source.
pub enum Event {
    /// A start tag, with its name and attributes.
    StartElement(Element),
    /// An end tag, with its name.
    EndElement { name: String },
    /// The end of the document: the source reports nothing further.
    EndDocument,
    /// A read or parse error of the source: terminal for this pass.
    SourceError,
    /// Any other event kind (character data, comments, and the like).
    Other,
}

} // verus!
