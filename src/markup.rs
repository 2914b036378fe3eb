//! The first markup event of a line, as read by quick-xml.
use vstd::prelude::*;

verus! {

/// One attribute of a self-closing element: its local name (namespace
/// prefix removed) and its value after entity decoding, or `None` where the
/// value could not be decoded.
pub struct XmlAttribute {
    pub key: Vec<u8>,
    pub value: Option<String>,
}

/// What the first event of a line is.
pub enum FirstEvent {
    /// The reader reported an error before any event.
    Unreadable,
    /// An event other than a self-closing element (text, an opening or
    /// closing tag, a declaration, the end of input, ...).
    NotSelfClosing,
    /// A self-closing element, with one entry per attribute in source
    /// order; `None` stands for an attribute that could not be read.
    SelfClosing(Vec<Option<XmlAttribute>>),
}

/// Mathematical form of an [`XmlAttribute`].
pub struct AttributeView {
    pub key: Seq<u8>,
    pub value: Option<Seq<char>>,
}

/// Mathematical form of a [`FirstEvent`].
pub enum FirstEventView {
    Unreadable,
    NotSelfClosing,
    SelfClosing(Seq<Option<AttributeView>>),
}

impl View for XmlAttribute {
    type V = AttributeView;

    open spec fn view(&self) -> AttributeView {
        AttributeView {
            key: self.key@,
            value: match self.value {
                Some(v) => Some(v@),
                None => None,
            },
        }
    }
}

/// Mathematical form of an optional attribute.
pub open spec fn attribute_view(a: Option<XmlAttribute>) -> Option<AttributeView> {
    match a {
        Some(x) => Some(x@),
        None => None,
    }
}

impl View for FirstEvent {
    type V = FirstEventView;

    open spec fn view(&self) -> FirstEventView {
        match self {
            FirstEvent::Unreadable => FirstEventView::Unreadable,
            FirstEvent::NotSelfClosing => FirstEventView::NotSelfClosing,
            FirstEvent::SelfClosing(attrs) => FirstEventView::SelfClosing(
                attrs@.map_values(|a: Option<XmlAttribute>| attribute_view(a)),
            ),
        }
    }
}

/// The first event that quick-xml reads from a line, with surrounding
/// whitespace trimmed.
pub uninterp spec fn first_event_of(line: Seq<char>) -> FirstEventView;

/// Relies on quick-xml's `Reader::from_str` with `trim_text(true)` and one
/// `read_event`; for an `Event::Empty`, on `BytesStart::attributes`,
/// `QName::local_name` and `Attribute::unescape_value`. A self-closing
/// element starts with `<`, so a line without one never yields it.
#[verifier::external_body]
pub(crate) fn read_first_event(line: &str) -> (r: FirstEvent)
    ensures
        r@ == first_event_of(line@),
        !line@.contains('<') ==> !(r@ is SelfClosing),
{
    let mut reader = quick_xml::Reader::from_str(line);
    reader.trim_text(true);
    match reader.read_event() {
        Err(_) => FirstEvent::Unreadable,
        Ok(quick_xml::events::Event::Empty(e)) => FirstEvent::SelfClosing(
            e.attributes().map(|a| a.ok().map(|a| XmlAttribute {
                key: a.key.local_name().as_ref().to_vec(),
                value: a.unescape_value().ok().map(|v| v.into_owned()),
            })).collect(),
        ),
        Ok(_) => FirstEvent::NotSelfClosing,
    }
}

/// The bytes of an ASCII text.
pub open spec fn ascii_of(s: Seq<char>) -> Seq<u8> {
    s.map_values(|c: char| c as u8)
}

/// Whether the bytes `k` spell the ASCII text `name`.
pub fn key_is(k: &[u8], name: &str) -> (r: bool)
    requires
        name.is_ascii(),
    ensures
        r == (k@ == ascii_of(name@)),
{
    let n = name.unicode_len();
    if k.len() != n {
        return false;
    }
    let mut i: usize = 0;
    while i < n
        invariant
            i <= n,
            n == name@.len(),
            k@.len() == n,
            name.is_ascii(),
            forall|j: int| 0 <= j < i ==> k@[j] == ascii_of(name@)[j],
        decreases n - i,
    {
        if k[i] != name.get_ascii(i) {
            return false;
        }
        i = i + 1;
    }
    assert(k@ =~= ascii_of(name@));
    true
}

} // verus!
