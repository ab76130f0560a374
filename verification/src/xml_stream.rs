//! The events of an XML document, as read by the `xml-rs` crate.
//!
//! The crate's pull parser is reached through two trusted items: one that starts reading
//! a byte buffer, one that takes the next event. Events are handed to the library as
//! [`XmlItem`] values, which keep of each element its local name and the local names
//! and values of its attributes.
use vstd::prelude::*;
use xml::reader::XmlEvent;

verus! {

/// The event iterator of `xml-rs` over a byte buffer, held where Verus does not look.
#[verifier::external_body]
pub struct XmlEventStream<'a> {
    events: xml::reader::Events<&'a [u8]>,
}

/// Makes `xml::reader::Error` known to Verus as an opaque type; nothing is claimed of its values.
#[verifier::external_type_specification]
#[verifier::external_body]
pub struct ExXmlError(xml::reader::Error);

/// An attribute of an element: its local name and its value.
#[derive(Debug)]
pub struct XmlAttribute {
    pub name: String,
    pub value: String,
}

impl XmlAttribute {
    /// An attribute with the given local name and value.
    pub fn new(name: String, value: String) -> (r: XmlAttribute)
        ensures
            r@ == (name@, value@),
    {
        XmlAttribute { name, value }
    }
}

impl View for XmlAttribute {
    type V = (Seq<char>, Seq<char>);

    open spec fn view(&self) -> (Seq<char>, Seq<char>) {
        (self.name@, self.value@)
    }
}

/// One event of an XML document.
#[derive(Debug)]
pub enum XmlItem {
    StartElement { name: String, attributes: Vec<XmlAttribute> },
    EndDocument,
    /// Any other event: the start of the document, an element end, text, a comment, ...
    Other,
    /// The document is not well-formed XML; this is the last event.
    Error(xml::reader::Error),
}

/// The model of an [`XmlItem`].
pub enum XmlEventView {
    StartElement { name: Seq<char>, attributes: Seq<(Seq<char>, Seq<char>)> },
    EndDocument,
    Other,
    Error(xml::reader::Error),
}

/// The models of the elements of a sequence.
pub open spec fn views<A: View>(s: Seq<A>) -> Seq<A::V> {
    s.map_values(|x: A| x@)
}

/// The models of a sequence of attributes.
pub open spec fn attribute_views(a: Seq<XmlAttribute>) -> Seq<(Seq<char>, Seq<char>)> {
    views(a)
}

/// The models of a sequence of events.
pub open spec fn item_views(s: Seq<XmlItem>) -> Seq<XmlEventView> {
    views(s)
}

/// Taking the first element off a sequence whose models are the models of `all` from
/// position `k` on: the element's model is `all[k]`, and the rest are the models from
/// position `k + 1` on.
pub proof fn lemma_views_remove_first<A: View>(rest: Seq<A>, all: Seq<A::V>, k: int)
    requires
        0 <= k <= all.len(),
        rest.len() > 0,
        views(rest) == all.skip(k),
    ensures
        k < all.len(),
        rest[0]@ == all[k],
        views(rest.remove(0)) == all.skip(k + 1),
        all.take(k + 1).drop_last() == all.take(k),
        all.take(k + 1).last() == all[k],
{
    assert(views(rest).len() == rest.len());
    assert(all.skip(k).len() == all.len() - k);
    assert(views(rest)[0] == rest[0]@);
    assert(all.skip(k)[0] == all[k]);
    assert(all.take(k + 1).drop_last() =~= all.take(k));
    let tail = rest.remove(0);
    assert(tail =~= rest.subrange(1, rest.len() as int));
    assert(views(tail) =~= all.skip(k + 1)) by {
        assert forall|j: int| 0 <= j < tail.len() implies views(tail)[j] == all.skip(k + 1)[j] by {
            assert(views(tail)[j] == tail[j]@);
            assert(views(rest)[j + 1] == rest[j + 1]@);
            assert(all.skip(k)[j + 1] == all[k + 1 + j]);
        }
    }
}

impl View for XmlItem {
    type V = XmlEventView;

    open spec fn view(&self) -> XmlEventView {
        match self {
            XmlItem::StartElement { name, attributes } => XmlEventView::StartElement {
                name: name@,
                attributes: attribute_views(attributes@),
            },
            XmlItem::EndDocument => XmlEventView::EndDocument,
            XmlItem::Other => XmlEventView::Other,
            XmlItem::Error(e) => XmlEventView::Error(*e),
        }
    }
}

/// Names the events that `xml-rs` reads from a byte buffer, in order: the stream ends
/// with the end of the document or with an error.
pub uninterp spec fn xml_document(bytes: Seq<u8>) -> Seq<XmlEventView>;

/// Names the events that an `xml-rs` event iterator has still to hand out, in order.
pub uninterp spec fn xml_pending(stream: XmlEventStream) -> Seq<XmlEventView>;

/// Calls `EventReader::new` on the buffer and turns the reader into its event iterator.
/// The contract says that the iterator will hand out the events named by [`xml_document`].
#[verifier::external_body]
fn xml_events_of<'a>(buf: &'a [u8]) -> (r: XmlEventStream<'a>)
    ensures
        xml_pending(r) == xml_document(buf@),
{
    XmlEventStream { events: xml::reader::EventReader::new(buf).into_iter() }
}

/// Calls `Events::next`. The contract says that the event handed out is the first of
/// the pending ones and the rest stay pending, and that nothing comes once none is pending
/// (the iterator stops after the end of the document or after an error).
#[verifier::external_body]
fn xml_next<'a>(stream: &mut XmlEventStream<'a>) -> (r: Option<XmlItem>)
    ensures
        match r {
            Some(item) => xml_pending(*old(stream)) == seq![item@] + xml_pending(*final(stream)),
            None => xml_pending(*old(stream)).len() == 0,
        },
{
    match stream.events.next() {
        None => None,
        Some(Ok(XmlEvent::StartElement { name, attributes, .. })) => Some(XmlItem::StartElement {
            name: name.local_name,
            attributes: attributes.into_iter().map(|a| XmlAttribute::new(a.name.local_name, a.value)).collect(),
        }),
        Some(Ok(XmlEvent::EndDocument)) => Some(XmlItem::EndDocument),
        Some(Ok(_)) => Some(XmlItem::Other),
        Some(Err(e)) => Some(XmlItem::Error(e)),
    }
}

/// All events of the XML document held in `buf`, in order.
pub fn xml_items(buf: &[u8]) -> (r: Vec<XmlItem>)
    ensures
        item_views(r@) == xml_document(buf@),
{
    let mut events = xml_events_of(buf);
    let mut items: Vec<XmlItem> = Vec::new();
    loop
        invariant
            item_views(items@) + xml_pending(events) == xml_document(buf@),
        decreases xml_pending(events).len(),
    {
        let ghost before = xml_pending(events);
        match xml_next(&mut events) {
            Some(item) => {
                let ghost prev = items@;
                items.push(item);
                assert(item_views(items@) =~= item_views(prev) + seq![item@]);
                assert(before =~= seq![item@] + xml_pending(events));
            },
            None => {
                assert(item_views(items@) + before =~= item_views(items@));
                return items;
            },
        }
    }
}

} // verus!
