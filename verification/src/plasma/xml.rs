//! Theme SVG documents as XML: the node list that `roxmltree` parses, the
//! rewrites `KSvg` makes before rendering (the `current-color-scheme` style
//! block, the nine slices of a frame, single elements, composed frames), and
//! the writer events that `xmlwriter` turns into text.
//!
//! A document is held as its element's nodes in document order, each with
//! its depth: the nodes after node `i` that lie deeper than it, up to the
//! first that does not (see [`end_of`]), are its descendants.

use vstd::prelude::*;
use vstd::string::StringSliceAdditionalSpecFns;
use crate::plasma::error::Error;
use crate::plasma::svg::{frame_element, frame_slice, frame_slices, is_frame_slice, matches_prefix, slice_id, FRAME_SLICE_COUNT};
use crate::text::{chars_of, dec, eq_chars, eq_str, push_dec, push_str};

verus! {

#[verifier::external_type_specification]
#[verifier::external_body]
pub struct ExXmlNode<'a, 'input: 'a>(roxmltree::Node<'a, 'input>);

#[verifier::external_type_specification]
#[verifier::external_body]
pub struct ExXmlWriter(xmlwriter::XmlWriter);

/// The kind of a document node.
#[derive(Debug, Clone, Copy, PartialEq, Eq, Structural)]
pub enum XmlKind {
    /// The document itself.
    Root,
    /// An element.
    Element,
    /// A processing instruction.
    Instruction,
    /// A comment.
    Comment,
    /// A text node.
    Text,
}

/// An attribute of an element: its namespace URI, local name and value.
#[derive(Debug)]
pub struct XmlAttr {
    /// The namespace URI, if the attribute has one.
    pub namespace: Option<String>,
    /// The local name.
    pub name: String,
    /// The value.
    pub value: String,
}

/// One node of a document.
#[derive(Debug)]
pub struct XmlItem {
    /// The length of the node's ancestor chain, the node itself and the
    /// document node included (the document node has depth one).
    pub depth: usize,
    /// The node's kind.
    pub kind: XmlKind,
    /// The local tag name (empty for a node that is no element).
    pub tag: String,
    /// The attributes, in document order.
    pub attrs: Vec<XmlAttr>,
    /// The node's text: a text or comment node's own, an element's first
    /// text child's.
    pub text: Option<String>,
    /// The prefixes of the namespaces in scope (`None` for the default one).
    pub namespaces: Vec<Option<String>>,
    /// The node's byte range in the source text.
    pub range: (usize, usize),
}

/// The model of an attribute.
pub struct AttrV {
    /// The namespace URI.
    pub namespace: Option<Seq<char>>,
    /// The local name.
    pub name: Seq<char>,
    /// The value.
    pub value: Seq<char>,
}

/// The model of a node.
pub struct ItemV {
    /// The depth.
    pub depth: int,
    /// The kind.
    pub kind: XmlKind,
    /// The local tag name.
    pub tag: Seq<char>,
    /// The attributes.
    pub attrs: Seq<AttrV>,
    /// The text.
    pub text: Option<Seq<char>>,
    /// The namespace prefixes in scope.
    pub namespaces: Seq<Option<Seq<char>>>,
    /// The byte range in the source text.
    pub range: (usize, usize),
}

/// The text of an optional string.
pub open spec fn opt_chars(s: Option<String>) -> Option<Seq<char>> {
    match s {
        Some(t) => Some(t@),
        None => None,
    }
}

impl View for XmlAttr {
    type V = AttrV;

    open spec fn view(&self) -> AttrV {
        AttrV { namespace: opt_chars(self.namespace), name: self.name@, value: self.value@ }
    }
}

impl View for XmlItem {
    type V = ItemV;

    open spec fn view(&self) -> ItemV {
        ItemV {
            depth: self.depth as int,
            kind: self.kind,
            tag: self.tag@,
            attrs: self.attrs@.map_values(|a: XmlAttr| a@),
            text: opt_chars(self.text),
            namespaces: self.namespaces@.map_values(|n: Option<String>| opt_chars(n)),
            range: self.range,
        }
    }
}

/// The models of a list of nodes.
pub open spec fn items_view(items: Seq<XmlItem>) -> Seq<ItemV> {
    items.map_values(|i: XmlItem| i@)
}

// ─────────────────────────────── parsing ───────────────────────────────

/// The node list (or the error message) that `roxmltree` gives for an XML
/// text: the root element and its descendants in document order.
pub uninterp spec fn parsed_items(text: Seq<char>) -> Result<Seq<ItemV>, Seq<char>>;

/// `roxmltree::Node::ancestors`, counted.
#[verifier::external_body]
fn node_depth(node: roxmltree::Node<'_, '_>) -> usize {
    node.ancestors().count()
}

/// `roxmltree::Node::node_type`, one arm per kind.
#[verifier::external_body]
fn node_kind(node: roxmltree::Node<'_, '_>) -> XmlKind {
    match node.node_type() {
        roxmltree::NodeType::Root => XmlKind::Root,
        roxmltree::NodeType::Element => XmlKind::Element,
        roxmltree::NodeType::PI => XmlKind::Instruction,
        roxmltree::NodeType::Comment => XmlKind::Comment,
        roxmltree::NodeType::Text => XmlKind::Text,
    }
}

/// `roxmltree::Node::tag_name`, its local name.
#[verifier::external_body]
fn node_tag(node: roxmltree::Node<'_, '_>) -> String {
    node.tag_name().name().to_owned()
}

/// `roxmltree::Node::attributes`, each as namespace, local name and value.
#[verifier::external_body]
fn node_attributes(node: roxmltree::Node<'_, '_>) -> Vec<XmlAttr> {
    node.attributes().map(
        |a| XmlAttr { namespace: a.namespace().map(|s| s.to_owned()), name: a.name().to_owned(), value: a.value().to_owned() },
    ).collect()
}

/// `roxmltree::Node::text`.
#[verifier::external_body]
fn node_text(node: roxmltree::Node<'_, '_>) -> Option<String> {
    node.text().map(|s| s.to_owned())
}

/// `roxmltree::Node::namespaces`, each prefix.
#[verifier::external_body]
fn node_namespaces(node: roxmltree::Node<'_, '_>) -> Vec<Option<String>> {
    node.namespaces().map(|ns| ns.name().map(|s| s.to_owned())).collect()
}

/// `roxmltree::Node::range`, as its start and end.
#[verifier::external_body]
fn node_range(node: roxmltree::Node<'_, '_>) -> (usize, usize) {
    let r = node.range();
    (r.start, r.end)
}

/// One parsed node as plain values.
fn item_of(node: roxmltree::Node<'_, '_>) -> XmlItem {
    XmlItem {
        depth: node_depth(node),
        kind: node_kind(node),
        tag: node_tag(node),
        attrs: node_attributes(node),
        text: node_text(node),
        namespaces: node_namespaces(node),
        range: node_range(node),
    }
}

/// `roxmltree::Document::parse`: the root element and its descendants in
/// document order, or the parser's message. Claimed: the result is
/// [`parsed_items`] of the text, a parsed document has a root element (the
/// list is not empty), and each node's range lies within the text's bytes.
#[verifier::external_body]
fn parse_items(text: &str) -> (r: Result<Vec<XmlItem>, String>)
    ensures
        match r {
            Ok(v) => {
                &&& parsed_items(text@) == Ok::<Seq<ItemV>, Seq<char>>(items_view(v@))
                &&& v.len() > 0
                &&& forall|k: int|
                    0 <= k < v.len() ==> (#[trigger] v@[k]).range.0 <= v@[k].range.1 <= text.spec_bytes().len()
            },
            Err(e) => parsed_items(text@) == Err::<Seq<ItemV>, Seq<char>>(e@),
        },
{
    match roxmltree::Document::parse(text) {
        Ok(doc) => Ok(doc.root_element().descendants().map(|n| item_of(n)).collect()),
        Err(e) => Err(e.to_string()),
    }
}

/// The text that UTF-8 bytes hold, or the decoder's message.
pub uninterp spec fn utf8_text(bytes: Seq<u8>) -> Result<Seq<char>, Seq<char>>;

/// `std::str::from_utf8`. Claimed: the result is [`utf8_text`] of the
/// bytes, and a decoded text is a view of those same bytes.
#[verifier::external_body]
fn decode_utf8(bytes: &[u8]) -> (r: Result<&str, String>)
    ensures
        match r {
            Ok(s) => utf8_text(bytes@) == Ok::<Seq<char>, Seq<char>>(s@) && s.spec_bytes() == bytes@,
            Err(e) => utf8_text(bytes@) == Err::<Seq<char>, Seq<char>>(e@),
        },
{
    std::str::from_utf8(bytes).map_err(|e| e.to_string())
}

// ─────────────────────────────── writing ───────────────────────────────

/// A call made on an XML writer.
pub enum Ev {
    /// `start_element(name)`.
    Start(Seq<char>),
    /// `write_attribute(name, value)`.
    Attr(Seq<char>, Seq<char>),
    /// `write_text(text)`.
    Text(Seq<char>),
    /// `end_element()`.
    End,
}

/// Whether `w` is the writer that the calls `calls`, made in order on a
/// new writer with double quotes (the default options), leave behind. More
/// than one sequence of calls may lead to the same writer.
pub uninterp spec fn produces(w: xmlwriter::XmlWriter, calls: Seq<Ev>) -> bool;

/// The document `xmlwriter` produces (double quotes, four-space indent) for
/// a sequence of calls.
pub uninterp spec fn xml_document(events: Seq<Ev>) -> Seq<char>;

/// The number of elements left open after `events`.
pub open spec fn open_count(events: Seq<Ev>) -> nat
    decreases events.len(),
{
    if events.len() == 0 {
        0
    } else {
        let before = open_count(events.drop_last());
        match events.last() {
            Ev::Start(_) => before + 1,
            Ev::End => if before > 0 {
                (before - 1) as nat
            } else {
                0
            },
            _ => before,
        }
    }
}

/// Whether the writer is inside a start tag (an attribute may follow).
pub open spec fn in_start_tag(events: Seq<Ev>) -> bool {
    events.len() > 0 && (events.last() is Start || events.last() is Attr)
}

/// `xmlwriter::XmlWriter::new` with double quotes (the default options).
/// Claimed: no call has been made on it.
#[verifier::external_body]
fn writer_new() -> (w: xmlwriter::XmlWriter)
    ensures
        produces(w, Seq::<Ev>::empty()),
{
    xmlwriter::XmlWriter::new(xmlwriter::Options { use_single_quote: false, ..xmlwriter::Options::default() })
}

/// `xmlwriter::XmlWriter::start_element`. Claimed: a writer that some
/// calls led to is led, by this one more call, to the new writer.
#[verifier::external_body]
fn writer_start(w: &mut xmlwriter::XmlWriter, name: &str)
    ensures
        forall|h: Seq<Ev>| produces(*old(w), h) ==> #[trigger] produces(*final(w), h.push(Ev::Start(name@))),
{
    w.start_element(name);
}

/// `xmlwriter::XmlWriter::write_attribute`, which panics outside a start
/// tag. Claimed: as for [`writer_start`], with the attribute call.
#[verifier::external_body]
fn writer_attribute(w: &mut xmlwriter::XmlWriter, name: &str, value: &str)
    requires
        exists|h: Seq<Ev>| produces(*old(w), h) && in_start_tag(h),
    ensures
        forall|h: Seq<Ev>| produces(*old(w), h) ==> #[trigger] produces(*final(w), h.push(Ev::Attr(name@, value@))),
{
    w.write_attribute(name, value);
}

/// `xmlwriter::XmlWriter::write_text`, which panics before the first
/// element or outside every element. Claimed: as for [`writer_start`],
/// with the text call.
#[verifier::external_body]
fn writer_text(w: &mut xmlwriter::XmlWriter, text: &str)
    requires
        exists|h: Seq<Ev>| produces(*old(w), h) && h.len() > 0 && open_count(h) > 0,
    ensures
        forall|h: Seq<Ev>| produces(*old(w), h) ==> #[trigger] produces(*final(w), h.push(Ev::Text(text@))),
{
    w.write_text(text);
}

/// `xmlwriter::XmlWriter::end_element`. Claimed: as for [`writer_start`],
/// with the closing call.
#[verifier::external_body]
fn writer_end(w: &mut xmlwriter::XmlWriter)
    ensures
        forall|h: Seq<Ev>| produces(*old(w), h) ==> #[trigger] produces(*final(w), h.push(Ev::End)),
{
    w.end_element();
}

/// `xmlwriter::XmlWriter::end_document`. Claimed: the text is
/// [`xml_document`] of any calls that led to the writer.
#[verifier::external_body]
fn writer_finish(w: xmlwriter::XmlWriter) -> (s: String)
    ensures
        forall|h: Seq<Ev>| produces(w, h) ==> s@ == xml_document(h),
{
    w.end_document()
}

/// An XML writer together with the calls made on it so far.
struct XmlOut {
    w: xmlwriter::XmlWriter,
    calls: Ghost<Seq<Ev>>,
}

impl XmlOut {
    /// The recorded calls lead to the writer.
    #[verifier::type_invariant]
    spec fn led_by_calls(self) -> bool {
        produces(self.w, self.calls@)
    }

    /// A new writer with no call made.
    fn new() -> (o: XmlOut)
        ensures
            written(o) == Seq::<Ev>::empty(),
    {
        XmlOut { w: writer_new(), calls: Ghost(Seq::empty()) }
    }

    /// Take the writer out, leaving a new one in its place.
    fn take(&mut self) -> (r: (xmlwriter::XmlWriter, Ghost<Seq<Ev>>))
        ensures
            produces(r.0, r.1@),
            r.1@ == written(*old(self)),
    {
        proof {
            use_type_invariant(&*self);
        }
        let mut other = XmlOut::new();
        std::mem::swap(self, &mut other);
        proof {
            use_type_invariant(&other);
        }
        let XmlOut { w, calls } = other;
        (w, calls)
    }
}

/// The calls made so far on a writer.
spec fn written(o: XmlOut) -> Seq<Ev> {
    o.calls@
}

/// A new writer (double quotes).
fn new_writer() -> (o: XmlOut)
    ensures
        written(o) == Seq::<Ev>::empty(),
{
    XmlOut::new()
}

/// Open an element.
fn start_element(o: &mut XmlOut, name: &str)
    ensures
        written(*final(o)) == written(*old(o)).push(Ev::Start(name@)),
{
    let (mut w, calls) = o.take();
    writer_start(&mut w, name);
    let ghost h = calls@.push(Ev::Start(name@));
    assert(produces(w, h));
    *o = XmlOut { w, calls: Ghost(h) };
}

/// Write an attribute of the open start tag.
fn write_attribute(o: &mut XmlOut, name: &str, value: &str)
    requires
        in_start_tag(written(*old(o))),
    ensures
        written(*final(o)) == written(*old(o)).push(Ev::Attr(name@, value@)),
{
    let (mut w, calls) = o.take();
    writer_attribute(&mut w, name, value);
    let ghost h = calls@.push(Ev::Attr(name@, value@));
    assert(produces(w, h));
    *o = XmlOut { w, calls: Ghost(h) };
}

/// Write a text node inside the innermost open element.
fn write_text(o: &mut XmlOut, text: &str)
    requires
        written(*old(o)).len() > 0,
        open_count(written(*old(o))) > 0,
    ensures
        written(*final(o)) == written(*old(o)).push(Ev::Text(text@)),
{
    let (mut w, calls) = o.take();
    writer_text(&mut w, text);
    let ghost h = calls@.push(Ev::Text(text@));
    assert(produces(w, h));
    *o = XmlOut { w, calls: Ghost(h) };
}

/// Close the innermost open element.
fn end_element(o: &mut XmlOut)
    ensures
        written(*final(o)) == written(*old(o)).push(Ev::End),
{
    let (mut w, calls) = o.take();
    writer_end(&mut w);
    let ghost h = calls@.push(Ev::End);
    assert(produces(w, h));
    *o = XmlOut { w, calls: Ghost(h) };
}

/// Close every open element and give the document's text.
fn end_document(o: XmlOut) -> (s: String)
    ensures
        s@ == xml_document(written(o)),
{
    proof {
        use_type_invariant(&o);
    }
    let XmlOut { w, .. } = o;
    writer_finish(w)
}

/// The calls after one more call.
proof fn lemma_open_push(events: Seq<Ev>, e: Ev)
    ensures
        open_count(events.push(e)) == match e {
            Ev::Start(_) => open_count(events) + 1,
            Ev::End => if open_count(events) > 0 {
                (open_count(events) - 1) as nat
            } else {
                0
            },
            _ => open_count(events),
        },
{
    assert(events.push(e).drop_last() =~= events);
}

// ────────────────────────────── structure ──────────────────────────────

/// The first index from `j` on whose node is at `depth` or above, or the
/// length.
pub open spec fn scan_end(items: Seq<ItemV>, depth: int, j: int) -> int
    decreases items.len() - j,
{
    if j < 0 || j >= items.len() {
        items.len() as int
    } else if items[j].depth <= depth {
        j
    } else {
        scan_end(items, depth, j + 1)
    }
}

/// The index just past the descendants of node `i`.
pub open spec fn end_of(items: Seq<ItemV>, i: int) -> int {
    scan_end(items, items[i].depth, i + 1)
}

/// A scan from `j` stops at or after `j` and at most at the length.
proof fn lemma_scan_bounds(items: Seq<ItemV>, depth: int, j: int)
    requires
        0 <= j,
    ensures
        j <= scan_end(items, depth, j) <= items.len() || (j > items.len() && scan_end(items, depth, j)
            == items.len()),
    decreases items.len() - j,
{
    if j < items.len() && items[j].depth > depth {
        lemma_scan_bounds(items, depth, j + 1);
    }
}

/// The descendants of a node follow it and end within the list.
pub proof fn lemma_end_after(items: Seq<ItemV>, i: int)
    requires
        0 <= i < items.len(),
    ensures
        i < end_of(items, i) <= items.len(),
{
    lemma_scan_bounds(items, items[i].depth, i + 1);
}

/// Whether `ends` holds the end of every node's descendants.
pub open spec fn ends_ok(items: Seq<ItemV>, ends: Seq<usize>) -> bool {
    &&& ends.len() == items.len()
    &&& forall|k: int| 0 <= k < items.len() ==> #[trigger] ends[k] == end_of(items, k)
}

/// The end of node `i`'s descendants.
fn subtree_end(items: &Vec<XmlItem>, i: usize) -> (r: usize)
    requires
        i < items.len(),
    ensures
        r == end_of(items_view(items@), i as int),
{
    let ghost v = items_view(items@);
    let d = items[i].depth;
    let mut j = i + 1;
    while j < items.len() && items[j].depth > d
        invariant
            i < j <= items.len(),
            v == items_view(items@),
            d == v[i as int].depth,
            scan_end(v, d as int, j as int) == end_of(v, i as int),
        decreases items.len() - j,
    {
        j = j + 1;
    }
    j
}

/// The end of every node's descendants.
fn subtree_ends(items: &Vec<XmlItem>) -> (ends: Vec<usize>)
    ensures
        ends_ok(items_view(items@), ends@),
{
    let mut ends: Vec<usize> = Vec::new();
    let mut k: usize = 0;
    while k < items.len()
        invariant
            k <= items.len(),
            ends.len() == k,
            forall|q: int| 0 <= q < k ==> #[trigger] ends@[q] == end_of(items_view(items@), q),
        decreases items.len() - k,
    {
        let e = subtree_end(items, k);
        ends.push(e);
        k = k + 1;
    }
    ends
}

// ───────────────────────────── attributes ──────────────────────────────

/// The value of the first attribute without namespace named `name`.
pub open spec fn attr_value(attrs: Seq<AttrV>, name: Seq<char>) -> Option<Seq<char>>
    decreases attrs.len(),
{
    if attrs.len() == 0 {
        None
    } else if attrs[0].namespace is None && attrs[0].name == name {
        Some(attrs[0].value)
    } else {
        attr_value(attrs.drop_first(), name)
    }
}

/// The `id` of a node.
pub open spec fn id_of(it: ItemV) -> Option<Seq<char>> {
    attr_value(it.attrs, "id"@)
}

/// Whether a node is the `current-color-scheme` style block.
pub open spec fn is_color_style(it: ItemV) -> bool {
    it.tag == "style"@ && id_of(it) == Some("current-color-scheme"@)
}

/// The value of the first attribute without namespace named `name`.
fn attribute<'a>(attrs: &'a Vec<XmlAttr>, name: &str) -> (r: Option<&'a String>)
    ensures
        match r {
            Some(s) => attr_value(attrs@.map_values(|a: XmlAttr| a@), name@) == Some(s@),
            None => attr_value(attrs@.map_values(|a: XmlAttr| a@), name@) is None,
        },
{
    let ghost v = attrs@.map_values(|a: XmlAttr| a@);
    assert(v.subrange(0, v.len() as int) =~= v);
    let mut k: usize = 0;
    while k < attrs.len()
        invariant
            k <= attrs.len(),
            v == attrs@.map_values(|a: XmlAttr| a@),
            attr_value(v, name@) == attr_value(v.subrange(k as int, v.len() as int), name@),
        decreases attrs.len() - k,
    {
        let a = &attrs[k];
        let n = chars_of(a.name.as_str());
        if a.namespace.is_none() && eq_str(&n, name) {
            assert(v.subrange(k as int, v.len() as int)[0] == v[k as int]);
            return Some(&a.value);
        }
        assert(v.subrange(k as int, v.len() as int).drop_first() =~= v.subrange(k + 1, v.len() as int));
        k = k + 1;
    }
    None
}

/// Whether node `it` is the `current-color-scheme` style block.
fn color_style(it: &XmlItem) -> (r: bool)
    ensures
        r == is_color_style(it@),
{
    let tag = chars_of(it.tag.as_str());
    if !eq_str(&tag, "style") {
        return false;
    }
    match attribute(&it.attrs, "id") {
        Some(id) => {
            let c = chars_of(id.as_str());
            eq_str(&c, "current-color-scheme")
        },
        None => false,
    }
}

/// Which attributes a start tag leaves out (by local name).
#[derive(Debug, Clone, Copy, PartialEq, Eq, Structural)]
pub enum AttrFilter {
    /// None.
    All,
    /// `width`, `height` and `viewBox`.
    NoSize,
    /// `id`.
    NoId,
}

/// Whether an attribute of local name `name` is left out.
pub open spec fn skipped(f: AttrFilter, name: Seq<char>) -> bool {
    match f {
        AttrFilter::All => false,
        AttrFilter::NoSize => name == "width"@ || name == "height"@ || name == "viewBox"@,
        AttrFilter::NoId => name == "id"@,
    }
}

/// The call writing one attribute: unprefixed names as they are, the
/// `xlink` and `xml` namespaces with their prefix; attributes of any other
/// namespace (editor data) and left-out names are dropped.
pub open spec fn attr_ev(a: AttrV, f: AttrFilter) -> Seq<Ev> {
    if skipped(f, a.name) {
        seq![]
    } else {
        match a.namespace {
            None => seq![Ev::Attr(a.name, a.value)],
            Some(ns) => if ns == "http://www.w3.org/1999/xlink"@ {
                seq![Ev::Attr("xlink:"@ + a.name, a.value)]
            } else if ns == "http://www.w3.org/XML/1998/namespace"@ {
                seq![Ev::Attr("xml:"@ + a.name, a.value)]
            } else {
                seq![]
            },
        }
    }
}

/// The calls writing a list of attributes.
pub open spec fn attrs_ev(attrs: Seq<AttrV>, f: AttrFilter) -> Seq<Ev>
    decreases attrs.len(),
{
    if attrs.len() == 0 {
        seq![]
    } else {
        attrs_ev(attrs.drop_last(), f) + attr_ev(attrs.last(), f)
    }
}

/// Write one attribute (see [`attr_ev`]).
fn write_attr(w: &mut XmlOut, a: &XmlAttr, f: AttrFilter)
    requires
        in_start_tag(written(*old(w))),
    ensures
        written(*final(w)) == written(*old(w)) + attr_ev(a@, f),
{
    let n = chars_of(a.name.as_str());
    let skip = match f {
        AttrFilter::All => false,
        AttrFilter::NoSize => eq_str(&n, "width") || eq_str(&n, "height") || eq_str(&n, "viewBox"),
        AttrFilter::NoId => eq_str(&n, "id"),
    };
    if skip {
        assert(written(*w) =~= written(*old(w)) + attr_ev(a@, f));
        return;
    }
    match &a.namespace {
        None => {
            write_attribute(w, a.name.as_str(), a.value.as_str());
        },
        Some(ns) => {
            let c = chars_of(ns.as_str());
            if eq_str(&c, "http://www.w3.org/1999/xlink") {
                let mut name = String::new();
                push_str(&mut name, "xlink:");
                push_str(&mut name, a.name.as_str());
                write_attribute(w, name.as_str(), a.value.as_str());
            } else if eq_str(&c, "http://www.w3.org/XML/1998/namespace") {
                let mut name = String::new();
                push_str(&mut name, "xml:");
                push_str(&mut name, a.name.as_str());
                write_attribute(w, name.as_str(), a.value.as_str());
            } else {
                assert(written(*w) =~= written(*old(w)) + attr_ev(a@, f));
                return;
            }
        },
    }
    assert(written(*w) =~= written(*old(w)) + attr_ev(a@, f));
}

/// Write a list of attributes (see [`attrs_ev`]).
fn write_attrs(w: &mut XmlOut, attrs: &Vec<XmlAttr>, f: AttrFilter)
    requires
        in_start_tag(written(*old(w))),
    ensures
        written(*final(w)) == written(*old(w)) + attrs_ev(attrs@.map_values(|a: XmlAttr| a@), f),
        in_start_tag(written(*final(w))),
        open_count(written(*final(w))) == open_count(written(*old(w))),
{
    let ghost v = attrs@.map_values(|a: XmlAttr| a@);
    let ghost base = written(*w);
    let mut k: usize = 0;
    while k < attrs.len()
        invariant
            k <= attrs.len(),
            v == attrs@.map_values(|a: XmlAttr| a@),
            written(*w) == base + attrs_ev(v.take(k as int), f),
            in_start_tag(written(*w)),
            open_count(written(*w)) == open_count(base),
            base == written(*old(w)),
        decreases attrs.len() - k,
    {
        let ghost before = written(*w);
        write_attr(w, &attrs[k], f);
        proof {
            assert(v.take(k + 1).drop_last() =~= v.take(k as int));
            assert(v.take(k + 1).last() == attrs@[k as int]@);
            let ev = attr_ev(attrs@[k as int]@, f);
            assert(written(*w) =~= base + attrs_ev(v.take(k + 1), f));
            if ev.len() > 0 {
                assert(ev.len() == 1);
                assert(written(*w) =~= before.push(ev[0]));
                lemma_open_push(before, ev[0]);
            } else {
                assert(written(*w) =~= before);
            }
        }
        k = k + 1;
    }
    assert(v.take(attrs.len() as int) =~= v);
}

// ──────────────────────────────── nodes ────────────────────────────────

/// A node's text, or nothing.
pub open spec fn text_or_empty(t: Option<Seq<char>>) -> Seq<char> {
    match t {
        Some(s) => s,
        None => Seq::empty(),
    }
}

/// The calls writing the text children among the nodes `j..e` (`j` and
/// each sibling after it).
pub open spec fn text_kids_ev(items: Seq<ItemV>, j: int, e: int) -> Seq<Ev>
    decreases items.len() - j,
{
    if j < 0 || j >= e || j >= items.len() {
        seq![]
    } else {
        proof {
            lemma_end_after(items, j);
        }
        (if items[j].kind == XmlKind::Text {
            seq![Ev::Text(text_or_empty(items[j].text))]
        } else {
            seq![]
        }) + text_kids_ev(items, end_of(items, j), e)
    }
}

/// The calls writing the `current-color-scheme` style block at `i`: its
/// attributes, then `sheet`, or its own text children when `sheet` is
/// empty.
pub open spec fn style_ev(items: Seq<ItemV>, i: int, sheet: Seq<char>) -> Seq<Ev> {
    seq![Ev::Start("style"@)] + attrs_ev(items[i].attrs, AttrFilter::All) + (if sheet.len() == 0 {
        text_kids_ev(items, i + 1, end_of(items, i))
    } else {
        seq![Ev::Text(sheet)]
    }) + seq![Ev::End]
}

/// The calls writing node `i` and its descendants: comments are dropped,
/// texts written, the style block rewritten (see [`style_ev`]), elements
/// written with their attributes and children.
pub open spec fn node_ev(items: Seq<ItemV>, i: int, sheet: Seq<char>) -> Seq<Ev>
    decreases items.len() - i, 1int,
{
    if i < 0 || i >= items.len() {
        seq![]
    } else {
        let it = items[i];
        if it.kind == XmlKind::Comment {
            seq![]
        } else if it.kind == XmlKind::Text {
            seq![Ev::Text(text_or_empty(it.text))]
        } else if is_color_style(it) {
            style_ev(items, i, sheet)
        } else {
            seq![Ev::Start(it.tag)] + attrs_ev(it.attrs, AttrFilter::All) + kids_ev(
                items,
                i + 1,
                end_of(items, i),
                sheet,
            ) + seq![Ev::End]
        }
    }
}

/// The calls writing the siblings `j..e` (see [`node_ev`]).
pub open spec fn kids_ev(items: Seq<ItemV>, j: int, e: int, sheet: Seq<char>) -> Seq<Ev>
    decreases items.len() - j, 2int,
{
    if j < 0 || j >= e || j >= items.len() {
        seq![]
    } else {
        proof {
            lemma_end_after(items, j);
        }
        node_ev(items, j, sheet) + kids_ev(items, end_of(items, j), e, sheet)
    }
}

/// A node's text, or an empty one.
fn text_of_item(it: &XmlItem) -> (r: &str)
    ensures
        r@ == text_or_empty(it@.text),
{
    match &it.text {
        Some(t) => t.as_str(),
        None => {
            proof {
                reveal_strlit("");
            }
            ""
        },
    }
}

/// Write the `current-color-scheme` style block at `i` (see [`style_ev`]).
fn write_style_block(
    w: &mut XmlOut,
    items: &Vec<XmlItem>,
    ends: &Vec<usize>,
    i: usize,
    sheet: &str,
)
    requires
        i < items.len(),
        ends_ok(items_view(items@), ends@),
    ensures
        written(*final(w)) == written(*old(w)) + style_ev(items_view(items@), i as int, sheet@),
        open_count(written(*final(w))) == open_count(written(*old(w))),
{
    let ghost v = items_view(items@);
    let ghost base = written(*w);
    start_element(w, "style");
    proof {
        lemma_open_push(base, Ev::Start("style"@));
    }
    write_attrs(w, &items[i].attrs, AttrFilter::All);
    let ghost mid = written(*w);
    let sheet_chars = chars_of(sheet);
    if sheet_chars.len() == 0 {
        let e = ends[i];
        proof {
            lemma_end_after(v, i as int);
        }
        let mut j = i + 1;
        while j < e
            invariant
                ends_ok(v, ends@),
                v == items_view(items@),
                i < j,
                e == end_of(v, i as int) <= items.len(),
                written(*w) + text_kids_ev(v, j as int, e as int) == mid + text_kids_ev(v, i + 1, e as int),
                written(*w).len() > 0,
                open_count(written(*w)) == open_count(base) + 1,
            decreases items.len() - j,
        {
            proof {
                lemma_end_after(v, j as int);
            }
            let ghost before = written(*w);
            if items[j].kind == XmlKind::Text {
                write_text(w, text_of_item(&items[j]));
                proof {
                    lemma_open_push(before, Ev::Text(text_or_empty(v[j as int].text)));
                }
            }
            proof {
                let rest = text_kids_ev(v, end_of(v, j as int), e as int);
                let here = if v[j as int].kind == XmlKind::Text {
                    seq![Ev::Text(text_or_empty(v[j as int].text))]
                } else {
                    seq![]
                };
                assert(written(*w) =~= before + here);
                assert(text_kids_ev(v, j as int, e as int) == here + rest);
                assert(written(*w) + rest =~= before + (here + rest));
            }
            j = ends[j];
        }
        proof {
            assert(written(*w) + text_kids_ev(v, j as int, e as int) =~= written(*w));
        }
    } else {
        write_text(w, sheet);
        proof {
            lemma_open_push(mid, Ev::Text(sheet@));
        }
    }
    let ghost before_end = written(*w);
    end_element(w);
    proof {
        lemma_open_push(before_end, Ev::End);
        assert(written(*w) =~= base + style_ev(v, i as int, sheet@));
    }
}

/// Write node `i` and its descendants (see [`node_ev`]).
fn write_node(w: &mut XmlOut, items: &Vec<XmlItem>, ends: &Vec<usize>, i: usize, sheet: &str)
    requires
        i < items.len(),
        ends_ok(items_view(items@), ends@),
        written(*old(w)).len() > 0,
        open_count(written(*old(w))) > 0,
    ensures
        written(*final(w)) == written(*old(w)) + node_ev(items_view(items@), i as int, sheet@),
        open_count(written(*final(w))) == open_count(written(*old(w))),
        written(*final(w)).len() > 0,
    decreases items.len() - i, 1int,
{
    let ghost v = items_view(items@);
    let ghost base = written(*w);
    let it = &items[i];
    if it.kind == XmlKind::Comment {
        assert(written(*w) =~= base + node_ev(v, i as int, sheet@));
        return;
    }
    if it.kind == XmlKind::Text {
        write_text(w, text_of_item(it));
        proof {
            lemma_open_push(base, Ev::Text(text_or_empty(v[i as int].text)));
            assert(written(*w) =~= base + node_ev(v, i as int, sheet@));
        }
        return;
    }
    if color_style(it) {
        write_style_block(w, items, ends, i, sheet);
        return;
    }
    start_element(w, it.tag.as_str());
    proof {
        lemma_open_push(base, Ev::Start(v[i as int].tag));
    }
    write_attrs(w, &it.attrs, AttrFilter::All);
    write_kids(w, items, ends, i, sheet);
    let ghost before_end = written(*w);
    end_element(w);
    proof {
        lemma_open_push(before_end, Ev::End);
        assert(written(*w) =~= base + node_ev(v, i as int, sheet@));
    }
}

/// Write the children of node `i` (see [`kids_ev`]).
fn write_kids(w: &mut XmlOut, items: &Vec<XmlItem>, ends: &Vec<usize>, i: usize, sheet: &str)
    requires
        i < items.len(),
        ends_ok(items_view(items@), ends@),
        written(*old(w)).len() > 0,
        open_count(written(*old(w))) > 0,
    ensures
        written(*final(w)) == written(*old(w)) + kids_ev(
            items_view(items@),
            i + 1,
            end_of(items_view(items@), i as int),
            sheet@,
        ),
        open_count(written(*final(w))) == open_count(written(*old(w))),
        written(*final(w)).len() > 0,
    decreases items.len() - i, 0int,
{
    let ghost v = items_view(items@);
    let ghost base = written(*w);
    let e = ends[i];
    proof {
        lemma_end_after(v, i as int);
    }
    let mut j = i + 1;
    while j < e
        invariant
            ends_ok(v, ends@),
            v == items_view(items@),
            i < j <= items.len(),
            e == end_of(v, i as int) <= items.len(),
            written(*w) + kids_ev(v, j as int, e as int, sheet@) == base + kids_ev(v, i + 1, e as int, sheet@),
            written(*w).len() > 0,
            open_count(written(*w)) == open_count(base),
            open_count(base) > 0,
        decreases items.len() - j,
    {
        proof {
            lemma_end_after(v, j as int);
        }
        let ghost before = written(*w);
        write_node(w, items, ends, j, sheet);
        proof {
            let rest = kids_ev(v, end_of(v, j as int), e as int, sheet@);
            let here = node_ev(v, j as int, sheet@);
            assert(kids_ev(v, j as int, e as int, sheet@) == here + rest);
            assert(written(*w) + rest =~= before + (here + rest));
        }
        j = ends[j];
    }
    proof {
        assert(written(*w) + kids_ev(v, j as int, e as int, sheet@) =~= written(*w));
    }
}

// ────────────────────────────── filtering ──────────────────────────────

/// Which element ids survive filtering.
#[derive(Debug)]
pub enum KeepRule {
    /// The nine slices of the frame with this element prefix (see
    /// [`is_frame_slice`]).
    Slices(String),
    /// The element with this id.
    Id(String),
}

/// The model of a keep rule.
pub enum KeepV {
    /// The nine slices of the frame with this element prefix.
    Slices(Seq<char>),
    /// The element with this id.
    Id(Seq<char>),
}

impl View for KeepRule {
    type V = KeepV;

    open spec fn view(&self) -> KeepV {
        match self {
            KeepRule::Slices(p) => KeepV::Slices(p@),
            KeepRule::Id(x) => KeepV::Id(x@),
        }
    }
}

/// Whether `rule` keeps the element with id `id`.
pub open spec fn keeps(rule: KeepV, id: Seq<char>) -> bool {
    match rule {
        KeepV::Slices(p) => is_frame_slice(id, p),
        KeepV::Id(x) => id == x,
    }
}

/// Whether a node survives for itself: `defs`, the color style block, or
/// an element whose id the rule keeps.
pub open spec fn keeps_self(it: ItemV, rule: KeepV) -> bool {
    it.tag == "defs"@ || is_color_style(it) || (id_of(it) matches Some(id) && keeps(rule, id))
}

/// Whether node `i` survives filtering: no comment or text, and kept for
/// itself or for a surviving child.
pub open spec fn kept(items: Seq<ItemV>, i: int, rule: KeepV) -> bool
    decreases items.len() - i, 1int,
{
    if i < 0 || i >= items.len() {
        false
    } else {
        let it = items[i];
        if it.kind == XmlKind::Comment || it.kind == XmlKind::Text {
            false
        } else {
            keeps_self(it, rule) || any_kept(items, i + 1, end_of(items, i), rule)
        }
    }
}

/// Whether one of the siblings `j..e` survives filtering.
pub open spec fn any_kept(items: Seq<ItemV>, j: int, e: int, rule: KeepV) -> bool
    decreases items.len() - j, 2int,
{
    if j < 0 || j >= e || j >= items.len() {
        false
    } else {
        proof {
            lemma_end_after(items, j);
        }
        kept(items, j, rule) || any_kept(items, end_of(items, j), e, rule)
    }
}

/// The calls writing node `i` filtered: a node that does not survive is
/// dropped; `defs` and elements the rule keeps are written whole (see
/// [`node_ev`]); the style block is rewritten; other surviving elements
/// are written with their surviving children only.
pub open spec fn filtered_ev(items: Seq<ItemV>, i: int, rule: KeepV, sheet: Seq<char>) -> Seq<Ev>
    decreases items.len() - i, 1int,
{
    if i < 0 || i >= items.len() {
        seq![]
    } else {
        let it = items[i];
        if !kept(items, i, rule) {
            seq![]
        } else if it.tag == "defs"@ {
            node_ev(items, i, sheet)
        } else if id_of(it) matches Some(id) && keeps(rule, id) {
            node_ev(items, i, sheet)
        } else if it.kind == XmlKind::Comment {
            seq![]
        } else if it.kind == XmlKind::Text {
            seq![Ev::Text(text_or_empty(it.text))]
        } else if is_color_style(it) {
            style_ev(items, i, sheet)
        } else {
            seq![Ev::Start(it.tag)] + attrs_ev(it.attrs, AttrFilter::All) + filtered_kids(
                items,
                i + 1,
                end_of(items, i),
                rule,
                sheet,
            ) + seq![Ev::End]
        }
    }
}

/// The calls writing the siblings `j..e` filtered.
pub open spec fn filtered_kids(items: Seq<ItemV>, j: int, e: int, rule: KeepV, sheet: Seq<char>) -> Seq<Ev>
    decreases items.len() - j, 2int,
{
    if j < 0 || j >= e || j >= items.len() {
        seq![]
    } else {
        proof {
            lemma_end_after(items, j);
        }
        filtered_ev(items, j, rule, sheet) + filtered_kids(items, end_of(items, j), e, rule, sheet)
    }
}

/// Whether `rule` keeps the element with id `id`.
fn keeps_id(rule: &KeepRule, id: &str) -> (r: bool)
    ensures
        r == keeps(rule@, id@),
{
    match rule {
        KeepRule::Slices(p) => matches_prefix(id, p.as_str()),
        KeepRule::Id(x) => {
            let a = chars_of(id);
            let b = chars_of(x.as_str());
            eq_chars(&a, &b)
        },
    }
}

/// Whether `it` has an id that `rule` keeps.
fn id_kept(it: &XmlItem, rule: &KeepRule) -> (r: bool)
    ensures
        r == (id_of(it@) matches Some(id) && keeps(rule@, id)),
{
    match attribute(&it.attrs, "id") {
        Some(id) => keeps_id(rule, id.as_str()),
        None => false,
    }
}

/// Whether `it`'s tag is `defs`.
fn is_defs(it: &XmlItem) -> (r: bool)
    ensures
        r == (it@.tag == "defs"@),
{
    let t = chars_of(it.tag.as_str());
    eq_str(&t, "defs")
}

/// Whether node `i` survives filtering (see [`kept`]).
fn keep_node(items: &Vec<XmlItem>, ends: &Vec<usize>, i: usize, rule: &KeepRule) -> (r: bool)
    requires
        i < items.len(),
        ends_ok(items_view(items@), ends@),
    ensures
        r == kept(items_view(items@), i as int, rule@),
    decreases items.len() - i,
{
    let ghost v = items_view(items@);
    let it = &items[i];
    if it.kind == XmlKind::Comment || it.kind == XmlKind::Text {
        return false;
    }
    if is_defs(it) || color_style(it) || id_kept(it, rule) {
        return true;
    }
    let e = ends[i];
    proof {
        lemma_end_after(v, i as int);
    }
    let mut j = i + 1;
    while j < e
        invariant
            ends_ok(v, ends@),
            v == items_view(items@),
            i < j <= items.len(),
            e == end_of(v, i as int) <= items.len(),
            any_kept(v, i + 1, e as int, rule@) == any_kept(v, j as int, e as int, rule@),
            v[i as int].kind != XmlKind::Comment && v[i as int].kind != XmlKind::Text,
            !keeps_self(v[i as int], rule@),
        decreases items.len() - j,
    {
        proof {
            lemma_end_after(v, j as int);
        }
        if keep_node(items, ends, j, rule) {
            assert(any_kept(v, j as int, e as int, rule@));
            return true;
        }
        j = ends[j];
    }
    false
}

/// Write node `i` filtered (see [`filtered_ev`]).
fn write_filtered(
    w: &mut XmlOut,
    items: &Vec<XmlItem>,
    ends: &Vec<usize>,
    i: usize,
    rule: &KeepRule,
    sheet: &str,
)
    requires
        i < items.len(),
        ends_ok(items_view(items@), ends@),
        written(*old(w)).len() > 0,
        open_count(written(*old(w))) > 0,
    ensures
        written(*final(w)) == written(*old(w)) + filtered_ev(items_view(items@), i as int, rule@, sheet@),
        open_count(written(*final(w))) == open_count(written(*old(w))),
        written(*final(w)).len() > 0,
    decreases items.len() - i, 1int,
{
    let ghost v = items_view(items@);
    let ghost base = written(*w);
    let it = &items[i];
    if !keep_node(items, ends, i, rule) {
        assert(written(*w) =~= base + filtered_ev(v, i as int, rule@, sheet@));
        return;
    }
    if is_defs(it) || id_kept(it, rule) {
        write_node(w, items, ends, i, sheet);
        return;
    }
    if it.kind == XmlKind::Comment {
        assert(written(*w) =~= base + filtered_ev(v, i as int, rule@, sheet@));
        return;
    }
    if it.kind == XmlKind::Text {
        write_text(w, text_of_item(it));
        proof {
            lemma_open_push(base, Ev::Text(text_or_empty(v[i as int].text)));
            assert(written(*w) =~= base + filtered_ev(v, i as int, rule@, sheet@));
        }
        return;
    }
    if color_style(it) {
        write_style_block(w, items, ends, i, sheet);
        return;
    }
    start_element(w, it.tag.as_str());
    proof {
        lemma_open_push(base, Ev::Start(v[i as int].tag));
    }
    write_attrs(w, &it.attrs, AttrFilter::All);
    write_filtered_kids(w, items, ends, i, rule, sheet);
    let ghost before_end = written(*w);
    end_element(w);
    proof {
        lemma_open_push(before_end, Ev::End);
        assert(written(*w) =~= base + filtered_ev(v, i as int, rule@, sheet@));
    }
}

/// Write the children of node `i` filtered (see [`filtered_kids`]).
fn write_filtered_kids(
    w: &mut XmlOut,
    items: &Vec<XmlItem>,
    ends: &Vec<usize>,
    i: usize,
    rule: &KeepRule,
    sheet: &str,
)
    requires
        i < items.len(),
        ends_ok(items_view(items@), ends@),
        written(*old(w)).len() > 0,
        open_count(written(*old(w))) > 0,
    ensures
        written(*final(w)) == written(*old(w)) + filtered_kids(
            items_view(items@),
            i + 1,
            end_of(items_view(items@), i as int),
            rule@,
            sheet@,
        ),
        open_count(written(*final(w))) == open_count(written(*old(w))),
        written(*final(w)).len() > 0,
    decreases items.len() - i, 0int,
{
    let ghost v = items_view(items@);
    let ghost base = written(*w);
    let e = ends[i];
    proof {
        lemma_end_after(v, i as int);
    }
    let mut j = i + 1;
    while j < e
        invariant
            ends_ok(v, ends@),
            v == items_view(items@),
            i < j <= items.len(),
            e == end_of(v, i as int) <= items.len(),
            written(*w) + filtered_kids(v, j as int, e as int, rule@, sheet@) == base + filtered_kids(
                v,
                i + 1,
                e as int,
                rule@,
                sheet@,
            ),
            written(*w).len() > 0,
            open_count(written(*w)) == open_count(base),
            open_count(base) > 0,
        decreases items.len() - j,
    {
        proof {
            lemma_end_after(v, j as int);
        }
        let ghost before = written(*w);
        write_filtered(w, items, ends, j, rule, sheet);
        proof {
            let rest = filtered_kids(v, end_of(v, j as int), e as int, rule@, sheet@);
            let here = filtered_ev(v, j as int, rule@, sheet@);
            assert(filtered_kids(v, j as int, e as int, rule@, sheet@) == here + rest);
            assert(written(*w) + rest =~= before + (here + rest));
        }
        j = ends[j];
    }
    proof {
        assert(written(*w) + filtered_kids(v, j as int, e as int, rule@, sheet@) =~= written(*w));
    }
}

// ───────────────────────────── documents ──────────────────────────────

/// Whether the `xlink` prefix is in scope at a node.
pub open spec fn has_xlink(root: ItemV) -> bool {
    root.namespaces.contains(Some("xlink"@))
}

/// The calls opening an emitted document: the `svg` element with the SVG
/// namespace, the `xlink` one when the source declares it (editor
/// namespaces are dropped with their attributes), and the source root's
/// attributes.
pub open spec fn head_ev(root: ItemV, f: AttrFilter) -> Seq<Ev> {
    seq![Ev::Start("svg"@), Ev::Attr("xmlns"@, "http://www.w3.org/2000/svg"@)] + (if has_xlink(root) {
        seq![Ev::Attr("xmlns:xlink"@, "http://www.w3.org/1999/xlink"@)]
    } else {
        seq![]
    }) + attrs_ev(root.attrs, f)
}

/// The calls writing a document whole with the style block's content
/// replaced by `sheet`.
pub open spec fn replaced_doc(items: Seq<ItemV>, sheet: Seq<char>) -> Seq<Ev> {
    head_ev(items[0], AttrFilter::All) + kids_ev(items, 1, end_of(items, 0), sheet) + seq![Ev::End]
}

/// The calls writing the part of a document that survives `rule`.
pub open spec fn filtered_doc(items: Seq<ItemV>, rule: KeepV) -> Seq<Ev> {
    head_ev(items[0], AttrFilter::All) + filtered_kids(items, 1, end_of(items, 0), rule, Seq::empty())
        + seq![Ev::End]
}

/// The calls writing the part of a document that survives `rule`, sized
/// `width` x `height` and showing `view_box`.
pub open spec fn emitted_doc(
    items: Seq<ItemV>,
    rule: KeepV,
    width: Seq<char>,
    height: Seq<char>,
    view_box: Seq<char>,
) -> Seq<Ev> {
    head_ev(items[0], AttrFilter::NoSize) + seq![
        Ev::Attr("width"@, width),
        Ev::Attr("height"@, height),
        Ev::Attr("viewBox"@, view_box),
    ] + filtered_kids(items, 1, end_of(items, 0), rule, Seq::empty()) + seq![Ev::End]
}

/// The nodes that document bytes `raw` hold, or the message for bytes that
/// are no UTF-8 (`invalid UTF-8 in <utf8_label>: ...`) or text that does
/// not parse (`<parse_label>: ...`).
pub open spec fn parse_outcome(raw: Seq<u8>, utf8_label: Seq<char>, parse_label: Seq<char>) -> Result<
    Seq<ItemV>,
    Seq<char>,
> {
    match utf8_text(raw) {
        Err(e) => Err("invalid UTF-8 in "@ + utf8_label + ": "@ + e),
        Ok(text) => match parsed_items(text) {
            Err(e) => Err(parse_label + ": "@ + e),
            Ok(items) => Ok(items),
        },
    }
}

/// What a rewrite of document bytes `raw` gives: the writer's text for the
/// calls `events` makes of the parsed nodes, or the message of
/// [`parse_outcome`].
pub open spec fn outcome(
    raw: Seq<u8>,
    utf8_label: Seq<char>,
    parse_label: Seq<char>,
    events: spec_fn(Seq<ItemV>) -> Seq<Ev>,
) -> Result<Seq<char>, Seq<char>> {
    match parse_outcome(raw, utf8_label, parse_label) {
        Err(m) => Err(m),
        Ok(items) => Ok(xml_document(events(items))),
    }
}

/// Whether a result reports `expected`: the text, or [`Error::Other`] with
/// the message.
pub open spec fn reports(r: Result<String, Error>, expected: Result<Seq<char>, Seq<char>>) -> bool {
    match expected {
        Ok(t) => r matches Ok(s) && s@ == t,
        Err(m) => r matches Err(Error::Other(x)) && x@ == m,
    }
}

/// Whether the `xlink` prefix is in scope at `root`.
fn xlink_in_scope(root: &XmlItem) -> (r: bool)
    ensures
        r == has_xlink(root@),
{
    let ghost ns = root@.namespaces;
    let mut k: usize = 0;
    while k < root.namespaces.len()
        invariant
            k <= root.namespaces.len(),
            ns == root@.namespaces,
            ns.len() == root.namespaces.len(),
            forall|q: int| 0 <= q < k ==> ns[q] != Some("xlink"@),
        decreases root.namespaces.len() - k,
    {
        if let Some(n) = &root.namespaces[k] {
            let c = chars_of(n.as_str());
            if eq_str(&c, "xlink") {
                assert(ns[k as int] == Some("xlink"@));
                return true;
            }
        }
        assert(ns[k as int] != Some("xlink"@));
        k = k + 1;
    }
    false
}

/// Open an emitted document (see [`head_ev`]).
fn write_head(w: &mut XmlOut, root: &XmlItem, f: AttrFilter)
    requires
        written(*old(w)) == Seq::<Ev>::empty(),
    ensures
        written(*final(w)) == head_ev(root@, f),
        in_start_tag(written(*final(w))),
        open_count(written(*final(w))) == 1,
{
    start_element(w, "svg");
    proof {
        lemma_open_push(Seq::<Ev>::empty(), Ev::Start("svg"@));
    }
    write_attribute(w, "xmlns", "http://www.w3.org/2000/svg");
    let ghost s1 = written(*w);
    proof {
        lemma_open_push(written(*old(w)).push(Ev::Start("svg"@)), Ev::Attr("xmlns"@, "http://www.w3.org/2000/svg"@));
    }
    if xlink_in_scope(root) {
        write_attribute(w, "xmlns:xlink", "http://www.w3.org/1999/xlink");
        proof {
            lemma_open_push(s1, Ev::Attr("xmlns:xlink"@, "http://www.w3.org/1999/xlink"@));
        }
    }
    write_attrs(w, &root.attrs, f);
    proof {
        assert(written(*w) =~= head_ev(root@, f));
    }
}

/// The nodes of document bytes, or the error for bytes that are no UTF-8
/// or text that does not parse (see [`outcome`]).
fn document_items(raw: &[u8], utf8_label: &str, parse_label: &str) -> (r: Result<Vec<XmlItem>, Error>)
    ensures
        match parse_outcome(raw@, utf8_label@, parse_label@) {
            Err(m) => r matches Err(Error::Other(x)) && x@ == m,
            Ok(items) => r matches Ok(v) && items_view(v@) == items && v.len() > 0,
        },
{
    let text = match decode_utf8(raw) {
        Ok(t) => t,
        Err(e) => {
            let mut m = String::new();
            push_str(&mut m, "invalid UTF-8 in ");
            push_str(&mut m, utf8_label);
            push_str(&mut m, ": ");
            push_str(&mut m, e.as_str());
            return Err(Error::Other(m));
        },
    };
    match parse_items(text) {
        Ok(v) => Ok(v),
        Err(e) => {
            let mut m = String::new();
            push_str(&mut m, parse_label);
            push_str(&mut m, ": ");
            push_str(&mut m, e.as_str());
            Err(Error::Other(m))
        },
    }
}

/// Rewrite a theme SVG with the `current-color-scheme` style block's
/// content replaced by `stylesheet` (see [`replaced_doc`]); `name` labels
/// the errors.
pub fn replace_style_block(raw: &[u8], stylesheet: &str, name: &str) -> (r: Result<String, Error>)
    ensures
        reports(
            r,
            outcome(
                raw@,
                name@,
                "failed to parse "@ + name@,
                |items: Seq<ItemV>| replaced_doc(items, stylesheet@),
            ),
        ),
{
    let mut label = String::new();
    push_str(&mut label, "failed to parse ");
    push_str(&mut label, name);
    let items = match document_items(raw, name, label.as_str()) {
        Ok(v) => v,
        Err(e) => return Err(e),
    };
    let ends = subtree_ends(&items);
    let mut w = new_writer();
    write_head(&mut w, &items[0], AttrFilter::All);
    write_kids(&mut w, &items, &ends, 0, stylesheet);
    end_element(&mut w);
    proof {
        assert(written(w) =~= replaced_doc(items_view(items@), stylesheet@));
    }
    Ok(end_document(w))
}

/// Filter a style-replaced theme SVG down to one frame's elements: the
/// nine slices of `prefix`, `defs` and the color style block, and the
/// groups around them (see [`filtered_doc`]).
pub fn filter_frame(xml: &[u8], prefix: &str) -> (r: Result<String, Error>)
    ensures
        reports(
            r,
            outcome(
                xml@,
                "SVG"@,
                "failed to filter SVG"@,
                |items: Seq<ItemV>| filtered_doc(items, KeepV::Slices(prefix@)),
            ),
        ),
{
    let items = match document_items(xml, "SVG", "failed to filter SVG") {
        Ok(v) => v,
        Err(e) => return Err(e),
    };
    let ends = subtree_ends(&items);
    let mut w = new_writer();
    write_head(&mut w, &items[0], AttrFilter::All);
    let rule = KeepRule::Slices(prefix.to_owned());
    write_filtered_kids(&mut w, &items, &ends, 0, &rule, "");
    end_element(&mut w);
    proof {
        reveal_strlit("");
        assert(""@ =~= Seq::<char>::empty());
        assert(written(w) =~= filtered_doc(items_view(items@), rule@));
    }
    Ok(end_document(w))
}

/// Emit the part of a style-replaced theme SVG that survives `rule` as a
/// document of `width` x `height` pixels showing `view_box` (see
/// [`emitted_doc`]); the root's own size attributes are replaced.
pub fn emit_document(xml: &[u8], rule: &KeepRule, width: u32, height: u32, view_box: &str) -> (r: Result<
    String,
    Error,
>)
    ensures
        reports(
            r,
            outcome(
                xml@,
                "SVG"@,
                "failed to parse SVG"@,
                |items: Seq<ItemV>|
                    emitted_doc(items, rule@, dec(width as nat), dec(height as nat), view_box@),
            ),
        ),
{
    let items = match document_items(xml, "SVG", "failed to parse SVG") {
        Ok(v) => v,
        Err(e) => return Err(e),
    };
    let ends = subtree_ends(&items);
    let mut w = new_writer();
    write_head(&mut w, &items[0], AttrFilter::NoSize);
    let mut ws = String::new();
    push_dec(&mut ws, width as u64);
    let mut hs = String::new();
    push_dec(&mut hs, height as u64);
    let ghost h0 = written(w);
    write_attribute(&mut w, "width", ws.as_str());
    proof {
        lemma_open_push(h0, Ev::Attr("width"@, ws@));
    }
    let ghost h1 = written(w);
    write_attribute(&mut w, "height", hs.as_str());
    proof {
        lemma_open_push(h1, Ev::Attr("height"@, hs@));
    }
    let ghost h2 = written(w);
    write_attribute(&mut w, "viewBox", view_box);
    proof {
        lemma_open_push(h2, Ev::Attr("viewBox"@, view_box@));
    }
    write_filtered_kids(&mut w, &items, &ends, 0, rule, "");
    end_element(&mut w);
    proof {
        reveal_strlit("");
        assert(""@ =~= Seq::<char>::empty());
        assert(written(w) =~= emitted_doc(
            items_view(items@),
            rule@,
            dec(width as nat),
            dec(height as nat),
            view_box@,
        ));
    }
    Ok(end_document(w))
}

// ─────────────────────────── composed frames ───────────────────────────

/// The first node from `k` on whose id is `id`.
pub open spec fn find_id(items: Seq<ItemV>, id: Seq<char>, k: int) -> Option<int>
    decreases items.len() - k,
{
    if k < 0 || k >= items.len() {
        None
    } else if id_of(items[k]) == Some(id) {
        Some(k)
    } else {
        find_id(items, id, k + 1)
    }
}

/// The calls writing node `i` as far as it leads to node `t`: `t` itself
/// whole, and each element around it (no `defs` or `style`) with its
/// attributes but its `id`, holding only the way to `t`.
pub open spec fn path_ev(items: Seq<ItemV>, i: int, t: int) -> Seq<Ev>
    decreases items.len() - i, 1int,
{
    if i < 0 || i >= items.len() {
        seq![]
    } else {
        let it = items[i];
        if i == t {
            node_ev(items, i, Seq::empty())
        } else if it.kind == XmlKind::Comment || it.kind == XmlKind::Text {
            seq![]
        } else if it.tag == "defs"@ || it.tag == "style"@ {
            seq![]
        } else if !(i < t < end_of(items, i)) {
            seq![]
        } else {
            seq![Ev::Start(it.tag)] + attrs_ev(it.attrs, AttrFilter::NoId) + path_kids(
                items,
                i + 1,
                end_of(items, i),
                t,
            ) + seq![Ev::End]
        }
    }
}

/// The calls writing the siblings `j..e` as far as they lead to `t`.
pub open spec fn path_kids(items: Seq<ItemV>, j: int, e: int, t: int) -> Seq<Ev>
    decreases items.len() - j, 2int,
{
    if j < 0 || j >= e || j >= items.len() {
        seq![]
    } else {
        proof {
            lemma_end_after(items, j);
        }
        path_ev(items, j, t) + path_kids(items, end_of(items, j), e, t)
    }
}

/// The first node with id `id`.
fn find_node_by_id(items: &Vec<XmlItem>, id: &str) -> (r: Option<usize>)
    ensures
        match r {
            Some(k) => find_id(items_view(items@), id@, 0) == Some(k as int),
            None => find_id(items_view(items@), id@, 0) is None,
        },
{
    let ghost v = items_view(items@);
    let target = chars_of(id);
    let mut k: usize = 0;
    while k < items.len()
        invariant
            k <= items.len(),
            v == items_view(items@),
            target@ == id@,
            find_id(v, id@, 0) == find_id(v, id@, k as int),
        decreases items.len() - k,
    {
        match attribute(&items[k].attrs, "id") {
            Some(a) => {
                let c = chars_of(a.as_str());
                if eq_chars(&c, &target) {
                    return Some(k);
                }
            },
            None => {},
        }
        k = k + 1;
    }
    None
}

/// Write node `i` as far as it leads to node `t` (see [`path_ev`]).
fn write_node_path(w: &mut XmlOut, items: &Vec<XmlItem>, ends: &Vec<usize>, i: usize, t: usize)
    requires
        i < items.len(),
        ends_ok(items_view(items@), ends@),
        written(*old(w)).len() > 0,
        open_count(written(*old(w))) > 0,
    ensures
        written(*final(w)) == written(*old(w)) + path_ev(items_view(items@), i as int, t as int),
        open_count(written(*final(w))) == open_count(written(*old(w))),
        written(*final(w)).len() > 0,
    decreases items.len() - i, 1int,
{
    let ghost v = items_view(items@);
    let ghost base = written(*w);
    let it = &items[i];
    if i == t {
        write_node(w, items, ends, i, "");
        proof {
            reveal_strlit("");
            assert(""@ =~= Seq::<char>::empty());
        }
        return;
    }
    let tag = chars_of(it.tag.as_str());
    if it.kind == XmlKind::Comment || it.kind == XmlKind::Text || eq_str(&tag, "defs") || eq_str(&tag, "style")
        || !(i < t && t < ends[i]) {
        assert(written(*w) =~= base + path_ev(v, i as int, t as int));
        return;
    }
    start_element(w, it.tag.as_str());
    proof {
        lemma_open_push(base, Ev::Start(v[i as int].tag));
    }
    write_attrs(w, &it.attrs, AttrFilter::NoId);
    write_path_kids(w, items, ends, i, t);
    let ghost before_end = written(*w);
    end_element(w);
    proof {
        lemma_open_push(before_end, Ev::End);
        assert(written(*w) =~= base + path_ev(v, i as int, t as int));
    }
}

/// Write the children of node `i` as far as they lead to `t`.
fn write_path_kids(w: &mut XmlOut, items: &Vec<XmlItem>, ends: &Vec<usize>, i: usize, t: usize)
    requires
        i < items.len(),
        ends_ok(items_view(items@), ends@),
        written(*old(w)).len() > 0,
        open_count(written(*old(w))) > 0,
    ensures
        written(*final(w)) == written(*old(w)) + path_kids(
            items_view(items@),
            i + 1,
            end_of(items_view(items@), i as int),
            t as int,
        ),
        open_count(written(*final(w))) == open_count(written(*old(w))),
        written(*final(w)).len() > 0,
    decreases items.len() - i, 0int,
{
    let ghost v = items_view(items@);
    let ghost base = written(*w);
    let e = ends[i];
    proof {
        lemma_end_after(v, i as int);
    }
    let mut j = i + 1;
    while j < e
        invariant
            ends_ok(v, ends@),
            v == items_view(items@),
            i < j <= items.len(),
            e == end_of(v, i as int) <= items.len(),
            written(*w) + path_kids(v, j as int, e as int, t as int) == base + path_kids(
                v,
                i + 1,
                e as int,
                t as int,
            ),
            written(*w).len() > 0,
            open_count(written(*w)) == open_count(base),
            open_count(base) > 0,
        decreases items.len() - j,
    {
        proof {
            lemma_end_after(v, j as int);
        }
        let ghost before = written(*w);
        write_node_path(w, items, ends, j, t);
        proof {
            let rest = path_kids(v, end_of(v, j as int), e as int, t as int);
            let here = path_ev(v, j as int, t as int);
            assert(path_kids(v, j as int, e as int, t as int) == here + rest);
            assert(written(*w) + rest =~= before + (here + rest));
        }
        j = ends[j];
    }
    proof {
        assert(written(*w) + path_kids(v, j as int, e as int, t as int) =~= written(*w));
    }
}

/// Whether node `j` is a `defs` element or lies inside one.
pub open spec fn under_defs(items: Seq<ItemV>, j: int) -> bool {
    exists|k: int|
        0 <= k <= j && (k == j || j < end_of(items, k)) && (#[trigger] items[k]).tag == "defs"@
}

/// The calls writing every `defs` element among the first `n` nodes, whole.
pub open spec fn defs_upto(items: Seq<ItemV>, n: int) -> Seq<Ev>
    decreases n,
{
    if n <= 0 {
        seq![]
    } else {
        defs_upto(items, n - 1) + (if items[n - 1].tag == "defs"@ {
            node_ev(items, n - 1, Seq::empty())
        } else {
            seq![]
        })
    }
}

/// The calls writing every color style block among the first `n` nodes
/// that lies outside all `defs`, as it stands.
pub open spec fn styles_upto(items: Seq<ItemV>, n: int) -> Seq<Ev>
    decreases n,
{
    if n <= 0 {
        seq![]
    } else {
        styles_upto(items, n - 1) + (if is_color_style(items[n - 1]) && !under_defs(items, n - 1) {
            node_ev(items, n - 1, Seq::empty())
        } else {
            seq![]
        })
    }
}

/// One frame of a composed document: its element prefix, the translation
/// placing it (none at the origin), and the transform of each of its nine
/// slices in [`frame_slices`] order (none where the slice's box is
/// unknown).
#[derive(Debug)]
pub struct FrameXml {
    /// The element prefix.
    pub prefix: String,
    /// The `transform` of the frame's group, if it is moved.
    pub translate: Option<String>,
    /// The `transform` of each slice's group.
    pub transforms: Vec<Option<String>>,
}

/// The model of a composed frame.
pub struct FrameV {
    /// The element prefix.
    pub prefix: Seq<char>,
    /// The frame's translation.
    pub translate: Option<Seq<char>>,
    /// The slice transforms.
    pub transforms: Seq<Option<Seq<char>>>,
}

impl View for FrameXml {
    type V = FrameV;

    open spec fn view(&self) -> FrameV {
        FrameV {
            prefix: self.prefix@,
            translate: opt_chars(self.translate),
            transforms: self.transforms@.map_values(|t: Option<String>| opt_chars(t)),
        }
    }
}

/// The transform of slice `k` of a frame, if known.
pub open spec fn slice_transform(f: FrameV, k: int) -> Option<Seq<char>> {
    if 0 <= k < f.transforms.len() {
        f.transforms[k]
    } else {
        None
    }
}

/// The calls writing slice `k` of a frame: a group with the slice's
/// transform around the way to its element (see [`path_ev`]); or the id
/// of a slice whose box or element is missing.
pub open spec fn slice_ev(items: Seq<ItemV>, f: FrameV, k: int) -> Result<Seq<Ev>, Seq<char>> {
    let id = frame_element(f.prefix, frame_slices()[k]);
    match slice_transform(f, k) {
        None => Err(id),
        Some(tr) => match find_id(items, id, 0) {
            None => Err(id),
            Some(t) => Ok(seq![Ev::Start("g"@), Ev::Attr("transform"@, tr)] + path_ev(items, 0, t) + seq![Ev::End]),
        },
    }
}

/// The calls writing the first `n` slices of a frame, or the first
/// missing id.
pub open spec fn slices_upto(items: Seq<ItemV>, f: FrameV, n: int) -> Result<Seq<Ev>, Seq<char>>
    decreases n,
{
    if n <= 0 {
        Ok(seq![])
    } else {
        match slices_upto(items, f, n - 1) {
            Err(id) => Err(id),
            Ok(a) => match slice_ev(items, f, n - 1) {
                Err(id) => Err(id),
                Ok(b) => Ok(a + b),
            },
        }
    }
}

/// The calls writing one frame: a group (translated when moved) holding
/// its nine slices; or the first missing id.
pub open spec fn frame_ev(items: Seq<ItemV>, f: FrameV) -> Result<Seq<Ev>, Seq<char>> {
    match slices_upto(items, f, FRAME_SLICE_COUNT as int) {
        Err(id) => Err(id),
        Ok(body) => Ok(seq![Ev::Start("g"@)] + (match f.translate {
            Some(t) => seq![Ev::Attr("transform"@, t)],
            None => seq![],
        }) + body + seq![Ev::End]),
    }
}

/// The calls writing the first `n` frames in order (later ones on top);
/// a frame given as an id is one whose border box is missing.
pub open spec fn frames_upto(items: Seq<ItemV>, fs: Seq<Result<FrameV, Seq<char>>>, n: int) -> Result<
    Seq<Ev>,
    Seq<char>,
>
    decreases n,
{
    if n <= 0 {
        Ok(seq![])
    } else {
        match frames_upto(items, fs, n - 1) {
            Err(id) => Err(id),
            Ok(a) => match fs[n - 1] {
                Err(id) => Err(id),
                Ok(f) => match frame_ev(items, f) {
                    Err(id) => Err(id),
                    Ok(b) => Ok(a + b),
                },
            },
        }
    }
}

/// The calls writing a composed document: the root sized `width` x
/// `height` showing `view_box`, every `defs` whole, the color style blocks
/// outside them, then the frames; or the first missing id.
pub open spec fn composed_doc(
    items: Seq<ItemV>,
    width: Seq<char>,
    height: Seq<char>,
    view_box: Seq<char>,
    fs: Seq<Result<FrameV, Seq<char>>>,
) -> Result<Seq<Ev>, Seq<char>> {
    match frames_upto(items, fs, fs.len() as int) {
        Err(id) => Err(id),
        Ok(body) => Ok(head_ev(items[0], AttrFilter::NoSize) + seq![
            Ev::Attr("width"@, width),
            Ev::Attr("height"@, height),
            Ev::Attr("viewBox"@, view_box),
        ] + defs_upto(items, items.len() as int) + styles_upto(items, items.len() as int) + body
            + seq![Ev::End]),
    }
}

/// The models of the frames of a composed document.
pub open spec fn frames_view(fs: Seq<Result<FrameXml, String>>) -> Seq<Result<FrameV, Seq<char>>> {
    fs.map_values(
        |f: Result<FrameXml, String>|
            match f {
                Ok(x) => Ok(x@),
                Err(id) => Err(id@),
            },
    )
}

/// Whether node `j` is a `defs` element or lies inside one.
fn in_defs(items: &Vec<XmlItem>, ends: &Vec<usize>, j: usize) -> (r: bool)
    requires
        j < items.len(),
        ends_ok(items_view(items@), ends@),
    ensures
        r == under_defs(items_view(items@), j as int),
{
    let ghost v = items_view(items@);
    let mut k: usize = 0;
    while k <= j
        invariant
            k <= j + 1,
            j < items.len(),
            v == items_view(items@),
            ends_ok(v, ends@),
            forall|q: int|
                0 <= q < k ==> !((q == j || j < end_of(v, q)) && (#[trigger] v[q]).tag == "defs"@),
        decreases j + 1 - k,
    {
        if is_defs(&items[k]) && (k == j || j < ends[k]) {
            assert((k == j || j < end_of(v, k as int)) && v[k as int].tag == "defs"@);
            return true;
        }
        k = k + 1;
    }
    false
}

/// Write every `defs` element whole (see [`defs_upto`]).
fn write_all_defs(w: &mut XmlOut, items: &Vec<XmlItem>, ends: &Vec<usize>)
    requires
        ends_ok(items_view(items@), ends@),
        written(*old(w)).len() > 0,
        open_count(written(*old(w))) > 0,
    ensures
        written(*final(w)) == written(*old(w)) + defs_upto(items_view(items@), items.len() as int),
        open_count(written(*final(w))) == open_count(written(*old(w))),
        written(*final(w)).len() > 0,
{
    let ghost v = items_view(items@);
    let ghost base = written(*w);
    let mut k: usize = 0;
    while k < items.len()
        invariant
            k <= items.len(),
            v == items_view(items@),
            ends_ok(v, ends@),
            written(*w) == base + defs_upto(v, k as int),
            written(*w).len() > 0,
            open_count(written(*w)) == open_count(base),
            open_count(base) > 0,
        decreases items.len() - k,
    {
        if is_defs(&items[k]) {
            write_node(w, items, ends, k, "");
        }
        proof {
            reveal_strlit("");
            assert(""@ =~= Seq::<char>::empty());
            assert(written(*w) =~= base + defs_upto(v, k + 1));
        }
        k = k + 1;
    }
}

/// Write the color style blocks outside all `defs` (see [`styles_upto`]).
fn write_free_styles(w: &mut XmlOut, items: &Vec<XmlItem>, ends: &Vec<usize>)
    requires
        ends_ok(items_view(items@), ends@),
        written(*old(w)).len() > 0,
        open_count(written(*old(w))) > 0,
    ensures
        written(*final(w)) == written(*old(w)) + styles_upto(items_view(items@), items.len() as int),
        open_count(written(*final(w))) == open_count(written(*old(w))),
        written(*final(w)).len() > 0,
{
    let ghost v = items_view(items@);
    let ghost base = written(*w);
    let mut k: usize = 0;
    while k < items.len()
        invariant
            k <= items.len(),
            v == items_view(items@),
            ends_ok(v, ends@),
            written(*w) == base + styles_upto(v, k as int),
            written(*w).len() > 0,
            open_count(written(*w)) == open_count(base),
            open_count(base) > 0,
        decreases items.len() - k,
    {
        if color_style(&items[k]) && !in_defs(items, ends, k) {
            write_node(w, items, ends, k, "");
        }
        proof {
            reveal_strlit("");
            assert(""@ =~= Seq::<char>::empty());
            assert(written(*w) =~= base + styles_upto(v, k + 1));
        }
        k = k + 1;
    }
}

/// Once a slice is missing, every longer run of slices reports it.
proof fn lemma_slices_err_sticks(items: Seq<ItemV>, f: FrameV, n: int, m: int)
    requires
        0 <= n <= m,
        slices_upto(items, f, n) is Err,
    ensures
        slices_upto(items, f, m) == slices_upto(items, f, n),
    decreases m - n,
{
    if m > n {
        lemma_slices_err_sticks(items, f, n, m - 1);
    }
}

/// Once a frame is missing an element, every longer run of frames reports
/// it.
proof fn lemma_frames_err_sticks(items: Seq<ItemV>, fs: Seq<Result<FrameV, Seq<char>>>, n: int, m: int)
    requires
        0 <= n <= m,
        frames_upto(items, fs, n) is Err,
    ensures
        frames_upto(items, fs, m) == frames_upto(items, fs, n),
    decreases m - n,
{
    if m > n {
        lemma_frames_err_sticks(items, fs, n, m - 1);
    }
}

/// Write slice `k` of frame `f` (see [`slice_ev`]), or give the id of a
/// slice whose box or element is missing.
fn write_slice(
    w: &mut XmlOut,
    items: &Vec<XmlItem>,
    ends: &Vec<usize>,
    f: &FrameXml,
    k: usize,
) -> (r: Result<(), String>)
    requires
        k < FRAME_SLICE_COUNT,
        items.len() > 0,
        ends_ok(items_view(items@), ends@),
        written(*old(w)).len() > 0,
        open_count(written(*old(w))) > 0,
    ensures
        match slice_ev(items_view(items@), f@, k as int) {
            Err(id) => r matches Err(e) && e@ == id,
            Ok(evs) => r is Ok && written(*final(w)) == written(*old(w)) + evs,
        },
        open_count(written(*final(w))) == open_count(written(*old(w))),
        written(*final(w)).len() > 0,
{
    let ghost v = items_view(items@);
    let ghost base = written(*w);
    let id = slice_id(f.prefix.as_str(), frame_slice(k));
    let tr = if k < f.transforms.len() {
        match &f.transforms[k] {
            Some(t) => t,
            None => return Err(id),
        }
    } else {
        return Err(id);
    };
    let t = match find_node_by_id(items, id.as_str()) {
        Some(t) => t,
        None => return Err(id),
    };
    start_element(w, "g");
    proof {
        lemma_open_push(base, Ev::Start("g"@));
    }
    let ghost s1 = written(*w);
    write_attribute(w, "transform", tr.as_str());
    proof {
        lemma_open_push(s1, Ev::Attr("transform"@, tr@));
    }
    write_node_path(w, items, ends, 0, t);
    let ghost before_end = written(*w);
    end_element(w);
    proof {
        lemma_open_push(before_end, Ev::End);
        assert(written(*w) =~= base + seq![Ev::Start("g"@), Ev::Attr("transform"@, tr@)] + path_ev(
            v,
            0,
            t as int,
        ) + seq![Ev::End]);
    }
    Ok(())
}

/// Write one frame (see [`frame_ev`]), or give the first missing id.
fn write_frame(w: &mut XmlOut, items: &Vec<XmlItem>, ends: &Vec<usize>, f: &FrameXml) -> (r: Result<
    (),
    String,
>)
    requires
        items.len() > 0,
        ends_ok(items_view(items@), ends@),
        written(*old(w)).len() > 0,
        open_count(written(*old(w))) > 0,
    ensures
        match frame_ev(items_view(items@), f@) {
            Err(id) => r matches Err(e) && e@ == id,
            Ok(evs) => r is Ok && written(*final(w)) == written(*old(w)) + evs && open_count(written(*final(w)))
                == open_count(written(*old(w))),
        },
{
    let ghost v = items_view(items@);
    let ghost base = written(*w);
    start_element(w, "g");
    proof {
        lemma_open_push(base, Ev::Start("g"@));
    }
    if let Some(t) = &f.translate {
        let ghost s1 = written(*w);
        write_attribute(w, "transform", t.as_str());
        proof {
            lemma_open_push(s1, Ev::Attr("transform"@, t@));
        }
    }
    let ghost mid = written(*w);
    proof {
        assert(mid =~= base + seq![Ev::Start("g"@)] + (match f@.translate {
            Some(t) => seq![Ev::Attr("transform"@, t)],
            None => seq![],
        }));
    }
    let mut k: usize = 0;
    while k < FRAME_SLICE_COUNT
        invariant
            k <= FRAME_SLICE_COUNT,
            items.len() > 0,
            v == items_view(items@),
            ends_ok(v, ends@),
            slices_upto(v, f@, k as int) matches Ok(a) && written(*w) == mid + a,
            written(*w).len() > 0,
            open_count(written(*w)) == open_count(base) + 1,
        decreases FRAME_SLICE_COUNT - k,
    {
        match write_slice(w, items, ends, f, k) {
            Ok(()) => {},
            Err(id) => {
                proof {
                    lemma_slices_err_sticks(v, f@, k + 1, FRAME_SLICE_COUNT as int);
                }
                return Err(id);
            },
        }
        proof {
            let a = slices_upto(v, f@, k as int)->Ok_0;
            let b = slice_ev(v, f@, k as int)->Ok_0;
            assert(written(*w) =~= mid + (a + b));
        }
        k = k + 1;
    }
    let ghost before_end = written(*w);
    end_element(w);
    proof {
        lemma_open_push(before_end, Ev::End);
        let body = slices_upto(v, f@, FRAME_SLICE_COUNT as int)->Ok_0;
        assert(written(*w) =~= base + (seq![Ev::Start("g"@)] + (match f@.translate {
            Some(t) => seq![Ev::Attr("transform"@, t)],
            None => seq![],
        }) + body + seq![Ev::End]));
    }
    Ok(())
}

/// Write the frames in order (see [`frames_upto`]), or give the first
/// missing id.
fn write_frames(
    w: &mut XmlOut,
    items: &Vec<XmlItem>,
    ends: &Vec<usize>,
    frames: &Vec<Result<FrameXml, String>>,
) -> (r: Result<(), String>)
    requires
        items.len() > 0,
        ends_ok(items_view(items@), ends@),
        written(*old(w)).len() > 0,
        open_count(written(*old(w))) > 0,
    ensures
        match frames_upto(items_view(items@), frames_view(frames@), frames@.len() as int) {
            Err(id) => r matches Err(e) && e@ == id,
            Ok(evs) => r is Ok && written(*final(w)) == written(*old(w)) + evs && open_count(written(*final(w)))
                == open_count(written(*old(w))),
        },
{
    let ghost v = items_view(items@);
    let ghost fv = frames_view(frames@);
    let ghost base = written(*w);
    let mut n: usize = 0;
    while n < frames.len()
        invariant
            n <= frames.len(),
            items.len() > 0,
            v == items_view(items@),
            fv == frames_view(frames@),
            ends_ok(v, ends@),
            frames_upto(v, fv, n as int) matches Ok(a) && written(*w) == base + a,
            written(*w).len() > 0,
            open_count(written(*w)) == open_count(base),
            open_count(base) > 0,
        decreases frames.len() - n,
    {
        match &frames[n] {
            Err(id) => {
                let mut el = String::new();
                push_str(&mut el, id.as_str());
                proof {
                    assert(el@ =~= id@);
                    lemma_frames_err_sticks(v, fv, n + 1, fv.len() as int);
                }
                return Err(el);
            },
            Ok(f) => {
                match write_frame(w, items, ends, f) {
                    Ok(()) => {},
                    Err(id) => {
                        proof {
                            lemma_frames_err_sticks(v, fv, n + 1, fv.len() as int);
                        }
                        return Err(id);
                    },
                }
            },
        }
        proof {
            let a = frames_upto(v, fv, n as int)->Ok_0;
            let b = frame_ev(v, fv[n as int]->Ok_0)->Ok_0;
            assert(written(*w) =~= base + (a + b));
        }
        n = n + 1;
    }
    Ok(())
}

/// Compose frames of a style-replaced theme SVG into one document of
/// `width` x `height` pixels showing `view_box` (see [`composed_doc`]): a
/// frame or slice whose box or element is missing gives
/// [`Error::MissingElement`] for the asset at `path`.
pub fn compose_document(
    xml: &[u8],
    path: &str,
    width: u32,
    height: u32,
    view_box: &str,
    frames: &Vec<Result<FrameXml, String>>,
) -> (r: Result<String, Error>)
    ensures
        match parse_outcome(xml@, "SVG"@, "failed to parse SVG"@) {
            Err(m) => r matches Err(Error::Other(x)) && x@ == m,
            Ok(items) => match composed_doc(
                items,
                dec(width as nat),
                dec(height as nat),
                view_box@,
                frames_view(frames@),
            ) {
                Err(id) => r matches Err(Error::MissingElement { path: p, element: el }) && p@ == path@ && el@
                    == id,
                Ok(evs) => r matches Ok(s) && s@ == xml_document(evs),
            },
        },
{
    let items = match document_items(xml, "SVG", "failed to parse SVG") {
        Ok(v) => v,
        Err(e) => return Err(e),
    };
    let ghost v = items_view(items@);
    let ends = subtree_ends(&items);
    let mut w = new_writer();
    write_head(&mut w, &items[0], AttrFilter::NoSize);
    let mut ws = String::new();
    push_dec(&mut ws, width as u64);
    let mut hs = String::new();
    push_dec(&mut hs, height as u64);
    let ghost h0 = written(w);
    write_attribute(&mut w, "width", ws.as_str());
    proof {
        lemma_open_push(h0, Ev::Attr("width"@, ws@));
    }
    let ghost h1 = written(w);
    write_attribute(&mut w, "height", hs.as_str());
    proof {
        lemma_open_push(h1, Ev::Attr("height"@, hs@));
    }
    let ghost h2 = written(w);
    write_attribute(&mut w, "viewBox", view_box);
    proof {
        lemma_open_push(h2, Ev::Attr("viewBox"@, view_box@));
    }
    write_all_defs(&mut w, &items, &ends);
    write_free_styles(&mut w, &items, &ends);
    match write_frames(&mut w, &items, &ends, frames) {
        Ok(()) => {},
        Err(id) => {
            let mut p = String::new();
            push_str(&mut p, path);
            proof {
                assert(p@ =~= path@);
            }
            return Err(Error::MissingElement { path: p, element: id });
        },
    }
    end_element(&mut w);
    proof {
        let body = frames_upto(v, frames_view(frames@), frames@.len() as int)->Ok_0;
        assert(written(w) =~= head_ev(v[0], AttrFilter::NoSize) + seq![
            Ev::Attr("width"@, dec(width as nat)),
            Ev::Attr("height"@, dec(height as nat)),
            Ev::Attr("viewBox"@, view_box@),
        ] + defs_upto(v, v.len() as int) + styles_upto(v, v.len() as int) + body + seq![Ev::End]);
    }
    Ok(end_document(w))
}

// ───────────────────────── in-place substitution ─────────────────────────

/// The first color style element from node `k` on.
pub open spec fn first_color_style(items: Seq<ItemV>, k: int) -> Option<int>
    decreases items.len() - k,
{
    if k < 0 || k >= items.len() {
        None
    } else if items[k].kind == XmlKind::Element && is_color_style(items[k]) {
        Some(k)
    } else {
        first_color_style(items, k + 1)
    }
}

/// The first index in `from..to` whose byte is `b`.
pub open spec fn find_byte(s: Seq<u8>, b: u8, from: int, to: int) -> Option<int>
    decreases to - from,
{
    if from >= to {
        None
    } else if s[from] == b {
        Some(from)
    } else {
        find_byte(s, b, from + 1, to)
    }
}

/// The bytes of `</style>`.
pub open spec fn style_close() -> Seq<u8> {
    seq![60u8, 47u8, 115u8, 116u8, 121u8, 108u8, 101u8, 62u8]
}

/// The first color style element.
fn find_color_style(items: &Vec<XmlItem>) -> (r: Option<usize>)
    ensures
        match r {
            Some(k) => first_color_style(items_view(items@), 0) == Some(k as int) && k < items.len(),
            None => first_color_style(items_view(items@), 0) is None,
        },
{
    let ghost v = items_view(items@);
    let mut k: usize = 0;
    while k < items.len()
        invariant
            k <= items.len(),
            v == items_view(items@),
            first_color_style(v, 0) == first_color_style(v, k as int),
        decreases items.len() - k,
    {
        if items[k].kind == XmlKind::Element && color_style(&items[k]) {
            return Some(k);
        }
        k = k + 1;
    }
    None
}

/// What [`substitute_color_scheme`] gives for XML bytes `xml` and
/// stylesheet bytes `sheet`: the bytes with the first color style
/// element's content replaced, or the error message.
pub open spec fn substituted(xml: Seq<u8>, sheet: Seq<u8>) -> Result<Seq<u8>, Seq<char>> {
    match utf8_text(xml) {
        Err(e) => Err("svg is not utf-8: "@ + e),
        Ok(text) => match parsed_items(text) {
            Err(e) => Err("failed to parse svg xml: "@ + e),
            Ok(items) => match first_color_style(items, 0) {
                None => Err("svg has no current-color-scheme style element"@),
                Some(k) => match find_byte(xml, 62u8, items[k].range.0 as int, items[k].range.1 as int) {
                    None => Err("malformed style element"@),
                    Some(g) => Ok(xml.subrange(0, g + 1) + sheet + style_close() + xml.subrange(
                        items[k].range.1 as int,
                        xml.len() as int,
                    )),
                },
            },
        },
    }
}

/// The bytes or the message of a result.
pub open spec fn bytes_result(r: Result<Vec<u8>, String>) -> Result<Seq<u8>, Seq<char>> {
    match r {
        Ok(v) => Ok(v@),
        Err(m) => Err(m@),
    }
}

/// Replace the content of the first `<style id="current-color-scheme">`
/// element with `stylesheet`, keeping every other byte of the XML as it
/// is: the text up to the element's start tag, the stylesheet, a closing
/// tag, then the text after the element.
pub fn substitute_color_scheme(xml: &[u8], stylesheet: &str) -> (r: Result<Vec<u8>, String>)
    ensures
        bytes_result(r) == substituted(xml@, stylesheet.spec_bytes()),
{
    let text = match decode_utf8(xml) {
        Ok(t) => t,
        Err(e) => {
            let mut m = String::new();
            push_str(&mut m, "svg is not utf-8: ");
            push_str(&mut m, e.as_str());
            return Err(m);
        },
    };
    let items = match parse_items(text) {
        Ok(v) => v,
        Err(e) => {
            let mut m = String::new();
            push_str(&mut m, "failed to parse svg xml: ");
            push_str(&mut m, e.as_str());
            return Err(m);
        },
    };
    let ghost v = items_view(items@);
    let k = match find_color_style(&items) {
        Some(k) => k,
        None => return Err("svg has no current-color-scheme style element".to_string()),
    };
    let (start, end) = items[k].range;
    assert(v[k as int].range == items@[k as int].range);
    let mut g = start;
    while g < end && xml[g] != 62u8
        invariant
            start <= g <= end <= xml@.len(),
            find_byte(xml@, 62u8, start as int, end as int) == find_byte(xml@, 62u8, g as int, end as int),
        decreases end - g,
    {
        g = g + 1;
    }
    if g >= end {
        return Err("malformed style element".to_string());
    }
    let mut out: Vec<u8> = Vec::new();
    let mut i: usize = 0;
    while i <= g
        invariant
            i <= g + 1,
            g < xml@.len(),
            out@ == xml@.subrange(0, i as int),
        decreases g + 1 - i,
    {
        out.push(xml[i]);
        i = i + 1;
        assert(out@ =~= xml@.subrange(0, i as int));
    }
    let sheet = stylesheet.as_bytes();
    let ghost before_sheet = out@;
    let mut j: usize = 0;
    while j < sheet.len()
        invariant
            j <= sheet@.len(),
            sheet@ == stylesheet.spec_bytes(),
            out@ == before_sheet + sheet@.subrange(0, j as int),
        decreases sheet.len() - j,
    {
        out.push(sheet[j]);
        j = j + 1;
        assert(out@ =~= before_sheet + sheet@.subrange(0, j as int));
    }
    let ghost before_close = out@;
    out.push(60u8);
    out.push(47u8);
    out.push(115u8);
    out.push(116u8);
    out.push(121u8);
    out.push(108u8);
    out.push(101u8);
    out.push(62u8);
    let ghost before_tail = out@;
    let mut t = end;
    while t < xml.len()
        invariant
            end <= t <= xml@.len(),
            out@ == before_tail + xml@.subrange(end as int, t as int),
        decreases xml.len() - t,
    {
        out.push(xml[t]);
        t = t + 1;
        assert(out@ =~= before_tail + xml@.subrange(end as int, t as int));
    }
    proof {
        assert(sheet@.subrange(0, sheet@.len() as int) =~= sheet@);
        assert(before_tail =~= before_close + style_close());
        assert(out@ =~= xml@.subrange(0, g + 1) + stylesheet.spec_bytes() + style_close() + xml@.subrange(
            end as int,
            xml@.len() as int,
        ));
    }
    Ok(out)
}

} // verus!
