use vstd::prelude::*;

verus! {

#[verifier::external_type_specification]
#[verifier::external_body]
pub struct ExVDom<'a>(tl::VDom<'a>);

/// A parsed HTML page. Nodes are addressed by their index in document
/// order, the handle that the parser itself uses.
pub struct Page<'a> {
    html: &'a str,
    dom: tl::VDom<'a>,
}

impl<'a> Page<'a> {
    /// The text the page was parsed from.
    pub closed spec fn source(&self) -> Seq<char> {
        self.html@
    }
}

/// The characters of an optional text.
pub open spec fn text_view(o: Option<String>) -> Option<Seq<char>> {
    match o {
        Some(s) => Some(s@),
        None => None,
    }
}

/// The handles of an optional list of nodes.
pub open spec fn nodes_view(o: Option<Vec<u32>>) -> Option<Seq<u32>> {
    match o {
        Some(v) => Some(v@),
        None => None,
    }
}

/// How many nodes `tl::VDom::nodes` lists for a page.
pub uninterp spec fn node_count_of(html: Seq<char>) -> nat;

/// The tag name that `tl::HTMLTag::name` gives for a node, if it is a tag.
pub uninterp spec fn tag_name_of(html: Seq<char>, node: u32) -> Option<Seq<char>>;

/// The value that `tl::Attributes::get` gives for an attribute of a node,
/// if the node is a tag and the attribute is there with a value.
pub uninterp spec fn attribute_of(html: Seq<char>, node: u32, key: Seq<char>) -> Option<Seq<char>>;

/// The text that `tl::HTMLTag::inner_text` gives for a node, if it is a tag.
pub uninterp spec fn inner_text_of(html: Seq<char>, node: u32) -> Option<Seq<char>>;

/// The nodes that `tl::VDom::get_elements_by_class_name` lists for a class.
pub uninterp spec fn class_members_of(html: Seq<char>, class: Seq<char>) -> Seq<u32>;

/// The nodes that `tl::HTMLTag::query_selector` lists below a node, if the
/// node is a tag and the selector parses.
pub uninterp spec fn selected_of(html: Seq<char>, node: u32, selector: Seq<char>) -> Option<Seq<u32>>;

/// Relies on `tl::parse`, which fails only where the text takes more bytes
/// than `u32::MAX` (four bytes at most per character).
#[verifier::external_body]
fn parse_dom<'a>(html: &'a str) -> (r: Option<Page<'a>>)
    ensures
        r matches Some(p) ==> p.source() == html@,
        html@.len() < 0x4000_0000 ==> r is Some,
{
    tl::parse(html, tl::ParserOptions::default()).ok().map(|dom| Page { html, dom })
}

/// Relies on `tl::VDom::nodes`: the nodes of the page in document order.
#[verifier::external_body]
pub(crate) fn node_count(page: &Page) -> (r: usize)
    ensures
        r as nat == node_count_of(page.source()),
{
    page.dom.nodes().len()
}

/// Relies on `tl::HTMLTag::name`.
#[verifier::external_body]
pub(crate) fn tag_name(page: &Page, node: u32) -> (r: Option<String>)
    ensures
        text_view(r) == tag_name_of(page.source(), node),
{
    let parser = page.dom.parser();
    tl::NodeHandle::new(node)
        .get(parser)
        .and_then(|n| n.as_tag())
        .map(|t| t.name().as_utf8_str().into_owned())
}

/// Relies on `tl::Attributes::get`; an attribute written without a value
/// counts as absent.
#[verifier::external_body]
pub(crate) fn attribute(page: &Page, node: u32, key: &str) -> (r: Option<String>)
    ensures
        text_view(r) == attribute_of(page.source(), node, key@),
{
    let parser = page.dom.parser();
    tl::NodeHandle::new(node)
        .get(parser)
        .and_then(|n| n.as_tag())
        .and_then(|t| t.attributes().get(key).flatten())
        .map(|b| b.as_utf8_str().into_owned())
}

/// Relies on `tl::HTMLTag::inner_text`, which gives a text for every tag.
#[verifier::external_body]
pub(crate) fn inner_text(page: &Page, node: u32) -> (r: Option<String>)
    ensures
        text_view(r) == inner_text_of(page.source(), node),
        r is Some <==> tag_name_of(page.source(), node) is Some,
{
    let parser = page.dom.parser();
    tl::NodeHandle::new(node)
        .get(parser)
        .and_then(|n| n.as_tag())
        .map(|t| t.inner_text(parser).into_owned())
}

/// Relies on `tl::VDom::get_elements_by_class_name`.
#[verifier::external_body]
pub(crate) fn class_members(page: &Page, class: &str) -> (r: Vec<u32>)
    ensures
        r@ == class_members_of(page.source(), class@),
{
    page.dom.get_elements_by_class_name(class).map(|h| h.get_inner()).collect()
}

/// Relies on `tl::HTMLTag::query_selector`: the matching nodes below a tag,
/// in document order.
#[verifier::external_body]
pub(crate) fn select(page: &Page, node: u32, selector: &str) -> (r: Option<Vec<u32>>)
    ensures
        nodes_view(r) == selected_of(page.source(), node, selector@),
{
    let parser = page.dom.parser();
    tl::NodeHandle::new(node)
        .get(parser)
        .and_then(|n| n.as_tag())
        .and_then(|t| t.query_selector(parser, selector))
        .map(|it| it.map(|h| h.get_inner()).collect())
}

/// Parses the text of a page. Every text of fewer than 2^30 characters
/// parses.
pub fn parse_page<'a>(html: &'a str) -> (r: Option<Page<'a>>)
    ensures
        r matches Some(p) ==> p.source() == html@,
        html@.len() < 0x4000_0000 ==> r is Some,
{
    parse_dom(html)
}

} // verus!
