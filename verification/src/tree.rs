use crate::errors::ApplicationError;
use kuchikiki::traits::TendrilSink;
use kuchikiki::NodeRef;
use vstd::prelude::*;

verus! {

/// A handle on the root of a parsed tree. Contracts speak of the nodes
/// behind it, never of the handle.
#[verifier::external_type_specification]
#[verifier::external_body]
pub struct ExNodeRef(NodeRef);

/// One node of a tree, as contracts see it.
pub struct NodeView {
    /// What the node holds apart from the content of a text node and from
    /// the nodes under it: its kind, the name and the attributes of an
    /// element, the words of a doctype or a comment. The library reads none
    /// of it; contracts say where it stays as it is.
    pub markup: Seq<char>,
    /// How many nodes its subtree holds, the node itself counted.
    pub extent: usize,
    /// The content of a text node, `None` for any other node.
    pub text: Option<Seq<char>>,
}

/// The nodes of the tree under `root`, in document order.
pub uninterp spec fn tree_nodes(root: NodeRef) -> Seq<NodeView>;

/// The nodes of the tree that a full document parses to.
pub uninterp spec fn document_nodes(html: Seq<char>) -> Seq<NodeView>;

/// The nodes of the tree that a fragment parses to.
pub uninterp spec fn fragment_nodes(html: Seq<char>) -> Seq<NodeView>;

/// Whether `selector` is a selector list that can be matched.
pub uninterp spec fn selector_valid(selector: Seq<char>) -> bool;

/// For each node of a tree: whether `selector` matches it, `None` for a node
/// that is no element.
pub uninterp spec fn matched(nodes: Seq<NodeView>, selector: Seq<char>) -> Seq<Option<bool>>;

/// The tree of these nodes, written out as HTML.
pub uninterp spec fn rendered(nodes: Seq<NodeView>) -> Seq<char>;

/// The text of each node.
pub open spec fn texts_of(nodes: Seq<NodeView>) -> Seq<Option<Seq<char>>> {
    Seq::new(nodes.len(), |at: int| nodes[at].text)
}

/// The extent of each node.
pub open spec fn extents_of(nodes: Seq<NodeView>) -> Seq<usize> {
    Seq::new(nodes.len(), |at: int| nodes[at].extent)
}

/// One node with the text that is offered for it: a text node takes the
/// text, any other node stays as it is, and so does a text node that is
/// offered nothing.
pub open spec fn retexted_node(node: NodeView, offered: Option<Seq<char>>) -> NodeView {
    if node.text is Some && offered is Some {
        NodeView { markup: node.markup, extent: node.extent, text: offered }
    } else {
        node
    }
}

/// The nodes with the texts that are offered for them, node by node. Nodes
/// beyond the last text stay as they are.
pub open spec fn retexted(nodes: Seq<NodeView>, texts: Seq<Option<Seq<char>>>) -> Seq<NodeView> {
    Seq::new(
        nodes.len(),
        |at: int|
            if at < texts.len() {
                retexted_node(nodes[at], texts[at])
            } else {
                nodes[at]
            },
    )
}

/// What selecting with `selector` gives on the nodes of a tree: for each
/// node whether it is matched, or an error for a selector that is none.
pub open spec fn selected(nodes: Seq<NodeView>, selector: Seq<char>) -> Result<
    Seq<Option<bool>>,
    ApplicationError,
> {
    if selector_valid(selector) {
        Ok(matched(nodes, selector))
    } else {
        Err(ApplicationError::ParseError)
    }
}

/// The answers behind a result that holds them.
pub open spec fn hits_outcome(outcome: Result<Vec<Option<bool>>, ApplicationError>) -> Result<
    Seq<Option<bool>>,
    ApplicationError,
> {
    match outcome {
        Ok(found) => Ok(found@),
        Err(error) => Err(error),
    }
}

/// The longest input, in bytes, that is handed to the parser. The parser
/// gathers a name, a value or a comment in a buffer that cannot grow beyond
/// 2 GiB, and may write three bytes into it for one byte that it reads.
pub const MAX_HTML_BYTES: usize = 0x2000_0000;

/// Whether `html` is short enough to be parsed.
pub open spec fn parsable(html: Seq<char>) -> bool {
    vstd::utf8::encode_utf8(html).len() <= MAX_HTML_BYTES
}

/// A parsed document or fragment, owned by one transformation. Its view is
/// the sequence of its nodes in document order.
pub struct Tree {
    root: NodeRef,
}

impl View for Tree {
    type V = Seq<NodeView>;

    closed spec fn view(&self) -> Seq<NodeView> {
        tree_nodes(self.root)
    }
}

/// The nodes behind a result that holds a tree.
pub open spec fn tree_outcome(outcome: Result<Tree, ApplicationError>) -> Result<
    Seq<NodeView>,
    ApplicationError,
> {
    match outcome {
        Ok(tree) => Ok(tree@),
        Err(error) => Err(error),
    }
}

/// `kuchikiki::parse_html_with_options`, fed with `html` in one piece: the
/// document tree of `html`, doctype kept. The parser accepts any text, and
/// what it builds depends on the text alone.
#[verifier::external_body]
fn parse_document(html: &str) -> (root: NodeRef)
    requires
        parsable(html@),
    ensures
        tree_nodes(root) == document_nodes(html@),
{
    let mut opts = kuchikiki::ParseOpts::default();
    opts.tree_builder.drop_doctype = false;
    kuchikiki::parse_html_with_options(opts).one(html)
}

/// `kuchikiki::parse_fragment`, with a context element of the HTML
/// namespace that has no name and no attributes, fed with `html` in one
/// piece: the fragment tree of `html`. The parser accepts any text, and what
/// it builds depends on the text alone.
#[verifier::external_body]
fn parse_fragment(html: &str) -> (root: NodeRef)
    requires
        parsable(html@),
    ensures
        tree_nodes(root) == fragment_nodes(html@),
{
    let context = html5ever::QualName::new(
        None,
        html5ever::Namespace::from("http://www.w3.org/1999/xhtml"),
        html5ever::LocalName::from(""),
    );
    kuchikiki::parse_fragment(context, Vec::new()).one(html)
}

/// `NodeRef::inclusive_descendants` with `Node::as_text` on each node: the
/// nodes in document order, each text node with a copy of its content.
#[verifier::external_body]
fn node_texts(root: &NodeRef) -> (texts: Vec<Option<String>>)
    ensures
        texts.deep_view() == texts_of(tree_nodes(*root)),
{
    root.inclusive_descendants().map(
        |node| node.as_text().map(|text| text.borrow().clone()),
    ).collect()
}

/// `NodeRef::inclusive_descendants`, counted for each node of the tree in
/// document order: the size of the subtree under that node.
#[verifier::external_body]
fn subtree_sizes(root: &NodeRef) -> (sizes: Vec<usize>)
    ensures
        sizes@ == extents_of(tree_nodes(*root)),
{
    root.inclusive_descendants().map(|node| node.inclusive_descendants().count()).collect()
}

/// `Selectors::compile` on `selector`, then `Selectors::matches` on each
/// element in document order. These are the two steps of `NodeRef::select`,
/// which yields exactly the elements that match, in this order, and fails
/// exactly when the selector does not compile. Whether an element matches
/// depends on the selector and on the tree alone. There are as many answers
/// as nodes.
#[verifier::external_body]
fn selector_hits(root: &NodeRef, selector: &str) -> (hits: Option<Vec<Option<bool>>>)
    ensures
        hits is Some <==> selector_valid(selector@),
        hits matches Some(found) ==> found@ == matched(tree_nodes(*root), selector@)
            && found@.len() == tree_nodes(*root).len(),
{
    let compiled = kuchikiki::Selectors::compile(selector).ok()?;
    Some(
        root.inclusive_descendants().map(
            |node| node.into_element_ref().map(|element| compiled.matches(&element)),
        ).collect(),
    )
}

/// Assignment to the content of text nodes, found by
/// `NodeRef::inclusive_descendants` and `Node::as_text`: the nodes are
/// paired with `texts` in document order, and every text node that is
/// offered a text takes it. No node is added, removed or moved, and no
/// element is touched.
#[verifier::external_body]
fn replace_texts(root: &mut NodeRef, texts: Vec<Option<String>>)
    ensures
        tree_nodes(*final(root)) == retexted(tree_nodes(*old(root)), texts.deep_view()),
{
    root.inclusive_descendants().zip(texts).for_each(
        |(node, text)| if let (Some(content), Some(text)) = (node.as_text(), text) {
            *content.borrow_mut() = text;
        },
    );
}

/// `NodeRef::to_string`: the tree serialized in HTML syntax, which depends
/// on its nodes alone.
#[verifier::external_body]
fn write_html(root: &NodeRef) -> (html: String)
    ensures
        html@ == rendered(tree_nodes(*root)),
{
    root.to_string()
}

impl Tree {
    /// The tree of a full document.
    pub(crate) fn of_document(html: &str) -> (tree: Tree)
        requires
            parsable(html@),
        ensures
            tree@ == document_nodes(html@),
    {
        Tree { root: parse_document(html) }
    }

    /// The tree of a fragment.
    pub(crate) fn of_fragment(html: &str) -> (tree: Tree)
        requires
            parsable(html@),
        ensures
            tree@ == fragment_nodes(html@),
    {
        Tree { root: parse_fragment(html) }
    }

    /// The text of each node, in document order.
    pub fn texts(&self) -> (texts: Vec<Option<String>>)
        ensures
            texts.deep_view() == texts_of(self@),
    {
        node_texts(&self.root)
    }

    /// The extent of each node, in document order.
    pub fn extents(&self) -> (extents: Vec<usize>)
        ensures
            extents@ == extents_of(self@),
    {
        subtree_sizes(&self.root)
    }

    /// For each node, in document order, whether `selector` matches it.
    /// Fails when `selector` is no valid selector list; a selector that
    /// matches nothing is no failure.
    pub fn select(&self, selector: &str) -> (hits: Result<Vec<Option<bool>>, ApplicationError>)
        ensures
            hits_outcome(hits) == selected(self@, selector@),
            hits matches Ok(found) ==> found@.len() == self@.len(),
    {
        match selector_hits(&self.root, selector) {
            Some(found) => Ok(found),
            None => Err(ApplicationError::ParseError),
        }
    }

    /// Gives the text nodes the texts that are offered for them, node by
    /// node in document order.
    pub fn set_texts(&mut self, texts: Vec<Option<String>>)
        ensures
            final(self)@ == retexted(old(self)@, texts.deep_view()),
    {
        replace_texts(&mut self.root, texts)
    }

    /// Writes the tree out as HTML.
    pub fn serialize(&self) -> (html: String)
        ensures
            html@ == rendered(self@),
    {
        write_html(&self.root)
    }
}

} // verus!
