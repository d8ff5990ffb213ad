use crate::errors::ApplicationError;
use crate::text::{has_prefix, starts_with, trim, trimmed};
use crate::tree::{
    document_nodes, fragment_nodes, parsable, tree_outcome, NodeView, Tree, MAX_HTML_BYTES,
};
use vstd::prelude::*;

verus! {

/// How an input is parsed, and how its output is framed.
#[derive(Clone, Copy, Debug, PartialEq, Eq, Structural)]
pub enum InputDocumentKind {
    /// A full document, which keeps its doctype and its wrapper.
    Document,
    /// A bare fragment, which comes back as a fragment.
    Fragment,
}

/// The characters that open a doctype declaration.
pub open spec fn doctype_marker() -> Seq<char> {
    seq!['<', '!', 'D', 'O', 'C', 'T', 'Y', 'P', 'E']
}

/// The kind of a trimmed input: a document when it begins with the doctype
/// marker, in exactly this spelling, and a fragment otherwise.
pub open spec fn kind_of(text: Seq<char>) -> InputDocumentKind {
    if has_prefix(text, doctype_marker()) {
        InputDocumentKind::Document
    } else {
        InputDocumentKind::Fragment
    }
}

/// The nodes of the tree that `html` parses to as `kind`.
pub open spec fn parsed_nodes(kind: InputDocumentKind, html: Seq<char>) -> Seq<NodeView> {
    match kind {
        InputDocumentKind::Document => document_nodes(html),
        InputDocumentKind::Fragment => fragment_nodes(html),
    }
}

/// What parsing `html` as `kind` gives: its tree, or an error when `html`
/// is longer than the parser can hold.
pub open spec fn parsed(kind: InputDocumentKind, html: Seq<char>) -> Result<
    Seq<NodeView>,
    ApplicationError,
> {
    if parsable(html) {
        Ok(parsed_nodes(kind, html))
    } else {
        Err(ApplicationError::ParseError)
    }
}

impl InputDocumentKind {
    /// The kind of `raw`, which is decided by how it begins once the white
    /// space around it is gone.
    pub fn classify(raw: &str) -> (kind: InputDocumentKind)
        ensures
            kind == kind_of(trimmed(raw@)),
    {
        proof {
            reveal_strlit("<!DOCTYPE");
        }
        let marker = "<!DOCTYPE";
        assert(marker@ =~= doctype_marker());
        if starts_with(trim(raw), marker) {
            InputDocumentKind::Document
        } else {
            InputDocumentKind::Fragment
        }
    }

    /// Parses `html` as this kind.
    pub fn parse(&self, html: &str) -> (outcome: Result<Tree, ApplicationError>)
        ensures
            tree_outcome(outcome) == parsed(*self, html@),
    {
        if html.as_bytes().len() > MAX_HTML_BYTES {
            return Err(ApplicationError::ParseError);
        }
        match self {
            InputDocumentKind::Document => Ok(Tree::of_document(html)),
            InputDocumentKind::Fragment => Ok(Tree::of_fragment(html)),
        }
    }
}

} // verus!
