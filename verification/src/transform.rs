use crate::boundary::{
    enclosed, finalize, framed, inside, lemma_bare_fragment_unwrapped, text_outcome, wrapped,
    wrapper_close, wrapper_open,
};
use crate::case::TargetCase;
use crate::document::{doctype_marker, kind_of, parsed, parsed_nodes, InputDocumentKind};
use crate::errors::ApplicationError;
use crate::recase::{changed, recased};
use crate::text::{has_prefix, lemma_trimmed_twice, trim, trimmed};
use crate::tree::{matched, parsable, rendered, selector_valid};
use vstd::prelude::*;

verus! {

/// What the transformation makes of `html`: the input is trimmed and
/// classified, parsed as its kind, rewritten under `selector`, and written
/// out with the framing that it came with.
pub open spec fn transformed(
    html: Seq<char>,
    selector: Seq<char>,
    target_case: TargetCase,
) -> Result<Seq<char>, ApplicationError> {
    let text = trimmed(html);
    let kind = kind_of(text);
    match parsed(kind, text) {
        Ok(nodes) => match changed(nodes, selector, target_case) {
            Ok(rewritten) => framed(kind, text, rendered(rewritten)),
            Err(error) => Err(error),
        },
        Err(error) => Err(error),
    }
}

/// A document, which is an input that begins with the doctype marker once
/// it is trimmed, comes back as the serialization of its rewritten tree,
/// whole: nothing is taken off it. It fails only where the input is too
/// long to be parsed or the selector is none.
pub proof fn lemma_document_comes_back_whole(
    html: Seq<char>,
    selector: Seq<char>,
    target_case: TargetCase,
)
    requires
        has_prefix(trimmed(html), doctype_marker()),
    ensures
        transformed(html, selector, target_case) == ({
            let nodes = parsed_nodes(InputDocumentKind::Document, trimmed(html));
            if parsable(trimmed(html)) && selector_valid(selector) {
                Ok::<Seq<char>, ApplicationError>(
                    rendered(recased(nodes, matched(nodes, selector), target_case)),
                )
            } else {
                Err::<Seq<char>, ApplicationError>(ApplicationError::ParseError)
            }
        }),
{
}

/// A fragment that comes without a wrapper of its own comes back as the
/// serialization of its rewritten tree without the wrapper of that
/// serialization. It fails where the input is too long to be parsed, where
/// the selector is none, and where the serialization shows no wrapper.
pub proof fn lemma_bare_fragment_comes_back_unwrapped(
    html: Seq<char>,
    selector: Seq<char>,
    target_case: TargetCase,
)
    requires
        !has_prefix(trimmed(html), doctype_marker()),
        !wrapped(trimmed(html)),
    ensures
        transformed(html, selector, target_case) == ({
            let nodes = parsed_nodes(InputDocumentKind::Fragment, trimmed(html));
            let serialized = rendered(recased(nodes, matched(nodes, selector), target_case));
            if !(parsable(trimmed(html)) && selector_valid(selector)) {
                Err::<Seq<char>, ApplicationError>(ApplicationError::ParseError)
            } else if enclosed(serialized) {
                Ok::<Seq<char>, ApplicationError>(inside(serialized))
            } else {
                Err::<Seq<char>, ApplicationError>(ApplicationError::StringManipulationError)
            }
        }),
        transformed(html, selector, target_case) matches Ok(output) ==> {
            let nodes = parsed_nodes(InputDocumentKind::Fragment, trimmed(html));
            wrapper_open() + output + wrapper_close() == rendered(
                recased(nodes, matched(nodes, selector), target_case),
            )
        },
{
    let text = trimmed(html);
    let nodes = parsed_nodes(InputDocumentKind::Fragment, text);
    let serialized = rendered(recased(nodes, matched(nodes, selector), target_case));
    lemma_bare_fragment_unwrapped(text, serialized);
}

/// The text that is handed in may have white space around it: it is
/// transformed as the text without it.
pub proof fn lemma_white_space_around_input_ignored(
    html: Seq<char>,
    selector: Seq<char>,
    target_case: TargetCase,
)
    ensures
        transformed(html, selector, target_case) == transformed(
            trimmed(html),
            selector,
            target_case,
        ),
{
    lemma_trimmed_twice(html);
}

/// Changes the case of the text under every element of `html` that
/// `selector` matches, and leaves markup, attributes and all other text as
/// they are.
pub fn change_tag_content_case(
    html: &str,
    selector: &str,
    target_case: TargetCase,
) -> (outcome: Result<String, ApplicationError>)
    ensures
        text_outcome(outcome) == transformed(html@, selector@, target_case),
{
    let text = trim(html);
    let kind = InputDocumentKind::classify(text);
    proof {
        lemma_trimmed_twice(html@);
    }
    let tree = match kind.parse(text) {
        Ok(tree) => tree,
        Err(error) => {
            return Err(error);
        },
    };
    let rewritten = match tree.change_case(selector, target_case) {
        Ok(rewritten) => rewritten,
        Err(error) => {
            return Err(error);
        },
    };
    finalize(kind, text, &rewritten)
}

} // verus!
