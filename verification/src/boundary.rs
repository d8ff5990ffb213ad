use crate::document::InputDocumentKind;
use crate::errors::ApplicationError;
use crate::text::{ends_with, has_prefix, has_suffix, starts_with};
use crate::tree::{rendered, Tree};
use vstd::prelude::*;

verus! {

/// The tag that opens the wrapper element.
pub open spec fn wrapper_open() -> Seq<char> {
    seq!['<', 'h', 't', 'm', 'l', '>']
}

/// The tag that closes the wrapper element.
pub open spec fn wrapper_close() -> Seq<char> {
    seq!['<', '/', 'h', 't', 'm', 'l', '>']
}

/// Whether `text` begins with the opening tag of the wrapper and ends with
/// its closing tag.
pub open spec fn wrapped(text: Seq<char>) -> bool {
    has_prefix(text, wrapper_open()) && has_suffix(text, wrapper_close())
}

/// Whether `text` is something between the two tags of the wrapper.
pub open spec fn enclosed(text: Seq<char>) -> bool {
    has_prefix(text, wrapper_open()) && has_suffix(
        text.skip(wrapper_open().len() as int),
        wrapper_close(),
    )
}

/// What stands between the two tags of the wrapper in `text`.
pub open spec fn inside(text: Seq<char>) -> Seq<char> {
    text.subrange(wrapper_open().len() as int, text.len() - wrapper_close().len())
}

/// Whether the output is the serialization as it stands: always for a
/// document, and for a fragment that came with a wrapper of its own.
pub open spec fn keeps_wrapper(kind: InputDocumentKind, input: Seq<char>) -> bool {
    kind == InputDocumentKind::Document || wrapped(input)
}

/// The output for a serialized tree.
pub open spec fn framed(
    kind: InputDocumentKind,
    input: Seq<char>,
    serialized: Seq<char>,
) -> Result<Seq<char>, ApplicationError> {
    if keeps_wrapper(kind, input) {
        Ok(serialized)
    } else if enclosed(serialized) {
        Ok(inside(serialized))
    } else {
        Err(ApplicationError::StringManipulationError)
    }
}

/// The characters behind a result that holds a string.
pub open spec fn text_outcome(outcome: Result<String, ApplicationError>) -> Result<
    Seq<char>,
    ApplicationError,
> {
    match outcome {
        Ok(text) => Ok(text@),
        Err(error) => Err(error),
    }
}

/// A document keeps its serialization whole, doctype and wrapper included.
pub proof fn lemma_document_kept_whole(input: Seq<char>, serialized: Seq<char>)
    ensures
        framed(InputDocumentKind::Document, input, serialized) == Ok::<
            Seq<char>,
            ApplicationError,
        >(serialized),
{
}

/// A fragment that came with a wrapper of its own keeps its serialization
/// whole.
pub proof fn lemma_wrapped_fragment_kept_whole(input: Seq<char>, serialized: Seq<char>)
    requires
        wrapped(input),
    ensures
        framed(InputDocumentKind::Fragment, input, serialized) == Ok::<
            Seq<char>,
            ApplicationError,
        >(serialized),
{
}

/// A fragment that came without a wrapper loses the wrapper of its
/// serialization, once: the output between the two tags is the
/// serialization again. So the output is wrapped only where the
/// serialization was wrapped twice.
pub proof fn lemma_bare_fragment_unwrapped(input: Seq<char>, serialized: Seq<char>)
    requires
        !wrapped(input),
    ensures
        match framed(InputDocumentKind::Fragment, input, serialized) {
            Ok(output) => {
                &&& wrapper_open() + output + wrapper_close() == serialized
                &&& wrapped(output) == wrapped(inside(serialized))
            },
            Err(error) => error == ApplicationError::StringManipulationError && !enclosed(
                serialized,
            ),
        },
{
    if enclosed(serialized) {
        let output = inside(serialized);
        let head = wrapper_open().len() as int;
        let tail = wrapper_close().len() as int;
        let rest = serialized.skip(head);
        assert(serialized.subrange(0, head) == wrapper_open());
        assert(rest.subrange(rest.len() - tail, rest.len() as int) == wrapper_close());
        assert(wrapper_open() + output + wrapper_close() =~= serialized) by {
            assert forall|i: int| 0 <= i < serialized.len() implies (wrapper_open() + output
                + wrapper_close())[i] == serialized[i] by {
                if i < head {
                    assert(serialized.subrange(0, head)[i] == serialized[i]);
                } else if i >= serialized.len() - tail {
                    let j = i - (serialized.len() - tail);
                    assert(rest.subrange(rest.len() - tail, rest.len() as int)[j] == rest[rest.len()
                        - tail + j]);
                }
            }
        }
    }
}

/// A fragment that came without a wrapper comes out without one, unless its
/// serialization holds a wrapper within its wrapper.
pub proof fn lemma_bare_fragment_stays_bare(input: Seq<char>, serialized: Seq<char>)
    requires
        !wrapped(input),
        !(enclosed(serialized) && wrapped(inside(serialized))),
    ensures
        framed(InputDocumentKind::Fragment, input, serialized) matches Ok(output) ==> !wrapped(
            output,
        ),
{
}

/// Gives a serialized tree the framing of the input it came from.
/// `input` is what was handed in, trimmed. The wrapper that the parser put
/// round a bare fragment is taken off again; where the serialization does
/// not show that wrapper, this fails.
pub fn frame(kind: InputDocumentKind, input: &str, serialized: String) -> (outcome: Result<
    String,
    ApplicationError,
>)
    ensures
        text_outcome(outcome) == framed(kind, input@, serialized@),
{
    proof {
        reveal_strlit("<html>");
        reveal_strlit("</html>");
    }
    let open = "<html>";
    let close = "</html>";
    assert(open@ =~= wrapper_open());
    assert(close@ =~= wrapper_close());
    match kind {
        InputDocumentKind::Document => Ok(serialized),
        InputDocumentKind::Fragment => {
            if starts_with(input, open) && ends_with(input, close) {
                return Ok(serialized);
            }
            let text = serialized.as_str();
            if !starts_with(text, open) {
                return Err(ApplicationError::StringManipulationError);
            }
            let length = text.unicode_len();
            let from = open.unicode_len();
            let rest = text.substring_char(from, length);
            assert(rest@ == serialized@.skip(from as int));
            if !ends_with(rest, close) {
                return Err(ApplicationError::StringManipulationError);
            }
            let inner = text.substring_char(from, length - close.unicode_len());
            Ok(inner.to_owned())
        },
    }
}

/// Serializes a transformed tree with the framing of the input it came
/// from. `input` is what was handed in, trimmed.
pub fn finalize(kind: InputDocumentKind, input: &str, tree: &Tree) -> (outcome: Result<
    String,
    ApplicationError,
>)
    ensures
        text_outcome(outcome) == framed(kind, input@, rendered(tree@)),
{
    frame(kind, input, tree.serialize())
}

} // verus!
