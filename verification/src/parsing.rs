use crate::boundary::text_outcome;
use crate::case::{case_named, is_case_name, names_case, TargetCase};
use crate::errors::ApplicationError;
use crate::transform::{change_tag_content_case, transformed};
use vstd::prelude::*;

verus! {

/// The selector that is used where a request names none.
pub open spec fn default_selector() -> Seq<char> {
    seq!['p']
}

/// One request: the name of the target case, the markup, and the selector
/// of the elements whose text is rewritten.
pub struct TransformCaseInput {
    transform: String,
    html: String,
    selector: Option<String>,
}

/// What a request holds.
pub struct TransformCaseInputView {
    pub transform: Seq<char>,
    pub html: Seq<char>,
    pub selector: Option<Seq<char>>,
}

impl TransformCaseInputView {
    /// The selector that the request is answered with.
    pub open spec fn chosen_selector(self) -> Seq<char> {
        match self.selector {
            Some(selector) => selector,
            None => default_selector(),
        }
    }

    /// Whether the request names one of the two cases.
    pub open spec fn valid(self) -> bool {
        names_case(self.transform)
    }

    /// What the transformation makes of the request.
    pub open spec fn outcome(self) -> Result<Seq<char>, ApplicationError> {
        transformed(self.html, self.chosen_selector(), case_named(self.transform))
    }
}

/// A request without a selector is answered as the same request with the
/// default selector.
pub proof fn lemma_selector_default(transform: Seq<char>, html: Seq<char>)
    ensures
        (TransformCaseInputView { transform, html, selector: None }).outcome() == (
        TransformCaseInputView { transform, html, selector: Some(default_selector()) }).outcome(),
{
}

impl View for TransformCaseInput {
    type V = TransformCaseInputView;

    closed spec fn view(&self) -> TransformCaseInputView {
        TransformCaseInputView {
            transform: self.transform@,
            html: self.html@,
            selector: match self.selector {
                Some(selector) => Some(selector@),
                None => None,
            },
        }
    }
}

impl TransformCaseInput {
    /// A request from its three parts. A missing selector is written down
    /// as the default one.
    pub fn _new(transform: &str, html: &str, selector: Option<&str>) -> (input: Self)
        ensures
            input@.transform == transform@,
            input@.html == html@,
            input@.selector == Some(
                match selector {
                    Some(given) => given@,
                    None => default_selector(),
                },
            ),
    {
        proof {
            reveal_strlit("p");
        }
        let fallback = "p";
        assert(fallback@ =~= default_selector());
        TransformCaseInput {
            transform: transform.to_owned(),
            html: html.to_owned(),
            selector: if let Some(given) = selector {
                Some(given.to_owned())
            } else {
                Some(fallback.to_owned())
            },
        }
    }

    /// A request as it arrives, with or without a selector.
    pub fn from_parts(transform: String, html: String, selector: Option<String>) -> (input: Self)
        ensures
            input@.transform == transform@,
            input@.html == html@,
            input@.selector == (match selector {
                Some(given) => Some(given@),
                None => None,
            }),
    {
        TransformCaseInput { transform, html, selector }
    }

    /// The name of the target case, as it was given.
    pub fn transform(&self) -> (name: &str)
        ensures
            name@ == self@.transform,
    {
        self.transform.as_str()
    }

    /// The markup to transform.
    pub fn html(&self) -> (html: &str)
        ensures
            html@ == self@.html,
    {
        self.html.as_str()
    }

    /// The selector, where the request holds one.
    pub fn selector(&self) -> (selector: Option<&str>)
        ensures
            selector is Some == self@.selector is Some,
            selector matches Some(given) ==> Some(given@) == self@.selector,
    {
        match &self.selector {
            Some(given) => Some(given.as_str()),
            None => None,
        }
    }

    /// Whether the request names one of the two cases.
    pub fn validate_transform(&self) -> (valid: bool)
        ensures
            valid == self@.valid(),
    {
        is_case_name(self.transform.as_str())
    }

    /// Transforms the case of the markup in this request.
    pub fn transform_case(&self) -> (outcome: Result<String, ApplicationError>)
        ensures
            text_outcome(outcome) == self@.outcome(),
    {
        proof {
            reveal_strlit("p");
        }
        let fallback = "p";
        assert(fallback@ =~= default_selector());
        let selector = match &self.selector {
            Some(given) => given.as_str(),
            None => fallback,
        };
        let target_case = TargetCase::from(self.transform.as_str());
        change_tag_content_case(self.html.as_str(), selector, target_case)
    }
}

} // verus!
