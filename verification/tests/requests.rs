use html_case::document::InputDocumentKind;
use html_case::parsing::TransformCaseInput;
use html_case::TargetCase;

const DOCUMENT: &str = "<!DOCTYPE html><html><head><title>Simple Paragraph Example</title></head><body><p class=\"asd\">This is the first paragraph of our example.</p><p>Here's a second paragraph, containing some more text.</p><p>This paragraph demonstrates a simple HTML structure.</p><p>Finally, this is the last paragraph in our short example.</p></body></html>";
const DOCUMENT_UPPER: &str = "<!DOCTYPE html><html><head><title>Simple Paragraph Example</title></head><body><p class=\"asd\">THIS IS THE FIRST PARAGRAPH OF OUR EXAMPLE.</p><p>HERE'S A SECOND PARAGRAPH, CONTAINING SOME MORE TEXT.</p><p>THIS PARAGRAPH DEMONSTRATES A SIMPLE HTML STRUCTURE.</p><p>FINALLY, THIS IS THE LAST PARAGRAPH IN OUR SHORT EXAMPLE.</p></body></html>";

#[test]
fn parsing_uppercase_single_element_keep_wrapped_in_html() {
    let input_html = r"<p>hello world</p>";
    let expected_html = r"<html><p>HELLO WORLD</p></html>";

    let res = InputDocumentKind::Fragment
        .parse(input_html)
        .expect("Should be able to parse valid HTML")
        .change_case("p", TargetCase::UpperCase)
        .expect("Should be able to parse valid HTML");

    assert_eq!(res.serialize(), expected_html);
}

#[test]
fn parsing_uppercase_document() {
    let res = InputDocumentKind::Document
        .parse(DOCUMENT)
        .expect("Should be able to parse valid HTML")
        .change_case("p", TargetCase::UpperCase)
        .expect("Should be able to parse valid HTML");

    assert_eq!(res.serialize(), DOCUMENT_UPPER);
}

#[test]
fn parsing_uppercases_all_p_tags_with_doctype_intact() {
    let res = TransformCaseInput::_new("uppercase", DOCUMENT, None)
        .transform_case()
        .unwrap_or_else(|e| e.message());

    assert_eq!(res, DOCUMENT_UPPER);
}

#[test]
fn parsing_uppercase_single_nested_element() {
    let input_html = r"<div><p>hello world</p></div>";
    let expected_html = r"<div><p>HELLO WORLD</p></div>";

    let res = TransformCaseInput::_new("uppercase", input_html, None)
        .transform_case()
        .unwrap_or_else(|e| e.message());

    assert_eq!(res, expected_html);
}

#[test]
fn parsing_leaves_html_tag_in_tact() {
    let input_html = r"<html><div><p>hello world</p></div></html>";
    let expected_html = r"<html><div><p>HELLO WORLD</p></div></html>";

    let res = TransformCaseInput::_new("uppercase", input_html, None)
        .transform_case()
        .unwrap_or_else(|e| e.message());

    assert_eq!(res, expected_html);
}

#[test]
fn adjacent_tags_handled_fine() {
    let input_html = r"<span>hey</span><p>Hello, hoWsit?</p>";
    let expected_html = r"<span>hey</span><p>HELLO, HOWSIT?</p>";

    let res = TransformCaseInput::_new("uppercase", input_html, None)
        .transform_case()
        .unwrap_or_else(|e| e.message());

    assert_eq!(res, expected_html);
}

#[test]
fn multiple_selectors_handled_fine() {
    let input_html = "<div class=\"asd\">tag</div><span>hEy</span><p>Hello, hoWsit?</p>";
    let expected_html = "<div class=\"asd\">tag</div><span>HEY</span><p>HELLO, HOWSIT?</p>";

    let res = TransformCaseInput::_new("uppercase", input_html, Some("p,span"))
        .transform_case()
        .unwrap_or_else(|e| e.message());

    assert_eq!(res, expected_html);
}

#[test]
fn can_use_class_selectors() {
    let input_html = "<div class=\"asd\">tag</div><span>hEy</span><p>Hello, hoWsit?</p>";
    let expected_html = "<div class=\"asd\">TAG</div><span>hEy</span><p>Hello, hoWsit?</p>";

    let res = TransformCaseInput::_new("uppercase", input_html, Some(".asd"))
        .transform_case()
        .unwrap_or_else(|e| e.message());

    assert_eq!(res, expected_html);
}

#[test]
fn test_uppercase_transform() {
    let input_html = r"<p>Hello world</p>";
    let expected_html = r"<p>HELLO WORLD</p>";

    let res = TransformCaseInput::_new("uppercase", input_html, None)
        .transform_case()
        .unwrap_or_else(|e| e.message());

    assert_eq!(res, expected_html);
}

#[test]
fn test_lowercase_transform() {
    let input_html = r"<p>Hello WORLD</p>";
    let expected_html = r"<p>hello world</p>";

    let res = TransformCaseInput::_new("lowercase", input_html, None)
        .transform_case()
        .unwrap_or_else(|e| e.message());

    assert_eq!(res, expected_html);
}

#[test]
fn test_multiple_paragraphs() {
    let input_html =
        r"<div><p>First paragraph</p><span>Not a paragraph</span><p>Second paragraph</p></div>";
    let expected_html =
        r"<div><p>FIRST PARAGRAPH</p><span>Not a paragraph</span><p>SECOND PARAGRAPH</p></div>";

    let res = TransformCaseInput::_new("uppercase", input_html, None)
        .transform_case()
        .unwrap_or_else(|e| e.message());

    assert_eq!(res, expected_html);
}

#[test]
fn test_nested_elements() {
    let input_html = r"<p>Text with <strong>bold</strong> and <em>italic</em> elements</p>";
    let expected_html = r"<p>TEXT WITH <strong>BOLD</strong> AND <em>ITALIC</em> ELEMENTS</p>";

    let res = TransformCaseInput::_new("uppercase", input_html, None)
        .transform_case()
        .unwrap_or_else(|e| e.message());

    assert_eq!(res, expected_html);
}
