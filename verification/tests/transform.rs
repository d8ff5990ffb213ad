use html_case::document::InputDocumentKind;
use html_case::{change_tag_content_case, TargetCase};

const DOCUMENT: &str = "<!DOCTYPE html><html><head><title>Simple Paragraph Example</title></head><body><p class=\"asd\">This is the first paragraph of our example.</p><p>Here's a second paragraph, containing some more text.</p><p>This paragraph demonstrates a simple HTML structure.</p><p>Finally, this is the last paragraph in our short example.</p></body></html>";
const DOCUMENT_UPPER: &str = "<!DOCTYPE html><html><head><title>Simple Paragraph Example</title></head><body><p class=\"asd\">THIS IS THE FIRST PARAGRAPH OF OUR EXAMPLE.</p><p>HERE'S A SECOND PARAGRAPH, CONTAINING SOME MORE TEXT.</p><p>THIS PARAGRAPH DEMONSTRATES A SIMPLE HTML STRUCTURE.</p><p>FINALLY, THIS IS THE LAST PARAGRAPH IN OUR SHORT EXAMPLE.</p></body></html>";

#[test]
fn lib_uppercase_single_element_keep_wrapped_in_html() {
    let input_html = r"<p>hello world</p>";
    let expected_html = r"<html><p>HELLO WORLD</p></html>";

    let res = InputDocumentKind::Fragment
        .parse(input_html)
        .expect("Should be able to parse valid HTML")
        .change_case("p", TargetCase::UpperCase)
        .expect("Should be able to parse valid HTML");

    assert_eq!(res.serialize(), expected_html);
}

#[test]
fn lib_uppercase_document() {
    let res = InputDocumentKind::Document
        .parse(DOCUMENT)
        .expect("Should be able to parse valid HTML")
        .change_case("p", TargetCase::UpperCase)
        .expect("Should be able to parse valid HTML");

    assert_eq!(res.serialize(), DOCUMENT_UPPER);
}

#[test]
fn uppercase_single_element_only() {
    let input_html = r"<p>hello world</p>";
    let expected_html = r"<p>HELLO WORLD</p>";

    let res = change_tag_content_case(input_html, "p", TargetCase::UpperCase)
        .expect("Should be able to parse msg");

    assert_eq!(res, expected_html);
}

#[test]
fn lib_uppercases_all_p_tags_with_doctype_intact() {
    let res = change_tag_content_case(DOCUMENT, "p", TargetCase::UpperCase)
        .unwrap_or_else(|e| e.message());

    assert_eq!(res, DOCUMENT_UPPER);
}

#[test]
fn lib_uppercase_single_nested_element() {
    let input_html = r"<div><p>hello world</p></div>";
    let expected_html = r"<div><p>HELLO WORLD</p></div>";

    let res = change_tag_content_case(input_html, "p", TargetCase::UpperCase)
        .expect("Should be able to parse msg");

    assert_eq!(res, expected_html);
}

#[test]
fn lib_leaves_html_tag_in_tact() {
    let input_html = r"<html><div><p>hello world</p></div></html>";
    let expected_html = r"<html><div><p>HELLO WORLD</p></div></html>";

    let res = change_tag_content_case(input_html, "p", TargetCase::UpperCase)
        .expect("Should be able to parse msg");

    assert_eq!(res, expected_html);
}

#[test]
fn lib_uppercase_transform() {
    let input_html = r"<p>Hello world</p>";
    let expected_html = r"<p>HELLO WORLD</p>";

    let res = change_tag_content_case(input_html, "p", TargetCase::UpperCase)
        .expect("Should be able to parse msg");

    assert_eq!(res, expected_html);
}

#[test]
fn lib_lowercase_transform() {
    let input_html = r"<p>Hello WORLD</p>";
    let expected_html = r"<p>hello world</p>";

    let res = change_tag_content_case(input_html, "p", TargetCase::LowerCase)
        .expect("Should be able to parse msg");

    assert_eq!(res, expected_html);
}

#[test]
fn lib_multiple_paragraphs() {
    let input_html = r"<div><p>First paragraph</p><span>Not a paragraph</span><p>Second paragraph</p></div>";
    let expected_html = r"<div><p>FIRST PARAGRAPH</p><span>Not a paragraph</span><p>SECOND PARAGRAPH</p></div>";

    let res = change_tag_content_case(input_html, "p", TargetCase::UpperCase)
        .expect("Should be able to parse msg");

    assert_eq!(res, expected_html);
}

#[test]
fn lib_nested_elements() {
    let input_html = r"<p>Text with <strong>bold</strong> and <em>italic</em> elements</p>";
    let expected_html = r"<p>TEXT WITH <strong>BOLD</strong> AND <em>ITALIC</em> ELEMENTS</p>";

    let res = change_tag_content_case(input_html, "p", TargetCase::UpperCase)
        .expect("Should be able to parse msg");

    assert_eq!(res, expected_html);
}
