use html_case::document::InputDocumentKind;
use kuchikiki::traits::TendrilSink;
use kuchikiki::NodeRef;

fn fragment(html: &str) -> NodeRef {
    let context = html5ever::QualName::new(
        None,
        html5ever::Namespace::from("http://www.w3.org/1999/xhtml"),
        html5ever::LocalName::from(""),
    );
    kuchikiki::parse_fragment(context, Vec::new()).one(html)
}

const SAMPLES: [&str; 5] = [
    "<div class=\"a\"><p>one</p><p class=\"a b\">two <b>bold</b></p></div><p id=\"last\">three</p>",
    "<ul><li>1<ul><li>1.1</li><li>1.2</li></ul></li><li></li></ul>",
    "<svg><a href=\"#\">x</a></svg><a href=\"/\">y</a><a>z</a>",
    "text<!-- note --><br><template><p>inside</p></template>",
    "",
];

const SELECTORS: [&str; 10] = [
    "p",
    "*",
    ".a",
    "div p, li",
    "li:first-child",
    ":empty",
    "a:link",
    "ul > li li",
    "#last",
    "h1",
];

#[test]
fn select_marks_what_the_tree_library_selects() {
    for html in SAMPLES {
        for selector in SELECTORS {
            let tree = InputDocumentKind::Fragment.parse(html).unwrap();
            let hits = tree.select(selector).unwrap();
            let root = fragment(html);
            assert_eq!(hits.len(), root.inclusive_descendants().count());
            let marked: Vec<NodeRef> = root
                .inclusive_descendants()
                .zip(hits)
                .filter(|(_, hit)| *hit == Some(true))
                .map(|(node, _)| node)
                .collect();
            let selected: Vec<NodeRef> = root
                .select(selector)
                .unwrap()
                .map(|element| element.as_node().clone())
                .collect();
            assert_eq!(marked, selected, "{:?} in {:?}", selector, html);
        }
    }
}

#[test]
fn select_fails_where_the_tree_library_fails() {
    for selector in ["", " ", "p[", "::", "p >", "a:unknown", "p,,i", "1p", "p { }"] {
        let tree = InputDocumentKind::Fragment.parse(SAMPLES[0]).unwrap();
        assert!(tree.select(selector).is_err(), "{:?}", selector);
        assert!(fragment(SAMPLES[0]).select(selector).is_err(), "{:?}", selector);
    }
}

#[test]
fn texts_and_extents_follow_the_tree() {
    for html in SAMPLES {
        let tree = InputDocumentKind::Fragment.parse(html).unwrap();
        let root = fragment(html);
        let texts: Vec<Option<String>> = root
            .inclusive_descendants()
            .map(|node| node.as_text().map(|text| text.borrow().clone()))
            .collect();
        assert_eq!(tree.texts(), texts);
        let extents = tree.extents();
        assert_eq!(extents.len(), texts.len());
        for (at, node) in root.inclusive_descendants().enumerate() {
            let below: Vec<NodeRef> = node.descendants().collect();
            let run: Vec<NodeRef> =
                root.inclusive_descendants().skip(at + 1).take(extents[at] - 1).collect();
            assert_eq!(run, below, "node {} of {:?}", at, html);
        }
        assert_eq!(tree.serialize(), root.to_string());
    }
}
