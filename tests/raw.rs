use mrml_core::component::{Component, ComponentWithAttributes, ComponentWithChildren};
use mrml_core::body::{empty_str, parse_markup, BodyElement, CommentElement, RawElement};
use mrml_core::context::{Context, Error, Header, Size, SizeUnit};
use mrml_core::markup::{read_markup, XmlElement, XmlNode};
use mrml_core::tag::conditional_tag;
use mrml_core::text::{str_eq, suffix_css_classes};

fn comment(content: &str, context: Option<Context>) -> CommentElement {
    CommentElement { content: content.to_string(), context }
}

#[test]
fn comments_follow_keep_flag() {
    let header = Header::new();
    assert_eq!(comment("X", Some(Context::new(false, None))).render(&header).unwrap(), "");
    assert_eq!(comment("X", Some(Context::new(true, None))).render(&header).unwrap(), "<!--X-->");
    assert_eq!(comment("X", None).render(&header).unwrap(), "<!--X-->");
    assert_eq!(comment("", None).render(&header).unwrap(), "");
    assert_eq!(comment("", Some(Context::new(true, None))).render(&header).unwrap(), "");
}

#[test]
fn set_context_reaches_raw_comment() {
    let node = XmlNode::Comment(" note ".to_string());
    let mut raw = RawElement::parse(&node).unwrap();
    assert!(raw.context().is_none());
    assert_eq!(raw.render(&Header::new()).unwrap(), "<!-- note -->");
    raw.set_context(Context::new(false, None));
    assert!(raw.context().is_some());
    assert_eq!(raw.render(&Header::new()).unwrap(), "");
}

#[test]
fn unknown_markup_passes_through() {
    let out = parse_markup("<div class=\"a\" id=\"b\"><p>one</p><!--c--><span>two</span></div>")
        .unwrap()
        .render(&Header::new())
        .unwrap();
    assert_eq!(out, "<div class=\"a\" id=\"b\"><p>one</p><!--c--><span>two</span></div>");
}

#[test]
fn typed_child_inside_unknown_wrapper() {
    let out = parse_markup("<section><mj-table/></section>").unwrap().render(&Header::new()).unwrap();
    assert!(out.starts_with("<section><table border=\"0\""));
    assert!(out.ends_with("</table></section>"));
}

#[test]
fn text_renders_unchanged() {
    let raw = RawElement::parse(&XmlNode::Text("a < b".to_string())).unwrap();
    assert_eq!(raw.render(&Header::new()).unwrap(), "a < b");
    assert!(raw.source_attributes().is_none());
}

#[test]
fn hand_built_node_keeps_attribute_order() {
    let node = XmlNode::Element(XmlElement {
        tag: "x".to_string(),
        attributes: vec![("b".to_string(), "1".to_string()), ("a".to_string(), "2".to_string())],
        children: vec![XmlNode::Text("t".to_string())],
    });
    let raw = RawElement::parse(&node).unwrap();
    assert_eq!(raw.source_attributes().unwrap().len(), 2);
    assert_eq!(raw.render(&Header::new()).unwrap(), "<x b=\"1\" a=\"2\">t</x>");
}

#[test]
fn malformed_markup_is_an_error() {
    assert!(matches!(parse_markup("<a><b></a>"), Err(Error::MarkupError(_))));
    assert!(matches!(read_markup(""), Err(Error::MarkupError(_))));
}

#[test]
fn body_dispatch_by_tag() {
    assert!(matches!(parse_markup("<mj-navbar-link/>").unwrap(), BodyElement::NavbarLink(_)));
    assert!(matches!(parse_markup("<mj-table/>").unwrap(), BodyElement::Table(_)));
    assert!(matches!(parse_markup("<mj-other/>").unwrap(), BodyElement::Raw(RawElement::Node(_))));
}

#[test]
fn sizes() {
    assert_eq!(Size::parse("13px"), Some(Size { value: 13, unit: SizeUnit::Pixel }));
    assert_eq!(Size::parse("100%"), Some(Size { value: 100, unit: SizeUnit::Percent }));
    assert_eq!(Size::parse("4"), Some(Size { value: 4, unit: SizeUnit::Raw }));
    assert_eq!(Size::parse("px"), None);
    assert_eq!(Size::parse("1.5px"), None);
    assert_eq!(Size::parse(""), None);
    assert_eq!(Size::parse("4294967295"), Some(Size { value: 4294967295, unit: SizeUnit::Raw }));
    assert_eq!(Size::parse("4294967296"), None);
}

#[test]
fn helpers() {
    assert_eq!(empty_str(), "");
    assert!(str_eq("abc", "abc"));
    assert!(!str_eq("abc", "abd"));
    assert_eq!(suffix_css_classes(Some("a b".to_string()), "outlook"), Some("a-outlook b-outlook".to_string()));
    assert_eq!(suffix_css_classes(None, "outlook"), None);
    assert_eq!(conditional_tag("<td>"), "<!--[if mso | IE]><td><![endif]-->");
}

#[test]
fn element_children_and_width() {
    let node = XmlNode::Element(read_markup("<div><mj-table/><p>a</p>text<mj-navbar-link/></div>").unwrap());
    let mut raw = RawElement::parse(&node).unwrap();
    raw.set_context(Context::new(true, Some(Size { value: 600, unit: SizeUnit::Pixel })));
    match raw {
        RawElement::Node(n) => {
            assert_eq!(n.get_siblings(), 4);
            assert_eq!(n.get_raw_siblings(), 2);
            assert_eq!(n.get_current_width(), Some(Size { value: 600, unit: SizeUnit::Pixel }));
            assert_eq!(n.get_attribute("missing"), None);
            assert_eq!(n.default_attribute("color"), None);
        }
        _ => panic!("expected an element"),
    }
}

#[test]
fn repeated_local_name_is_emitted_once() {
    let out = parse_markup("<e xmlns:n=\"urn:x\" a=\"1\" n:a=\"2\"/>")
        .unwrap()
        .render(&Header::new())
        .unwrap();
    assert_eq!(out, "<e a=\"2\"></e>");
}
