use mrml_core::component::{Component, ComponentWithAttributes, ComponentWithSizeAttribute};
use mrml_core::attributes::Attributes;
use mrml_core::context::{Error, Header};
use mrml_core::markup::{read_markup, XmlNode};
use mrml_core::navbar_link::MJNavbarLink;
use mrml_core::tag::Tag;

const A_STYLE: &str = "display:inline-block;color:#000000;font-family:Ubuntu, Helvetica, Arial, sans-serif;font-size:13px;font-weight:normal;line-height:22px;text-decoration:none;text-transform:uppercase;padding:15px 10px;";

fn link(markup: &str) -> MJNavbarLink {
    let node = XmlNode::Element(read_markup(markup).unwrap());
    MJNavbarLink::parse(&node, None).unwrap()
}

#[test]
fn source_attribute_wins_over_default() {
    let l = link("<mj-navbar-link color=\"#ff0000\">A</mj-navbar-link>");
    assert_eq!(l.get_attribute("color"), Some("#ff0000".to_string()));
    assert_eq!(l.default_attribute("color"), Some("#000000".to_string()));
    let plain = link("<mj-navbar-link>A</mj-navbar-link>");
    assert_eq!(plain.get_attribute("color"), Some("#000000".to_string()));
    assert_eq!(plain.get_attribute("rel"), None);
}

#[test]
fn injected_attributes_yield_to_literal_ones() {
    let node = XmlNode::Element(read_markup("<mj-navbar-link color=\"blue\">A</mj-navbar-link>").unwrap());
    let mut extra = Attributes::new();
    extra.set("color", "green");
    extra.set("rel", "noopener");
    extra.set("text-padding", "1px");
    let l = MJNavbarLink::parse(&node, Some(&extra)).unwrap();
    assert_eq!(l.get_attribute("color"), Some("blue".to_string()));
    assert_eq!(l.get_attribute("rel"), Some("noopener".to_string()));
    assert_eq!(l.get_attribute("text-padding"), Some("1px".to_string()));
    let l = MJNavbarLink::parse(&node, None).unwrap();
    assert_eq!(l.get_attribute("text-padding"), Some("4px 4px 4px 0".to_string()));
    let l = MJNavbarLink::parse_link(&node, None).unwrap();
    assert_eq!(l.get_attribute("text-padding"), None);
}

#[test]
fn link_with_base_url() {
    let l = link("<mj-navbar-link href=\"/path\" navbar-base-url=\"https://x.test\">Home</mj-navbar-link>");
    assert_eq!(l.get_link(), Some("https://x.test/path".to_string()));
    let expected = format!(
        "<!--[if mso | IE]><td style=\"padding:15px 10px;\"><![endif]--><a class=\"mj-link\" href=\"https://x.test/path\" target=\"_blank\" style=\"{}\">Home</a><!--[if mso | IE]></td><![endif]-->",
        A_STYLE
    );
    assert_eq!(l.render(&Header::new()).unwrap(), expected);
}

#[test]
fn link_without_base_url() {
    let l = link("<mj-navbar-link href=\"/path\">Home</mj-navbar-link>");
    assert_eq!(l.get_link(), Some("/path".to_string()));
}

#[test]
fn link_without_href() {
    let l = link("<mj-navbar-link>Home</mj-navbar-link>");
    assert_eq!(l.get_link(), None);
    let out = l.render_content(&Header::new()).unwrap();
    assert!(!out.contains("href"));
}

#[test]
fn link_defaults_without_attributes() {
    let node = XmlNode::Element(read_markup("<mj-navbar-link/>").unwrap());
    let l = MJNavbarLink::parse_link(&node, None).unwrap();
    let out = l.render_content(&Header::new()).unwrap();
    assert_eq!(out, format!("<a class=\"mj-link\" target=\"_blank\" style=\"{}\"></a>", A_STYLE));
    assert!(out.contains("color:#000000"));
    assert!(out.contains("text-decoration:none"));
    assert!(out.contains("text-transform:uppercase"));
    assert!(out.contains("target=\"_blank\""));
    assert!(l.content.is_none());
}

#[test]
fn link_css_class_is_suffixed_in_outlook_cell() {
    let l = link("<mj-navbar-link css-class=\"nav main\" padding=\"2px\" rel=\"x\" name=\"n\" target=\"_self\">Go<b>!</b>on</mj-navbar-link>");
    let expected = "<!--[if mso | IE]><td class=\"nav-outlook main-outlook\" style=\"padding:2px;\"><![endif]--><a class=\"mj-link nav main\" rel=\"x\" target=\"_self\" name=\"n\" style=\"display:inline-block;color:#000000;font-family:Ubuntu, Helvetica, Arial, sans-serif;font-size:13px;font-weight:normal;line-height:22px;text-decoration:none;text-transform:uppercase;padding:2px;\">Goon</a><!--[if mso | IE]></td><![endif]-->";
    assert_eq!(l.render(&Header::new()).unwrap(), expected);
}

#[test]
fn link_parse_rejects_other_tag() {
    let node = XmlNode::Element(read_markup("<mj-table/>").unwrap());
    match MJNavbarLink::parse(&node, None) {
        Err(Error::ParseError(msg)) => assert_eq!(msg, "element should be 'mj-navbar-link' no 'mj-table'"),
        _ => panic!("expected a parse error"),
    }
    let text = XmlNode::Text("x".to_string());
    assert!(matches!(MJNavbarLink::parse_link(&text, None), Err(Error::ParseError(_))));
}

#[test]
fn link_styles_by_element_name() {
    let l = link("<mj-navbar-link padding-top=\"3px\"/>");
    let td = l.set_style("td", Tag::td());
    assert_eq!(td.open(), "<td style=\"padding:15px 10px;padding-top:3px;\">");
    let other = l.set_style("span", Tag::new("span"));
    assert_eq!(other.render("x"), "<span>x</span>");
    assert_eq!(l.get_size_attribute("font-size").unwrap().value, 13);
}

#[test]
fn link_registers_font_family_once() {
    let l = link("<mj-navbar-link/>");
    let mut header = Header::new();
    l.update_header(&mut header);
    l.update_header(&mut header);
    assert_eq!(header.len(), 1);
    assert!(header.has_font_family("Ubuntu, Helvetica, Arial, sans-serif"));
}
