use mrml_core::component::{Component, ComponentWithAttributes, ComponentWithSizeAttribute};
use mrml_core::body::{parse_markup, BodyElement};
use mrml_core::context::{Context, Error, Header};
use mrml_core::markup::{read_markup, XmlNode};
use mrml_core::table::MJTable;

fn render(markup: &str) -> String {
    let element = parse_markup(markup).unwrap();
    element.render(&Header::new()).unwrap()
}

const DEFAULT_STYLE: &str = "border:none;color:#000000;font-family:Ubuntu, Helvetica, Arial, sans-serif;font-size:13px;line-height:22px;table-layout:auto;width:100%;";
const ROWS: &str = "<tr style=\"text-align:left;\"><th>Year</th><th>Language</th><th>Inspired from</th></tr><tr><td>1995</td><td>PHP</td><td>C, Shell Unix</td></tr><tr><td>1995</td><td>JavaScript</td><td>Scheme, Self</td></tr>";

#[test]
fn base() {
    let markup = format!("<mj-table>{}</mj-table>", ROWS);
    let expected = format!(
        "<table border=\"0\" cellpadding=\"0\" cellspacing=\"0\" width=\"100%\" style=\"{}\">{}</table>",
        DEFAULT_STYLE, ROWS
    );
    assert_eq!(render(&markup), expected);
}

#[test]
fn with_text_attributes() {
    let markup = format!(
        "<mj-table color=\"red\" font-family=\"Helvetica\" font-size=\"20px\" line-height=\"30px\">{}</mj-table>",
        ROWS
    );
    let expected = format!(
        "<table border=\"0\" cellpadding=\"0\" cellspacing=\"0\" width=\"100%\" style=\"border:none;color:red;font-family:Helvetica;font-size:20px;line-height:30px;table-layout:auto;width:100%;\">{}</table>",
        ROWS
    );
    assert_eq!(render(&markup), expected);
}

#[test]
fn with_table_attributes() {
    let markup = format!(
        "<mj-table border=\"1px solid black\" cellpadding=\"4\" cellspacing=\"2\" table-layout=\"fixed\" width=\"300px\">{}</mj-table>",
        ROWS
    );
    let expected = format!(
        "<table border=\"0\" cellpadding=\"4\" cellspacing=\"2\" width=\"300px\" style=\"border:1px solid black;color:#000000;font-family:Ubuntu, Helvetica, Arial, sans-serif;font-size:13px;line-height:22px;table-layout:fixed;width:300px;\">{}</table>",
        ROWS
    );
    assert_eq!(render(&markup), expected);
}

#[test]
fn with_other_attributes() {
    let markup = format!(
        "<mj-table align=\"center\" padding=\"40px\" css-class=\"table\">{}</mj-table>",
        ROWS
    );
    let expected = format!(
        "<table border=\"0\" cellpadding=\"0\" cellspacing=\"0\" width=\"100%\" style=\"{}\">{}</table>",
        DEFAULT_STYLE, ROWS
    );
    assert_eq!(render(&markup), expected);
}

#[test]
fn basic_component_default_values() {
    let header = Header::new();
    let node = XmlNode::Element(read_markup("<mj-table />").unwrap());
    let mut item = MJTable::parse(&node).unwrap();
    assert_eq!(item.context().is_none(), true);
    item.set_context(Context::new(true, None));
    assert!(item.context().is_some());
    assert!(std::ptr::eq(item.source_attributes().unwrap(), &item.attributes));
    assert_eq!(item.default_attribute("nothing"), None);
    assert_eq!(
        item.render(&header).unwrap(),
        format!(
            "<table border=\"0\" cellpadding=\"0\" cellspacing=\"0\" width=\"100%\" style=\"{}\"></table>",
            DEFAULT_STYLE
        )
    );
}

#[test]
fn empty_table_renders_bare_tag() {
    let out = render("<mj-table></mj-table>");
    assert!(out.starts_with("<table border=\"0\""));
    assert!(out.ends_with("\"></table>"));
}

#[test]
fn table_defaults_and_sizes() {
    let node = XmlNode::Element(read_markup("<mj-table width=\"300px\" border=\"1px solid black\"/>").unwrap());
    let table = MJTable::parse(&node).unwrap();
    assert_eq!(table.get_attribute("width"), Some("300px".to_string()));
    assert_eq!(table.get_attribute("align"), Some("left".to_string()));
    assert_eq!(table.get_attribute("unknown"), None);
    assert_eq!(table.get_source_attribute("align"), None);
    let size = table.get_size_attribute("width").unwrap();
    assert_eq!(size.value, 300);
    assert_eq!(table.get_size_attribute("border"), None);
    assert_eq!(table.get_size_attribute("cellpadding").unwrap().value, 0);
}

#[test]
fn table_parse_rejects_other_tag() {
    let node = XmlNode::Element(read_markup("<mj-text/>").unwrap());
    match MJTable::parse(&node) {
        Err(Error::ParseError(msg)) => assert_eq!(msg, "element should be 'mj-table' no 'mj-text'"),
        _ => panic!("expected a parse error"),
    }
}

#[test]
fn table_registers_font_family() {
    let element = parse_markup("<mj-table font-family=\"Roboto\"/>").unwrap();
    let mut header = Header::new();
    element.update_header(&mut header);
    element.update_header(&mut header);
    assert_eq!(header.len(), 1);
    assert!(header.has_font_family("Roboto"));
    match element {
        BodyElement::Table(_) => (),
        _ => panic!("expected a table"),
    }
}
