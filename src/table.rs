//! `mj-table`: a bordered HTML table whose rows and cells pass through as written.
use vstd::prelude::*;
use vstd::string::*;
use crate::attributes::{lookup, names_unique, Attributes};
use crate::body::{raw_parsed, raws_html, RawElement};
use crate::component::{Component, ComponentWithAttributes, ComponentWithSizeAttribute};
use crate::context::{header_with, Context, Error, Header};
use crate::markup::{element_pairs, XmlElement, XmlNode};
use crate::tag::{close_html, maybe_pair, open_html, opt_view, Tag, TagView};
use crate::text::str_eq;

verus! {

/// The value that a table takes for `key` when its markup gives none.
pub open spec fn table_default(key: Seq<char>) -> Option<Seq<char>> {
    if key == "align"@ {
        Some("left"@)
    } else if key == "border"@ {
        Some("none"@)
    } else if key == "cellpadding"@ {
        Some("0"@)
    } else if key == "cellspacing"@ {
        Some("0"@)
    } else if key == "color"@ {
        Some("#000000"@)
    } else if key == "font-family"@ {
        Some("Ubuntu, Helvetica, Arial, sans-serif"@)
    } else if key == "font-size"@ {
        Some("13px"@)
    } else if key == "line-height"@ {
        Some("22px"@)
    } else if key == "padding"@ {
        Some("10px 25px"@)
    } else if key == "table-layout"@ {
        Some("auto"@)
    } else if key == "width"@ {
        Some("100%"@)
    } else {
        None
    }
}

/// The default of `key` for tables.
fn default_value(key: &str) -> (r: Option<String>)
    ensures
        opt_view(r) == table_default(key@),
{
    if str_eq(key, "align") {
        Some(String::from_str("left"))
    } else if str_eq(key, "border") {
        Some(String::from_str("none"))
    } else if str_eq(key, "cellpadding") {
        Some(String::from_str("0"))
    } else if str_eq(key, "cellspacing") {
        Some(String::from_str("0"))
    } else if str_eq(key, "color") {
        Some(String::from_str("#000000"))
    } else if str_eq(key, "font-family") {
        Some(String::from_str("Ubuntu, Helvetica, Arial, sans-serif"))
    } else if str_eq(key, "font-size") {
        Some(String::from_str("13px"))
    } else if str_eq(key, "line-height") {
        Some(String::from_str("22px"))
    } else if str_eq(key, "padding") {
        Some(String::from_str("10px 25px"))
    } else if str_eq(key, "table-layout") {
        Some(String::from_str("auto"))
    } else if str_eq(key, "width") {
        Some(String::from_str("100%"))
    } else {
        None
    }
}

/// A table component read from markup.
#[derive(Debug)]
pub struct MJTable {
    pub attributes: Attributes,
    pub context: Option<Context>,
    pub children: Vec<RawElement>,
}

impl MJTable {
    /// The effective value of `key`: the source attribute, else the default.
    pub open spec fn attribute(&self, key: Seq<char>) -> Option<Seq<char>> {
        match lookup(self.attributes@, key) {
            Some(v) => Some(v),
            None => table_default(key),
        }
    }

    /// The inline styles of the `<table>`.
    pub open spec fn table_styles(&self) -> Seq<(Seq<char>, Seq<char>)> {
        maybe_pair("border"@, self.attribute("border"@)) + maybe_pair(
            "color"@,
            self.attribute("color"@),
        ) + maybe_pair("font-family"@, self.attribute("font-family"@)) + maybe_pair(
            "font-size"@,
            self.attribute("font-size"@),
        ) + maybe_pair("line-height"@, self.attribute("line-height"@)) + maybe_pair(
            "table-layout"@,
            self.attribute("table-layout"@),
        ) + maybe_pair("width"@, self.attribute("width"@))
    }

    /// The `<table>` element.
    pub open spec fn table_tag(&self) -> TagView {
        TagView {
            name: "table"@,
            classes: Seq::empty(),
            attributes: seq![("border"@, "0"@)] + maybe_pair(
                "cellpadding"@,
                self.attribute("cellpadding"@),
            ) + maybe_pair("cellspacing"@, self.attribute("cellspacing"@)) + maybe_pair(
                "width"@,
                self.attribute("width"@),
            ),
            styles: self.table_styles(),
        }
    }

    /// The rendered table: its tag around the rendered children, in order.
    pub open spec fn html(&self) -> Seq<char>
        decreases self, 1nat,
    {
        open_html(self.table_tag()) + raws_html(self.children, self.children.len() as nat)
            + close_html("table"@)
    }

    /// Whether this table is what `el` parses to.
    pub open spec fn parsed_from(&self, el: XmlElement) -> bool
        decreases el, 0nat,
    {
        &&& self.context is None
        &&& names_unique(self.attributes@)
        &&& forall|k: Seq<char>| #[trigger]
            lookup(self.attributes@, k) == lookup(element_pairs(el), k)
        &&& self.children.len() == el.children.len()
        &&& forall|i: int|
            0 <= i < el.children.len() ==> raw_parsed(#[trigger] self.children[i], el.children[i])
    }

    /// Reads an `mj-table` element; each child passes through as a raw element.
    pub fn parse(node: &XmlNode) -> (r: Result<MJTable, Error>)
        ensures
            match node {
                XmlNode::Element(el) => if el.tag@ == "mj-table"@ {
                    r matches Ok(t) && t.parsed_from(*el)
                } else {
                    r matches Err(Error::ParseError(m)) && m@ == "element should be 'mj-table' no '"@
                        + el.tag@ + "'"@
                },
                _ => r matches Err(Error::ParseError(m)) && m@ == "element should be 'mj-table' no '"@
                    + ""@ + "'"@,
            },
        decreases node, 1nat,
    {
        let el = match node {
            XmlNode::Element(el) => el,
            _ => {
                return Err(Error::ParseError(tag_mismatch("")));
            },
        };
        if !str_eq(el.tag.as_str(), "mj-table") {
            return Err(Error::ParseError(tag_mismatch(el.tag.as_str())));
        }
        let mut children: Vec<RawElement> = Vec::new();
        let n = el.children.len();
        let mut i: usize = 0;
        while i < n
            invariant
                *node == XmlNode::Element(*el),
                n == el.children@.len(),
                i <= n,
                children@.len() == i,
                forall|j: int| 0 <= j < i ==> raw_parsed(#[trigger] children@[j], el.children@[j]),
            decreases n - i,
        {
            proof {
                crate::body::lemma_child_decreases(*node, *el, i as int);
            }
            match RawElement::parse(&el.children[i]) {
                Ok(child) => children.push(child),
                Err(e) => {
                    return Err(e);
                },
            }
            i = i + 1;
        }
        let attributes = crate::markup::get_node_attributes(el);
        let t = MJTable { attributes, context: None, children };
        assert(t.parsed_from(*el));
        Ok(t)
    }

    /// The effective value of `key`.
    fn attribute_value(&self, key: &str) -> (r: Option<String>)
        ensures
            opt_view(r) == self.attribute(key@),
    {
        match self.attributes.get(key) {
            Some(v) => Some(v),
            None => default_value(key),
        }
    }

    /// The children rendered in order, inside the `<table>`.
    pub fn render_html(&self, header: &Header) -> (r: Result<String, Error>)
        ensures
            r matches Ok(s) && s@ == self.html(),
        decreases self, 1nat,
    {
        let mut inner = String::new();
        let n = self.children.len();
        let mut i: usize = 0;
        while i < n
            invariant
                n == self.children@.len(),
                i <= n,
                inner@ == raws_html(self.children, i as nat),
            decreases n - i,
        {
            match self.children[i].render_html(header) {
                Ok(s) => inner.append(s.as_str()),
                Err(e) => {
                    return Err(e);
                },
            }
            i = i + 1;
        }
        let table = self.set_style_table(Tag::new("table")).set_attribute("border", "0").maybe_set_attribute(
            "cellpadding",
            self.attribute_value("cellpadding"),
        ).maybe_set_attribute("cellspacing", self.attribute_value("cellspacing")).maybe_set_attribute(
            "width",
            self.attribute_value("width"),
        );
        assert(table@.attributes =~= self.table_tag().attributes);
        assert(table@.styles =~= self.table_tag().styles);
        assert(table@.classes =~= self.table_tag().classes);
        Ok(table.render(inner.as_str()))
    }

    pub fn set_style_table(&self, tag: Tag) -> (r: Tag)
        ensures
            r@ == (TagView { styles: tag@.styles + self.table_styles(), ..tag@ }),
    {
        let r = tag.maybe_set_style("border", self.attribute_value("border")).maybe_set_style(
            "color",
            self.attribute_value("color"),
        ).maybe_set_style("font-family", self.attribute_value("font-family")).maybe_set_style(
            "font-size",
            self.attribute_value("font-size"),
        ).maybe_set_style("line-height", self.attribute_value("line-height")).maybe_set_style(
            "table-layout",
            self.attribute_value("table-layout"),
        ).maybe_set_style("width", self.attribute_value("width"));
        assert(r@.styles =~= tag@.styles + self.table_styles());
        r
    }
}

impl Component for MJTable {
    open spec fn context_view(&self) -> Option<Context> {
        self.context
    }

    open spec fn takes_context(&self) -> bool {
        true
    }

    open spec fn html_view(&self) -> Seq<char> {
        self.html()
    }

    open spec fn header_view(&self, h: Seq<Seq<char>>) -> Seq<Seq<char>> {
        header_with(h, self.attribute("font-family"@))
    }

    fn context(&self) -> (r: Option<&Context>) {
        match &self.context {
            Some(c) => Some(c),
            None => None,
        }
    }

    fn set_context(&mut self, ctx: Context) {
        self.context = Some(ctx);
    }

    /// Registers the table's font family with the header.
    fn update_header(&self, header: &mut Header) {
        header.maybe_add_font_families(self.attribute_value("font-family"));
    }

    fn render(&self, header: &Header) -> (r: Result<String, Error>) {
        self.render_html(header)
    }
}

impl ComponentWithAttributes for MJTable {
    open spec fn default_view(&self, key: Seq<char>) -> Option<Seq<char>> {
        table_default(key)
    }

    open spec fn source_view(&self) -> Option<Seq<(Seq<char>, Seq<char>)>> {
        Some(self.attributes@)
    }

    fn default_attribute(&self, key: &str) -> (r: Option<String>) {
        default_value(key)
    }

    fn source_attributes(&self) -> (r: Option<&Attributes>) {
        Some(&self.attributes)
    }
}

impl ComponentWithSizeAttribute for MJTable {

}

/// A source attribute wins over the default; without one the default applies; with
/// neither the attribute is absent.
pub proof fn lemma_table_attribute_cascade(t: &MJTable, key: Seq<char>)
    ensures
        lookup(t.attributes@, key) matches Some(v) ==> t.attribute(key) == Some(v),
        lookup(t.attributes@, key) is None ==> t.attribute(key) == table_default(key),
        lookup(t.attributes@, key) is None && table_default(key) is None ==> t.attribute(key) is None,
{
}

/// A table without children renders as its `<table border="0" ...>` tag directly
/// followed by `</table>`.
pub proof fn lemma_empty_table(t: &MJTable)
    requires
        t.children.len() == 0,
    ensures
        t.html() == open_html(t.table_tag()) + close_html("table"@),
        t.table_tag().name == "table"@,
        t.table_tag().attributes[0] == ("border"@, "0"@),
{
    assert(raws_html(t.children, 0) == Seq::<char>::empty());
    assert(t.html() =~= open_html(t.table_tag()) + close_html("table"@));
}

/// The message of a tag-name mismatch for a table.
fn tag_mismatch(tag: &str) -> (r: String)
    ensures
        r@ == "element should be 'mj-table' no '"@ + tag@ + "'"@,
{
    let mut r = String::from_str("element should be 'mj-table' no '");
    r.append(tag);
    r.append("'");
    r
}

} // verus!
