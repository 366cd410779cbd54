//! `mj-navbar-link`: one link of a navigation bar, an inline-styled anchor set in an
//! Outlook-only table cell.
use vstd::prelude::*;
use vstd::string::*;
use crate::attributes::{lookup, names_unique, Attributes};
use crate::component::{Component, ComponentWithAttributes, ComponentWithSizeAttribute};
use crate::context::{header_with, Context, Error, Header};
use crate::markup::{element_pairs, overlay, XmlElement, XmlNode};
use crate::tag::{
    close_html, conditional_html, conditional_tag, maybe_pair, open_html, opt_view, Tag, TagView,
};
use crate::text::{str_eq, suffix_css_classes, suffixed_classes};

verus! {

/// The value that a link takes for `key` when its markup gives none.
pub open spec fn link_default(key: Seq<char>) -> Option<Seq<char>> {
    if key == "color"@ {
        Some("#000000"@)
    } else if key == "font-family"@ {
        Some("Ubuntu, Helvetica, Arial, sans-serif"@)
    } else if key == "font-size"@ {
        Some("13px"@)
    } else if key == "font-weight"@ {
        Some("normal"@)
    } else if key == "line-height"@ {
        Some("22px"@)
    } else if key == "padding"@ {
        Some("15px 10px"@)
    } else if key == "target"@ {
        Some("_blank"@)
    } else if key == "text-decoration"@ {
        Some("none"@)
    } else if key == "text-transform"@ {
        Some("uppercase"@)
    } else {
        None
    }
}

/// The text of the text nodes among `children`, joined; `None` when there is none.
pub open spec fn texts_of(children: Seq<XmlNode>) -> Option<Seq<char>>
    decreases children.len(),
{
    if children.len() == 0 {
        None
    } else {
        match children.last() {
            XmlNode::Text(t) => match texts_of(children.drop_last()) {
                Some(prev) => Some(prev + t@),
                None => Some(t@),
            },
            _ => texts_of(children.drop_last()),
        }
    }
}

/// The plain view of an optional attribute mapping; absent means empty.
pub open spec fn extra_view(extra: Option<&Attributes>) -> Seq<(Seq<char>, Seq<char>)> {
    match extra {
        Some(a) => a@,
        None => Seq::empty(),
    }
}

/// What `extra` gives to `key` once a missing `text-padding` is filled in.
pub open spec fn padded_lookup(extra: Seq<(Seq<char>, Seq<char>)>, key: Seq<char>) -> Option<Seq<char>> {
    if key == "text-padding"@ && lookup(extra, key) is None {
        Some("4px 4px 4px 0"@)
    } else {
        lookup(extra, key)
    }
}

/// The default of `key` for links.
fn default_value(key: &str) -> (r: Option<String>)
    ensures
        opt_view(r) == link_default(key@),
{
    if str_eq(key, "color") {
        Some(String::from_str("#000000"))
    } else if str_eq(key, "font-family") {
        Some(String::from_str("Ubuntu, Helvetica, Arial, sans-serif"))
    } else if str_eq(key, "font-size") {
        Some(String::from_str("13px"))
    } else if str_eq(key, "font-weight") {
        Some(String::from_str("normal"))
    } else if str_eq(key, "line-height") {
        Some(String::from_str("22px"))
    } else if str_eq(key, "padding") {
        Some(String::from_str("15px 10px"))
    } else if str_eq(key, "target") {
        Some(String::from_str("_blank"))
    } else if str_eq(key, "text-decoration") {
        Some(String::from_str("none"))
    } else if str_eq(key, "text-transform") {
        Some(String::from_str("uppercase"))
    } else {
        None
    }
}

/// A link component read from markup.
#[derive(Debug)]
pub struct MJNavbarLink {
    /// The source attributes, with those injected by the parent underneath.
    pub attributes: Attributes,
    pub context: Option<Context>,
    /// The joined text of the element's text children, if it has any.
    pub content: Option<String>,
}

impl MJNavbarLink {
    /// The effective value of `key`: the source attribute, else the default.
    pub open spec fn attribute(&self, key: Seq<char>) -> Option<Seq<char>> {
        match lookup(self.attributes@, key) {
            Some(v) => Some(v),
            None => link_default(key),
        }
    }

    /// The inline styles of the anchor.
    pub open spec fn a_styles(&self) -> Seq<(Seq<char>, Seq<char>)> {
        seq![("display"@, "inline-block"@)] + maybe_pair("color"@, self.attribute("color"@))
            + maybe_pair("font-family"@, self.attribute("font-family"@)) + maybe_pair(
            "font-size"@,
            self.attribute("font-size"@),
        ) + maybe_pair("font-style"@, self.attribute("font-style"@)) + maybe_pair(
            "font-weight"@,
            self.attribute("font-weight"@),
        ) + maybe_pair("letter-spacing"@, self.attribute("letter-spacing"@)) + maybe_pair(
            "line-height"@,
            self.attribute("line-height"@),
        ) + maybe_pair("text-decoration"@, self.attribute("text-decoration"@)) + maybe_pair(
            "text-transform"@,
            self.attribute("text-transform"@),
        ) + self.td_styles()
    }

    /// The inline styles of the Outlook cell: the paddings.
    pub open spec fn td_styles(&self) -> Seq<(Seq<char>, Seq<char>)> {
        maybe_pair("padding"@, self.attribute("padding"@)) + maybe_pair(
            "padding-top"@,
            self.attribute("padding-top"@),
        ) + maybe_pair("padding-right"@, self.attribute("padding-right"@)) + maybe_pair(
            "padding-bottom"@,
            self.attribute("padding-bottom"@),
        ) + maybe_pair("padding-left"@, self.attribute("padding-left"@))
    }

    /// The link target: `href` after the base URL when one is set.
    pub open spec fn link(&self) -> Option<Seq<char>> {
        match self.attribute("href"@) {
            Some(h) => match self.attribute("navbar-base-url"@) {
                Some(b) => Some(b + h),
                None => Some(h),
            },
            None => None,
        }
    }

    /// The anchor element.
    pub open spec fn a_tag(&self) -> TagView {
        TagView {
            name: "a"@,
            classes: seq!["mj-link"@] + match self.attribute("css-class"@) {
                Some(c) => seq![c],
                None => Seq::empty(),
            },
            attributes: maybe_pair("href"@, self.link()) + maybe_pair("rel"@, self.attribute("rel"@))
                + maybe_pair("target"@, self.attribute("target"@)) + maybe_pair(
                "name"@,
                self.attribute("name"@),
            ),
            styles: self.a_styles(),
        }
    }

    /// The Outlook-only cell around the anchor.
    pub open spec fn td_tag(&self) -> TagView {
        TagView {
            name: "td"@,
            classes: match self.attribute("css-class"@) {
                Some(c) => seq![suffixed_classes(c, "outlook"@)],
                None => Seq::empty(),
            },
            attributes: Seq::empty(),
            styles: self.td_styles(),
        }
    }

    /// The anchor with its text.
    pub open spec fn content_html(&self) -> Seq<char> {
        open_html(self.a_tag()) + match self.content {
            Some(c) => c@,
            None => Seq::empty(),
        } + close_html("a"@)
    }

    /// The whole rendered link.
    pub open spec fn html(&self) -> Seq<char> {
        conditional_html(open_html(self.td_tag())) + self.content_html() + conditional_html(
            close_html("td"@),
        )
    }

    /// Whether this link is what `el` parses to, but for the attribute values, which
    /// also depend on the injected attributes: no context yet, the joined text of the
    /// text children, each attribute name once.
    pub open spec fn parsed_from(&self, el: XmlElement) -> bool {
        &&& self.context is None
        &&& names_unique(self.attributes@)
        &&& opt_view(self.content) == texts_of(el.children@)
    }

    /// Reads an `mj-navbar-link` element; `extra` holds attributes injected by the
    /// parent, which the element's own attributes override.
    pub fn parse_link(node: &XmlNode, extra: Option<&Attributes>) -> (r: Result<
        MJNavbarLink,
        Error,
    >)
        ensures
            match node {
                XmlNode::Element(el) => if el.tag@ == "mj-navbar-link"@ {
                    r matches Ok(l) && l.parsed_from(*el) && forall|k: Seq<char>|
                        #![trigger lookup(l.attributes@, k)]
                        lookup(l.attributes@, k) == overlay(extra_view(extra), element_pairs(*el), k)
                } else {
                    r matches Err(Error::ParseError(m)) && m@ == "element should be 'mj-navbar-link' no '"@
                        + el.tag@ + "'"@
                },
                _ => r matches Err(Error::ParseError(m)) && m@ == "element should be 'mj-navbar-link' no '"@
                    + ""@ + "'"@,
            },
    {
        let el = match node {
            XmlNode::Element(el) => el,
            _ => {
                return Err(Error::ParseError(tag_mismatch("")));
            },
        };
        if !str_eq(el.tag.as_str(), "mj-navbar-link") {
            return Err(Error::ParseError(tag_mismatch(el.tag.as_str())));
        }
        let mut content: Option<String> = None;
        let n = el.children.len();
        let mut i: usize = 0;
        while i < n
            invariant
                n == el.children@.len(),
                i <= n,
                opt_view(content) == texts_of(el.children@.subrange(0, i as int)),
            decreases n - i,
        {
            assert(el.children@.subrange(0, i + 1).drop_last() =~= el.children@.subrange(
                0,
                i as int,
            ));
            if let XmlNode::Text(t) = &el.children[i] {
                content = match content {
                    Some(c) => {
                        let mut c = c;
                        c.append(t.as_str());
                        Some(c)
                    },
                    None => Some(t.clone()),
                };
            }
            i = i + 1;
        }
        assert(el.children@.subrange(0, n as int) =~= el.children@);
        let mut attributes = match extra {
            Some(a) => a.copied(),
            None => Attributes::new(),
        };
        crate::markup::add_node_attributes(&mut attributes, el);
        Ok(MJNavbarLink { attributes, context: None, content })
    }

    /// Reads an `mj-navbar-link` element as `parse_link` does, with `text-padding`
    /// injected as `4px 4px 4px 0` unless `extra` sets it.
    pub fn parse(node: &XmlNode, extra: Option<&Attributes>) -> (r: Result<MJNavbarLink, Error>)
        ensures
            match node {
                XmlNode::Element(el) => if el.tag@ == "mj-navbar-link"@ {
                    r matches Ok(l) && l.parsed_from(*el) && forall|k: Seq<char>|
                        #![trigger lookup(l.attributes@, k)]
                        lookup(l.attributes@, k) == match lookup(element_pairs(*el), k) {
                            Some(v) => Some(v),
                            None => padded_lookup(extra_view(extra), k),
                        }
                } else {
                    r matches Err(Error::ParseError(m)) && m@ == "element should be 'mj-navbar-link' no '"@
                        + el.tag@ + "'"@
                },
                _ => r matches Err(Error::ParseError(m)) && m@ == "element should be 'mj-navbar-link' no '"@
                    + ""@ + "'"@,
            },
    {
        let mut attrs = match extra {
            Some(a) => a.copied(),
            None => Attributes::new(),
        };
        let ghost base = attrs@;
        proof {
            crate::attributes::lemma_lookup_absent(Seq::empty(), "text-padding"@);
        }
        if attrs.get("text-padding").is_none() {
            attrs.set("text-padding", "4px 4px 4px 0");
        }
        assert(forall|k: Seq<char>| #[trigger]
            lookup(attrs@, k) == padded_lookup(extra_view(extra), k));
        Self::parse_link(node, Some(&attrs))
    }

    /// The effective value of `key`.
    fn attribute_value(&self, key: &str) -> (r: Option<String>)
        ensures
            opt_view(r) == self.attribute(key@),
    {
        match self.attributes.get(key) {
            Some(v) => Some(v),
            None => default_value(key),
        }
    }

    pub fn set_style_a(&self, tag: Tag) -> (r: Tag)
        ensures
            r@ == (TagView { styles: tag@.styles + self.a_styles(), ..tag@ }),
    {
        let t = tag.set_style("display", "inline-block").maybe_set_style(
            "color",
            self.attribute_value("color"),
        ).maybe_set_style("font-family", self.attribute_value("font-family")).maybe_set_style(
            "font-size",
            self.attribute_value("font-size"),
        ).maybe_set_style("font-style", self.attribute_value("font-style")).maybe_set_style(
            "font-weight",
            self.attribute_value("font-weight"),
        ).maybe_set_style("letter-spacing", self.attribute_value("letter-spacing")).maybe_set_style(
            "line-height",
            self.attribute_value("line-height"),
        ).maybe_set_style("text-decoration", self.attribute_value("text-decoration")).maybe_set_style(
            "text-transform",
            self.attribute_value("text-transform"),
        );
        let r = self.set_style_td(t);
        assert(r@.styles =~= tag@.styles + self.a_styles());
        r
    }

    pub fn set_style_td(&self, tag: Tag) -> (r: Tag)
        ensures
            r@ == (TagView { styles: tag@.styles + self.td_styles(), ..tag@ }),
    {
        let r = tag.maybe_set_style("padding", self.attribute_value("padding")).maybe_set_style(
            "padding-top",
            self.attribute_value("padding-top"),
        ).maybe_set_style("padding-right", self.attribute_value("padding-right")).maybe_set_style(
            "padding-bottom",
            self.attribute_value("padding-bottom"),
        ).maybe_set_style("padding-left", self.attribute_value("padding-left"));
        assert(r@.styles =~= tag@.styles + self.td_styles());
        r
    }

    /// The styles of the element named `name` of this link: `a` or `td`; another
    /// name leaves `tag` as it is.
    pub fn set_style(&self, name: &str, tag: Tag) -> (r: Tag)
        ensures
            name@ == "a"@ ==> r@ == (TagView { styles: tag@.styles + self.a_styles(), ..tag@ }),
            name@ == "td"@ ==> r@ == (TagView { styles: tag@.styles + self.td_styles(), ..tag@ }),
            name@ != "a"@ && name@ != "td"@ ==> r@ == tag@,
    {
        proof {
            reveal_strlit("a");
            reveal_strlit("td");
            assert("a"@.len() != "td"@.len());
        }
        if str_eq(name, "a") {
            self.set_style_a(tag)
        } else if str_eq(name, "td") {
            self.set_style_td(tag)
        } else {
            tag
        }
    }

    /// The link target.
    pub fn get_link(&self) -> (r: Option<String>)
        ensures
            opt_view(r) == self.link(),
    {
        match self.attribute_value("href") {
            Some(href) => match self.attribute_value("navbar-base-url") {
                Some(base) => {
                    let mut r = base;
                    r.append(href.as_str());
                    Some(r)
                },
                None => Some(href),
            },
            None => None,
        }
    }

    /// The anchor with its text.
    pub fn render_content(&self, header: &Header) -> (r: Result<String, Error>)
        ensures
            r matches Ok(s) && s@ == self.content_html(),
    {
        let a = self.set_style_a(Tag::new("a")).set_class("mj-link").maybe_set_class(
            self.attribute_value("css-class"),
        ).maybe_set_attribute("href", self.get_link()).maybe_set_attribute(
            "rel",
            self.attribute_value("rel"),
        ).maybe_set_attribute("target", self.attribute_value("target")).maybe_set_attribute(
            "name",
            self.attribute_value("name"),
        );
        assert(a@.attributes =~= self.a_tag().attributes);
        assert(a@.styles =~= self.a_tag().styles);
        assert(a@.classes =~= self.a_tag().classes);
        let inner = match &self.content {
            Some(c) => c.as_str(),
            None => "",
        };
        proof {
            reveal_strlit("");
        }
        Ok(a.render(inner))
    }
}

impl Component for MJNavbarLink {
    open spec fn context_view(&self) -> Option<Context> {
        self.context
    }

    open spec fn takes_context(&self) -> bool {
        true
    }

    open spec fn html_view(&self) -> Seq<char> {
        self.html()
    }

    open spec fn header_view(&self, h: Seq<Seq<char>>) -> Seq<Seq<char>> {
        header_with(h, self.attribute("font-family"@))
    }

    fn context(&self) -> (r: Option<&Context>) {
        match &self.context {
            Some(c) => Some(c),
            None => None,
        }
    }

    fn set_context(&mut self, ctx: Context) {
        self.context = Some(ctx);
    }

    /// Registers the link's font family with the header.
    fn update_header(&self, header: &mut Header) {
        header.maybe_add_font_families(self.attribute_value("font-family"));
    }

    /// The anchor, inside a table cell whose open and close tags only Outlook reads.
    fn render(&self, header: &Header) -> (r: Result<String, Error>) {
        let td = self.set_style_td(Tag::td()).maybe_set_class(
            suffix_css_classes(self.attribute_value("css-class"), "outlook"),
        );
        assert(td@.classes =~= self.td_tag().classes);
        assert(td@.styles =~= self.td_tag().styles);
        assert(td@.attributes =~= self.td_tag().attributes);
        let mut res = conditional_tag(td.open().as_str());
        match self.render_content(header) {
            Ok(content) => res.append(content.as_str()),
            Err(e) => {
                return Err(e);
            },
        }
        res.append(conditional_tag(td.close().as_str()).as_str());
        Ok(res)
    }
}

impl ComponentWithAttributes for MJNavbarLink {
    open spec fn default_view(&self, key: Seq<char>) -> Option<Seq<char>> {
        link_default(key)
    }

    open spec fn source_view(&self) -> Option<Seq<(Seq<char>, Seq<char>)>> {
        Some(self.attributes@)
    }

    fn default_attribute(&self, key: &str) -> (r: Option<String>) {
        default_value(key)
    }

    fn source_attributes(&self) -> (r: Option<&Attributes>) {
        Some(&self.attributes)
    }
}

impl ComponentWithSizeAttribute for MJNavbarLink {

}

/// The keys that links have no default for, among those that rendering reads.
proof fn lemma_link_no_default()
    ensures
        link_default("href"@) is None,
        link_default("navbar-base-url"@) is None,
        link_default("font-style"@) is None,
        link_default("letter-spacing"@) is None,
        link_default("rel"@) is None,
{
    reveal_strlit("href");
    reveal_strlit("color");
    reveal_strlit("font-family");
    reveal_strlit("font-size");
    reveal_strlit("font-weight");
    reveal_strlit("line-height");
    reveal_strlit("padding");
    reveal_strlit("target");
    reveal_strlit("text-decoration");
    reveal_strlit("text-transform");
    reveal_strlit("navbar-base-url");
    reveal_strlit("font-style");
    reveal_strlit("letter-spacing");
    reveal_strlit("rel");
    assert(link_default("href"@) is None) by {
        assert("href"@.len() != "color"@.len());
        assert("href"@.len() != "font-family"@.len());
        assert("href"@.len() != "font-size"@.len());
        assert("href"@.len() != "font-weight"@.len());
        assert("href"@.len() != "line-height"@.len());
        assert("href"@.len() != "padding"@.len());
        assert("href"@.len() != "target"@.len());
        assert("href"@.len() != "text-decoration"@.len());
        assert("href"@.len() != "text-transform"@.len());
    }
    assert(link_default("navbar-base-url"@) is None) by {
        assert("navbar-base-url"@.len() != "color"@.len());
        assert("navbar-base-url"@.len() != "font-family"@.len());
        assert("navbar-base-url"@.len() != "font-size"@.len());
        assert("navbar-base-url"@.len() != "font-weight"@.len());
        assert("navbar-base-url"@.len() != "line-height"@.len());
        assert("navbar-base-url"@.len() != "padding"@.len());
        assert("navbar-base-url"@.len() != "target"@.len());
        assert("navbar-base-url"@[0] != "text-decoration"@[0]);
        assert("navbar-base-url"@.len() != "text-transform"@.len());
    }
    assert(link_default("font-style"@) is None) by {
        assert("font-style"@.len() != "color"@.len());
        assert("font-style"@.len() != "font-family"@.len());
        assert("font-style"@.len() != "font-size"@.len());
        assert("font-style"@.len() != "font-weight"@.len());
        assert("font-style"@.len() != "line-height"@.len());
        assert("font-style"@.len() != "padding"@.len());
        assert("font-style"@.len() != "target"@.len());
        assert("font-style"@.len() != "text-decoration"@.len());
        assert("font-style"@.len() != "text-transform"@.len());
    }
    assert(link_default("letter-spacing"@) is None) by {
        assert("letter-spacing"@.len() != "color"@.len());
        assert("letter-spacing"@.len() != "font-family"@.len());
        assert("letter-spacing"@.len() != "font-size"@.len());
        assert("letter-spacing"@.len() != "font-weight"@.len());
        assert("letter-spacing"@.len() != "line-height"@.len());
        assert("letter-spacing"@.len() != "padding"@.len());
        assert("letter-spacing"@.len() != "target"@.len());
        assert("letter-spacing"@.len() != "text-decoration"@.len());
        assert("letter-spacing"@[0] != "text-transform"@[0]);
    }
    assert(link_default("rel"@) is None) by {
        assert("rel"@.len() != "color"@.len());
        assert("rel"@.len() != "font-family"@.len());
        assert("rel"@.len() != "font-size"@.len());
        assert("rel"@.len() != "font-weight"@.len());
        assert("rel"@.len() != "line-height"@.len());
        assert("rel"@.len() != "padding"@.len());
        assert("rel"@.len() != "target"@.len());
        assert("rel"@.len() != "text-decoration"@.len());
        assert("rel"@.len() != "text-transform"@.len());
    }
}

/// A source attribute wins over the default; without one the default applies; with
/// neither the attribute is absent.
pub proof fn lemma_link_attribute_cascade(l: &MJNavbarLink, key: Seq<char>)
    ensures
        lookup(l.attributes@, key) matches Some(v) ==> l.attribute(key) == Some(v),
        lookup(l.attributes@, key) is None ==> l.attribute(key) == link_default(key),
        lookup(l.attributes@, key) is None && link_default(key) is None ==> l.attribute(key) is None,
{
}

/// The anchor's target is the base URL followed by `href` when both are set, `href`
/// alone without a base URL, and absent without `href`.
pub proof fn lemma_link_target(l: &MJNavbarLink, href: Seq<char>, base: Seq<char>)
    ensures
        lookup(l.attributes@, "href"@) == Some(href) && lookup(l.attributes@, "navbar-base-url"@)
            == Some(base) ==> l.link() == Some(base + href),
        lookup(l.attributes@, "href"@) == Some(href) && lookup(l.attributes@, "navbar-base-url"@)
            is None ==> l.link() == Some(href),
        lookup(l.attributes@, "href"@) is None ==> l.link() is None,
{
    lemma_link_no_default();
}

/// The defaults of the keys that links have one for.
proof fn lemma_link_default_values()
    ensures
        link_default("color"@) == Some("#000000"@),
        link_default("font-family"@) == Some("Ubuntu, Helvetica, Arial, sans-serif"@),
        link_default("font-size"@) == Some("13px"@),
        link_default("font-weight"@) == Some("normal"@),
        link_default("line-height"@) == Some("22px"@),
        link_default("padding"@) == Some("15px 10px"@),
        link_default("target"@) == Some("_blank"@),
        link_default("text-decoration"@) == Some("none"@),
        link_default("text-transform"@) == Some("uppercase"@),
{
    reveal_strlit("color");
    reveal_strlit("font-family");
    reveal_strlit("font-size");
    reveal_strlit("font-weight");
    reveal_strlit("line-height");
    reveal_strlit("padding");
    reveal_strlit("target");
    reveal_strlit("text-decoration");
    reveal_strlit("text-transform");
    assert(link_default("color"@) == Some("#000000"@)) by {
    }
    assert(link_default("font-family"@) == Some("Ubuntu, Helvetica, Arial, sans-serif"@)) by {
        assert("font-family"@.len() != "color"@.len());
    }
    assert(link_default("font-size"@) == Some("13px"@)) by {
        assert("font-size"@.len() != "color"@.len());
        assert("font-size"@.len() != "font-family"@.len());
    }
    assert(link_default("font-weight"@) == Some("normal"@)) by {
        assert("font-weight"@.len() != "color"@.len());
        assert("font-weight"@[5] != "font-family"@[5]);
        assert("font-weight"@.len() != "font-size"@.len());
    }
    assert(link_default("line-height"@) == Some("22px"@)) by {
        assert("line-height"@.len() != "color"@.len());
        assert("line-height"@[0] != "font-family"@[0]);
        assert("line-height"@.len() != "font-size"@.len());
        assert("line-height"@[0] != "font-weight"@[0]);
    }
    assert(link_default("padding"@) == Some("15px 10px"@)) by {
        assert("padding"@.len() != "color"@.len());
        assert("padding"@.len() != "font-family"@.len());
        assert("padding"@.len() != "font-size"@.len());
        assert("padding"@.len() != "font-weight"@.len());
        assert("padding"@.len() != "line-height"@.len());
    }
    assert(link_default("target"@) == Some("_blank"@)) by {
        assert("target"@.len() != "color"@.len());
        assert("target"@.len() != "font-family"@.len());
        assert("target"@.len() != "font-size"@.len());
        assert("target"@.len() != "font-weight"@.len());
        assert("target"@.len() != "line-height"@.len());
        assert("target"@.len() != "padding"@.len());
    }
    assert(link_default("text-decoration"@) == Some("none"@)) by {
        assert("text-decoration"@.len() != "color"@.len());
        assert("text-decoration"@.len() != "font-family"@.len());
        assert("text-decoration"@.len() != "font-size"@.len());
        assert("text-decoration"@.len() != "font-weight"@.len());
        assert("text-decoration"@.len() != "line-height"@.len());
        assert("text-decoration"@.len() != "padding"@.len());
        assert("text-decoration"@.len() != "target"@.len());
    }
    assert(link_default("text-transform"@) == Some("uppercase"@)) by {
        assert("text-transform"@.len() != "color"@.len());
        assert("text-transform"@.len() != "font-family"@.len());
        assert("text-transform"@.len() != "font-size"@.len());
        assert("text-transform"@.len() != "font-weight"@.len());
        assert("text-transform"@.len() != "line-height"@.len());
        assert("text-transform"@.len() != "padding"@.len());
        assert("text-transform"@.len() != "target"@.len());
        assert("text-transform"@.len() != "text-decoration"@.len());
    }
}

/// A link with no source attribute still has the black, undecorated, upper-case
/// styles and opens its target in a new window.
pub proof fn lemma_link_defaults(l: &MJNavbarLink)
    requires
        l.attributes@.len() == 0,
    ensures
        l.a_tag().styles.contains(("color"@, "#000000"@)),
        l.a_tag().styles.contains(("text-decoration"@, "none"@)),
        l.a_tag().styles.contains(("text-transform"@, "uppercase"@)),
        l.a_tag().attributes.contains(("target"@, "_blank"@)),
{
    lemma_link_default_values();
    lemma_link_no_default();
    let s = l.a_tag().styles;
    assert(s[1] == ("color"@, "#000000"@));
    assert(s[6] == ("text-decoration"@, "none"@));
    assert(s[7] == ("text-transform"@, "uppercase"@));
    let a = l.a_tag().attributes;
    assert(a[0] == ("target"@, "_blank"@));
}

/// The message of a tag-name mismatch for a link.
fn tag_mismatch(tag: &str) -> (r: String)
    ensures
        r@ == "element should be 'mj-navbar-link' no '"@ + tag@ + "'"@,
{
    let mut r = String::from_str("element should be 'mj-navbar-link' no '");
    r.append(tag);
    r.append("'");
    r
}

} // verus!
