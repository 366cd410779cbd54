//! The component tree: typed components for the supported tags, and the raw
//! passthrough for all other markup.
use vstd::prelude::*;
use vstd::string::*;
use crate::attributes::{lookup, Attributes};
use crate::component::{Component, ComponentWithAttributes, ComponentWithChildren};
use crate::context::{Context, Error, Header, Size};
use crate::markup::{element_pairs, markup_root, XmlElement, XmlNode};
use crate::navbar_link::{padded_lookup, MJNavbarLink};
use crate::table::MJTable;
use crate::tag::{close_html, open_html, Tag, TagView};
use crate::text::str_eq;

verus! {

broadcast use vstd::std_specs::vec::group_vec_axioms;

/// An empty string.
pub fn empty_str() -> (r: String)
    ensures
        r@.len() == 0,
{
    String::new()
}

/// A comment of the source markup.
#[derive(Clone, Debug)]
pub struct CommentElement {
    pub content: String,
    pub context: Option<Context>,
}

/// An element that the engine has no component for; it is re-emitted as written.
#[derive(Debug)]
pub struct NodeElement {
    pub attributes: Attributes,
    pub context: Option<Context>,
    pub children: Vec<BodyElement>,
    pub tag: String,
}

/// Markup passed through: a comment, an unknown element, or text.
#[derive(Debug)]
pub enum RawElement {
    Comment(CommentElement),
    Node(NodeElement),
    Text(String),
}

/// A node of the component tree.
#[derive(Debug)]
pub enum BodyElement {
    NavbarLink(MJNavbarLink),
    Table(MJTable),
    Raw(RawElement),
}

/// Whether comments are kept under `ctx`; without a context they are.
pub open spec fn keeps_comments(ctx: Option<Context>) -> bool {
    match ctx {
        Some(c) => c.keep_comments,
        None => true,
    }
}

/// A rendered comment: empty when comments are dropped or the text is empty.
pub open spec fn comment_html(c: CommentElement) -> Seq<char> {
    if !keeps_comments(c.context) || c.content@.len() == 0 {
        Seq::empty()
    } else {
        "<!--"@ + c.content@ + "-->"@
    }
}

/// The opening tag of a passed-through element.
pub open spec fn node_tag(tag: Seq<char>, attributes: Seq<(Seq<char>, Seq<char>)>) -> TagView {
    TagView { name: tag, classes: Seq::empty(), attributes, styles: Seq::empty() }
}

/// The rendered forms of the first `i` elements of `v`, concatenated.
pub open spec fn bodies_html(v: Vec<BodyElement>, i: nat) -> Seq<char>
    decreases v, i,
{
    if i == 0 || i > v.len() {
        Seq::empty()
    } else {
        bodies_html(v, (i - 1) as nat) + body_html(v[i - 1])
    }
}

/// The rendered forms of the first `i` elements of `v`, concatenated.
pub open spec fn raws_html(v: Vec<RawElement>, i: nat) -> Seq<char>
    decreases v, i,
{
    if i == 0 || i > v.len() {
        Seq::empty()
    } else {
        raws_html(v, (i - 1) as nat) + raw_html(v[i - 1])
    }
}

/// A rendered raw element.
pub open spec fn raw_html(r: RawElement) -> Seq<char>
    decreases r, 0nat,
{
    match r {
        RawElement::Comment(c) => comment_html(c),
        RawElement::Node(n) => open_html(node_tag(n.tag@, n.attributes@)) + bodies_html(
            n.children,
            n.children.len() as nat,
        ) + close_html(n.tag@),
        RawElement::Text(t) => t@,
    }
}

/// A rendered component.
pub open spec fn body_html(e: BodyElement) -> Seq<char>
    decreases e, 2nat,
{
    match e {
        BodyElement::NavbarLink(l) => l.html(),
        BodyElement::Table(t) => t.html(),
        BodyElement::Raw(r) => raw_html(r),
    }
}

/// Whether `r` is what `x` parses to as raw markup.
pub open spec fn raw_parsed(r: RawElement, x: XmlNode) -> bool
    decreases x, 0nat,
{
    match x {
        XmlNode::Comment(t) => r matches RawElement::Comment(c) && c.content@ == t@ && c.context is None,
        XmlNode::Text(t) => r matches RawElement::Text(s) && s@ == t@,
        XmlNode::Element(el) => match r {
            RawElement::Node(n) => {
                &&& n.tag@ == el.tag@
                &&& n.context is None
                &&& forall|k: Seq<char>| #[trigger]
                    lookup(n.attributes@, k) == lookup(element_pairs(el), k)
                &&& crate::attributes::names_unique(n.attributes@)
                &&& crate::attributes::names_unique(element_pairs(el)) ==> n.attributes@ == element_pairs(
                    el,
                )
                &&& n.children.len() == el.children.len()
                &&& forall|i: int|
                    0 <= i < el.children.len() ==> body_parsed(
                        #[trigger] n.children[i],
                        el.children[i],
                    )
            },
            _ => false,
        },
    }
}

/// Whether `e` is what `x` parses to as a component.
pub open spec fn body_parsed(e: BodyElement, x: XmlNode) -> bool
    decreases x, 1nat,
{
    match x {
        XmlNode::Element(el) => if el.tag@ == "mj-navbar-link"@ {
            e matches BodyElement::NavbarLink(l) && l.parsed_from(el) && forall|k: Seq<char>|
                #![trigger lookup(l.attributes@, k)]
                lookup(l.attributes@, k) == match lookup(element_pairs(el), k) {
                    Some(v) => Some(v),
                    None => padded_lookup(Seq::empty(), k),
                }
        } else if el.tag@ == "mj-table"@ {
            e matches BodyElement::Table(t) && t.parsed_from(el)
        } else {
            e matches BodyElement::Raw(r) && raw_parsed(r, x)
        },
        _ => e matches BodyElement::Raw(r) && raw_parsed(r, x),
    }
}

/// Without a context comments are kept. A comment renders to nothing when comments
/// are dropped or its text is empty, and to `<!--text-->` otherwise.
pub proof fn lemma_comment_suppression(c: CommentElement)
    ensures
        c.context is None ==> keeps_comments(c.context),
        (c.context matches Some(ctx) && !ctx.keep_comments) ==> comment_html(c) == Seq::<
            char,
        >::empty(),
        c.content@.len() == 0 ==> comment_html(c) == Seq::<char>::empty(),
        keeps_comments(c.context) && c.content@.len() > 0 ==> comment_html(c) == "<!--"@
            + c.content@ + "-->"@,
{
}

/// The rendered forms of the elements of `v`, in order.
pub open spec fn each_html(v: Vec<BodyElement>) -> Seq<Seq<char>> {
    Seq::new(v.len() as nat, |i: int| body_html(v[i]))
}

/// The rendered children are the rendering of each child, concatenated in order.
pub proof fn lemma_bodies_html_in_order(v: Vec<BodyElement>, i: nat)
    requires
        i <= v.len(),
    ensures
        bodies_html(v, i) == each_html(v).subrange(0, i as int).flatten(),
    decreases i,
{
    if i > 0 {
        lemma_bodies_html_in_order(v, (i - 1) as nat);
        let s = each_html(v).subrange(0, i as int);
        assert(s =~= each_html(v).subrange(0, i - 1).push(body_html(v[i - 1])));
        each_html(v).subrange(0, i - 1).lemma_flatten_push(body_html(v[i - 1]));
    } else {
        assert(each_html(v).subrange(0, 0) =~= Seq::<Seq<char>>::empty());
    }
}

/// Parsing an element that has no component and rendering it gives its tag, then
/// each of its attributes once with its value unchanged (every name once, the last
/// value where the source repeats a name, and exactly the source's pairs in source
/// order where it does not), then the rendering of each child parsed from the source
/// children, concatenated in source order, then the matching close tag.
pub proof fn lemma_passthrough_fidelity(x: XmlNode, r: RawElement)
    requires
        x is Element,
        raw_parsed(r, x),
    ensures
        r is Node,
        raw_html(r) == open_html(node_tag(x->Element_0.tag@, r->Node_0.attributes@))
            + each_html(r->Node_0.children).flatten() + close_html(x->Element_0.tag@),
        crate::attributes::names_unique(r->Node_0.attributes@),
        forall|k: Seq<char>| #[trigger]
            lookup(r->Node_0.attributes@, k) == lookup(element_pairs(x->Element_0), k),
        crate::attributes::names_unique(element_pairs(x->Element_0)) ==> r->Node_0.attributes@
            == element_pairs(x->Element_0),
        r->Node_0.children.len() == x->Element_0.children.len(),
        forall|i: int|
            0 <= i < x->Element_0.children.len() ==> body_parsed(
                #[trigger] r->Node_0.children[i],
                x->Element_0.children[i],
            ),
{
    let v = r->Node_0.children;
    lemma_bodies_html_in_order(v, v.len() as nat);
    assert(each_html(v).subrange(0, v.len() as int) =~= each_html(v));
}

/// A child of an element node is smaller than the node.
pub proof fn lemma_child_decreases(node: XmlNode, el: XmlElement, i: int)
    requires
        node == XmlNode::Element(el),
        0 <= i < el.children.len(),
    ensures
        decreases_to!(node => el.children@[i]),
{
    assert(decreases_to!(node => node->Element_0));
    assert(decreases_to!(el => el.children));
    assert(decreases_to!(el.children => el.children@));
    assert(decreases_to!(el.children@ => el.children@[i]));
}

impl Component for CommentElement {
    open spec fn context_view(&self) -> Option<Context> {
        self.context
    }

    open spec fn takes_context(&self) -> bool {
        true
    }

    open spec fn html_view(&self) -> Seq<char> {
        comment_html(*self)
    }

    open spec fn header_view(&self, h: Seq<Seq<char>>) -> Seq<Seq<char>> {
        h
    }

    fn context(&self) -> (r: Option<&Context>) {
        match &self.context {
            Some(c) => Some(c),
            None => None,
        }
    }

    fn set_context(&mut self, ctx: Context) {
        self.context = Some(ctx);
    }

    fn update_header(&self, header: &mut Header) {
    }

    /// `<!--text-->`, or nothing when comments are dropped or the text is empty.
    fn render(&self, header: &Header) -> (r: Result<String, Error>) {
        let keep_comments = match &self.context {
            Some(ctx) => ctx.keep_comments,
            None => true,
        };
        if !keep_comments || self.content.as_str().unicode_len() == 0 {
            return Ok(empty_str());
        }
        let mut r = String::from_str("<!--");
        r.append(self.content.as_str());
        r.append("-->");
        Ok(r)
    }
}

impl NodeElement {
    /// The opening tag with every attribute, the children in order, the closing tag.
    pub fn render_html(&self, header: &Header) -> (r: Result<String, Error>)
        ensures
            r matches Ok(s) && s@ == raw_html(RawElement::Node(*self)),
        decreases self, 0nat,
    {
        let mut tag = Tag::new(self.tag.as_str());
        assert(tag@.classes =~= Seq::empty());
        assert(tag@.styles =~= Seq::empty());
        assert(tag@.attributes =~= self.attributes@.subrange(0, 0));
        let n = self.attributes.len();
        let mut i: usize = 0;
        while i < n
            invariant
                n == self.attributes@.len(),
                i <= n,
                tag@ == node_tag(self.tag@, self.attributes@.subrange(0, i as int)),
            decreases n - i,
        {
            let (k, v) = self.attributes.entry(i);
            tag = tag.set_attribute(k, v);
            assert(tag@.attributes =~= self.attributes@.subrange(0, i + 1));
            i = i + 1;
        }
        assert(self.attributes@.subrange(0, n as int) =~= self.attributes@);
        let mut res = tag.open();
        let ghost head = res@;
        let m = self.children.len();
        let mut j: usize = 0;
        while j < m
            invariant
                m == self.children@.len(),
                j <= m,
                res@ == head + bodies_html(self.children, j as nat),
            decreases m - j,
        {
            match self.children[j].render_html(header) {
                Ok(s) => res.append(s.as_str()),
                Err(e) => {
                    return Err(e);
                },
            }
            j = j + 1;
        }
        let close = tag.close();
        res.append(close.as_str());
        Ok(res)
    }
}

impl Component for NodeElement {
    open spec fn context_view(&self) -> Option<Context> {
        self.context
    }

    open spec fn takes_context(&self) -> bool {
        true
    }

    open spec fn html_view(&self) -> Seq<char> {
        raw_html(RawElement::Node(*self))
    }

    open spec fn header_view(&self, h: Seq<Seq<char>>) -> Seq<Seq<char>> {
        h
    }

    fn context(&self) -> (r: Option<&Context>) {
        match &self.context {
            Some(c) => Some(c),
            None => None,
        }
    }

    fn set_context(&mut self, ctx: Context) {
        self.context = Some(ctx);
    }

    fn update_header(&self, header: &mut Header) {
    }

    fn render(&self, header: &Header) -> (r: Result<String, Error>) {
        self.render_html(header)
    }
}

impl ComponentWithAttributes for NodeElement {
    open spec fn default_view(&self, key: Seq<char>) -> Option<Seq<char>> {
        None
    }

    open spec fn source_view(&self) -> Option<Seq<(Seq<char>, Seq<char>)>> {
        Some(self.attributes@)
    }

    /// Passed-through elements have no defaults.
    fn default_attribute(&self, key: &str) -> (r: Option<String>) {
        None
    }

    fn source_attributes(&self) -> (r: Option<&Attributes>) {
        Some(&self.attributes)
    }
}

impl ComponentWithChildren for NodeElement {
    open spec fn children_view(&self) -> Seq<BodyElement> {
        self.children@
    }

    open spec fn width_view(&self) -> Option<Size> {
        match self.context {
            Some(c) => c.container_width,
            None => None,
        }
    }

    fn get_children(&self) -> (r: &Vec<BodyElement>) {
        &self.children
    }

    /// The width that the context gives.
    fn get_current_width(&self) -> (r: Option<Size>) {
        match &self.context {
            Some(c) => c.container_width,
            None => None,
        }
    }
}

impl RawElement {
    fn parse_comment(node: &XmlNode) -> (r: Result<RawElement, Error>)
        requires
            node is Comment,
        ensures
            r matches Ok(e) && raw_parsed(e, *node),
    {
        Ok(
            RawElement::Comment(
                CommentElement { content: crate::markup::get_node_text(node), context: None },
            ),
        )
    }

    fn parse_text(node: &XmlNode) -> (r: Result<RawElement, Error>)
        requires
            node is Text,
        ensures
            r matches Ok(e) && raw_parsed(e, *node),
    {
        Ok(RawElement::Text(crate::markup::get_node_text(node)))
    }

    fn parse_node(node: &XmlNode) -> (r: Result<RawElement, Error>)
        requires
            node is Element,
        ensures
            r matches Ok(e) && raw_parsed(e, *node),
        decreases node, 0nat,
    {
        let el = match node {
            XmlNode::Element(el) => el,
            _ => {
                return Err(Error::ParseError(empty_str()));
            },
        };
        let mut children: Vec<BodyElement> = Vec::new();
        let n = el.children.len();
        let mut i: usize = 0;
        while i < n
            invariant
                *node == XmlNode::Element(*el),
                n == el.children@.len(),
                i <= n,
                children@.len() == i,
                forall|j: int| 0 <= j < i ==> body_parsed(#[trigger] children@[j], el.children@[j]),
            decreases n - i,
        {
            proof {
                lemma_child_decreases(*node, *el, i as int);
            }
            match BodyElement::parse(&el.children[i]) {
                Ok(child) => children.push(child),
                Err(e) => {
                    return Err(e);
                },
            }
            i = i + 1;
        }
        let attributes = crate::markup::get_node_attributes(el);
        let tag = el.tag.clone();
        Ok(RawElement::Node(NodeElement { attributes, context: None, children, tag }))
    }

    /// Renders the element and, for an element node, its subtree.
    pub fn render_html(&self, header: &Header) -> (r: Result<String, Error>)
        ensures
            r matches Ok(s) && s@ == raw_html(*self),
        decreases self, 1nat,
    {
        match self {
            RawElement::Comment(comment) => comment.render(header),
            RawElement::Node(node) => node.render_html(header),
            RawElement::Text(content) => Ok(content.clone()),
        }
    }

    /// Reads any node as raw markup: a comment, a text, or an element re-emitted as
    /// written, whose children are read as components.
    pub fn parse(node: &XmlNode) -> (r: Result<RawElement, Error>)
        ensures
            r matches Ok(e) && raw_parsed(e, *node),
        decreases node, 1nat,
    {
        match node {
            XmlNode::Comment(_) => RawElement::parse_comment(node),
            XmlNode::Text(_) => RawElement::parse_text(node),
            XmlNode::Element(_) => RawElement::parse_node(node),
        }
    }
}

impl Component for RawElement {
    open spec fn context_view(&self) -> Option<Context> {
        match self {
            RawElement::Comment(e) => e.context,
            RawElement::Node(e) => e.context,
            RawElement::Text(_) => None,
        }
    }

    open spec fn takes_context(&self) -> bool {
        !(self is Text)
    }

    open spec fn html_view(&self) -> Seq<char> {
        raw_html(*self)
    }

    open spec fn header_view(&self, h: Seq<Seq<char>>) -> Seq<Seq<char>> {
        h
    }

    fn context(&self) -> (r: Option<&Context>) {
        match self {
            RawElement::Comment(comment) => comment.context(),
            RawElement::Node(node) => node.context(),
            RawElement::Text(_) => None,
        }
    }

    fn set_context(&mut self, ctx: Context) {
        match self {
            RawElement::Comment(comment) => comment.set_context(ctx),
            RawElement::Node(node) => node.set_context(ctx),
            RawElement::Text(_) => (),
        };
    }

    fn update_header(&self, header: &mut Header) {
    }

    fn render(&self, header: &Header) -> (r: Result<String, Error>) {
        self.render_html(header)
    }
}

impl ComponentWithAttributes for RawElement {
    open spec fn default_view(&self, key: Seq<char>) -> Option<Seq<char>> {
        None
    }

    open spec fn source_view(&self) -> Option<Seq<(Seq<char>, Seq<char>)>> {
        match self {
            RawElement::Node(n) => Some(n.attributes@),
            _ => None,
        }
    }

    /// Raw markup has no defaults.
    fn default_attribute(&self, key: &str) -> (r: Option<String>) {
        None
    }

    /// The attributes of an element; comments and text have none.
    fn source_attributes(&self) -> (r: Option<&Attributes>) {
        match self {
            RawElement::Node(node) => Some(&node.attributes),
            _ => None,
        }
    }
}


/// Reads markup text and parses its root element into a component tree.
pub fn parse_markup(text: &str) -> (r: Result<BodyElement, Error>)
    ensures
        markup_root(text@) is None ==> r matches Err(Error::MarkupError(_)),
        markup_root(text@) matches Some(x) ==> r matches Ok(e) && body_parsed(e, x),
{
    match crate::markup::read_markup(text) {
        Ok(el) => {
            let node = XmlNode::Element(el);
            let r = BodyElement::parse(&node);
            r
        },
        Err(e) => Err(e),
    }
}

impl BodyElement {
    /// Reads a node: `mj-navbar-link` and `mj-table` elements become their
    /// components, anything else passes through as raw markup.
    pub fn parse(node: &XmlNode) -> (r: Result<BodyElement, Error>)
        ensures
            r matches Ok(e) && body_parsed(e, *node),
        decreases node, 2nat,
    {
        if let XmlNode::Element(el) = node {
            if str_eq(el.tag.as_str(), "mj-navbar-link") {
                return match MJNavbarLink::parse(node, None) {
                    Ok(l) => Ok(BodyElement::NavbarLink(l)),
                    Err(e) => Err(e),
                };
            }
            if str_eq(el.tag.as_str(), "mj-table") {
                return match MJTable::parse(node) {
                    Ok(t) => Ok(BodyElement::Table(t)),
                    Err(e) => Err(e),
                };
            }
        }
        match RawElement::parse(node) {
            Ok(r) => Ok(BodyElement::Raw(r)),
            Err(e) => Err(e),
        }
    }

    /// Renders the component and its subtree.
    pub fn render_html(&self, header: &Header) -> (r: Result<String, Error>)
        ensures
            r matches Ok(s) && s@ == body_html(*self),
        decreases self, 2nat,
    {
        match self {
            BodyElement::NavbarLink(l) => l.render(header),
            BodyElement::Table(t) => t.render_html(header),
            BodyElement::Raw(r) => r.render_html(header),
        }
    }
}

impl Component for BodyElement {
    open spec fn context_view(&self) -> Option<Context> {
        match self {
            BodyElement::NavbarLink(l) => l.context,
            BodyElement::Table(t) => t.context,
            BodyElement::Raw(r) => r.context_view(),
        }
    }

    open spec fn takes_context(&self) -> bool {
        match self {
            BodyElement::Raw(r) => r.takes_context(),
            _ => true,
        }
    }

    open spec fn html_view(&self) -> Seq<char> {
        body_html(*self)
    }

    open spec fn header_view(&self, h: Seq<Seq<char>>) -> Seq<Seq<char>> {
        match self {
            BodyElement::NavbarLink(l) => l.header_view(h),
            BodyElement::Table(t) => t.header_view(h),
            BodyElement::Raw(_) => h,
        }
    }

    fn context(&self) -> (r: Option<&Context>) {
        match self {
            BodyElement::NavbarLink(l) => l.context(),
            BodyElement::Table(t) => t.context(),
            BodyElement::Raw(r) => r.context(),
        }
    }

    fn set_context(&mut self, ctx: Context) {
        match self {
            BodyElement::NavbarLink(l) => l.set_context(ctx),
            BodyElement::Table(t) => t.set_context(ctx),
            BodyElement::Raw(r) => r.set_context(ctx),
        }
    }

    /// Registers what the component needs with the header.
    fn update_header(&self, header: &mut Header) {
        match self {
            BodyElement::NavbarLink(l) => l.update_header(header),
            BodyElement::Table(t) => t.update_header(header),
            BodyElement::Raw(_) => (),
        }
    }

    fn render(&self, header: &Header) -> (r: Result<String, Error>) {
        self.render_html(header)
    }
}

} // verus!
