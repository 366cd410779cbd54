//! An accumulator for one HTML element: its classes, attributes and inline styles.
use vstd::prelude::*;
use vstd::string::*;
use crate::attributes::pairs_view;

verus! {

/// What a `Tag` holds, as plain sequences, in the order things were set.
pub struct TagView {
    pub name: Seq<char>,
    pub classes: Seq<Seq<char>>,
    pub attributes: Seq<(Seq<char>, Seq<char>)>,
    pub styles: Seq<(Seq<char>, Seq<char>)>,
}

/// ` k="v"` for each pair, in order.
pub open spec fn attributes_html(s: Seq<(Seq<char>, Seq<char>)>) -> Seq<char>
    decreases s.len(),
{
    if s.len() == 0 {
        Seq::empty()
    } else {
        attributes_html(s.drop_last()) + " "@ + s.last().0 + "=\""@ + s.last().1 + "\""@
    }
}

/// `k:v;` for each pair, in order.
pub open spec fn styles_list(s: Seq<(Seq<char>, Seq<char>)>) -> Seq<char>
    decreases s.len(),
{
    if s.len() == 0 {
        Seq::empty()
    } else {
        styles_list(s.drop_last()) + s.last().0 + ":"@ + s.last().1 + ";"@
    }
}

/// The names joined by single spaces.
pub open spec fn classes_list(s: Seq<Seq<char>>) -> Seq<char>
    decreases s.len(),
{
    if s.len() == 0 {
        Seq::empty()
    } else if s.len() == 1 {
        s[0]
    } else {
        classes_list(s.drop_last()) + " "@ + s.last()
    }
}

pub open spec fn classes_html(s: Seq<Seq<char>>) -> Seq<char> {
    if s.len() == 0 {
        Seq::empty()
    } else {
        " class=\""@ + classes_list(s) + "\""@
    }
}

pub open spec fn styles_html(s: Seq<(Seq<char>, Seq<char>)>) -> Seq<char> {
    if s.len() == 0 {
        Seq::empty()
    } else {
        " style=\""@ + styles_list(s) + "\""@
    }
}

/// The opening tag: name, then classes, attributes and styles.
pub open spec fn open_html(t: TagView) -> Seq<char> {
    "<"@ + t.name + classes_html(t.classes) + attributes_html(t.attributes) + styles_html(t.styles)
        + ">"@
}

pub open spec fn close_html(name: Seq<char>) -> Seq<char> {
    "</"@ + name + ">"@
}

/// A pair appended when the value is present.
pub open spec fn maybe_pair(key: Seq<char>, value: Option<Seq<char>>) -> Seq<(Seq<char>, Seq<char>)> {
    match value {
        Some(v) => seq![(key, v)],
        None => Seq::empty(),
    }
}

pub open spec fn opt_view(o: Option<String>) -> Option<Seq<char>> {
    match o {
        Some(s) => Some(s@),
        None => None,
    }
}

pub open spec fn conditional_html(fragment: Seq<char>) -> Seq<char> {
    "<!--[if mso | IE]>"@ + fragment + "<![endif]-->"@
}

/// Wraps `fragment` so that only Outlook's rendering engine reads it.
pub fn conditional_tag(fragment: &str) -> (r: String)
    ensures
        r@ == conditional_html(fragment@),
{
    let mut r = String::from_str("<!--[if mso | IE]>");
    r.append(fragment);
    r.append("<![endif]-->");
    r
}

pub struct Tag {
    name: String,
    classes: Vec<String>,
    attributes: Vec<(String, String)>,
    styles: Vec<(String, String)>,
}

impl View for Tag {
    type V = TagView;

    closed spec fn view(&self) -> TagView {
        TagView {
            name: self.name@,
            classes: self.classes@.map_values(|c: String| c@),
            attributes: pairs_view(self.attributes@),
            styles: pairs_view(self.styles@),
        }
    }
}

impl Tag {
    /// An element named `name` with nothing set.
    pub fn new(name: &str) -> (r: Tag)
        ensures
            r@.name == name@,
            r@.classes.len() == 0,
            r@.attributes.len() == 0,
            r@.styles.len() == 0,
    {
        Tag {
            name: String::from_str(name),
            classes: Vec::new(),
            attributes: Vec::new(),
            styles: Vec::new(),
        }
    }

    /// A table cell.
    pub fn td() -> (r: Tag)
        ensures
            r@.name == "td"@,
            r@.classes.len() == 0,
            r@.attributes.len() == 0,
            r@.styles.len() == 0,
    {
        Tag::new("td")
    }

    pub fn set_attribute(self, key: &str, value: &str) -> (r: Tag)
        ensures
            r@ == (TagView { attributes: self@.attributes.push((key@, value@)), ..self@ }),
    {
        let mut t = self;
        t.attributes.push((String::from_str(key), String::from_str(value)));
        proof {
            assert(t@.attributes =~= self@.attributes.push((key@, value@)));
            assert(t@.classes =~= self@.classes);
            assert(t@.styles =~= self@.styles);
        }
        t
    }

    pub fn maybe_set_attribute(self, key: &str, value: Option<String>) -> (r: Tag)
        ensures
            r@ == (TagView {
                attributes: self@.attributes + maybe_pair(key@, opt_view(value)),
                ..self@
            }),
    {
        match value {
            Some(v) => {
                let r = self.set_attribute(key, v.as_str());
                assert(r@.attributes =~= self@.attributes + maybe_pair(key@, opt_view(Some(v))));
                r
            },
            None => {
                assert(self@.attributes =~= self@.attributes + maybe_pair(key@, None));
                self
            },
        }
    }

    pub fn set_style(self, key: &str, value: &str) -> (r: Tag)
        ensures
            r@ == (TagView { styles: self@.styles.push((key@, value@)), ..self@ }),
    {
        let mut t = self;
        t.styles.push((String::from_str(key), String::from_str(value)));
        proof {
            assert(t@.styles =~= self@.styles.push((key@, value@)));
            assert(t@.classes =~= self@.classes);
            assert(t@.attributes =~= self@.attributes);
        }
        t
    }

    pub fn maybe_set_style(self, key: &str, value: Option<String>) -> (r: Tag)
        ensures
            r@ == (TagView { styles: self@.styles + maybe_pair(key@, opt_view(value)), ..self@ }),
    {
        match value {
            Some(v) => {
                let r = self.set_style(key, v.as_str());
                assert(r@.styles =~= self@.styles + maybe_pair(key@, opt_view(Some(v))));
                r
            },
            None => {
                assert(self@.styles =~= self@.styles + maybe_pair(key@, None));
                self
            },
        }
    }

    pub fn set_class(self, name: &str) -> (r: Tag)
        ensures
            r@ == (TagView { classes: self@.classes.push(name@), ..self@ }),
    {
        let mut t = self;
        t.classes.push(String::from_str(name));
        proof {
            assert(t@.classes =~= self@.classes.push(name@));
            assert(t@.attributes =~= self@.attributes);
            assert(t@.styles =~= self@.styles);
        }
        t
    }

    pub fn maybe_set_class(self, name: Option<String>) -> (r: Tag)
        ensures
            r@ == (TagView {
                classes: match name {
                    Some(n) => self@.classes.push(n@),
                    None => self@.classes,
                },
                ..self@
            }),
    {
        match name {
            Some(n) => self.set_class(n.as_str()),
            None => self,
        }
    }

    /// The opening tag alone.
    pub fn open(&self) -> (r: String)
        ensures
            r@ == open_html(self@),
    {
        let mut r = String::from_str("<");
        r.append(self.name.as_str());
        let n = self.classes.len();
        if n > 0 {
            r.append(" class=\"");
            let ghost pre = r@;
            let mut i: usize = 0;
            while i < n
                invariant
                    n == self.classes@.len(),
                    i <= n,
                    r@ == pre + classes_list(self@.classes.subrange(0, i as int)),
                decreases n - i,
            {
                let ghost before = r@;
                if i > 0 {
                    r.append(" ");
                }
                r.append(self.classes[i].as_str());
                proof {
                    let s = self@.classes.subrange(0, i + 1);
                    assert(s.drop_last() =~= self@.classes.subrange(0, i as int));
                    if i == 0 {
                        assert(before =~= pre);
                        assert(r@ =~= pre + s[0]);
                    } else {
                        assert(r@ =~= before + " "@ + s.last());
                    }
                }
                i = i + 1;
            }
            r.append("\"");
            assert(self@.classes.subrange(0, n as int) =~= self@.classes);
        }
        let ghost after_classes = r@;
        assert(after_classes == "<"@ + self@.name + classes_html(self@.classes));
        let m = self.attributes.len();
        let mut i: usize = 0;
        while i < m
            invariant
                m == self.attributes@.len(),
                i <= m,
                r@ == after_classes + attributes_html(self@.attributes.subrange(0, i as int)),
            decreases m - i,
        {
            let e = &self.attributes[i];
            r.append(" ");
            r.append(e.0.as_str());
            r.append("=\"");
            r.append(e.1.as_str());
            r.append("\"");
            proof {
                let s = self@.attributes.subrange(0, i + 1);
                assert(s.drop_last() =~= self@.attributes.subrange(0, i as int));
            }
            i = i + 1;
        }
        assert(self@.attributes.subrange(0, m as int) =~= self@.attributes);
        let p = self.styles.len();
        if p > 0 {
            r.append(" style=\"");
            let ghost pre = r@;
            let mut j: usize = 0;
            while j < p
                invariant
                    p == self.styles@.len(),
                    j <= p,
                    r@ == pre + styles_list(self@.styles.subrange(0, j as int)),
                decreases p - j,
            {
                let e = &self.styles[j];
                r.append(e.0.as_str());
                r.append(":");
                r.append(e.1.as_str());
                r.append(";");
                proof {
                    let s = self@.styles.subrange(0, j + 1);
                    assert(s.drop_last() =~= self@.styles.subrange(0, j as int));
                }
                j = j + 1;
            }
            r.append("\"");
            assert(self@.styles.subrange(0, p as int) =~= self@.styles);
        }
        r.append(">");
        r
    }

    /// The closing tag alone.
    pub fn close(&self) -> (r: String)
        ensures
            r@ == close_html(self@.name),
    {
        let mut r = String::from_str("</");
        r.append(self.name.as_str());
        r.append(">");
        r
    }

    /// The whole element around `inner`.
    pub fn render(&self, inner: &str) -> (r: String)
        ensures
            r@ == open_html(self@) + inner@ + close_html(self@.name),
    {
        let mut r = self.open();
        r.append(inner);
        let c = self.close();
        r.append(c.as_str());
        r
    }
}

} // verus!
