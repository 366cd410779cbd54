//! The capabilities that every kind of component offers: context, header and
//! rendering; attribute resolution; sizes; children.
use vstd::prelude::*;
use crate::attributes::{lookup, Attributes};
use crate::body::BodyElement;
use crate::context::{size_of, Context, Error, Header, Size};
use crate::tag::opt_view;

verus! {

/// The source value of `key`, when there are source attributes.
pub open spec fn source_lookup(source: Option<Seq<(Seq<char>, Seq<char>)>>, key: Seq<char>) -> Option<
    Seq<char>,
> {
    match source {
        Some(s) => lookup(s, key),
        None => None,
    }
}

/// The effective value of `key`: the source value, else `default`.
pub open spec fn cascade(
    source: Option<Seq<(Seq<char>, Seq<char>)>>,
    default: Option<Seq<char>>,
    key: Seq<char>,
) -> Option<Seq<char>> {
    match source_lookup(source, key) {
        Some(v) => Some(v),
        None => default,
    }
}

/// How many elements of `s` are raw markup.
pub open spec fn raw_count(s: Seq<BodyElement>) -> nat
    decreases s.len(),
{
    if s.len() == 0 {
        0
    } else {
        raw_count(s.drop_last()) + if s.last() is Raw {
            1nat
        } else {
            0nat
        }
    }
}

pub trait Component: Sized {
    /// The context held, once one is set.
    spec fn context_view(&self) -> Option<Context>;

    /// Whether the component keeps a context that is set on it.
    spec fn takes_context(&self) -> bool;

    /// The HTML that the component renders to.
    spec fn html_view(&self) -> Seq<char>;

    /// The header's font families once this component registered its needs with `h`.
    spec fn header_view(&self, h: Seq<Seq<char>>) -> Seq<Seq<char>>;

    fn context(&self) -> (r: Option<&Context>)
        ensures
            r matches Some(c) ==> self.context_view() == Some(*c),
            r is None ==> self.context_view() is None,
    ;

    fn set_context(&mut self, ctx: Context)
        ensures
            old(self).takes_context() ==> final(self).context_view() == Some(ctx),
            !old(self).takes_context() ==> *final(self) == *old(self),
    ;

    fn update_header(&self, header: &mut Header)
        ensures
            final(header)@ == self.header_view(old(header)@),
    ;

    fn render(&self, header: &Header) -> (r: Result<String, Error>)
        ensures
            r matches Ok(s) && s@ == self.html_view(),
    ;
}

pub trait ComponentWithAttributes: Component {
    /// The component kind's default for `key`.
    spec fn default_view(&self, key: Seq<char>) -> Option<Seq<char>>;

    /// The source attributes, for kinds that have them.
    spec fn source_view(&self) -> Option<Seq<(Seq<char>, Seq<char>)>>;

    fn default_attribute(&self, key: &str) -> (r: Option<String>)
        ensures
            opt_view(r) == self.default_view(key@),
    ;

    fn source_attributes(&self) -> (r: Option<&Attributes>)
        ensures
            r matches Some(a) ==> self.source_view() == Some(a@),
            r is None ==> self.source_view() is None,
    ;

    /// The value of `key` among the source attributes alone.
    fn get_source_attribute(&self, key: &str) -> (r: Option<String>)
        ensures
            opt_view(r) == source_lookup(self.source_view(), key@),
    {
        match self.source_attributes() {
            Some(a) => a.get(key),
            None => None,
        }
    }

    /// The effective value of `key`: the source attribute, else the default, else absent.
    fn get_attribute(&self, key: &str) -> (r: Option<String>)
        ensures
            opt_view(r) == cascade(self.source_view(), self.default_view(key@), key@),
    {
        match self.get_source_attribute(key) {
            Some(v) => Some(v),
            None => self.default_attribute(key),
        }
    }
}

pub trait ComponentWithSizeAttribute: ComponentWithAttributes {
    /// The effective value of `name` read as a size; absent or unreadable gives `None`.
    fn get_size_attribute(&self, name: &str) -> (r: Option<Size>)
        ensures
            r == match cascade(self.source_view(), self.default_view(name@), name@) {
                Some(v) => size_of(v),
                None => None,
            },
    {
        match self.get_attribute(name) {
            Some(v) => Size::parse(v.as_str()),
            None => None,
        }
    }
}

pub trait ComponentWithChildren: Component {
    /// The children, in order.
    spec fn children_view(&self) -> Seq<BodyElement>;

    /// The width available to the children.
    spec fn width_view(&self) -> Option<Size>;

    fn get_children(&self) -> (r: &Vec<BodyElement>)
        ensures
            r@ == self.children_view(),
    ;

    fn get_current_width(&self) -> (r: Option<Size>)
        ensures
            r == self.width_view(),
    ;

    /// Number of children.
    fn get_siblings(&self) -> (r: usize)
        ensures
            r == self.children_view().len(),
    {
        self.get_children().len()
    }

    /// Number of children that are raw markup.
    fn get_raw_siblings(&self) -> (r: usize)
        ensures
            r == raw_count(self.children_view()),
    {
        let children = self.get_children();
        let n = children.len();
        let mut res: usize = 0;
        let mut i: usize = 0;
        while i < n
            invariant
                n == children@.len(),
                i <= n,
                res == raw_count(children@.subrange(0, i as int)),
                res <= i,
            decreases n - i,
        {
            assert(children@.subrange(0, i + 1).drop_last() =~= children@.subrange(0, i as int));
            if let BodyElement::Raw(_) = &children[i] {
                res = res + 1;
            }
            i = i + 1;
        }
        assert(children@.subrange(0, n as int) =~= children@);
        res
    }
}

} // verus!
