//! Ambient rendering state (`Context`), the shared `Header` accumulator, sizes and errors.
use vstd::prelude::*;
use vstd::string::*;
use crate::text::str_eq;

verus! {

/// Why a document could not be turned into components.
#[derive(Clone, Debug)]
pub enum Error {
    /// A component's parse routine met a node with another tag name; holds a message
    /// that names the offending tag.
    ParseError(String),
    /// The markup text is not well-formed; holds the parser's message.
    MarkupError(String),
}

/// The unit of a size value.
#[derive(Clone, Copy, Debug, PartialEq, Eq, Structural)]
pub enum SizeUnit {
    Pixel,
    Percent,
    Raw,
}

/// A size such as `13px`, `100%` or `4`.
#[derive(Clone, Copy, Debug, PartialEq, Eq, Structural)]
pub struct Size {
    pub value: u32,
    pub unit: SizeUnit,
}

pub open spec fn is_digit(c: char) -> bool {
    '0' <= c <= '9'
}

/// The number written by the decimal digits `s`.
pub open spec fn digits_value(s: Seq<char>) -> nat
    decreases s.len(),
{
    if s.len() == 0 {
        0
    } else {
        digits_value(s.drop_last()) * 10 + (s.last() as nat - '0' as nat) as nat
    }
}

/// The size written by digits alone.
pub open spec fn number_of(s: Seq<char>) -> Option<nat> {
    if s.len() > 0 && (forall|i: int| 0 <= i < s.len() ==> is_digit(#[trigger] s[i])) && digits_value(s)
        <= u32::MAX {
        Some(digits_value(s))
    } else {
        None
    }
}

/// The size that `s` writes: digits, then `px`, `%` or nothing.
pub open spec fn size_of(s: Seq<char>) -> Option<Size> {
    if s.len() >= 2 && s.subrange(s.len() - 2, s.len() as int) == "px"@ {
        match number_of(s.subrange(0, s.len() - 2)) {
            Some(v) => Some(Size { value: v as u32, unit: SizeUnit::Pixel }),
            None => None,
        }
    } else if s.len() >= 1 && s.last() == '%' {
        match number_of(s.drop_last()) {
            Some(v) => Some(Size { value: v as u32, unit: SizeUnit::Percent }),
            None => None,
        }
    } else {
        match number_of(s) {
            Some(v) => Some(Size { value: v as u32, unit: SizeUnit::Raw }),
            None => None,
        }
    }
}

fn parse_number(s: &str, end: usize) -> (r: Option<u32>)
    requires
        end <= s@.len(),
    ensures
        r matches Some(v) ==> number_of(s@.subrange(0, end as int)) == Some(v as nat),
        r is None ==> number_of(s@.subrange(0, end as int)) is None,
{
    if end == 0 {
        return None;
    }
    let mut value: u32 = 0;
    let mut i: usize = 0;
    while i < end
        invariant
            end <= s@.len(),
            i <= end,
            forall|j: int| 0 <= j < i ==> is_digit(#[trigger] s@[j]),
            value as nat == digits_value(s@.subrange(0, i as int)),
        decreases end - i,
    {
        let c = s.get_char(i);
        assert(s@.subrange(0, i + 1).drop_last() =~= s@.subrange(0, i as int));
        if !('0' <= c && c <= '9') {
            assert(!is_digit(s@.subrange(0, end as int)[i as int]));
            return None;
        }
        let d = (c as u32) - ('0' as u32);
        if value > (u32::MAX - d) / 10 {
            proof {
                assert(value * 10 + d > u32::MAX) by (nonlinear_arith)
                    requires value > (u32::MAX - d) / 10, d <= 9;
                lemma_digits_grow(s@.subrange(0, end as int), i + 1);
                assert(s@.subrange(0, end as int).subrange(0, i + 1) =~= s@.subrange(0, i + 1));
            }
            return None;
        }
        value = value * 10 + d;
        i = i + 1;
    }
    assert(s@.subrange(0, end as int).subrange(0, end as int) =~= s@.subrange(0, end as int));
    Some(value)
}

proof fn lemma_digits_grow(s: Seq<char>, k: int)
    requires
        0 <= k <= s.len(),
    ensures
        digits_value(s.subrange(0, k)) <= digits_value(s),
    decreases s.len(),
{
    if k < s.len() {
        assert(s.drop_last().subrange(0, k) =~= s.subrange(0, k));
        lemma_digits_grow(s.drop_last(), k);
        let x = digits_value(s.drop_last());
        assert(x * 10 + (s.last() as nat - '0' as nat) as nat >= x) by (nonlinear_arith);
    } else {
        assert(s.subrange(0, k) =~= s);
    }
}

impl Size {
    /// Reads a size; text that is no size gives `None`.
    pub fn parse(s: &str) -> (r: Option<Size>)
        ensures
            r == size_of(s@),
    {
        let n = s.unicode_len();
        proof {
            reveal_strlit("px");
        }
        if n >= 2 && s.get_char(n - 2) == 'p' && s.get_char(n - 1) == 'x' {
            assert(s@.subrange(n - 2, n as int) =~= "px"@);
            match parse_number(s, n - 2) {
                Some(v) => Some(Size { value: v, unit: SizeUnit::Pixel }),
                None => None,
            }
        } else if n >= 1 && s.get_char(n - 1) == '%' {
            assert(n >= 2 ==> s@.subrange(n - 2, n as int) != "px"@) by {
                if n >= 2 && s@.subrange(n - 2, n as int) == "px"@ {
                    assert(s@.subrange(n - 2, n as int)[1] == s@[n - 1]);
                }
            }
            assert(s@.drop_last() =~= s@.subrange(0, n - 1));
            match parse_number(s, n - 1) {
                Some(v) => Some(Size { value: v, unit: SizeUnit::Percent }),
                None => None,
            }
        } else {
            assert(n >= 2 ==> s@.subrange(n - 2, n as int) != "px"@) by {
                if n >= 2 && s@.subrange(n - 2, n as int) == "px"@ {
                    assert(s@.subrange(n - 2, n as int)[0] == s@[n - 2]);
                    assert(s@.subrange(n - 2, n as int)[1] == s@[n - 1]);
                }
            }
            assert(s@.subrange(0, n as int) =~= s@);
            match parse_number(s, n) {
                Some(v) => Some(Size { value: v, unit: SizeUnit::Raw }),
                None => None,
            }
        }
    }
}

/// Read-only rendering state handed down the component tree.
#[derive(Clone, Copy, Debug)]
pub struct Context {
    /// Whether comments of the source markup are kept in the output.
    pub keep_comments: bool,
    /// The width available to the element, when known.
    pub container_width: Option<Size>,
}

impl Context {
    pub fn new(keep_comments: bool, container_width: Option<Size>) -> (r: Context)
        ensures
            r.keep_comments == keep_comments,
            r.container_width == container_width,
    {
        Context { keep_comments, container_width }
    }
}

/// The font families of `h` once `name`, when present, is added.
pub open spec fn header_with(h: Seq<Seq<char>>, name: Option<Seq<char>>) -> Seq<Seq<char>> {
    match name {
        Some(n) => if h.contains(n) {
            h
        } else {
            h.push(n)
        },
        None => h,
    }
}

/// Document-wide needs collected while the tree renders: the font families in use,
/// each name once.
#[derive(Clone, Debug)]
pub struct Header {
    font_families: Vec<String>,
}

impl View for Header {
    type V = Seq<Seq<char>>;

    closed spec fn view(&self) -> Seq<Seq<char>> {
        self.font_families@.map_values(|f: String| f@)
    }
}

impl Header {
    /// A header with no font family.
    pub fn new() -> (r: Header)
        ensures
            r@.len() == 0,
    {
        Header { font_families: Vec::new() }
    }

    /// Number of font families collected.
    pub fn len(&self) -> (r: usize)
        ensures
            r == self@.len(),
    {
        self.font_families.len()
    }

    /// Whether `name` was added.
    pub fn has_font_family(&self, name: &str) -> (r: bool)
        ensures
            r == self@.contains(name@),
    {
        let n = self.font_families.len();
        let mut i: usize = 0;
        while i < n
            invariant
                n == self@.len(),
                i <= n,
                forall|j: int| 0 <= j < i ==> self@[j] != name@,
            decreases n - i,
        {
            if str_eq(self.font_families[i].as_str(), name) {
                assert(self@[i as int] == name@);
                return true;
            }
            i = i + 1;
        }
        false
    }

    /// Adds `name` unless it is there already.
    pub fn add_font_family(&mut self, name: &str)
        ensures
            old(self)@.contains(name@) ==> final(self)@ == old(self)@,
            !old(self)@.contains(name@) ==> final(self)@ == old(self)@.push(name@),
    {
        if !self.has_font_family(name) {
            let ghost s = self@;
            self.font_families.push(String::from_str(name));
            assert(self@ =~= s.push(name@));
        }
    }

    /// Adds `name` when it is present.
    pub fn maybe_add_font_families(&mut self, name: Option<String>)
        ensures
            final(self)@ == header_with(old(self)@, crate::tag::opt_view(name)),
    {
        if let Some(n) = name {
            self.add_font_family(n.as_str());
        }
    }
}

} // verus!
