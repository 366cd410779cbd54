//! Small verified helpers on strings.
use vstd::prelude::*;
use vstd::string::*;

verus! {

/// Character-wise equality of two strings.
pub fn str_eq(a: &str, b: &str) -> (r: bool)
    ensures
        r == (a@ == b@),
{
    let n = a.unicode_len();
    let m = b.unicode_len();
    if n != m {
        return false;
    }
    let mut i: usize = 0;
    while i < n
        invariant
            n == a@.len(),
            m == b@.len(),
            n == m,
            i <= n,
            forall|j: int| 0 <= j < i ==> a@[j] == b@[j],
        decreases n - i,
    {
        if a.get_char(i) != b.get_char(i) {
            return false;
        }
        i = i + 1;
    }
    assert(a@ =~= b@);
    true
}

/// `s` with every space replaced by `-suffix ` (one suffixed name per space-separated piece).
pub open spec fn suffix_spaces(s: Seq<char>, suffix: Seq<char>) -> Seq<char>
    decreases s.len(),
{
    if s.len() == 0 {
        Seq::empty()
    } else if s.last() == ' ' {
        suffix_spaces(s.drop_last(), suffix) + seq!['-'] + suffix + seq![' ']
    } else {
        suffix_spaces(s.drop_last(), suffix).push(s.last())
    }
}

/// Each space-separated class name of `classes`, followed by `-suffix`.
pub open spec fn suffixed_classes(classes: Seq<char>, suffix: Seq<char>) -> Seq<char> {
    suffix_spaces(classes, suffix) + seq!['-'] + suffix
}

/// Appends `-suffix` to every space-separated class name of `classes`.
pub fn suffix_css_classes(classes: Option<String>, suffix: &str) -> (r: Option<String>)
    ensures
        classes is None ==> r is None,
        classes matches Some(c) ==> r matches Some(s) && s@ == suffixed_classes(c@, suffix@),
{
    match classes {
        None => None,
        Some(c) => {
            let cs = c.as_str();
            let n = cs.unicode_len();
            let mut res = String::new();
            let mut start: usize = 0;
            let mut i: usize = 0;
            proof {
                reveal_strlit("-");
                reveal_strlit(" ");
            }
            while i < n
                invariant
                    n == cs@.len(),
                    cs@ == c@,
                    start <= i <= n,
                    res@ + cs@.subrange(start as int, i as int) == suffix_spaces(
                        cs@.subrange(0, i as int),
                        suffix@,
                    ),
                    "-"@ == seq!['-'],
                    " "@ == seq![' '],
                decreases n - i,
            {
                let ch = cs.get_char(i);
                assert(cs@.subrange(0, i + 1).drop_last() =~= cs@.subrange(0, i as int));
                if ch == ' ' {
                    res.append(cs.substring_char(start, i));
                    res.append("-");
                    res.append(suffix);
                    res.append(" ");
                    start = i + 1;
                    assert(res@ + cs@.subrange(start as int, i + 1) =~= suffix_spaces(
                        cs@.subrange(0, i + 1),
                        suffix@,
                    ));
                } else {
                    assert(cs@.subrange(start as int, i + 1) =~= cs@.subrange(
                        start as int,
                        i as int,
                    ).push(ch));
                    assert(res@ + cs@.subrange(start as int, i + 1) =~= suffix_spaces(
                        cs@.subrange(0, i + 1),
                        suffix@,
                    ));
                }
                i = i + 1;
            }
            res.append(cs.substring_char(start, n));
            res.append("-");
            res.append(suffix);
            assert(cs@.subrange(0, n as int) =~= c@);
            assert(res@ =~= suffixed_classes(c@, suffix@));
            Some(res)
        },
    }
}

} // verus!
