//! The host name reported with traffic records.
use vstd::prelude::*;
use crate::text::{chars_of, slice_of, string_from_chars};

verus! {

/// Index of the first `:` at or after `i`, or the length when there is none.
pub open spec fn colon_from(s: Seq<char>, i: int) -> int
    decreases s.len() - i,
{
    if i >= s.len() {
        s.len() as int
    } else if s[i] == ':' {
        i
    } else {
        colon_from(s, i + 1)
    }
}

/// `s` without any `:port` suffix.
pub open spec fn without_port(s: Seq<char>) -> Seq<char> {
    s.subrange(0, colon_from(s, 0))
}

/// Scanning `h[..i]` from the right having passed `dots` dots, where the
/// kept suffix begins: just after the third dot from the right, or at 0.
pub open spec fn labels_start(h: Seq<char>, i: int, dots: nat) -> int
    decreases i,
{
    if i <= 0 {
        0
    } else if h[i - 1] == '.' {
        if dots >= 2 {
            i
        } else {
            labels_start(h, i - 1, dots + 1)
        }
    } else {
        labels_start(h, i - 1, dots)
    }
}

/// The canonical host: port removed, at most the three rightmost labels kept.
pub open spec fn canonical_host(s: Seq<char>) -> Seq<char> {
    let h = without_port(s);
    h.subrange(labels_start(h, h.len() as int, 0), h.len() as int)
}

proof fn lemma_colon_from_bounds(s: Seq<char>, i: int)
    requires
        0 <= i <= s.len(),
    ensures
        i <= colon_from(s, i) <= s.len(),
    decreases s.len() - i,
{
    if i < s.len() && s[i] != ':' {
        lemma_colon_from_bounds(s, i + 1);
    }
}

proof fn lemma_labels_start_bounds(h: Seq<char>, i: int, dots: nat)
    requires
        0 <= i <= h.len(),
    ensures
        0 <= labels_start(h, i, dots) <= i,
    decreases i,
{
    if i > 0 {
        if h[i - 1] == '.' {
            if dots < 2 {
                lemma_labels_start_bounds(h, i - 1, dots + 1);
            }
        } else {
            lemma_labels_start_bounds(h, i - 1, dots);
        }
    }
}

/// The host name under which traffic is reported: any `:port` suffix is
/// dropped and only the rightmost three dot-separated labels are kept.
pub fn format_hostname(host: &str) -> (r: String)
    ensures
        r@ == canonical_host(host@),
{
    let cs = chars_of(host);
    let mut end: usize = 0;
    while end < cs.len() && cs[end] != ':'
        invariant
            end <= cs@.len(),
            cs@ == host@,
            colon_from(host@, end as int) == colon_from(host@, 0),
        decreases cs@.len() - end,
    {
        end = end + 1;
    }
    proof {
        lemma_colon_from_bounds(host@, 0);
    }
    let ghost h = without_port(host@);
    assert(h =~= cs@.subrange(0, end as int));
    let mut i: usize = end;
    let mut dots: usize = 0;
    let mut start: usize = 0;
    let mut found = false;
    while i > 0 && !found
        invariant
            i <= end <= cs@.len(),
            h == cs@.subrange(0, end as int),
            dots <= 2,
            !found ==> start == 0 && labels_start(h, h.len() as int, 0) == labels_start(h, i as int, dots as nat),
            found ==> start as int == labels_start(h, h.len() as int, 0) && start <= end,
        decreases i + (if found { 0int } else { 1int }),
    {
        if cs[i - 1] == '.' {
            if dots >= 2 {
                start = i;
                found = true;
            } else {
                dots = dots + 1;
                i = i - 1;
            }
        } else {
            i = i - 1;
        }
    }
    proof {
        lemma_labels_start_bounds(h, h.len() as int, 0);
    }
    assert(start as int == labels_start(h, h.len() as int, 0));
    let kept = slice_of(&cs, start, end);
    string_from_chars(kept.as_slice())
}

} // verus!
