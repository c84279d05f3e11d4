//! Removal of proxy-specific header lines from request bytes.
use vstd::prelude::*;
use crate::text::chars_of;

verus! {

/// The text that `b` decodes to as UTF-8, or `None` when it is not UTF-8.
pub uninterp spec fn utf8_text(b: Seq<u8>) -> Option<Seq<char>>;

/// The upper-case form of `s`.
pub uninterp spec fn upper_of(s: Seq<char>) -> Seq<char>;

/// Relies on `std::str::from_utf8`: the decoded text exactly when `b` is valid UTF-8.
#[verifier::external_body]
pub(crate) fn utf8_of(b: &[u8]) -> (r: Option<String>)
    ensures
        r is Some <==> utf8_text(b@) is Some,
        r is Some ==> r->0@ == utf8_text(b@)->0,
{
    std::str::from_utf8(b).ok().map(|s| s.to_string())
}

/// Relies on `str::to_uppercase`: the upper-case form, a function of the text alone.
#[verifier::external_body]
pub(crate) fn upper(s: &str) -> (r: String)
    ensures
        r@ == upper_of(s@),
{
    s.to_uppercase()
}

/// Whether `needle` occurs in `hay`.
pub open spec fn contains_text(hay: Seq<char>, needle: Seq<char>) -> bool {
    exists|i: int| 0 <= i && i + needle.len() <= hay.len() && #[trigger] hay.subrange(i, i + needle.len()) == needle
}

/// Whether `needle` occurs in `hay`.
pub fn find_text(hay: &str, needle: &str) -> (r: bool)
    ensures
        r == contains_text(hay@, needle@),
{
    let h = chars_of(hay);
    let n = chars_of(needle);
    if n.len() > h.len() {
        return false;
    }
    let mut i: usize = 0;
    let last: usize = h.len() - n.len();
    while i <= last
        invariant
            h@ == hay@,
            n@ == needle@,
            n@.len() <= h@.len(),
            last == h@.len() - n@.len(),
            i <= last + 1,
            forall|j: int| 0 <= j < i ==> #[trigger] h@.subrange(j, j + n@.len()) != n@,
        decreases h@.len() - i,
    {
        let mut k: usize = 0;
        let mut same = true;
        assert(h@.subrange(i as int, i as int) =~= n@.subrange(0, 0));
        while k < n.len()
            invariant
                h@ == hay@,
                n@ == needle@,
                i <= last,
                last == h@.len() - n@.len(),
                h@.len() == h.len(),
                i + n@.len() <= h@.len(),
                k <= n@.len(),
                same == (h@.subrange(i as int, i + k) == n@.subrange(0, k as int)),
            decreases n@.len() - k,
        {
            if h[i + k] != n[k] {
                same = false;
            }
            proof {
                let a = h@.subrange(i as int, i + k + 1);
                let b = n@.subrange(0, k as int + 1);
                assert(a =~= h@.subrange(i as int, i + k).push(h@[i + k]));
                assert(b =~= n@.subrange(0, k as int).push(n@[k as int]));
                if h@.subrange(i as int, i + k) != n@.subrange(0, k as int) {
                    if a == b {
                        assert(a.drop_last() == b.drop_last());
                        assert(a.drop_last() =~= h@.subrange(i as int, i + k));
                        assert(b.drop_last() =~= n@.subrange(0, k as int));
                    }
                }
                if h@[i + k] != n@[k as int] {
                    assert(a[k as int] != b[k as int]);
                }
            }
            k = k + 1;
        }
        assert(n@.subrange(0, n@.len() as int) =~= n@);
        if same {
            assert(h@.subrange(i as int, i + n@.len()) == n@);
            return true;
        }
        i = i + 1;
    }
    false
}

/// A complete line (ending in `\n`) stays when it is UTF-8 and its upper-case
/// form does not contain `keyword`.
pub open spec fn line_kept(line: Seq<u8>, keyword: Seq<char>) -> bool {
    match utf8_text(line) {
        Some(t) => !contains_text(upper_of(t), keyword),
        None => false,
    }
}

/// Scanning `s` from `i`, the current line beginning at `start`: the kept
/// complete lines, then the unterminated rest as it is.
pub open spec fn strip_scan(s: Seq<u8>, start: int, i: int, keyword: Seq<char>) -> Seq<u8>
    decreases s.len() - i,
{
    if i >= s.len() {
        s.subrange(start, s.len() as int)
    } else if s[i] == 10u8 {
        let line = s.subrange(start, i + 1);
        (if line_kept(line, keyword) { line } else { Seq::empty() }) + strip_scan(s, i + 1, i + 1, keyword)
    } else {
        strip_scan(s, start, i + 1, keyword)
    }
}

/// `s` with every complete line that mentions `keyword` (after upper-casing)
/// or is not UTF-8 removed; an unterminated last line is kept as it is.
pub open spec fn strip_headers(s: Seq<u8>, keyword: Seq<char>) -> Seq<u8> {
    strip_scan(s, 0, 0, keyword)
}

/// Removes from `content` every complete line whose upper-case form contains
/// `keyword`, and every complete line that is not UTF-8.
pub fn remove_headers(content: &[u8], keyword: &str) -> (r: Vec<u8>)
    ensures
        r@ == strip_headers(content@, keyword@),
{
    let mut out: Vec<u8> = Vec::new();
    let mut start: usize = 0;
    let mut i: usize = 0;
    while i < content.len()
        invariant
            start <= i <= content@.len(),
            out@ + strip_scan(content@, start as int, i as int, keyword@) == strip_headers(content@, keyword@),
        decreases content@.len() - i,
    {
        if content[i] == 10u8 {
            let ghost line = content@.subrange(start as int, i + 1);
            let line_bytes = copy_range(content, start, i + 1);
            let keep = match utf8_of(line_bytes.as_slice()) {
                Some(text) => {
                    let up = upper(text.as_str());
                    !find_text(up.as_str(), keyword)
                },
                None => false,
            };
            assert(keep == line_kept(line, keyword@));
            let ghost before = out@;
            if keep {
                let mut lb = line_bytes;
                out.append(&mut lb);
            }
            proof {
                let kept_part = if line_kept(line, keyword@) { line } else { Seq::empty() };
                assert(out@ =~= before + kept_part);
                assert(before + (kept_part + strip_scan(content@, i + 1, i + 1, keyword@))
                    =~= (before + kept_part) + strip_scan(content@, i + 1, i + 1, keyword@));
            }
            i = i + 1;
            start = i;
        } else {
            i = i + 1;
        }
    }
    let mut tail = copy_range(content, start, content.len());
    out.append(&mut tail);
    out
}

/// The bytes of `v` between `from` and `to`.
pub fn copy_range(v: &[u8], from: usize, to: usize) -> (r: Vec<u8>)
    requires
        from <= to <= v@.len(),
    ensures
        r@ == v@.subrange(from as int, to as int),
{
    let mut out: Vec<u8> = Vec::new();
    let mut i: usize = from;
    while i < to
        invariant
            from <= i <= to <= v@.len(),
            out@ == v@.subrange(from as int, i as int),
        decreases to - i,
    {
        out.push(v[i]);
        i = i + 1;
        assert(out@ =~= v@.subrange(from as int, i as int));
    }
    out
}

/// Index of the first `\n` at or after `i`, or the length when there is none.
pub open spec fn newline_from(s: Seq<u8>, i: int) -> int
    decreases s.len() - i,
{
    if i >= s.len() {
        s.len() as int
    } else if s[i] == 10u8 {
        i
    } else {
        newline_from(s, i + 1)
    }
}

proof fn lemma_newline_from(s: Seq<u8>, i: int)
    requires
        0 <= i <= s.len(),
    ensures
        i <= newline_from(s, i) <= s.len(),
        newline_from(s, i) < s.len() ==> s[newline_from(s, i)] == 10u8,
        forall|j: int| i <= j < newline_from(s, i) ==> s[j] != 10u8,
    decreases s.len() - i,
{
    if i < s.len() && s[i] != 10u8 {
        lemma_newline_from(s, i + 1);
    }
}

proof fn lemma_scan_shift(p: Seq<u8>, r: Seq<u8>, a: int, b: int, keyword: Seq<char>)
    requires
        0 <= a <= b <= r.len(),
    ensures
        strip_scan(p + r, p.len() + a, p.len() + b, keyword) == strip_scan(r, a, b, keyword),
    decreases r.len() - b,
{
    let s = p + r;
    if b >= r.len() {
        assert(s.subrange(p.len() + a, s.len() as int) =~= r.subrange(a, r.len() as int));
    } else {
        assert(s[p.len() + b] == r[b]);
        if r[b] == 10u8 {
            lemma_scan_shift(p, r, b + 1, b + 1, keyword);
            assert(s.subrange(p.len() + a, p.len() + b + 1) =~= r.subrange(a, b + 1));
        } else {
            lemma_scan_shift(p, r, a, b + 1, keyword);
        }
    }
}

proof fn lemma_scan_skip(s: Seq<u8>, start: int, i: int, j: int, keyword: Seq<char>)
    requires
        0 <= start <= i <= j <= s.len(),
        forall|k: int| i <= k < j ==> s[k] != 10u8,
    ensures
        strip_scan(s, start, i, keyword) == strip_scan(s, start, j, keyword),
    decreases j - i,
{
    if i < j {
        lemma_scan_skip(s, start, i + 1, j, keyword);
    }
}

/// Stripping a text whose first line is `line` keeps or drops that line and
/// strips the rest.
proof fn lemma_first_line(line: Seq<u8>, rest: Seq<u8>, keyword: Seq<char>)
    requires
        line.len() > 0,
        line.last() == 10u8,
        forall|k: int| 0 <= k < line.len() - 1 ==> line[k] != 10u8,
    ensures
        strip_headers(line + rest, keyword)
            == (if line_kept(line, keyword) { line } else { Seq::empty() }) + strip_headers(rest, keyword),
{
    let s = line + rest;
    let e = line.len() - 1;
    assert forall|k: int| 0 <= k < e implies s[k] != 10u8 by {
        assert(s[k] == line[k]);
    }
    lemma_scan_skip(s, 0, 0, e, keyword);
    assert(s[e] == 10u8);
    assert(s.subrange(0, e + 1) =~= line);
    lemma_scan_shift(line, rest, 0, 0, keyword);
}

/// Stripping proxy header lines a second time changes nothing.
pub proof fn lemma_strip_idempotent(s: Seq<u8>, keyword: Seq<char>)
    ensures
        strip_headers(strip_headers(s, keyword), keyword) == strip_headers(s, keyword),
    decreases s.len(),
{
    lemma_newline_from(s, 0);
    let e = newline_from(s, 0);
    if e >= s.len() {
        lemma_scan_skip(s, 0, 0, s.len() as int, keyword);
        assert(s.subrange(0, s.len() as int) =~= s);
    } else {
        let line = s.subrange(0, e + 1);
        let rest = s.subrange(e + 1, s.len() as int);
        assert(s =~= line + rest);
        lemma_first_line(line, rest, keyword);
        lemma_strip_idempotent(rest, keyword);
        let sr = strip_headers(rest, keyword);
        if line_kept(line, keyword) {
            lemma_first_line(line, sr, keyword);
        } else {
            assert(Seq::<u8>::empty() + sr =~= sr);
        }
    }
}

/// Scanning `t` from `i`, the current line beginning at `start`: every
/// complete line is one that the filter keeps.
pub open spec fn kept_scan(t: Seq<u8>, start: int, i: int, keyword: Seq<char>) -> bool
    decreases t.len() - i,
{
    if i >= t.len() {
        true
    } else if t[i] == 10u8 {
        line_kept(t.subrange(start, i + 1), keyword) && kept_scan(t, i + 1, i + 1, keyword)
    } else {
        kept_scan(t, start, i + 1, keyword)
    }
}

/// Every complete line of `t` is UTF-8 and free of `keyword` after upper-casing.
pub open spec fn all_lines_kept(t: Seq<u8>, keyword: Seq<char>) -> bool {
    kept_scan(t, 0, 0, keyword)
}

proof fn lemma_kept_shift(p: Seq<u8>, r: Seq<u8>, a: int, b: int, keyword: Seq<char>)
    requires
        0 <= a <= b <= r.len(),
    ensures
        kept_scan(p + r, p.len() + a, p.len() + b, keyword) == kept_scan(r, a, b, keyword),
    decreases r.len() - b,
{
    let s = p + r;
    if b < r.len() {
        assert(s[p.len() + b] == r[b]);
        if r[b] == 10u8 {
            lemma_kept_shift(p, r, b + 1, b + 1, keyword);
            assert(s.subrange(p.len() + a, p.len() + b + 1) =~= r.subrange(a, b + 1));
        } else {
            lemma_kept_shift(p, r, a, b + 1, keyword);
        }
    }
}

proof fn lemma_kept_skip(s: Seq<u8>, start: int, i: int, j: int, keyword: Seq<char>)
    requires
        0 <= start <= i <= j <= s.len(),
        forall|k: int| i <= k < j ==> s[k] != 10u8,
    ensures
        kept_scan(s, start, i, keyword) == kept_scan(s, start, j, keyword),
    decreases j - i,
{
    if i < j {
        lemma_kept_skip(s, start, i + 1, j, keyword);
    }
}

proof fn lemma_kept_first_line(line: Seq<u8>, rest: Seq<u8>, keyword: Seq<char>)
    requires
        line.len() > 0,
        line.last() == 10u8,
        forall|k: int| 0 <= k < line.len() - 1 ==> line[k] != 10u8,
    ensures
        all_lines_kept(line + rest, keyword) == (line_kept(line, keyword) && all_lines_kept(rest, keyword)),
{
    let s = line + rest;
    let e = line.len() - 1;
    assert forall|k: int| 0 <= k < e implies s[k] != 10u8 by {
        assert(s[k] == line[k]);
    }
    lemma_kept_skip(s, 0, 0, e, keyword);
    assert(s[e] == 10u8);
    assert(s.subrange(0, e + 1) =~= line);
    lemma_kept_shift(line, rest, 0, 0, keyword);
}

/// Every complete line that stripping leaves is one the filter keeps: it is
/// UTF-8 and its upper-case form does not contain `keyword`.
pub proof fn lemma_strip_leaves_kept_lines(s: Seq<u8>, keyword: Seq<char>)
    ensures
        all_lines_kept(strip_headers(s, keyword), keyword),
    decreases s.len(),
{
    lemma_newline_from(s, 0);
    let e = newline_from(s, 0);
    if e >= s.len() {
        lemma_scan_skip(s, 0, 0, s.len() as int, keyword);
        assert(s.subrange(0, s.len() as int) =~= s);
        lemma_kept_skip(s, 0, 0, s.len() as int, keyword);
    } else {
        let line = s.subrange(0, e + 1);
        let rest = s.subrange(e + 1, s.len() as int);
        assert(s =~= line + rest);
        lemma_first_line(line, rest, keyword);
        lemma_strip_leaves_kept_lines(rest, keyword);
        let sr = strip_headers(rest, keyword);
        if line_kept(line, keyword) {
            lemma_kept_first_line(line, sr, keyword);
        } else {
            assert(Seq::<u8>::empty() + sr =~= sr);
        }
    }
}

} // verus!
