//! Character-level helpers shared by the key builders and parsers.
use vstd::prelude::*;

verus! {

/// The characters of `s` in order.
pub(crate) fn chars_of(s: &str) -> (r: Vec<char>)
    ensures
        r@ == s@,
{
    broadcast use vstd::string::group_string_axioms;
    let mut it = s.chars();
    let mut out: Vec<char> = Vec::new();
    loop
        invariant
            vstd::std_specs::iter::IteratorSpec::obeys_prophetic_iter_laws(&it),
            out@ + vstd::std_specs::iter::IteratorSpec::remaining(&it) == s@,
            vstd::std_specs::iter::IteratorSpec::decrease(&it) is Some,
        ensures
            out@ == s@,
        decreases vstd::std_specs::iter::IteratorSpec::decrease(&it)->0,
    {
        let ghost before = vstd::std_specs::iter::IteratorSpec::remaining(&it);
        match it.next() {
            Some(c) => {
                out.push(c);
                assert(out@ + vstd::std_specs::iter::IteratorSpec::remaining(&it) =~= s@) by {
                    assert(before =~= seq![c] + before.drop_first());
                }
            },
            None => {
                assert(out@ =~= s@);
                break;
            },
        }
    }
    out
}

/// Relies on `String::push`: appends one character.
#[verifier::external_body]
pub(crate) fn push_char(s: &mut String, c: char)
    ensures
        final(s)@ == old(s)@.push(c),
{
    s.push(c)
}

/// Builds a `String` from a slice of characters.
pub fn string_from_chars(cs: &[char]) -> (r: String)
    ensures
        r@ == cs@,
{
    let mut out = String::new();
    let mut i: usize = 0;
    while i < cs.len()
        invariant
            i <= cs@.len(),
            out@ == cs@.subrange(0, i as int),
        decreases cs@.len() - i,
    {
        push_char(&mut out, cs[i]);
        i = i + 1;
        assert(out@ =~= cs@.subrange(0, i as int));
    }
    assert(cs@.subrange(0, cs@.len() as int) =~= cs@);
    out
}

/// The elements of `v` between `from` and `to`.
pub fn slice_of<T: Copy>(v: &Vec<T>, from: usize, to: usize) -> (r: Vec<T>)
    requires
        from <= to <= v@.len(),
    ensures
        r@ == v@.subrange(from as int, to as int),
{
    let mut out: Vec<T> = Vec::new();
    let mut i: usize = from;
    while i < to
        invariant
            from <= i <= to <= v@.len(),
            out@ == v@.subrange(from as int, i as int),
        decreases to - i,
    {
        out.push(v[i]);
        i = i + 1;
        assert(out@ =~= v@.subrange(from as int, i as int));
    }
    out
}

/// Appends every character of `src` to `dst`.
pub fn append_chars(dst: &mut String, src: &str)
    ensures
        final(dst)@ == old(dst)@ + src@,
{
    let cs = chars_of(src);
    let ghost start = dst@;
    let mut i: usize = 0;
    while i < cs.len()
        invariant
            i <= cs@.len(),
            cs@ == src@,
            dst@ == start + cs@.subrange(0, i as int),
        decreases cs@.len() - i,
    {
        push_char(dst, cs[i]);
        i = i + 1;
        assert(dst@ =~= start + cs@.subrange(0, i as int));
    }
    assert(cs@.subrange(0, cs@.len() as int) =~= cs@);
}

/// `a-b`, the form of a two-part lookup key.
pub open spec fn dash2(a: Seq<char>, b: Seq<char>) -> Seq<char> {
    a + seq!['-'] + b
}

/// `a-b-c`, the form of a three-part lookup key.
pub open spec fn dash3(a: Seq<char>, b: Seq<char>, c: Seq<char>) -> Seq<char> {
    dash2(dash2(a, b), c)
}

/// Builds the key `a-b`.
pub fn join_dash2(a: &str, b: &str) -> (r: String)
    ensures
        r@ == dash2(a@, b@),
{
    let mut out = String::new();
    append_chars(&mut out, a);
    push_char(&mut out, '-');
    append_chars(&mut out, b);
    assert(out@ =~= dash2(a@, b@));
    out
}

/// Builds the key `a-b-c`.
pub fn join_dash3(a: &str, b: &str, c: &str) -> (r: String)
    ensures
        r@ == dash3(a@, b@, c@),
{
    let mut out = join_dash2(a, b);
    push_char(&mut out, '-');
    append_chars(&mut out, c);
    assert(out@ =~= dash3(a@, b@, c@));
    out
}

/// The value of a decimal digit character.
pub open spec fn digit_value(c: char) -> nat {
    (c as u32 - '0' as u32) as nat
}

pub open spec fn is_digit(c: char) -> bool {
    '0' <= c && c <= '9'
}

/// The digit character of `d < 10`.
pub open spec fn digit_char(d: nat) -> char {
    ((d + '0' as u32) as u32) as char
}

/// The decimal text of `n`, without leading zeros (`0` is `"0"`).
pub open spec fn dec(n: nat) -> Seq<char>
    decreases n,
{
    if n < 10 {
        seq![digit_char(n)]
    } else {
        dec(n / 10).push(digit_char(n % 10))
    }
}

/// The number that the decimal digits `s` spell (empty text is 0).
pub open spec fn dec_value(s: Seq<char>) -> nat
    decreases s.len(),
{
    if s.len() == 0 {
        0
    } else {
        dec_value(s.drop_last()) * 10 + digit_value(s.last())
    }
}

pub open spec fn all_digits(s: Seq<char>) -> bool {
    forall|i: int| 0 <= i < s.len() ==> is_digit(#[trigger] s[i])
}

fn digit_to_char(d: u64) -> (c: char)
    requires
        d < 10,
    ensures
        c == digit_char(d as nat),
{
    let b: u8 = (d as u8) + 48u8;
    b as char
}

/// The decimal text of `n`.
pub fn to_dec(n: u64) -> (r: String)
    ensures
        r@ == dec(n as nat),
{
    let mut digits: Vec<char> = Vec::new();
    let mut m: u64 = n;
    // digits of n, least significant first
    while m >= 10
        invariant
            dec(n as nat) == dec(m as nat) + digits@.reverse(),
        decreases m,
    {
        let c = digit_to_char(m % 10);
        proof {
            let old_digits = digits@;
            assert(dec(m as nat) == dec((m / 10) as nat).push(c));
            assert((old_digits.push(c)).reverse() =~= seq![c] + old_digits.reverse());
            assert(dec(m as nat) + old_digits.reverse() =~= dec((m / 10) as nat) + (seq![c] + old_digits.reverse()));
        }
        digits.push(c);
        m = m / 10;
    }
    let c = digit_to_char(m);
    proof {
        let old_digits = digits@;
        assert(dec(m as nat) =~= seq![c]);
        assert((old_digits.push(c)).reverse() =~= seq![c] + old_digits.reverse());
    }
    digits.push(c);
    assert(dec(n as nat) =~= digits@.reverse());
    let mut out = String::new();
    let mut i: usize = digits.len();
    while i > 0
        invariant
            i <= digits@.len(),
            out@ == digits@.subrange(i as int, digits@.len() as int).reverse(),
        decreases i,
    {
        i = i - 1;
        push_char(&mut out, digits[i]);
        assert(out@ =~= digits@.subrange(i as int, digits@.len() as int).reverse());
    }
    assert(digits@.subrange(0, digits@.len() as int) =~= digits@);
    out
}

} // verus!

verus! {

/// Whether two texts are equal, character by character.
pub fn str_eq(a: &str, b: &str) -> (r: bool)
    ensures
        r == (a@ == b@),
{
    let x = chars_of(a);
    let y = chars_of(b);
    if x.len() != y.len() {
        return false;
    }
    let mut i: usize = 0;
    while i < x.len()
        invariant
            x@ == a@,
            y@ == b@,
            x@.len() == y@.len(),
            i <= x@.len(),
            x@.subrange(0, i as int) == y@.subrange(0, i as int),
        decreases x@.len() - i,
    {
        if x[i] != y[i] {
            assert(x@[i as int] != y@[i as int]);
            return false;
        }
        i = i + 1;
        assert(x@.subrange(0, i as int) =~= x@.subrange(0, i as int - 1).push(x@[i - 1]));
        assert(y@.subrange(0, i as int) =~= y@.subrange(0, i as int - 1).push(y@[i - 1]));
    }
    assert(x@ =~= x@.subrange(0, i as int));
    assert(y@ =~= y@.subrange(0, i as int));
    true
}

/// A copy of `s` as an owned `String`.
pub fn owned(s: &str) -> (r: String)
    ensures
        r@ == s@,
{
    let mut out = String::new();
    append_chars(&mut out, s);
    assert(out@ =~= s@);
    out
}

} // verus!

verus! {

/// Index of the first `c` at or after `i`, or the length when there is none.
pub open spec fn index_from(s: Seq<char>, c: char, i: int) -> int
    decreases s.len() - i,
{
    if i >= s.len() {
        s.len() as int
    } else if s[i] == c {
        i
    } else {
        index_from(s, c, i + 1)
    }
}

/// How many times `c` occurs in `s`.
pub open spec fn count_char(s: Seq<char>, c: char) -> nat
    decreases s.len(),
{
    if s.len() == 0 {
        0
    } else {
        count_char(s.drop_last(), c) + (if s.last() == c { 1nat } else { 0nat })
    }
}

/// The two parts of `s` around `c` when `c` occurs exactly once (what
/// splitting on `c` gives when it yields exactly two pieces).
pub open spec fn split_two(s: Seq<char>, c: char) -> Option<(Seq<char>, Seq<char>)> {
    if count_char(s, c) == 1 {
        let i = index_from(s, c, 0);
        Some((s.subrange(0, i), s.subrange(i + 1, s.len() as int)))
    } else {
        None
    }
}

/// Splits `s` around `c` when `c` occurs exactly once.
pub fn split_pair(s: &str, c: char) -> (r: Option<(String, String)>)
    ensures
        match r {
            Some(p) => split_two(s@, c) == Some((p.0@, p.1@)),
            None => split_two(s@, c) is None,
        },
{
    let cs = chars_of(s);
    let mut count: usize = 0;
    let mut first: usize = cs.len();
    let mut i: usize = 0;
    while i < cs.len()
        invariant
            cs@ == s@,
            i <= cs@.len(),
            count as nat == count_char(cs@.subrange(0, i as int), c),
            count <= i,
            count == 0 ==> first == cs@.len() && index_from(s@, c, 0) == index_from(s@, c, i as int),
            count > 0 ==> first < i && first as int == index_from(s@, c, 0),
        decreases cs@.len() - i,
    {
        proof {
            assert(cs@.subrange(0, i as int + 1).drop_last() =~= cs@.subrange(0, i as int));
        }
        if cs[i] == c {
            if count == 0 {
                first = i;
            }
            count = count + 1;
        }
        i = i + 1;
    }
    assert(cs@.subrange(0, cs@.len() as int) =~= cs@);
    if count != 1 {
        return None;
    }
    let a = string_from_chars(slice_of(&cs, 0, first).as_slice());
    let b = string_from_chars(slice_of(&cs, first + 1, cs.len()).as_slice());
    Some((a, b))
}

} // verus!

verus! {

/// The pieces of `s[start..]` between occurrences of `c`, scanning from `i`.
pub open spec fn split_from(s: Seq<char>, c: char, start: int, i: int) -> Seq<Seq<char>>
    decreases s.len() - i,
{
    if i >= s.len() {
        seq![s.subrange(start, s.len() as int)]
    } else if s[i] == c {
        seq![s.subrange(start, i)] + split_from(s, c, i + 1, i + 1)
    } else {
        split_from(s, c, start, i + 1)
    }
}

/// The pieces of `s` between occurrences of `c` (as `str::split` yields them).
pub open spec fn split_on(s: Seq<char>, c: char) -> Seq<Seq<char>> {
    split_from(s, c, 0, 0)
}

/// Splits `s` at every `c`.
pub fn split_chars(s: &str, c: char) -> (r: Vec<String>)
    ensures
        crate::model::texts(r@) == split_on(s@, c),
{
    let cs = chars_of(s);
    let mut out: Vec<String> = Vec::new();
    let mut start: usize = 0;
    let mut i: usize = 0;
    while i < cs.len()
        invariant
            cs@ == s@,
            start <= i <= cs@.len(),
            crate::model::texts(out@) + split_from(s@, c, start as int, i as int) == split_on(s@, c),
        decreases cs@.len() - i,
    {
        if cs[i] == c {
            let piece = string_from_chars(slice_of(&cs, start, i).as_slice());
            let ghost before = out@;
            out.push(piece);
            proof {
                assert(crate::model::texts(out@) =~= crate::model::texts(before).push(piece@));
                let rest = split_from(s@, c, i as int + 1, i as int + 1);
                assert(crate::model::texts(before) + (seq![piece@] + rest)
                    =~= crate::model::texts(out@) + rest);
            }
            i = i + 1;
            start = i;
        } else {
            i = i + 1;
        }
    }
    let piece = string_from_chars(slice_of(&cs, start, cs.len()).as_slice());
    let ghost before = out@;
    out.push(piece);
    assert(crate::model::texts(out@) =~= crate::model::texts(before).push(piece@));
    assert(crate::model::texts(before) + seq![piece@] =~= crate::model::texts(out@));
    out
}

/// Reads the decimal number `s` when it is made of digits only, is not
/// empty and is at most `limit`.
pub fn parse_dec(s: &str, limit: u64) -> (r: Option<u64>)
    requires
        limit <= 0xFFFF_FFFF,
    ensures
        r == (if s@.len() > 0 && all_digits(s@) && dec_value(s@) <= limit {
            Some(dec_value(s@) as u64)
        } else {
            None
        }),
{
    let cs = chars_of(s);
    if cs.len() == 0 {
        return None;
    }
    let mut v: u64 = 0;
    let mut i: usize = 0;
    while i < cs.len()
        invariant
            cs@ == s@,
            i <= cs@.len(),
            limit <= 0xFFFF_FFFF,
            all_digits(cs@.subrange(0, i as int)),
            v as nat == dec_value(cs@.subrange(0, i as int)),
            v <= limit,
        decreases cs@.len() - i,
    {
        let ch = cs[i];
        proof {
            assert(cs@.subrange(0, i as int + 1).drop_last() =~= cs@.subrange(0, i as int));
        }
        if !('0' <= ch && ch <= '9') {
            proof {
                assert(cs@.subrange(0, i as int + 1).last() == ch);
                assert(!is_digit(s@[i as int]));
            }
            return None;
        }
        let d: u64 = (ch as u32 - '0' as u32) as u64;
        let next: u64 = v * 10 + d;
        if next > limit {
            proof {
                lemma_dec_value_grows(s@, i as nat + 1);
            }
            return None;
        }
        v = next;
        i = i + 1;
        proof {
            let pre = cs@.subrange(0, i as int);
            assert(pre.last() == ch);
            assert forall|j: int| 0 <= j < pre.len() implies is_digit(#[trigger] pre[j]) by {
                if j < pre.len() - 1 {
                    assert(pre[j] == cs@.subrange(0, i as int - 1)[j]);
                }
            }
        }
    }
    assert(cs@.subrange(0, cs@.len() as int) =~= cs@);
    Some(v)
}

/// Extending a run of digits never makes its value smaller.
proof fn lemma_dec_value_grows(s: Seq<char>, n: nat)
    requires
        n <= s.len(),
        all_digits(s.subrange(0, n as int)),
    ensures
        all_digits(s) ==> dec_value(s.subrange(0, n as int)) <= dec_value(s),
    decreases s.len() - n,
{
    if n < s.len() && all_digits(s) {
        let a = s.subrange(0, n as int);
        let b = s.subrange(0, n as int + 1);
        assert(b.drop_last() =~= a);
        assert forall|j: int| 0 <= j < b.len() implies is_digit(#[trigger] b[j]) by {
            assert(b[j] == s[j]);
        }
        lemma_dec_value_grows(s, n + 1);
    } else if all_digits(s) {
        assert(s.subrange(0, n as int) =~= s);
    }
}

} // verus!
