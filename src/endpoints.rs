//! Listening endpoints: the addresses of each configured IP range, the
//! (IP, port) pairs to bind, and the per-IP fallback port.
use vstd::prelude::*;
use crate::model::texts;
use crate::text::{all_digits, dec, dec_value, owned, parse_dec, push_char, split_chars, split_on, to_dec, append_chars};

verus! {

/// An IPv4 range `ip/mask`.
#[derive(Debug, Clone, PartialEq, Eq)]
pub struct IpRange {
    pub ip: String,
    pub mask: u8,
}

/// A decimal piece of an address: digits only, not empty, at most `limit`.
pub open spec fn decimal_at_most(p: Seq<char>, limit: nat) -> bool {
    p.len() > 0 && all_digits(p) && dec_value(p) <= limit
}

/// `s` is four dot-separated decimal octets.
pub open spec fn dotted_quad(s: Seq<char>) -> bool {
    let parts = split_on(s, '.');
    parts.len() == 4 && forall|i: int| 0 <= i < 4 ==> decimal_at_most(#[trigger] parts[i], 255)
}

/// `a.b.c.d` from four numbers.
pub open spec fn quad_text(a: nat, b: nat, c: nat, d: nat) -> Seq<char> {
    dec(a) + seq!['.'] + dec(b) + seq!['.'] + dec(c) + seq!['.'] + dec(d)
}

/// The 32-bit value of the address with octets `o`.
pub open spec fn addr_value(o: Seq<nat>) -> nat {
    ((o[0] * 256 + o[1]) * 256 + o[2]) * 256 + o[3]
}

/// The dotted text of the 32-bit address `n`.
pub open spec fn addr_text(n: nat) -> Seq<char> {
    quad_text(n / 16777216, (n / 65536) % 256, (n / 256) % 256, n % 256)
}

/// The network address of the block of `o` under `mask`: its value with
/// the low `32 - mask` bits cleared.
pub open spec fn network_of(o: Seq<nat>, mask: u8) -> nat {
    (addr_value(o) - addr_value(o) % range_size(mask)) as nat
}

/// The `i`-th address of the block of `o` under `mask`.
pub open spec fn range_addr(o: Seq<nat>, mask: u8, i: nat) -> Seq<char> {
    addr_text(network_of(o, mask) + i)
}

pub open spec fn octets(s: Seq<char>) -> Seq<nat> {
    split_on(s, '.').map_values(|p: Seq<char>| dec_value(p))
}

/// Two to the power `n`.
pub open spec fn two_to(n: nat) -> nat
    decreases n,
{
    if n == 0 {
        1
    } else {
        2 * two_to((n - 1) as nat)
    }
}

/// How many addresses a mask spans.
pub open spec fn range_size(mask: u8) -> nat {
    two_to((32 - mask) as nat)
}

proof fn lemma_two_to_mono(a: nat, b: nat)
    requires
        a <= b,
    ensures
        two_to(a) <= two_to(b),
    decreases b,
{
    if a < b {
        lemma_two_to_mono(a, (b - 1) as nat);
    }
}

proof fn lemma_two_to_32()
    ensures
        two_to(32) == 0x1_0000_0000,
{
    reveal_with_fuel(two_to, 33);
}

/// Builds `a.b.c.d`.
fn format_quad(a: u64, b: u64, c: u64, d: u64) -> (r: String)
    ensures
        r@ == quad_text(a as nat, b as nat, c as nat, d as nat),
{
    let mut out = to_dec(a);
    push_char(&mut out, '.');
    let sb = to_dec(b);
    append_chars(&mut out, sb.as_str());
    push_char(&mut out, '.');
    let sc = to_dec(c);
    append_chars(&mut out, sc.as_str());
    push_char(&mut out, '.');
    let sd = to_dec(d);
    append_chars(&mut out, sd.as_str());
    assert(out@ =~= quad_text(a as nat, b as nat, c as nat, d as nat));
    out
}

/// Reads the four octets of a dotted quad.
fn quad_of(ip: &str) -> (r: Vec<u64>)
    requires
        dotted_quad(ip@),
    ensures
        r@.len() == 4,
        forall|i: int| 0 <= i < 4 ==> r@[i] as nat == #[trigger] octets(ip@)[i],
        forall|i: int| 0 <= i < 4 ==> #[trigger] r@[i] <= 255,
{
    let parts = split_chars(ip, '.');
    assert(texts(parts@) == split_on(ip@, '.'));
    let mut out: Vec<u64> = Vec::new();
    let mut i: usize = 0;
    while i < 4
        invariant
            texts(parts@) == split_on(ip@, '.'),
            dotted_quad(ip@),
            i <= 4,
            out@.len() == i,
            forall|j: int| 0 <= j < i ==> out@[j] as nat == #[trigger] octets(ip@)[j],
            forall|j: int| 0 <= j < i ==> #[trigger] out@[j] <= 255,
        decreases 4 - i,
    {
        assert(octets(ip@)[i as int] == dec_value(split_on(ip@, '.')[i as int]));
        assert(parts@[i as int]@ == split_on(ip@, '.')[i as int]);
        assert(decimal_at_most(split_on(ip@, '.')[i as int], 255));
        let v = match parse_dec(parts[i].as_str(), 255) {
            Some(v) => v,
            None => {
                assert(false);
                0
            },
        };
        out.push(v);
        i = i + 1;
    }
    out
}

impl IpRange {
    /// Every address of the CIDR block `ip/mask`: the `2^(32 - mask)`
    /// addresses from the block's network address upward, each once.
    pub fn all_ips(&self) -> (r: Vec<String>)
        requires
            dotted_quad(self.ip@),
            self.mask <= 32,
        ensures
            r@.len() == range_size(self.mask),
            forall|i: int| 0 <= i < r@.len() ==> (#[trigger] r@[i])@ == range_addr(octets(self.ip@), self.mask, i as nat),
    {
        let o = quad_of(self.ip.as_str());
        let shift: u64 = (32 - self.mask) as u64;
        let mut count: u64 = 1;
        let mut k: u64 = 0;
        while k < shift
            invariant
                shift <= 32,
                k <= shift,
                count as nat == two_to(k as nat),
                count >= 1,
                count <= 0x1_0000_0000,
            decreases shift - k,
        {
            proof {
                lemma_two_to_mono(k as nat + 1, 32);
                lemma_two_to_32();
            }
            count = count * 2;
            k = k + 1;
        }
        let ghost ov = octets(self.ip@);
        proof {
            assert(o@[0] as nat == ov[0] && o@[1] as nat == ov[1] && o@[2] as nat == ov[2] && o@[3] as nat == ov[3]);
            assert(o@[0] <= 255 && o@[1] <= 255 && o@[2] <= 255 && o@[3] <= 255);
            let (a, b, c, d) = (o@[0] as int, o@[1] as int, o@[2] as int, o@[3] as int);
            assert(((a * 256 + b) * 256 + c) * 256 + d <= 0xFFFF_FFFF) by (nonlinear_arith)
                requires 0 <= a <= 255, 0 <= b <= 255, 0 <= c <= 255, 0 <= d <= 255;
        }
        let v: u64 = ((o[0] * 256 + o[1]) * 256 + o[2]) * 256 + o[3];
        assert(v as nat == addr_value(ov));
        assert(v % count <= v) by (nonlinear_arith)
            requires count >= 1;
        let base: u64 = v - v % count;
        assert(base as nat == network_of(ov, self.mask));
        let mut ips: Vec<String> = Vec::new();
        let mut i: u64 = 0;
        while i < count
            invariant
                ov == octets(self.ip@),
                base as nat == network_of(ov, self.mask),
                base <= 0xFFFF_FFFF,
                count as nat == range_size(self.mask),
                count <= 0x1_0000_0000,
                i <= count,
                ips@.len() == i,
                forall|j: int| 0 <= j < i ==> (#[trigger] ips@[j])@ == range_addr(ov, self.mask, j as nat),
            decreases count - i,
        {
            let n: u64 = base + i;
            let ip = format_quad(n / 16777216, (n / 65536) % 256, (n / 256) % 256, n % 256);
            ips.push(ip);
            i = i + 1;
        }
        ips
    }

    /// The text `ip/mask`.
    pub fn to_string(&self) -> (r: String)
        ensures
            r@ == self.ip@ + seq!['/'] + dec(self.mask as nat),
    {
        let mut out = owned(self.ip.as_str());
        push_char(&mut out, '/');
        let m = to_dec(self.mask as u64);
        append_chars(&mut out, m.as_str());
        assert(out@ =~= self.ip@ + seq!['/'] + dec(self.mask as nat));
        out
    }
}

/// First port of the per-IP fallback range.
pub const FALLBACK_PORT_START: u32 = 51000;
/// End (exclusive of the modulus) of the per-IP fallback range.
pub const FALLBACK_PORT_END: u32 = 63000;

/// The four pieces of an address fold to its 32-bit value.
pub open spec fn quad_value(parts: Seq<Seq<char>>) -> nat {
    ((dec_value(parts[0]) * 256 + dec_value(parts[1])) * 256 + dec_value(parts[2])) * 256 + dec_value(parts[3])
}

/// `ip` has four numeric pieces whose folded value fits in 32 bits.
pub open spec fn numeric_quad(s: Seq<char>) -> bool {
    let parts = split_on(s, '.');
    &&& forall|i: int| 0 <= i < 4 ==> decimal_at_most(#[trigger] parts[i], 0xFFFF_FFFF)
    &&& quad_value(parts) <= 0xFFFF_FFFF
}

/// `ip:port` with the port spread over the fallback range by the address's
/// value; `None` when `ip` does not have four dot-separated pieces.
pub fn ip_to_ip_port(ip: &str) -> (r: Option<String>)
    requires
        split_on(ip@, '.').len() == 4 ==> numeric_quad(ip@),
    ensures
        split_on(ip@, '.').len() != 4 ==> r is None,
        split_on(ip@, '.').len() == 4 ==> r is Some && r->0@ == ip@ + seq![':'] + dec(
            (51000 + quad_value(split_on(ip@, '.')) % 12000) as nat),
{
    let parts = split_chars(ip, '.');
    if parts.len() != 4 {
        return None;
    }
    let ghost ps = split_on(ip@, '.');
    let mut vals: Vec<u64> = Vec::new();
    let mut i: usize = 0;
    while i < 4
        invariant
            texts(parts@) == ps,
            ps == split_on(ip@, '.'),
            ps.len() == 4,
            numeric_quad(ip@),
            i <= 4,
            vals@.len() == i,
            forall|j: int| 0 <= j < i ==> vals@[j] as nat == dec_value(#[trigger] ps[j]),
        decreases 4 - i,
    {
        assert(parts@[i as int]@ == ps[i as int]);
        assert(decimal_at_most(ps[i as int], 0xFFFF_FFFF));
        let v = match parse_dec(parts[i].as_str(), 0xFFFF_FFFF) {
            Some(v) => v,
            None => {
                assert(false);
                0
            },
        };
        vals.push(v);
        i = i + 1;
    }
    proof {
        assert(vals@[0] as nat == dec_value(ps[0]));
        assert(vals@[1] as nat == dec_value(ps[1]));
        assert(vals@[2] as nat == dec_value(ps[2]));
        assert(vals@[3] as nat == dec_value(ps[3]));
        let a = dec_value(ps[0]);
        let b = dec_value(ps[1]);
        let c = dec_value(ps[2]);
        let d = dec_value(ps[3]);
        assert(((a * 256 + b) * 256 + c) * 256 + d <= 0xFFFF_FFFF);
        assert((a * 256 + b) * 256 + c <= 0xFFFF_FFFF) by (nonlinear_arith)
            requires ((a * 256 + b) * 256 + c) * 256 + d <= 0xFFFF_FFFF;
        assert(a * 256 + b <= 0xFFFF_FFFF) by (nonlinear_arith)
            requires (a * 256 + b) * 256 + c <= 0xFFFF_FFFF;
    }
    let v: u64 = ((vals[0] * 256 + vals[1]) * 256 + vals[2]) * 256 + vals[3];
    let port: u64 = 51000 + v % 12000;
    let mut out = owned(ip);
    push_char(&mut out, ':');
    let p = to_dec(port);
    append_chars(&mut out, p.as_str());
    assert(out@ =~= ip@ + seq![':'] + dec((51000 + quad_value(ps) % 12000) as nat));
    Some(out)
}

/// The listening configuration of this proxy host.
#[derive(Debug, Clone, PartialEq, Eq)]
pub struct Config {
    pub local_ip: String,
    pub port_start: u32,
    pub port_end: u32,
    pub offset: u32,
    pub ip_range: Vec<IpRange>,
    pub extra_ips: Vec<String>,
    pub server_start: Option<String>,
    pub server_end: Option<String>,
}

/// Every address of a range, in order.
pub open spec fn range_addrs(r: IpRange) -> Seq<Seq<char>> {
    Seq::new(range_size(r.mask), |i: int| range_addr(octets(r.ip@), r.mask, i as nat))
}

/// The addresses served first: every range's addresses, or with an offset
/// each range without its first two and its last address.
pub open spec fn main_ips(rs: Seq<IpRange>, offset_on: bool) -> Seq<Seq<char>>
    decreases rs.len(),
{
    if rs.len() == 0 {
        Seq::empty()
    } else {
        let a = range_addrs(rs.last());
        main_ips(rs.drop_last(), offset_on) + (if offset_on { a.subrange(2, a.len() - 1) } else { a })
    }
}

/// With an offset, the first two and the last address of each range, served after the others.
pub open spec fn reserved_ips(rs: Seq<IpRange>, offset_on: bool) -> Seq<Seq<char>>
    decreases rs.len(),
{
    if rs.len() == 0 {
        Seq::empty()
    } else {
        let a = range_addrs(rs.last());
        reserved_ips(rs.drop_last(), offset_on) + (if offset_on {
            seq![a[0], a[1], a[a.len() - 1]]
        } else {
            Seq::empty()
        })
    }
}

/// The addresses to listen on, in order.
pub open spec fn endpoint_ips(c: Config) -> Seq<Seq<char>> {
    main_ips(c.ip_range@, c.offset != 0) + reserved_ips(c.ip_range@, c.offset != 0) + texts(c.extra_ips@)
}

/// How many ports the configured range spans.
pub open spec fn port_span(c: Config) -> nat {
    (if c.port_end >= c.port_start { c.port_end - c.port_start } else { c.port_start - c.port_end }) as nat + 1
}

/// The ranges can be enumerated (and, with an offset, each has at least
/// four addresses) and every assigned port fits in 32 bits.
pub open spec fn config_ok(c: Config) -> bool {
    &&& forall|i: int| 0 <= i < c.ip_range@.len() ==> {
        &&& dotted_quad((#[trigger] c.ip_range@[i]).ip@)
        &&& c.ip_range@[i].mask <= 32
        &&& (c.offset != 0 ==> c.ip_range@[i].mask <= 30)
    }
    &&& c.port_start + port_span(c) - 1 <= 0xFFFF_FFFF
    &&& port_span(c) <= 0xFFFF_FFFF
}

/// Whether `s` is four dot-separated decimal octets.
pub fn is_dotted_quad(s: &str) -> (r: bool)
    ensures
        r == dotted_quad(s@),
{
    let parts = split_chars(s, '.');
    assert(texts(parts@) == split_on(s@, '.'));
    if parts.len() != 4 {
        return false;
    }
    let mut i: usize = 0;
    while i < 4
        invariant
            texts(parts@) == split_on(s@, '.'),
            parts@.len() == 4,
            i <= 4,
            forall|j: int| 0 <= j < i ==> decimal_at_most(#[trigger] split_on(s@, '.')[j], 255),
        decreases 4 - i,
    {
        assert(parts@[i as int]@ == split_on(s@, '.')[i as int]);
        if parse_dec(parts[i].as_str(), 255).is_none() {
            return false;
        }
        i = i + 1;
    }
    true
}

/// Whether the library can enumerate the layout `c`.
pub fn layout_ok(c: &Config) -> (r: bool)
    ensures
        r == config_ok(*c),
{
    let mut i: usize = 0;
    while i < c.ip_range.len()
        invariant
            i <= c.ip_range@.len(),
            forall|j: int| 0 <= j < i ==> {
                &&& dotted_quad((#[trigger] c.ip_range@[j]).ip@)
                &&& c.ip_range@[j].mask <= 32
                &&& (c.offset != 0 ==> c.ip_range@[j].mask <= 30)
            },
        decreases c.ip_range@.len() - i,
    {
        let r = &c.ip_range[i];
        if !is_dotted_quad(r.ip.as_str()) || r.mask > 32 || (c.offset != 0 && r.mask > 30) {
            return false;
        }
        i = i + 1;
    }
    let diff: u64 = if c.port_end >= c.port_start {
        (c.port_end - c.port_start) as u64
    } else {
        (c.port_start - c.port_end) as u64
    };
    c.port_start as u64 + diff <= 0xFFFF_FFFF && diff + 1 <= 0xFFFF_FFFF
}

/// Appends `src[from..to]` to `dst`.
fn extend_range(dst: &mut Vec<String>, src: &Vec<String>, from: usize, to: usize)
    requires
        from <= to <= src@.len(),
    ensures
        texts(final(dst)@) == texts(old(dst)@) + texts(src@).subrange(from as int, to as int),
{
    let ghost start = texts(dst@);
    let mut i: usize = from;
    while i < to
        invariant
            from <= i <= to <= src@.len(),
            texts(dst@) == start + texts(src@).subrange(from as int, i as int),
        decreases to - i,
    {
        let ghost before = dst@;
        dst.push(src[i].clone());
        assert(texts(dst@) =~= texts(before).push(src@[i as int]@));
        assert(texts(src@).subrange(from as int, i + 1) =~= texts(src@).subrange(from as int, i as int).push(src@[i as int]@));
        i = i + 1;
    }
}

/// The `(ip, port)` pairs to listen on, as `ip:port`: every configured
/// address in order, ports assigned round-robin from `port_start` over
/// the span between `port_start` and `port_end`.
pub fn get_local_ip_port(config: &Config) -> (r: Vec<String>)
    requires
        config_ok(*config),
    ensures
        r@.len() == endpoint_ips(*config).len(),
        forall|i: int| 0 <= i < r@.len() ==> (#[trigger] r@[i])@ == endpoint_ips(*config)[i] + seq![':']
            + dec((config.port_start + i % (port_span(*config) as int)) as nat),
{
    let offset_on = config.offset != 0;
    let mut main: Vec<String> = Vec::new();
    let mut other: Vec<String> = Vec::new();
    let mut k: usize = 0;
    while k < config.ip_range.len()
        invariant
            config_ok(*config),
            offset_on == (config.offset != 0),
            k <= config.ip_range@.len(),
            texts(main@) == main_ips(config.ip_range@.subrange(0, k as int), offset_on),
            texts(other@) == reserved_ips(config.ip_range@.subrange(0, k as int), offset_on),
        decreases config.ip_range@.len() - k,
    {
        let range = &config.ip_range[k];
        assert(dotted_quad(range.ip@) && range.mask <= 32);
        let t = range.all_ips();
        let n = t.len();
        let ghost a = range_addrs(*range);
        assert(texts(t@) =~= a);
        proof {
            let pre = config.ip_range@.subrange(0, k as int);
            let post = config.ip_range@.subrange(0, k as int + 1);
            assert(post.drop_last() =~= pre);
            assert(post.last() == *range);
        }
        if offset_on {
            assert(range.mask <= 30);
            proof {
                lemma_two_to_mono(2, (32 - range.mask) as nat);
                reveal_with_fuel(two_to, 3);
            }
            let ghost before = texts(other@);
            other.push(t[0].clone());
            other.push(t[1].clone());
            other.push(t[n - 1].clone());
            assert(texts(other@) =~= before + seq![a[0], a[1], a[a.len() - 1]]);
            extend_range(&mut main, &t, 2, n - 1);
        } else {
            extend_range(&mut main, &t, 0, n);
            assert(texts(t@).subrange(0, n as int) =~= a);
            let ghost before = texts(other@);
            assert(before + Seq::<Seq<char>>::empty() =~= before);
        }
        k = k + 1;
    }
    assert(config.ip_range@.subrange(0, config.ip_range@.len() as int) =~= config.ip_range@);
    let n_other = other.len();
    extend_range(&mut main, &other, 0, n_other);
    let n_extra = config.extra_ips.len();
    extend_range(&mut main, &config.extra_ips, 0, n_extra);
    proof {
        assert(texts(other@).subrange(0, n_other as int) =~= texts(other@));
        assert(texts(config.extra_ips@).subrange(0, n_extra as int) =~= texts(config.extra_ips@));
    }
    assert(texts(main@) == endpoint_ips(*config));
    let span: u32 = if config.port_end >= config.port_start {
        config.port_end - config.port_start
    } else {
        config.port_start - config.port_end
    } + 1;
    let mut out: Vec<String> = Vec::new();
    let mut ind: u32 = 0;
    let mut i: usize = 0;
    while i < main.len()
        invariant
            config_ok(*config),
            span as nat == port_span(*config),
            texts(main@) == endpoint_ips(*config),
            i <= main@.len(),
            out@.len() == i,
            ind as int == (i as int) % (port_span(*config) as int),
            forall|j: int| 0 <= j < i ==> (#[trigger] out@[j])@ == endpoint_ips(*config)[j] + seq![':']
                + dec((config.port_start + j % (port_span(*config) as int)) as nat),
        decreases main@.len() - i,
    {
        let mut s = main[i].clone();
        push_char(&mut s, ':');
        let port = to_dec((config.port_start + ind) as u64);
        append_chars(&mut s, port.as_str());
        assert(main@[i as int]@ == endpoint_ips(*config)[i as int]);
        out.push(s);
        proof {
            let m = port_span(*config) as int;
            vstd::arithmetic::div_mod::lemma_add_mod_noop(i as int, 1, m);
            if m > 1 {
                vstd::arithmetic::div_mod::lemma_small_mod(1, m as nat);
            } else {
                assert(1int % 1 == 0);
            }
        }
        ind = (ind + 1) % span;
        i = i + 1;
    }
    out
}

} // verus!
