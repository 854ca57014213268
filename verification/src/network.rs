//! IPv4 address arithmetic and address-space sampling.
//!
//! An address is held as its 32-bit integer value: the dotted octets
//! `a.b.c.d` packed as `(a<<24) | (b<<16) | (c<<8) | d`.

use vstd::prelude::*;
use vstd::string::StrSliceExecFns;
use vstd::string::StringExecFns;

verus! {

/// Wraparound 32-bit address addition, as a mathematical function.
pub open spec fn advance_spec(base: u32, offset: u32) -> u32 {
    ((base + offset) % 0x1_0000_0000) as u32
}

/// Advance an address by `offset` with 32-bit wraparound.
pub fn increment_ip(base: u32, offset: u32) -> (r: u32)
    ensures
        r == advance_spec(base, offset),
{
    base.wrapping_add(offset)
}

/// Advancing twice is one advance by the wrapped sum of the offsets:
/// `advance(advance(a, x), y) == advance(a, (x + y) mod 2^32)`.
pub proof fn lemma_increment_ip_assoc(a: u32, x: u32, y: u32)
    ensures
        advance_spec(advance_spec(a, x), y) == advance_spec(
            a,
            ((x + y) % 0x1_0000_0000) as u32,
        ),
{
    let m = 0x1_0000_0000int;
    vstd::arithmetic::div_mod::lemma_small_mod(y as nat, m as nat);
    vstd::arithmetic::div_mod::lemma_add_mod_noop(a + x, y as int, m);
    vstd::arithmetic::div_mod::lemma_small_mod(a as nat, m as nat);
    vstd::arithmetic::div_mod::lemma_add_mod_noop(a as int, x + y, m);
}

/// A contiguous IPv4 range: base address plus prefix length.
#[derive(Clone, Copy, Debug, PartialEq, Eq, Structural)]
pub struct NetworkBlock {
    pub base: u32,
    pub prefix: u8,
}

impl NetworkBlock {
    pub open spec fn wf(self) -> bool {
        self.prefix <= 32
    }
}

/// The mask covering a block's host bits.
pub open spec fn host_mask(prefix: u8) -> u32
    recommends
        prefix <= 32,
{
    if prefix == 0 {
        0xFFFF_FFFFu32
    } else {
        ((1u32 << ((32 - prefix) as u32)) - 1) as u32
    }
}

/// The block's all-zero host address.
pub open spec fn network_address(b: NetworkBlock) -> u32 {
    b.base & !host_mask(b.prefix)
}

/// What one draw from a block can yield: a block with at most two usable
/// addresses gives `base + 1` deterministically; a wider block gives the
/// base with a nonzero host offset OR-ed on.
pub open spec fn samples_block(b: NetworkBlock, r: u32) -> bool {
    if b.prefix >= 31 {
        r == advance_spec(b.base, 1)
    } else {
        exists|off: u32| 1 <= off <= host_mask(b.prefix) && r == (b.base | off)
    }
}

/// Relies on rand::Rng::random_range over `lo..=hi`: the sample lies in
/// the given range, which `requires` keeps non-empty.
#[verifier::external_body]
fn random_u32_inclusive(lo: u32, hi: u32) -> (r: u32)
    requires
        lo <= hi,
    ensures
        lo <= r <= hi,
{
    rand::Rng::random_range(&mut rand::rng(), lo..=hi)
}

/// Relies on rand::Rng::random_range over `0..n`: the sample is a valid
/// index, the range being non-empty by `requires`.
#[verifier::external_body]
fn random_index(n: usize) -> (r: usize)
    requires
        n >= 1,
    ensures
        r < n,
{
    rand::Rng::random_range(&mut rand::rng(), 0..n)
}

/// Draw an address inside the block `base/prefix`.
///
/// A block with at most one host bit has at most two usable addresses, so
/// the draw degenerates to `base + 1`; otherwise a uniform nonzero host
/// offset is OR-ed onto the base, which never yields the block's all-zero
/// host address.
pub fn random_ip_from_subnet(base: u32, prefix: u8) -> (r: u32)
    requires
        prefix <= 32,
    ensures
        samples_block(NetworkBlock { base, prefix }, r),
        prefix < 32 ==> r != network_address(NetworkBlock { base, prefix }),
        32 - prefix <= 1 ==> r == advance_spec(base, 1),
{
    let host_bits: u8 = 32 - prefix;
    if host_bits <= 1 {
        let r = increment_ip(base, 1);
        proof {
            assert(samples_block(NetworkBlock { base, prefix }, r));
            if prefix < 32 {
                assert(((1u32 << 1) - 1) == 1u32) by (bit_vector);
                assert(host_mask(31u8) == 1u32);
                if base == 0xFFFF_FFFFu32 {
                    assert((0xFFFF_FFFFu32 & !1u32) == 0xFFFF_FFFEu32) by (bit_vector);
                } else {
                    vstd::arithmetic::div_mod::lemma_small_mod(
                        (base + 1) as nat,
                        0x1_0000_0000,
                    );
                    assert(r == base + 1);
                    assert(base + 1 != (base & !1u32)) by (bit_vector)
                        requires
                            base < 0xFFFF_FFFFu32,
                    ;
                }
            }
        }
        r
    } else {
        let hb: u32 = host_bits as u32;
        let max_hosts: u32;
        if host_bits >= 32 {
            max_hosts = 0xFFFF_FFFF;
            proof {
                assert(host_mask(prefix) == 0xFFFF_FFFFu32);
            }
        } else {
            proof {
                assert((1u32 << hb) >= 4) by (bit_vector)
                    requires
                        2 <= hb < 32,
                ;
            }
            max_hosts = (1u32 << hb) - 1;
            proof {
                assert(host_mask(prefix) == max_hosts);
            }
        }
        let off = random_u32_inclusive(1, max_hosts);
        let r = base | off;
        proof {
            assert(1 <= off <= host_mask(prefix));
            if prefix == 0 {
                assert((base | off) != (base & !0xFFFF_FFFFu32)) by (bit_vector)
                    requires
                        1 <= off,
                ;
            } else {
                assert((base | off) != (base & !max_hosts)) by (bit_vector)
                    requires
                        max_hosts + 1 == (1u32 << hb),
                        2 <= hb < 32,
                        1 <= off,
                        off <= max_hosts,
                ;
            }
            let blk = NetworkBlock { base, prefix };
            assert(blk.base == base && blk.prefix == prefix);
            assert(exists|o: u32|
                1 <= o <= host_mask(blk.prefix) && r == (blk.base | o)) by {
                assert(1 <= off <= host_mask(blk.prefix) && r == (blk.base | off));
            }
            assert(samples_block(blk, r));
        }
        r
    }
}

/// First octet of a packed address.
pub open spec fn octet0(ip: u32) -> u32 {
    ip >> 24
}

pub open spec fn octet1(ip: u32) -> u32 {
    (ip >> 16) & 0xFF
}

pub open spec fn octet2(ip: u32) -> u32 {
    (ip >> 8) & 0xFF
}

pub open spec fn octet3(ip: u32) -> u32 {
    ip & 0xFF
}

/// The RFC1918 private ranges.
pub open spec fn is_private(ip: u32) -> bool {
    ||| octet0(ip) == 10
    ||| (octet0(ip) == 172 && 16 <= octet1(ip) <= 31)
    ||| (octet0(ip) == 192 && octet1(ip) == 168)
}

pub open spec fn is_loopback(ip: u32) -> bool {
    octet0(ip) == 127
}

/// What the fallback generator accepts: a first octet in `[1, 223]`, a
/// last octet in `[1, 254]`, and neither a private nor a loopback range.
pub open spec fn is_acceptable_fallback(ip: u32) -> bool {
    &&& 1 <= octet0(ip) <= 223
    &&& 1 <= octet3(ip) <= 254
    &&& !is_private(ip)
    &&& !is_loopback(ip)
}

/// Draw random addresses until one falls outside the private, loopback
/// and reserved-first-octet ranges; used when no block list is loaded.
///
/// The draws are bounded so that the function provably terminates; the
/// acceptance rate is above 90%, so the bound is unreachable in practice,
/// and a fixed acceptable address stands behind it.
pub fn random_ipv4_fallback() -> (r: u32)
    ensures
        is_acceptable_fallback(r),
{
    let mut attempts: u32 = 0;
    while attempts < 1000
        decreases 1000 - attempts,
    {
        let a = random_u32_inclusive(1, 223);
        let b = random_u32_inclusive(0, 255);
        let c = random_u32_inclusive(0, 255);
        let d = random_u32_inclusive(1, 254);
        let ip = (a << 24u32) | (b << 16u32) | (c << 8u32) | d;
        proof {
            assert(octet0(ip) == a && octet1(ip) == b && octet2(ip) == c && octet3(ip) == d)
                by (bit_vector)
                requires
                    a <= 255,
                    b <= 255,
                    c <= 255,
                    d <= 255,
                    ip == (a << 24u32) | (b << 16u32) | (c << 8u32) | d,
            ;
        }
        let o0 = ip >> 24u32;
        let o1 = (ip >> 16u32) & 0xFF;
        let private = o0 == 10 || (o0 == 172 && 16 <= o1 && o1 <= 31) || (o0 == 192 && o1
            == 168);
        let loopback = o0 == 127;
        if !private && !loopback {
            return ip;
        }
        attempts = attempts + 1;
    }
    // 1.0.0.1, a public unicast address.
    let last_resort: u32 = 0x0100_0001;
    proof {
        assert(octet0(0x0100_0001u32) == 1 && octet1(0x0100_0001u32) == 0 && octet2(
            0x0100_0001u32,
        ) == 0 && octet3(0x0100_0001u32) == 1) by (bit_vector);
    }
    last_resort
}

/// Pick a block uniformly and sample inside it; with no blocks loaded,
/// fall back to the filtered random generator.
pub fn random_ipv4_from_subnets(subnets: &Vec<NetworkBlock>) -> (r: u32)
    requires
        forall|i: int| 0 <= i < subnets@.len() ==> (#[trigger] subnets@[i]).wf(),
    ensures
        subnets@.len() == 0 ==> is_acceptable_fallback(r),
        subnets@.len() > 0 ==> exists|i: int|
            0 <= i < subnets@.len() && samples_block(#[trigger] subnets@[i], r),
{
    if subnets.len() == 0 {
        random_ipv4_fallback()
    } else {
        let i = random_index(subnets.len());
        let block = subnets[i];
        let r = random_ip_from_subnet(block.base, block.prefix);
        proof {
            assert(NetworkBlock { base: block.base, prefix: block.prefix } == subnets@[i as int]);
            assert(samples_block(subnets@[i as int], r));
        }
        r
    }
}

/// The dotted-quad writing of a packed address.
pub open spec fn ip_str(ip: u32) -> Seq<char> {
    crate::text::dec_str(octet0(ip) as nat) + seq!['.'] + crate::text::dec_str(
        octet1(ip) as nat,
    ) + seq!['.'] + crate::text::dec_str(octet2(ip) as nat) + seq!['.'] + crate::text::dec_str(
        octet3(ip) as nat,
    )
}

/// Write a packed address as a dotted quad.
pub fn format_ip(ip: u32) -> (r: String)
    ensures
        r@ == ip_str(ip),
{
    let o0 = ip >> 24u32;
    let o1 = (ip >> 16u32) & 0xFF;
    let o2 = (ip >> 8u32) & 0xFF;
    let o3 = ip & 0xFF;
    let mut s = crate::text::u64_to_string(o0 as u64);
    s.push('.');
    let s1 = crate::text::u64_to_string(o1 as u64);
    s.append(s1.as_str());
    s.push('.');
    let s2 = crate::text::u64_to_string(o2 as u64);
    s.append(s2.as_str());
    s.push('.');
    let s3 = crate::text::u64_to_string(o3 as u64);
    s.append(s3.as_str());
    proof {
        assert(s@ =~= ip_str(ip));
    }
    s
}

/// ASCII whitespace, as the block-list loader strips it.
pub open spec fn is_space(c: char) -> bool {
    c == ' ' || c == '\t' || c == '\r' || c == '\n'
}

pub open spec fn trim_front_spec(s: Seq<char>) -> Seq<char>
    decreases s.len(),
{
    if s.len() > 0 && is_space(s[0]) {
        trim_front_spec(s.drop_first())
    } else {
        s
    }
}

pub open spec fn trim_back_spec(s: Seq<char>) -> Seq<char>
    decreases s.len(),
{
    if s.len() > 0 && is_space(s.last()) {
        trim_back_spec(s.drop_last())
    } else {
        s
    }
}

/// `s` with leading and trailing ASCII whitespace removed.
pub open spec fn trim_spec(s: Seq<char>) -> Seq<char> {
    trim_back_spec(trim_front_spec(s))
}

proof fn lemma_trim_front_at(s: Seq<char>, i: int)
    requires
        0 <= i <= s.len(),
        forall|j: int| 0 <= j < i ==> is_space(#[trigger] s[j]),
        i < s.len() ==> !is_space(s[i]),
    ensures
        trim_front_spec(s) == s.skip(i),
    decreases i,
{
    if i == 0 {
        assert(s.skip(0) =~= s);
    } else {
        assert(is_space(s[0]));
        assert(s.drop_first() =~= s.skip(1));
        lemma_trim_front_at(s.skip(1), i - 1);
        assert(s.skip(1).skip(i - 1) =~= s.skip(i));
    }
}

proof fn lemma_trim_back_at(u: Seq<char>, k: int)
    requires
        0 <= k <= u.len(),
        forall|l: int| k <= l < u.len() ==> is_space(#[trigger] u[l]),
        k > 0 ==> !is_space(u[k - 1]),
    ensures
        trim_back_spec(u) == u.take(k),
    decreases u.len(),
{
    if k == u.len() {
        assert(u.take(k) =~= u);
        if u.len() > 0 {
            assert(!is_space(u.last()));
        }
    } else {
        assert(is_space(u[u.len() - 1]));
        assert(u.drop_last() =~= u.take(u.len() - 1));
        lemma_trim_back_at(u.drop_last(), k);
        assert(u.drop_last().take(k) =~= u.take(k));
    }
}

fn is_space_exec(c: char) -> (r: bool)
    ensures
        r == is_space(c),
{
    c == ' ' || c == '\t' || c == '\r' || c == '\n'
}

/// Strip leading and trailing ASCII whitespace.
pub fn trim_exec(s: &str) -> (r: &str)
    ensures
        r@ == trim_spec(s@),
{
    let n = s.unicode_len();
    let mut i: usize = 0;
    while i < n && is_space_exec(s.get_char(i))
        invariant
            0 <= i <= n,
            n == s@.len(),
            forall|j: int| 0 <= j < i ==> is_space(#[trigger] s@[j]),
        decreases n - i,
    {
        i = i + 1;
    }
    let mut j: usize = n;
    while j > i && is_space_exec(s.get_char(j - 1))
        invariant
            i <= j <= n,
            n == s@.len(),
            forall|l: int| j <= l < n ==> is_space(#[trigger] s@[l]),
        decreases j,
    {
        j = j - 1;
    }
    proof {
        lemma_trim_front_at(s@, i as int);
        let u = s@.skip(i as int);
        assert(forall|l: int|
            j - i <= l < u.len() ==> is_space(#[trigger] u[l]) && u[l] == s@[l + i]);
        if j > i {
            assert(u[j - i - 1] == s@[j - 1]);
        }
        lemma_trim_back_at(u, j - i);
        assert(u.take(j - i) =~= s@.subrange(i as int, j as int));
    }
    s.substring_char(i, j)
}

/// What one dotted octet means: one to three digits, no leading zero
/// unless the octet is exactly `0`, value at most 255.
pub open spec fn octet_spec(s: Seq<char>) -> Option<nat> {
    if 1 <= s.len() <= 3 && crate::text::all_digits(s) && (s.len() == 1 || s[0] != '0')
        && crate::text::dec_value(s) <= 255 {
        Option::Some(crate::text::dec_value(s))
    } else {
        Option::None
    }
}

/// What parsing a dotted-quad address yields: four octets at the first
/// three dots, no further dot, packed most significant octet first.
pub open spec fn parse_ipv4_spec(s: Seq<char>) -> Option<u32> {
    let d1 = crate::text::find_char(s, '.');
    if d1 < 0 {
        Option::None
    } else {
        let rest1 = s.skip(d1 + 1);
        let d2 = crate::text::find_char(rest1, '.');
        if d2 < 0 {
            Option::None
        } else {
            let rest2 = rest1.skip(d2 + 1);
            let d3 = crate::text::find_char(rest2, '.');
            if d3 < 0 {
                Option::None
            } else {
                let p3 = rest2.skip(d3 + 1);
                if crate::text::find_char(p3, '.') >= 0 {
                    Option::None
                } else {
                    match (
                        octet_spec(s.take(d1)),
                        octet_spec(rest1.take(d2)),
                        octet_spec(rest2.take(d3)),
                        octet_spec(p3),
                    ) {
                        (
                            Option::Some(o0),
                            Option::Some(o1),
                            Option::Some(o2),
                            Option::Some(o3),
                        ) => Option::Some(
                            (o0 * 0x100_0000 + o1 * 0x1_0000 + o2 * 0x100 + o3) as u32,
                        ),
                        _ => Option::None,
                    }
                }
            }
        }
    }
}

/// Parse one dotted octet.
fn parse_octet(s: &str) -> (r: Option<u8>)
    ensures
        match r {
            Some(v) => octet_spec(s@) == Option::Some(v as nat),
            None => octet_spec(s@) == Option::<nat>::None,
        },
{
    let n = s.unicode_len();
    if n == 0 || n > 3 {
        return None;
    }
    let c0 = s.get_char(0);
    if n > 1 && c0 == '0' {
        return None;
    }
    if c0 == '+' {
        proof {
            assert(!crate::text::is_digit('+'));
        }
        return None;
    }
    match crate::text::parse_uint(s, 255) {
        Some(v) => {
            proof {
                assert(crate::text::dec_value(s@) <= 255);
            }
            Some(v as u8)
        },
        None => None,
    }
}

/// Parse a dotted-quad IPv4 address into its packed 32-bit value.
pub fn parse_ipv4(s: &str) -> (r: Option<u32>)
    ensures
        match r {
            Some(v) => parse_ipv4_spec(s@) == Option::Some(v),
            None => parse_ipv4_spec(s@) == Option::<u32>::None,
        },
{
    let n = s.unicode_len();
    let d1 = match crate::text::find_char_exec(s, '.') {
        Some(i) => i,
        None => {
            return None;
        },
    };
    proof {
        crate::text::lemma_find_char_props(s@, '.');
    }
    let rest1 = s.substring_char(d1 + 1, n);
    proof {
        assert(rest1@ =~= s@.skip(d1 + 1));
    }
    let n1 = rest1.unicode_len();
    let d2 = match crate::text::find_char_exec(rest1, '.') {
        Some(i) => i,
        None => {
            return None;
        },
    };
    proof {
        crate::text::lemma_find_char_props(rest1@, '.');
    }
    let rest2 = rest1.substring_char(d2 + 1, n1);
    proof {
        assert(rest2@ =~= rest1@.skip(d2 + 1));
    }
    let n2 = rest2.unicode_len();
    let d3 = match crate::text::find_char_exec(rest2, '.') {
        Some(i) => i,
        None => {
            return None;
        },
    };
    proof {
        crate::text::lemma_find_char_props(rest2@, '.');
    }
    let p3 = rest2.substring_char(d3 + 1, n2);
    proof {
        assert(p3@ =~= rest2@.skip(d3 + 1));
    }
    match crate::text::find_char_exec(p3, '.') {
        Some(_) => {
            return None;
        },
        None => {},
    }
    let p0 = s.substring_char(0, d1);
    let p1 = rest1.substring_char(0, d2);
    let p2 = rest2.substring_char(0, d3);
    proof {
        assert(p0@ =~= s@.take(d1 as int));
        assert(p1@ =~= rest1@.take(d2 as int));
        assert(p2@ =~= rest2@.take(d3 as int));
    }
    let o0 = match parse_octet(p0) {
        Some(v) => v,
        None => {
            return None;
        },
    };
    let o1 = match parse_octet(p1) {
        Some(v) => v,
        None => {
            return None;
        },
    };
    let o2 = match parse_octet(p2) {
        Some(v) => v,
        None => {
            return None;
        },
    };
    let o3 = match parse_octet(p3) {
        Some(v) => v,
        None => {
            return None;
        },
    };
    let ip: u32 = (o0 as u32) * 0x100_0000 + (o1 as u32) * 0x1_0000 + (o2 as u32) * 0x100
        + (o3 as u32);
    Some(ip)
}

/// What one line of the block list yields after trimming: nothing for a
/// blank line or a `#` comment, else the CIDR entry `addr/prefix` with
/// the prefix at most 32.
pub open spec fn parse_line_spec(line: Seq<char>) -> Option<NetworkBlock> {
    let t = trim_spec(line);
    if t.len() == 0 || t[0] == '#' {
        Option::None
    } else {
        let sl = crate::text::find_char(t, '/');
        if sl < 0 {
            Option::None
        } else {
            match (parse_ipv4_spec(t.take(sl)), crate::text::parse_uint_spec(
                t.skip(sl + 1),
                32,
            )) {
                (Option::Some(ip), Option::Some(pf)) => Option::Some(
                    NetworkBlock { base: ip, prefix: pf as u8 },
                ),
                _ => Option::None,
            }
        }
    }
}

/// Parse one line of the block list.
pub fn parse_subnet_line(line: &str) -> (r: Option<NetworkBlock>)
    ensures
        match r {
            Some(b) => parse_line_spec(line@) == Option::Some(b) && b.wf(),
            None => parse_line_spec(line@) == Option::<NetworkBlock>::None,
        },
{
    let t = trim_exec(line);
    let n = t.unicode_len();
    if n == 0 {
        return None;
    }
    if t.get_char(0) == '#' {
        return None;
    }
    let sl = match crate::text::find_char_exec(t, '/') {
        Some(i) => i,
        None => {
            return None;
        },
    };
    proof {
        crate::text::lemma_find_char_props(t@, '/');
    }
    let ip_part = t.substring_char(0, sl);
    let pf_part = t.substring_char(sl + 1, n);
    proof {
        assert(ip_part@ =~= t@.take(sl as int));
        assert(pf_part@ =~= t@.skip(sl + 1));
    }
    let ip = match parse_ipv4(ip_part) {
        Some(v) => v,
        None => {
            return None;
        },
    };
    let pf = match crate::text::parse_uint(pf_part, 32) {
        Some(v) => v,
        None => {
            return None;
        },
    };
    Some(NetworkBlock { base: ip, prefix: pf as u8 })
}

/// The blocks that the whole newline-separated list yields, in order.
pub open spec fn parse_subnets_spec(s: Seq<char>) -> Seq<NetworkBlock>
    decreases s.len(),
    via parse_subnets_spec_decreases
{
    let nl = crate::text::find_char(s, '\n');
    if nl < 0 {
        match parse_line_spec(s) {
            Option::Some(b) => seq![b],
            Option::None => Seq::empty(),
        }
    } else {
        (match parse_line_spec(s.take(nl)) {
            Option::Some(b) => seq![b],
            Option::None => Seq::empty(),
        }) + parse_subnets_spec(s.skip(nl + 1))
    }
}

#[via_fn]
proof fn parse_subnets_spec_decreases(s: Seq<char>) {
    crate::text::lemma_find_char_props(s, '\n');
}

/// Parse the newline-delimited block list: blank lines and `#` comments
/// are skipped, malformed entries silently dropped.
pub fn parse_subnets(text: &str) -> (r: Vec<NetworkBlock>)
    ensures
        r@ == parse_subnets_spec(text@),
        forall|i: int| 0 <= i < r@.len() ==> (#[trigger] r@[i]).wf(),
{
    let mut out: Vec<NetworkBlock> = Vec::new();
    let mut rest: &str = text;
    proof {
        assert(Seq::<NetworkBlock>::empty() + parse_subnets_spec(text@) =~= parse_subnets_spec(
            text@,
        ));
    }
    loop
        invariant
            parse_subnets_spec(text@) == out@ + parse_subnets_spec(rest@),
            forall|i: int| 0 <= i < out@.len() ==> (#[trigger] out@[i]).wf(),
        decreases rest@.len(),
    {
        let n = rest.unicode_len();
        let ghost out0 = out@;
        match crate::text::find_char_exec(rest, '\n') {
            None => {
                let ghost tail = parse_subnets_spec(rest@);
                match parse_subnet_line(rest) {
                    Some(b) => {
                        out.push(b);
                        proof {
                            assert(tail =~= seq![b]);
                            assert(out0 + tail =~= out0.push(b));
                        }
                    },
                    None => {
                        proof {
                            assert(tail =~= Seq::<NetworkBlock>::empty());
                            assert(out0 + tail =~= out0);
                        }
                    },
                }
                return out;
            },
            Some(nl) => {
                proof {
                    crate::text::lemma_find_char_props(rest@, '\n');
                }
                let line = rest.substring_char(0, nl);
                proof {
                    assert(line@ =~= rest@.take(nl as int));
                }
                let next = rest.substring_char(nl + 1, n);
                proof {
                    assert(next@ =~= rest@.skip(nl + 1));
                }
                let ghost head = match parse_line_spec(line@) {
                    Option::Some(b) => seq![b],
                    Option::None => Seq::<NetworkBlock>::empty(),
                };
                proof {
                    assert(parse_subnets_spec(rest@) == head + parse_subnets_spec(next@));
                }
                match parse_subnet_line(line) {
                    Some(b) => {
                        out.push(b);
                        proof {
                            assert(head =~= seq![b]);
                            assert((out0 + (head + parse_subnets_spec(next@))) =~= (out0.push(b)
                                + parse_subnets_spec(next@)));
                        }
                    },
                    None => {
                        proof {
                            assert(head =~= Seq::<NetworkBlock>::empty());
                            assert((out0 + (head + parse_subnets_spec(next@))) =~= (out0
                                + parse_subnets_spec(next@)));
                        }
                    },
                }
                rest = next;
            },
        }
    }
}

} // verus!
