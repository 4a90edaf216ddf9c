//! IP addresses as plain values, their canonical form and their text.

use vstd::prelude::*;
use crate::utils::text::{
    decimal_text, hex_text, lacks_char, lemma_radix_text_injective, lemma_radix_text_shape,
    lemma_split_at_first, lemma_split_at_last, push_radix,
};

verus! {

broadcast use vstd::array::group_array_axioms;

/// An IP address: four octets for IPv4, eight 16-bit segments for IPv6.
#[derive(Clone, Copy, Debug, PartialEq, Eq)]
pub enum IpAddress {
    V4([u8; 4]),
    V6([u16; 8]),
}

/// The eight segments are an IPv4-mapped IPv6 address (`::ffff:a.b.c.d`).
pub open spec fn is_v4_mapped(segs: Seq<u16>) -> bool {
    &&& segs.len() == 8
    &&& segs[0] == 0 && segs[1] == 0 && segs[2] == 0 && segs[3] == 0 && segs[4] == 0
    &&& segs[5] == 0xffff
}

/// The four IPv4 octets carried by the last two segments.
pub open spec fn mapped_octets(segs: Seq<u16>) -> Seq<u8> {
    seq![
        (segs[6] / 256) as u8,
        (segs[6] % 256) as u8,
        (segs[7] / 256) as u8,
        (segs[7] % 256) as u8,
    ]
}

/// The canonical form of an address: an IPv4-mapped IPv6 address becomes the
/// IPv4 address it carries; every other address stays as it is.
pub open spec fn canonical(a: IpAddress) -> IpAddress {
    match a {
        IpAddress::V6(segs) => if is_v4_mapped(segs@) {
            IpAddress::V4(
                [
                    (segs[6] / 256) as u8,
                    (segs[6] % 256) as u8,
                    (segs[7] / 256) as u8,
                    (segs[7] % 256) as u8,
                ],
            )
        } else {
            a
        },
        IpAddress::V4(_) => a,
    }
}

/// Dotted decimal text of four octets.
pub open spec fn ipv4_text(o: Seq<u8>) -> Seq<char> {
    decimal_text(o[0] as nat) + seq!['.'] + decimal_text(o[1] as nat) + seq!['.']
        + decimal_text(o[2] as nat) + seq!['.'] + decimal_text(o[3] as nat)
}

/// Segments in lower-case hexadecimal, separated by colons.
pub open spec fn hex_join(segs: Seq<u16>) -> Seq<char>
    decreases segs.len(),
{
    if segs.len() == 0 {
        seq![]
    } else if segs.len() == 1 {
        hex_text(segs[0] as nat)
    } else {
        hex_join(segs.drop_last()) + seq![':'] + hex_text(segs.last() as nat)
    }
}

/// Segments `start .. start + len` are all zero.
pub open spec fn is_zero_run(segs: Seq<u16>, start: int, len: int) -> bool {
    &&& 0 <= start
    &&& 0 <= len
    &&& start + len <= segs.len()
    &&& forall|k: int| start <= k < start + len ==> segs[k] == 0
}

/// `start, len` is the longest run of zero segments, and the first of the
/// longest ones when several have that length.
pub open spec fn is_longest_zero_run(segs: Seq<u16>, start: int, len: int) -> bool {
    &&& is_zero_run(segs, start, len)
    &&& forall|s2: int, l2: int| #[trigger] is_zero_run(segs, s2, l2) ==> l2 <= len
    &&& forall|s2: int| 0 <= s2 < start ==> !#[trigger] is_zero_run(segs, s2, len)
}

/// Text of an IPv6 address: IPv4-mapped addresses as `::ffff:` and the dotted
/// IPv4 text; otherwise the segments in hexadecimal, with the longest run of
/// at least two zero segments (the first such run) written as `::`.
pub open spec fn ipv6_text(segs: Seq<u16>) -> Seq<char> {
    if is_v4_mapped(segs) {
        seq![':', ':', 'f', 'f', 'f', 'f', ':'] + ipv4_text(mapped_octets(segs))
    } else {
        let (start, len) = choose|start: int, len: int| is_longest_zero_run(segs, start, len);
        if len > 1 {
            hex_join(segs.subrange(0, start)) + seq![':', ':'] + hex_join(
                segs.subrange(start + len, segs.len() as int),
            )
        } else {
            hex_join(segs)
        }
    }
}

/// The text form of an address.
pub open spec fn ip_text(a: IpAddress) -> Seq<char> {
    match a {
        IpAddress::V4(o) => ipv4_text(o@),
        IpAddress::V6(segs) => ipv6_text(segs@),
    }
}

/// There is only one longest-and-first zero run.
pub proof fn lemma_longest_zero_run_unique(segs: Seq<u16>, s1: int, l1: int, s2: int, l2: int)
    requires
        is_longest_zero_run(segs, s1, l1),
        is_longest_zero_run(segs, s2, l2),
    ensures
        s1 == s2,
        l1 == l2,
{
    assert(is_zero_run(segs, s2, l2));
    assert(is_zero_run(segs, s1, l1));
    assert(l1 == l2);
    if s1 < s2 {
        assert(!is_zero_run(segs, s1, l2));
    } else if s2 < s1 {
        assert(!is_zero_run(segs, s2, l1));
    }
}

/// Taking the canonical form twice is taking it once.
pub proof fn lemma_canonical_idempotent(a: IpAddress)
    ensures
        canonical(canonical(a)) == canonical(a),
{
}

/// An IPv4-mapped IPv6 address is written as `::ffff:` followed by the text
/// of the IPv4 address it stands for.
pub proof fn lemma_mapped_text(a: IpAddress)
    requires
        a matches IpAddress::V6(segs) && is_v4_mapped(segs@),
    ensures
        canonical(a) is V4,
        ip_text(a) == "::ffff:"@ + ip_text(canonical(a)),
{
    reveal_strlit("::ffff:");
    if let IpAddress::V6(segs) = a {
        if let IpAddress::V4(o) = canonical(a) {
            assert(o@ =~= mapped_octets(segs@));
        }
        assert("::ffff:"@ =~= seq![':', ':', 'f', 'f', 'f', 'f', ':']);
    }
}

fn longest_zero_run(segs: &[u16; 8]) -> (r: (usize, usize))
    ensures
        is_longest_zero_run(segs@, r.0 as int, r.1 as int),
{
    let mut best_start: usize = 0;
    let mut best_len: usize = 0;
    let mut cur_len: usize = 0;
    let mut i: usize = 0;
    while i < 8
        invariant
            0 <= i <= 8,
            segs@.len() == 8,
            cur_len <= i,
            is_zero_run(segs@, i - cur_len, cur_len as int),
            cur_len < i ==> segs@[i - cur_len - 1] != 0,
            best_start + best_len <= i,
            is_zero_run(segs@, best_start as int, best_len as int),
            best_len == 0 ==> best_start == 0,
            forall|s2: int, l2: int|
                #[trigger] is_zero_run(segs@, s2, l2) && s2 + l2 <= i ==> l2 <= best_len,
            forall|s2: int|
                0 <= s2 < best_start ==> !#[trigger] is_zero_run(segs@, s2, best_len as int),
        decreases 8 - i,
    {
        let ghost old_best_start = best_start;
        let ghost old_best_len = best_len;
        let ghost old_cur = cur_len;
        if segs[i] == 0 {
            cur_len = cur_len + 1;
            if cur_len > best_len {
                best_start = i + 1 - cur_len;
                best_len = cur_len;
            }
        } else {
            cur_len = 0;
        }
        assert forall|s2: int, l2: int|
            #[trigger] is_zero_run(segs@, s2, l2) && s2 + l2 <= i + 1 implies l2 <= best_len by {
            if s2 + l2 == i + 1 && l2 > 0 {
                if l2 > cur_len {
                    if segs@[i as int] == 0 {
                        assert(segs@[i - old_cur - 1] != 0);
                        assert(segs@[i - old_cur - 1] == 0);
                    } else {
                        assert(segs@[i as int] == 0);
                    }
                }
            } else if s2 + l2 <= i {
            } else {
                assert(l2 == 0);
            }
        }
        assert forall|s2: int|
            0 <= s2 < best_start implies !#[trigger] is_zero_run(segs@, s2, best_len as int) by {
            if best_len != old_best_len {
                if is_zero_run(segs@, s2, best_len as int) {
                    assert(is_zero_run(segs@, s2, old_best_len as int + 1));
                    assert(is_zero_run(segs@, s2, old_best_len as int));
                    assert(s2 + old_best_len + 1 <= i + 1);
                    if s2 + old_best_len + 1 <= i {
                        assert(old_best_len + 1 <= old_best_len);
                    }
                }
            }
        }
        i = i + 1;
    }
    (best_start, best_len)
}

/// Appends the segments `lo .. hi` in hexadecimal, separated by colons.
fn push_hex_joined(s: &mut String, segs: &[u16; 8], lo: usize, hi: usize)
    requires
        lo <= hi <= 8,
    ensures
        final(s)@ == old(s)@ + hex_join(segs@.subrange(lo as int, hi as int)),
{
    let mut i = lo;
    while i < hi
        invariant
            lo <= i <= hi <= 8,
            segs@.len() == 8,
            s@ == old(s)@ + hex_join(segs@.subrange(lo as int, i as int)),
        decreases hi - i,
    {
        let ghost before = s@;
        if i > lo {
            s.push(':');
        }
        push_radix(s, segs[i] as u64, 16);
        let ghost part = segs@.subrange(lo as int, i + 1);
        assert(part.drop_last() =~= segs@.subrange(lo as int, i as int));
        assert(part.last() == segs@[i as int]);
        i = i + 1;
        assert(s@ =~= old(s)@ + hex_join(segs@.subrange(lo as int, i as int)));
    }
}

/// Appends the dotted decimal text of four octets.
fn push_ipv4(s: &mut String, o: [u8; 4])
    ensures
        final(s)@ == old(s)@ + ipv4_text(o@),
{
    push_radix(s, o[0] as u64, 10);
    s.push('.');
    push_radix(s, o[1] as u64, 10);
    s.push('.');
    push_radix(s, o[2] as u64, 10);
    s.push('.');
    push_radix(s, o[3] as u64, 10);
    assert(s@ =~= old(s)@ + ipv4_text(o@));
}

impl IpAddress {
    /// The canonical form: an IPv4-mapped IPv6 address becomes the IPv4
    /// address it carries.
    pub fn to_canonical(&self) -> (r: IpAddress)
        ensures
            r == canonical(*self),
    {
        match self {
            IpAddress::V4(o) => IpAddress::V4(*o),
            IpAddress::V6(segs) => {
                if segs[0] == 0 && segs[1] == 0 && segs[2] == 0 && segs[3] == 0 && segs[4] == 0
                    && segs[5] == 0xffff {
                    IpAddress::V4(
                        [
                            (segs[6] / 256) as u8,
                            (segs[6] % 256) as u8,
                            (segs[7] / 256) as u8,
                            (segs[7] % 256) as u8,
                        ],
                    )
                } else {
                    IpAddress::V6(*segs)
                }
            },
        }
    }

    /// The text form of the address, as the standard library writes it.
    pub fn to_text(&self) -> (r: String)
        ensures
            r@ == ip_text(*self),
    {
        let mut s = String::new();
        match self {
            IpAddress::V4(o) => {
                push_ipv4(&mut s, *o);
            },
            IpAddress::V6(segs) => {
                if segs[0] == 0 && segs[1] == 0 && segs[2] == 0 && segs[3] == 0 && segs[4] == 0
                    && segs[5] == 0xffff {
                    s.push(':');
                    s.push(':');
                    s.push('f');
                    s.push('f');
                    s.push('f');
                    s.push('f');
                    s.push(':');
                    let o: [u8; 4] = [
                        (segs[6] / 256) as u8,
                        (segs[6] % 256) as u8,
                        (segs[7] / 256) as u8,
                        (segs[7] % 256) as u8,
                    ];
                    push_ipv4(&mut s, o);
                    assert(o@ =~= mapped_octets(segs@));
                    assert(s@ =~= ipv6_text(segs@));
                } else {
                    let (start, len) = longest_zero_run(segs);
                    proof {
                        let (cs, cl) = choose|cs: int, cl: int|
                            is_longest_zero_run(segs@, cs, cl);
                        lemma_longest_zero_run_unique(segs@, start as int, len as int, cs, cl);
                    }
                    if len > 1 {
                        push_hex_joined(&mut s, segs, 0, start);
                        s.push(':');
                        s.push(':');
                        push_hex_joined(&mut s, segs, start + len, 8);
                    } else {
                        push_hex_joined(&mut s, segs, 0, 8);
                        assert(segs@.subrange(0, 8) =~= segs@);
                    }
                    assert(s@ =~= ipv6_text(segs@));
                }
            },
        }
        s
    }
}

} // verus!

verus! {

/// No two colons stand next to each other in `t`.
pub open spec fn no_double_colon(t: Seq<char>) -> bool {
    forall|i: int| 0 <= i < t.len() - 1 ==> !(#[trigger] t[i] == ':' && t[i + 1] == ':')
}

proof fn lemma_lacks_concat(a: Seq<char>, b: Seq<char>, c: char)
    requires
        lacks_char(a, c),
        lacks_char(b, c),
    ensures
        lacks_char(a + b, c),
{
    assert forall|i: int| 0 <= i < (a + b).len() implies (a + b)[i] != c by {
        if i < a.len() {
            assert((a + b)[i] == a[i]);
        } else {
            assert((a + b)[i] == b[i - a.len()]);
        }
    }
}

/// The colon-separated hexadecimal text of segments: no dots, no two colons
/// in a row, no colon at either end, and a colon exactly when there are at
/// least two segments.
proof fn lemma_hex_join_shape(s: Seq<u16>)
    ensures
        lacks_char(hex_join(s), '.'),
        no_double_colon(hex_join(s)),
        s.len() == 0 ==> hex_join(s).len() == 0,
        s.len() > 0 ==> hex_join(s).len() > 0 && hex_join(s)[0] != ':' && hex_join(s).last()
            != ':',
        s.len() <= 1 ==> lacks_char(hex_join(s), ':'),
        s.len() >= 2 ==> hex_join(s)[hex_join(s.drop_last()).len() as int] == ':',
        s.len() >= 2 ==> hex_join(s) == hex_join(s.drop_last()) + seq![':'] + hex_text(
            s.last() as nat,
        ),
    decreases s.len(),
{
    if s.len() == 1 {
        lemma_radix_text_shape(s[0] as nat, 16);
    } else if s.len() >= 2 {
        let p = hex_join(s.drop_last());
        let h = hex_text(s.last() as nat);
        lemma_hex_join_shape(s.drop_last());
        lemma_radix_text_shape(s.last() as nat, 16);
        let t = hex_join(s);
        assert(t == p + seq![':'] + h);
        assert forall|i: int| 0 <= i < t.len() implies t[i] != '.' by {
            if i < p.len() {
                assert(t[i] == p[i]);
            } else if i > p.len() {
                assert(t[i] == h[i - p.len() - 1]);
            }
        }
        assert forall|i: int| 0 <= i < t.len() - 1 implies !(#[trigger] t[i] == ':' && t[i + 1]
            == ':') by {
            if i + 1 < p.len() {
                assert(t[i] == p[i] && t[i + 1] == p[i + 1]);
            } else if i + 1 == p.len() {
                assert(t[i] == p.last());
            } else if i == p.len() {
                assert(t[i + 1] == h[0]);
            } else {
                assert(t[i] == h[i - p.len() - 1]);
            }
        }
        assert(t[0] == p[0]);
        assert(t.last() == h.last());
    }
}

/// Segments read back from their colon-separated hexadecimal text.
proof fn lemma_hex_join_injective(s: Seq<u16>, t: Seq<u16>)
    requires
        hex_join(s) == hex_join(t),
    ensures
        s == t,
    decreases s.len(),
{
    lemma_hex_join_shape(s);
    lemma_hex_join_shape(t);
    if s.len() == 0 || t.len() == 0 {
        assert(s.len() == 0 && t.len() == 0);
        assert(s =~= t);
    } else if s.len() == 1 && t.len() == 1 {
        lemma_radix_text_injective(s[0] as nat, t[0] as nat, 16);
        assert(s =~= t);
    } else if s.len() >= 2 && t.len() >= 2 {
        lemma_radix_text_shape(s.last() as nat, 16);
        lemma_radix_text_shape(t.last() as nat, 16);
        lemma_split_at_last(
            hex_join(s.drop_last()),
            hex_text(s.last() as nat),
            hex_join(t.drop_last()),
            hex_text(t.last() as nat),
            ':',
        );
        lemma_hex_join_injective(s.drop_last(), t.drop_last());
        lemma_radix_text_injective(s.last() as nat, t.last() as nat, 16);
        assert(s =~= s.drop_last().push(s.last()));
        assert(t =~= t.drop_last().push(t.last()));
    } else if s.len() == 1 {
        let i = hex_join(t.drop_last()).len() as int;
        assert(hex_join(t)[i] == ':');
    } else {
        let i = hex_join(s.drop_last()).len() as int;
        assert(hex_join(s)[i] == ':');
    }
}

/// Four octets read back from their dotted decimal text.
proof fn lemma_ipv4_text_injective(o: Seq<u8>, p: Seq<u8>)
    requires
        o.len() == 4,
        p.len() == 4,
        ipv4_text(o) == ipv4_text(p),
    ensures
        o == p,
{
    let d = |x: u8| decimal_text(x as nat);
    lemma_radix_text_shape(o[0] as nat, 10);
    lemma_radix_text_shape(o[1] as nat, 10);
    lemma_radix_text_shape(o[2] as nat, 10);
    lemma_radix_text_shape(o[3] as nat, 10);
    lemma_radix_text_shape(p[0] as nat, 10);
    lemma_radix_text_shape(p[1] as nat, 10);
    lemma_radix_text_shape(p[2] as nat, 10);
    lemma_radix_text_shape(p[3] as nat, 10);
    let ro2 = d(o[2]) + seq!['.'] + d(o[3]);
    let rp2 = d(p[2]) + seq!['.'] + d(p[3]);
    let ro1 = d(o[1]) + seq!['.'] + ro2;
    let rp1 = d(p[1]) + seq!['.'] + rp2;
    assert(ipv4_text(o) =~= d(o[0]) + seq!['.'] + ro1);
    assert(ipv4_text(p) =~= d(p[0]) + seq!['.'] + rp1);
    lemma_split_at_first(d(o[0]), ro1, d(p[0]), rp1, '.');
    lemma_split_at_first(d(o[1]), ro2, d(p[1]), rp2, '.');
    lemma_split_at_first(d(o[2]), d(o[3]), d(p[2]), d(p[3]), '.');
    lemma_radix_text_injective(o[0] as nat, p[0] as nat, 10);
    lemma_radix_text_injective(o[1] as nat, p[1] as nat, 10);
    lemma_radix_text_injective(o[2] as nat, p[2] as nat, 10);
    lemma_radix_text_injective(o[3] as nat, p[3] as nat, 10);
    assert(o =~= p);
}

/// Among the runs of length `len`, the first one not before `lo` is the first
/// one of all.
proof fn lemma_first_run_of_length(segs: Seq<u16>, len: int, lo: int)
    requires
        0 <= lo,
        exists|s2: int| lo <= s2 && #[trigger] is_zero_run(segs, s2, len),
        forall|s2: int| 0 <= s2 < lo ==> !#[trigger] is_zero_run(segs, s2, len),
        forall|s2: int, l2: int| #[trigger] is_zero_run(segs, s2, l2) ==> l2 <= len,
    ensures
        exists|start: int, l: int| is_longest_zero_run(segs, start, l),
    decreases segs.len() - lo,
{
    let w = choose|s2: int| lo <= s2 && #[trigger] is_zero_run(segs, s2, len);
    if is_zero_run(segs, lo, len) {
        assert(is_longest_zero_run(segs, lo, len));
    } else {
        assert(lo < w);
        assert forall|s2: int| 0 <= s2 < lo + 1 implies !#[trigger] is_zero_run(segs, s2, len) by {
            if s2 < lo {
            }
        }
        lemma_first_run_of_length(segs, len, lo + 1);
    }
}

/// When no run is longer than `len`, some run is the longest and first one.
proof fn lemma_longest_run_at_most(segs: Seq<u16>, len: int)
    requires
        0 <= len,
        forall|s2: int, l2: int| #[trigger] is_zero_run(segs, s2, l2) ==> l2 <= len,
    ensures
        exists|start: int, l: int| is_longest_zero_run(segs, start, l),
    decreases len,
{
    if exists|s2: int| 0 <= s2 && #[trigger] is_zero_run(segs, s2, len) {
        lemma_first_run_of_length(segs, len, 0);
    } else {
        assert(is_zero_run(segs, 0, 0));
        assert(len > 0);
        assert forall|s2: int, l2: int| #[trigger] is_zero_run(segs, s2, l2) implies l2 <= len
            - 1 by {
            if l2 == len {
                assert(0 <= s2);
            }
        }
        lemma_longest_run_at_most(segs, len - 1);
    }
}

/// Every sequence of segments has a longest run of zeros, the first of the
/// longest ones.
proof fn lemma_longest_zero_run_exists(segs: Seq<u16>)
    ensures
        exists|start: int, l: int| is_longest_zero_run(segs, start, l),
{
    lemma_longest_run_at_most(segs, segs.len() as int);
}

/// A text made of a piece without two colons in a row and not ending in a
/// colon, then `::`, then a rest, is split at its first `::` in one way only.
proof fn lemma_split_at_double_colon(a: Seq<char>, b: Seq<char>, c: Seq<char>, d: Seq<char>)
    requires
        a + seq![':', ':'] + b == c + seq![':', ':'] + d,
        no_double_colon(a),
        no_double_colon(c),
        a.len() > 0 ==> a.last() != ':',
        c.len() > 0 ==> c.last() != ':',
    ensures
        a == c,
        b == d,
{
    let t = a + seq![':', ':'] + b;
    let u = c + seq![':', ':'] + d;
    if a.len() < c.len() {
        let p = a.len() as int;
        assert(t[p] == ':' && t[p + 1] == ':');
        assert(u[p] == c[p]);
        if p + 1 < c.len() {
            assert(u[p + 1] == c[p + 1]);
            assert(c[p] == ':' && c[p + 1] == ':');
        } else {
            assert(c.last() == c[p]);
        }
    } else if c.len() < a.len() {
        let p = c.len() as int;
        assert(u[p] == ':' && u[p + 1] == ':');
        assert(t[p] == a[p]);
        if p + 1 < a.len() {
            assert(t[p + 1] == a[p + 1]);
            assert(a[p] == ':' && a[p + 1] == ':');
        } else {
            assert(a.last() == a[p]);
        }
    }
    assert(a =~= t.subrange(0, a.len() as int));
    assert(c =~= u.subrange(0, c.len() as int));
    assert(b =~= t.subrange(a.len() as int + 2, t.len() as int));
    assert(d =~= u.subrange(c.len() as int + 2, u.len() as int));
}

proof fn lemma_ipv4_text_shape(o: Seq<u8>)
    requires
        o.len() == 4,
    ensures
        lacks_char(ipv4_text(o), ':'),
        ipv4_text(o)[decimal_text(o[0] as nat).len() as int] == '.',
{
    lemma_radix_text_shape(o[0] as nat, 10);
    lemma_radix_text_shape(o[1] as nat, 10);
    lemma_radix_text_shape(o[2] as nat, 10);
    lemma_radix_text_shape(o[3] as nat, 10);
    let dot: Seq<char> = seq!['.'];
    assert(lacks_char(dot, ':'));
    let t1 = decimal_text(o[0] as nat) + dot;
    lemma_lacks_concat(decimal_text(o[0] as nat), dot, ':');
    let t2 = t1 + decimal_text(o[1] as nat);
    lemma_lacks_concat(t1, decimal_text(o[1] as nat), ':');
    let t3 = t2 + dot;
    lemma_lacks_concat(t2, dot, ':');
    let t4 = t3 + decimal_text(o[2] as nat);
    lemma_lacks_concat(t3, decimal_text(o[2] as nat), ':');
    let t5 = t4 + dot;
    lemma_lacks_concat(t4, dot, ':');
    lemma_lacks_concat(t5, decimal_text(o[3] as nat), ':');
    assert(ipv4_text(o) == t5 + decimal_text(o[3] as nat));
}

/// The shape of the text of an address that is not IPv4-mapped: the chosen
/// zero run is the longest one, and the text is the segments around it with
/// `::` in its place when it has at least two segments, else all segments.
proof fn lemma_unmapped_text(segs: Seq<u16>) -> (run: (int, int))
    requires
        segs.len() == 8,
        !is_v4_mapped(segs),
    ensures
        is_longest_zero_run(segs, run.0, run.1),
        run.1 > 1 ==> ipv6_text(segs) == hex_join(segs.subrange(0, run.0)) + seq![':', ':']
            + hex_join(segs.subrange(run.0 + run.1, 8)),
        run.1 <= 1 ==> ipv6_text(segs) == hex_join(segs),
        lacks_char(ipv6_text(segs), '.'),
        !lacks_char(ipv6_text(segs), ':'),
{
    lemma_longest_zero_run_exists(segs);
    let (st, ln) = choose|start: int, len: int| is_longest_zero_run(segs, start, len);
    let a = hex_join(segs.subrange(0, st));
    let b = hex_join(segs.subrange(st + ln, 8));
    lemma_hex_join_shape(segs.subrange(0, st));
    lemma_hex_join_shape(segs.subrange(st + ln, 8));
    lemma_hex_join_shape(segs);
    if ln > 1 {
        let cc: Seq<char> = seq![':', ':'];
        assert(lacks_char(cc, '.'));
        lemma_lacks_concat(a, cc, '.');
        lemma_lacks_concat(a + cc, b, '.');
        assert((a + cc + b)[a.len() as int] == ':');
    } else {
        assert(hex_join(segs)[hex_join(segs.drop_last()).len() as int] == ':');
    }
    (st, ln)
}

/// An IPv6 address that is not IPv4-mapped reads back from its text.
proof fn lemma_unmapped_text_injective(s1: Seq<u16>, s2: Seq<u16>)
    requires
        s1.len() == 8,
        s2.len() == 8,
        !is_v4_mapped(s1),
        !is_v4_mapped(s2),
        ipv6_text(s1) == ipv6_text(s2),
    ensures
        s1 == s2,
{
    let (st1, ln1) = lemma_unmapped_text(s1);
    let (st2, ln2) = lemma_unmapped_text(s2);
    let a1 = s1.subrange(0, st1);
    let b1 = s1.subrange(st1 + ln1, 8);
    let a2 = s2.subrange(0, st2);
    let b2 = s2.subrange(st2 + ln2, 8);
    lemma_hex_join_shape(a1);
    lemma_hex_join_shape(a2);
    lemma_hex_join_shape(s1);
    lemma_hex_join_shape(s2);
    if ln1 > 1 && ln2 > 1 {
        lemma_split_at_double_colon(hex_join(a1), hex_join(b1), hex_join(a2), hex_join(b2));
        lemma_hex_join_injective(a1, a2);
        lemma_hex_join_injective(b1, b2);
        assert(st1 == st2);
        assert(ln1 == ln2);
        assert forall|k: int| 0 <= k < 8 implies s1[k] == s2[k] by {
            if k < st1 {
                assert(a1[k] == a2[k]);
            } else if k < st1 + ln1 {
                assert(s1[k] == 0 && s2[k] == 0);
            } else {
                assert(b1[k - st1 - ln1] == b2[k - st1 - ln1]);
            }
        }
        assert(s1 =~= s2);
    } else if ln1 <= 1 && ln2 <= 1 {
        lemma_hex_join_injective(s1, s2);
    } else if ln1 > 1 {
        let t = ipv6_text(s1);
        let p = hex_join(a1).len() as int;
        assert(t[p] == ':' && t[p + 1] == ':');
        assert(no_double_colon(hex_join(s2)));
        assert(t[p] == ':' && t[p + 1] == ':' && p < t.len() - 1);
    } else {
        let t = ipv6_text(s2);
        let p = hex_join(a2).len() as int;
        assert(t[p] == ':' && t[p + 1] == ':');
        assert(no_double_colon(hex_join(s1)));
        assert(t[p] == ':' && t[p + 1] == ':' && p < t.len() - 1);
    }
}

/// An IPv4-mapped IPv6 address reads back from its text.
proof fn lemma_mapped_text_injective(s1: Seq<u16>, s2: Seq<u16>)
    requires
        is_v4_mapped(s1),
        is_v4_mapped(s2),
        ipv6_text(s1) == ipv6_text(s2),
    ensures
        s1 == s2,
{
    let pre: Seq<char> = seq![':', ':', 'f', 'f', 'f', 'f', ':'];
    let t = ipv6_text(s1);
    assert(ipv4_text(mapped_octets(s1)) =~= t.subrange(7, t.len() as int));
    assert(ipv4_text(mapped_octets(s2)) =~= t.subrange(7, t.len() as int));
    lemma_ipv4_text_injective(mapped_octets(s1), mapped_octets(s2));
    let o1 = mapped_octets(s1);
    let o2 = mapped_octets(s2);
    assert(o1[0] == o2[0] && o1[1] == o2[1] && o1[2] == o2[2] && o1[3] == o2[3]);
    assert(s1[6] / 256 < 256 && s2[6] / 256 < 256 && s1[7] / 256 < 256 && s2[7] / 256 < 256);
    assert(s1[6] / 256 == s2[6] / 256 && s1[6] % 256 == s2[6] % 256);
    assert(s1[7] / 256 == s2[7] / 256 && s1[7] % 256 == s2[7] % 256);
    assert(s1[6] == s2[6]);
    assert(s1[7] == s2[7]);
    assert(s1 =~= s2);
}

/// Different addresses have different texts: an address reads back from its
/// text, so the text of an address identifies it.
pub proof fn lemma_ip_text_injective(a: IpAddress, b: IpAddress)
    requires
        ip_text(a) == ip_text(b),
    ensures
        a == b,
{
    match (a, b) {
        (IpAddress::V4(o), IpAddress::V4(p)) => {
            lemma_ipv4_text_injective(o@, p@);
            assert(o =~= p);
        },
        (IpAddress::V6(s1), IpAddress::V6(s2)) => {
            if is_v4_mapped(s1@) && is_v4_mapped(s2@) {
                lemma_mapped_text_injective(s1@, s2@);
            } else if !is_v4_mapped(s1@) && !is_v4_mapped(s2@) {
                lemma_unmapped_text_injective(s1@, s2@);
            } else if is_v4_mapped(s1@) {
                lemma_unmapped_text(s2@);
                let o = mapped_octets(s1@);
                lemma_ipv4_text_shape(o);
                assert(ipv6_text(s1@)[7 + decimal_text(o[0] as nat).len() as int] == '.');
            } else {
                lemma_unmapped_text(s1@);
                let o = mapped_octets(s2@);
                lemma_ipv4_text_shape(o);
                assert(ipv6_text(s2@)[7 + decimal_text(o[0] as nat).len() as int] == '.');
            }
            assert(s1 =~= s2);
        },
        (IpAddress::V4(o), IpAddress::V6(s)) => {
            lemma_ipv4_text_shape(o@);
            if is_v4_mapped(s@) {
                assert(ipv6_text(s@)[0] == ':');
            } else {
                lemma_unmapped_text(s@);
            }
        },
        (IpAddress::V6(s), IpAddress::V4(o)) => {
            lemma_ipv4_text_shape(o@);
            if is_v4_mapped(s@) {
                assert(ipv6_text(s@)[0] == ':');
            } else {
                lemma_unmapped_text(s@);
            }
        },
    }
}

} // verus!
