//! Candidate addresses of a peer and their normalization.

use vstd::prelude::*;

use crate::text::{dec_digits, hex_char, hex_digit, push_char, push_decimal, push_str, to_string};

verus! {

/// An IP address: IPv4 as its 32-bit value, IPv6 as its 128-bit value
/// (most significant byte first, as in `u32::from(Ipv4Addr)` and `u128::from(Ipv6Addr)`).
#[derive(Clone, Copy, Debug, PartialEq, Eq, Structural)]
pub enum IpAddr {
    /// An IPv4 address.
    V4(u32),
    /// An IPv6 address.
    V6(u128),
}

/// The dotted-decimal text of an IPv4 address, most significant byte first.
pub open spec fn ipv4_text(v: u32) -> Seq<char> {
    dec_digits((v / 0x1000000) as nat) + seq!['.'] + dec_digits(((v / 0x10000) % 256) as nat)
        + seq!['.'] + dec_digits(((v / 0x100) % 256) as nat) + seq!['.'] + dec_digits(
        (v % 256) as nat,
    )
}

/// Lowercase hexadecimal digits of `x` without leading zeros.
pub open spec fn hex_group(x: nat) -> Seq<char>
    decreases x,
{
    if x < 16 {
        seq![hex_char(x as int)]
    } else {
        hex_group(x / 16).push(hex_char((x % 16) as int))
    }
}

/// The eight 16-bit groups of an IPv6 address, most significant first.
pub open spec fn v6_groups(v: u128) -> Seq<u16> {
    seq![
        ((v / 0x10000000000000000000000000000) % 0x10000) as u16,
        ((v / 0x1000000000000000000000000) % 0x10000) as u16,
        ((v / 0x100000000000000000000) % 0x10000) as u16,
        ((v / 0x10000000000000000) % 0x10000) as u16,
        ((v / 0x1000000000000) % 0x10000) as u16,
        ((v / 0x100000000) % 0x10000) as u16,
        ((v / 0x10000) % 0x10000) as u16,
        (v % 0x10000) as u16,
    ]
}

/// Groups joined with `:`.
pub open spec fn groups_text(g: Seq<u16>) -> Seq<char>
    decreases g.len(),
{
    if g.len() == 0 {
        Seq::empty()
    } else if g.len() == 1 {
        hex_group(g[0] as nat)
    } else {
        groups_text(g.drop_last()) + seq![':'] + hex_group(g.last() as nat)
    }
}

/// A left-to-right scan for runs of zero groups: the start and length of the
/// first longest run, then of the run in progress.
pub open spec fn zero_scan(g: Seq<u16>) -> (int, int, int, int)
    decreases g.len(),
{
    if g.len() == 0 {
        (0, 0, 0, 0)
    } else {
        let (ls, ll, cs, cl) = zero_scan(g.drop_last());
        let i = g.len() - 1;
        if g.last() == 0 {
            let (ncs, ncl) = if cl == 0 {
                (i, 1)
            } else {
                (cs, cl + 1)
            };
            if ncl > ll {
                (ncs, ncl, ncs, ncl)
            } else {
                (ls, ll, ncs, ncl)
            }
        } else {
            (ls, ll, 0, 0)
        }
    }
}

/// Whether an IPv6 address maps an IPv4 one (`::ffff:a.b.c.d`).
pub open spec fn v4_mapped(v: u128) -> bool {
    v / 0x100000000 == 0xffff
}

/// The text of an IPv6 address in the RFC 5952 form that the standard
/// library writes: an IPv4-mapped address as `::ffff:` and dotted decimal;
/// otherwise lowercase groups, with the first longest run of two or more
/// zero groups shortened to `::`.
pub open spec fn ipv6_text(v: u128) -> Seq<char> {
    if v4_mapped(v) {
        "::ffff:"@ + ipv4_text((v % 0x100000000) as u32)
    } else {
        let g = v6_groups(v);
        let z = zero_scan(g);
        if z.1 > 1 {
            groups_text(g.take(z.0)) + "::"@ + groups_text(g.skip(z.0 + z.1))
        } else {
            groups_text(g)
        }
    }
}

/// The text of an address: dotted decimal for IPv4, the RFC 5952 form for IPv6.
pub open spec fn addr_text_spec(a: IpAddr) -> Seq<char> {
    match a {
        IpAddr::V4(v) => ipv4_text(v),
        IpAddr::V6(v) => ipv6_text(v),
    }
}

/// Appends the hexadecimal digits of `x`.
fn push_hex(out: &mut String, x: u64)
    ensures
        final(out)@ == old(out)@ + hex_group(x as nat),
    decreases x,
{
    if x >= 16 {
        push_hex(out, x / 16);
    }
    push_char(out, hex_digit((x % 16) as u8));
    assert(final(out)@ =~= old(out)@ + hex_group(x as nat));
}

/// Appends the dotted-decimal text of an IPv4 address.
fn push_ipv4(out: &mut String, v: u32)
    ensures
        final(out)@ == old(out)@ + ipv4_text(v),
{
    let ghost head = out@;
    push_decimal(out, (v / 0x1000000) as u64);
    push_char(out, '.');
    push_decimal(out, ((v / 0x10000) % 256) as u64);
    push_char(out, '.');
    push_decimal(out, ((v / 0x100) % 256) as u64);
    push_char(out, '.');
    push_decimal(out, (v % 256) as u64);
    assert(out@ =~= head + ipv4_text(v));
}

/// Appends groups `from..to` of `g`, joined with `:`.
fn push_groups(out: &mut String, g: &Vec<u16>, from: usize, to: usize)
    requires
        from <= to <= g@.len(),
    ensures
        final(out)@ == old(out)@ + groups_text(g@.subrange(from as int, to as int)),
{
    let ghost head = out@;
    let mut i = from;
    assert(g@.subrange(from as int, from as int) =~= Seq::<u16>::empty());
    while i < to
        invariant
            from <= i <= to <= g@.len(),
            out@ == head + groups_text(g@.subrange(from as int, i as int)),
        decreases to - i,
    {
        let ghost before = g@.subrange(from as int, i as int);
        let ghost after = g@.subrange(from as int, i + 1);
        assert(after.drop_last() =~= before);
        assert(after.last() == g@[i as int]);
        if i > from {
            push_char(out, ':');
        }
        push_hex(out, g[i] as u64);
        proof {
            if i == from {
                assert(after.len() == 1);
                assert(groups_text(after) == hex_group(after[0] as nat));
            }
        }
        assert(out@ =~= head + groups_text(after));
        i = i + 1;
    }
}

/// Writes an address as text, as the standard library displays it.
pub fn addr_text(a: &IpAddr) -> (r: String)
    ensures
        r@ == addr_text_spec(*a),
{
    let mut s = String::new();
    match a {
        IpAddr::V4(v) => {
            push_ipv4(&mut s, *v);
            assert(s@ =~= ipv4_text(*v));
        },
        IpAddr::V6(v) => {
            let v = *v;
            if v / 0x100000000 == 0xffff {
                let head = to_string("::ffff:");
                s = head;
                push_ipv4(&mut s, (v % 0x100000000) as u32);
                proof {
                    reveal_strlit("::ffff:");
                }
            } else {
                let g: Vec<u16> = vec![
                    ((v / 0x10000000000000000000000000000) % 0x10000) as u16,
                    ((v / 0x1000000000000000000000000) % 0x10000) as u16,
                    ((v / 0x100000000000000000000) % 0x10000) as u16,
                    ((v / 0x10000000000000000) % 0x10000) as u16,
                    ((v / 0x1000000000000) % 0x10000) as u16,
                    ((v / 0x100000000) % 0x10000) as u16,
                    ((v / 0x10000) % 0x10000) as u16,
                    (v % 0x10000) as u16,
                ];
                assert(g@ =~= v6_groups(v));
                let mut ls: usize = 0;
                let mut ll: usize = 0;
                let mut cs: usize = 0;
                let mut cl: usize = 0;
                let mut i: usize = 0;
                assert(g@.take(0) =~= Seq::<u16>::empty());
                while i < 8
                    invariant
                        g@.len() == 8,
                        i <= 8,
                        (ls as int, ll as int, cs as int, cl as int) == zero_scan(g@.take(i as int)),
                        ls + ll <= i && cs + cl <= i,
                    decreases 8 - i,
                {
                    assert(g@.take(i + 1).drop_last() =~= g@.take(i as int));
                    assert(g@.take(i + 1).last() == g@[i as int]);
                    if g[i] == 0 {
                        if cl == 0 {
                            cs = i;
                            cl = 1;
                        } else {
                            cl = cl + 1;
                        }
                        if cl > ll {
                            ls = cs;
                            ll = cl;
                        }
                    } else {
                        cs = 0;
                        cl = 0;
                    }
                    i = i + 1;
                }
                assert(g@.take(8) =~= g@);
                if ll > 1 {
                    push_groups(&mut s, &g, 0, ls);
                    push_str(&mut s, "::");
                    push_groups(&mut s, &g, ls + ll, 8);
                    proof {
                        reveal_strlit("::");
                        assert(g@.subrange(0, ls as int) =~= g@.take(ls as int));
                        assert(g@.subrange((ls + ll) as int, 8) =~= g@.skip((ls + ll) as int));
                    }
                } else {
                    push_groups(&mut s, &g, 0, 8);
                    assert(g@.subrange(0, 8) =~= g@);
                }
            }
        },
    }
    s
}

/// `2^118`: an IPv6 value divided by this is its top ten bits.
pub open spec fn two_118() -> u128 {
    0x400000000000000000000000000000
}

/// Loopback: `127.0.0.0/8` or `::1`.
pub open spec fn loopback_spec(a: IpAddr) -> bool {
    match a {
        IpAddr::V4(v) => v / 0x1000000 == 127,
        IpAddr::V6(v) => v == 1,
    }
}

/// Link-local IPv6 (`fe80::/10`), unusable without a scope ID.
pub open spec fn link_local_spec(a: IpAddr) -> bool {
    match a {
        IpAddr::V4(_) => false,
        IpAddr::V6(v) => v / two_118() == 0x3fa,
    }
}

/// Sort class: non-loopback IPv4, non-loopback IPv6, loopback IPv4, loopback IPv6.
pub open spec fn addr_class(a: IpAddr) -> int {
    let v6 = a is V6;
    if loopback_spec(a) {
        if v6 { 3 } else { 2 }
    } else {
        if v6 { 1 } else { 0 }
    }
}

/// The usable addresses of `s` in class `c`, in their original order.
pub open spec fn keep_class(s: Seq<IpAddr>, c: int) -> Seq<IpAddr>
    decreases s.len(),
{
    if s.len() == 0 {
        Seq::empty()
    } else {
        let prev = keep_class(s.drop_last(), c);
        let a = s.last();
        if !link_local_spec(a) && addr_class(a) == c {
            prev.push(a)
        } else {
            prev
        }
    }
}

/// Normalized candidates: link-local IPv6 removed, then a stable sort that puts
/// non-loopback IPv4 first, then non-loopback IPv6, loopback IPv4, loopback IPv6.
pub open spec fn normalize_spec(s: Seq<IpAddr>) -> Seq<IpAddr> {
    keep_class(s, 0) + keep_class(s, 1) + keep_class(s, 2) + keep_class(s, 3)
}

/// `acc` extended with each address of `new` it does not yet hold, in order.
pub open spec fn merge_spec(acc: Seq<IpAddr>, new: Seq<IpAddr>) -> Seq<IpAddr>
    decreases new.len(),
{
    if new.len() == 0 {
        acc
    } else {
        let prev = merge_spec(acc, new.drop_last());
        if prev.contains(new.last()) {
            prev
        } else {
            prev.push(new.last())
        }
    }
}

impl IpAddr {
    /// The IPv4 address `a.b.c.d`.
    pub fn v4(a: u8, b: u8, c: u8, d: u8) -> (r: IpAddr)
        ensures
            r == IpAddr::V4((a * 0x1000000 + b * 0x10000 + c * 0x100 + d) as u32),
    {
        IpAddr::V4((a as u32) * 0x1000000 + (b as u32) * 0x10000 + (c as u32) * 0x100 + d as u32)
    }

    /// Whether this is a loopback address.
    pub fn is_loopback(&self) -> (r: bool)
        ensures
            r == loopback_spec(*self),
    {
        match self {
            IpAddr::V4(v) => *v / 0x1000000 == 127,
            IpAddr::V6(v) => *v == 1,
        }
    }

    /// Whether this is an IPv4 address.
    pub fn is_ipv4(&self) -> (r: bool)
        ensures
            r == (*self is V4),
    {
        match self {
            IpAddr::V4(_) => true,
            IpAddr::V6(_) => false,
        }
    }
}

/// Returns whether an address is link-local IPv6 (`fe80::/10`), unusable without a scope ID.
pub fn is_link_local_v6(ip: &IpAddr) -> (r: bool)
    ensures
        r == link_local_spec(*ip),
{
    match ip {
        IpAddr::V6(v) => *v / 0x400000000000000000000000000000u128 == 0x3fa,
        IpAddr::V4(_) => false,
    }
}

fn addr_class_exec(a: &IpAddr) -> (r: u8)
    ensures
        r as int == addr_class(*a),
{
    let v6 = !a.is_ipv4();
    if a.is_loopback() {
        if v6 { 3 } else { 2 }
    } else {
        if v6 { 1 } else { 0 }
    }
}

/// Appends the usable addresses of `all` in class `c` to `out`.
fn push_class(out: &mut Vec<IpAddr>, all: &Vec<IpAddr>, c: u8)
    ensures
        final(out)@ == old(out)@ + keep_class(all@, c as int),
{
    let mut i: usize = 0;
    while i < all.len()
        invariant
            i <= all.len(),
            out@ == old(out)@ + keep_class(all@.take(i as int), c as int),
        decreases all.len() - i,
    {
        let a = all[i];
        proof {
            assert(all@.take(i + 1).drop_last() =~= all@.take(i as int));
        }
        if !is_link_local_v6(&a) && addr_class_exec(&a) == c {
            out.push(a);
        }
        i = i + 1;
        assert(out@ =~= old(out)@ + keep_class(all@.take(i as int), c as int));
    }
    assert(all@.take(all.len() as int) =~= all@);
}

/// Normalizes candidate addresses: removes link-local IPv6, which is unusable
/// without a scope ID, and stably orders non-loopback IPv4 first, then
/// non-loopback IPv6, loopback IPv4 and loopback IPv6.
///
/// The result may be empty when an early mDNS event carries only link-local
/// records; callers discard such an update and wait for a usable address.
pub fn normalize_addrs(all: Vec<IpAddr>) -> (r: Vec<IpAddr>)
    ensures
        r@ == normalize_spec(all@),
{
    let mut out: Vec<IpAddr> = Vec::new();
    push_class(&mut out, &all, 0);
    push_class(&mut out, &all, 1);
    push_class(&mut out, &all, 2);
    push_class(&mut out, &all, 3);
    assert(out@ =~= normalize_spec(all@));
    out
}

/// `acc` extended with each address of `new` it does not yet hold, in order.
pub fn merge_addrs(acc: &Vec<IpAddr>, new: &Vec<IpAddr>) -> (r: Vec<IpAddr>)
    ensures
        r@ == merge_spec(acc@, new@),
{
    let mut out: Vec<IpAddr> = acc.clone();
    assert(out@ =~= acc@);
    let mut i: usize = 0;
    while i < new.len()
        invariant
            i <= new.len(),
            out@ == merge_spec(acc@, new@.take(i as int)),
        decreases new.len() - i,
    {
        let a = new[i];
        proof {
            assert(new@.take(i + 1).drop_last() =~= new@.take(i as int));
        }
        if !contains_addr(&out, &a) {
            out.push(a);
        }
        i = i + 1;
    }
    assert(new@.take(new.len() as int) =~= new@);
    out
}

/// Whether `v` holds `a`.
pub fn contains_addr(v: &Vec<IpAddr>, a: &IpAddr) -> (r: bool)
    ensures
        r == v@.contains(*a),
{
    let mut i: usize = 0;
    while i < v.len()
        invariant
            i <= v.len(),
            forall|j: int| 0 <= j < i ==> v@[j] != *a,
        decreases v.len() - i,
    {
        if v[i] == *a {
            assert(v@[i as int] == *a);
            return true;
        }
        i = i + 1;
    }
    false
}

/// Two address lists are equal, element by element.
pub fn addrs_eq(a: &Vec<IpAddr>, b: &Vec<IpAddr>) -> (r: bool)
    ensures
        r == (a@ == b@),
{
    if a.len() != b.len() {
        return false;
    }
    let mut i: usize = 0;
    while i < a.len()
        invariant
            i <= a.len(),
            a.len() == b.len(),
            forall|j: int| 0 <= j < i ==> a@[j] == b@[j],
        decreases a.len() - i,
    {
        if a[i] != b[i] {
            return false;
        }
        i = i + 1;
    }
    assert(a@ =~= b@);
    true
}

// ---------------------------------------------------------------------------
// Laws
// ---------------------------------------------------------------------------

/// Keeping one address class distributes over concatenation.
pub(crate) proof fn lemma_keep_class_concat(a: Seq<IpAddr>, b: Seq<IpAddr>, c: int)
    ensures
        keep_class(a + b, c) == keep_class(a, c) + keep_class(b, c),
    decreases b.len(),
{
    if b.len() == 0 {
        assert(a + b =~= a);
        assert(keep_class(a, c) + keep_class(b, c) =~= keep_class(a, c));
    } else {
        lemma_keep_class_concat(a, b.drop_last(), c);
        assert((a + b).drop_last() =~= a + b.drop_last());
        assert((a + b).last() == b.last());
        if !link_local_spec(b.last()) && addr_class(b.last()) == c {
            assert(keep_class(a, c) + keep_class(b.drop_last(), c).push(b.last()) =~= (keep_class(
                a,
                c,
            ) + keep_class(b.drop_last(), c)).push(b.last()));
        }
    }
}

proof fn lemma_keep_class_members(s: Seq<IpAddr>, c: int)
    ensures
        forall|i: int|
            0 <= i < keep_class(s, c).len() ==> !link_local_spec(#[trigger] keep_class(s, c)[i])
                && addr_class(keep_class(s, c)[i]) == c,
    decreases s.len(),
{
    if s.len() > 0 {
        lemma_keep_class_members(s.drop_last(), c);
        let prev = keep_class(s.drop_last(), c);
        let k = keep_class(s, c);
        assert forall|i: int| 0 <= i < k.len() implies !link_local_spec(#[trigger] k[i])
            && addr_class(k[i]) == c by {
            if i < prev.len() {
                assert(k[i] == prev[i]);
            }
        }
    }
}

/// Keeping class `c` of a list whose usable members are all of class `c` keeps the list.
proof fn lemma_keep_class_of_uniform(s: Seq<IpAddr>, c: int, d: int)
    requires
        forall|i: int| 0 <= i < s.len() ==> !link_local_spec(#[trigger] s[i]) && addr_class(s[i]) == d,
    ensures
        keep_class(s, c) == (if c == d { s } else { Seq::<IpAddr>::empty() }),
    decreases s.len(),
{
    if s.len() > 0 {
        lemma_keep_class_of_uniform(s.drop_last(), c, d);
        if c == d {
            assert(s.drop_last().push(s.last()) =~= s);
        }
    }
}

/// Merging keeps every address already held.
pub(crate) proof fn lemma_merge_keeps(acc: Seq<IpAddr>, new: Seq<IpAddr>, a: IpAddr)
    requires
        acc.contains(a),
    ensures
        merge_spec(acc, new).contains(a),
    decreases new.len(),
{
    if new.len() > 0 {
        lemma_merge_keeps(acc, new.drop_last(), a);
        let prev = merge_spec(acc, new.drop_last());
        if !prev.contains(new.last()) {
            let j = choose|j: int| 0 <= j < prev.len() && prev[j] == a;
            assert(prev.push(new.last())[j] == a);
        }
    }
}

/// A usable address of `s` is kept in its class.
proof fn lemma_keep_class_keeps(s: Seq<IpAddr>, a: IpAddr)
    requires
        s.contains(a),
        !link_local_spec(a),
    ensures
        keep_class(s, addr_class(a)).contains(a),
    decreases s.len(),
{
    let c = addr_class(a);
    let prev = keep_class(s.drop_last(), c);
    if s.last() == a {
        assert(prev.push(a)[prev.len() as int] == a);
    } else {
        let j = choose|j: int| 0 <= j < s.len() && s[j] == a;
        assert(s.drop_last()[j] == a);
        lemma_keep_class_keeps(s.drop_last(), a);
        let k = choose|k: int| 0 <= k < prev.len() && prev[k] == a;
        if !link_local_spec(s.last()) && addr_class(s.last()) == c {
            assert(prev.push(s.last())[k] == a);
        }
    }
}

/// Normalizing keeps every usable address.
pub(crate) proof fn lemma_normalize_keeps(s: Seq<IpAddr>, a: IpAddr)
    requires
        s.contains(a),
        !link_local_spec(a),
    ensures
        normalize_spec(s).contains(a),
{
    lemma_keep_class_keeps(s, a);
    let c = addr_class(a);
    let (k0, k1, k2, k3) = (keep_class(s, 0), keep_class(s, 1), keep_class(s, 2), keep_class(s, 3));
    let n = normalize_spec(s);
    let k = choose|k: int| 0 <= k < keep_class(s, c).len() && keep_class(s, c)[k] == a;
    if c == 0 {
        assert(n[k] == a);
    } else if c == 1 {
        assert(n[k0.len() + k] == a);
    } else if c == 2 {
        assert(n[k0.len() + k1.len() + k] == a);
    } else {
        assert(n[k0.len() + k1.len() + k2.len() + k] == a);
    }
}

/// Normalization is idempotent: normalized candidates stay as they are.
pub proof fn normalize_is_idempotent(s: Seq<IpAddr>)
    ensures
        normalize_spec(normalize_spec(s)) == normalize_spec(s),
{
    let k0 = keep_class(s, 0);
    let k1 = keep_class(s, 1);
    let k2 = keep_class(s, 2);
    let k3 = keep_class(s, 3);
    lemma_keep_class_members(s, 0);
    lemma_keep_class_members(s, 1);
    lemma_keep_class_members(s, 2);
    lemma_keep_class_members(s, 3);
    let n = normalize_spec(s);
    assert forall|c: int| 0 <= c < 4 implies keep_class(n, c) == (if c == 0 { k0 } else if c
        == 1 { k1 } else if c == 2 { k2 } else { k3 }) by {
        lemma_keep_class_concat(k0 + k1 + k2, k3, c);
        lemma_keep_class_concat(k0 + k1, k2, c);
        lemma_keep_class_concat(k0, k1, c);
        lemma_keep_class_of_uniform(k0, c, 0);
        lemma_keep_class_of_uniform(k1, c, 1);
        lemma_keep_class_of_uniform(k2, c, 2);
        lemma_keep_class_of_uniform(k3, c, 3);
        assert(keep_class(n, c) =~= (if c == 0 { k0 } else if c == 1 { k1 } else if c == 2 {
            k2
        } else {
            k3
        }));
    }
    assert(keep_class(n, 0) == k0);
    assert(keep_class(n, 1) == k1);
    assert(keep_class(n, 2) == k2);
    assert(keep_class(n, 3) == k3);
}

/// Normalized candidates hold no link-local IPv6 address.
pub proof fn normalized_has_no_link_local(s: Seq<IpAddr>)
    ensures
        forall|i: int|
            0 <= i < normalize_spec(s).len() ==> !link_local_spec(#[trigger] normalize_spec(s)[i]),
{
    lemma_keep_class_members(s, 0);
    lemma_keep_class_members(s, 1);
    lemma_keep_class_members(s, 2);
    lemma_keep_class_members(s, 3);
    let k0 = keep_class(s, 0);
    let k1 = keep_class(s, 1);
    let k2 = keep_class(s, 2);
    let k3 = keep_class(s, 3);
    assert forall|i: int| 0 <= i < normalize_spec(s).len() implies !link_local_spec(
        #[trigger] normalize_spec(s)[i],
    ) by {
        let n = normalize_spec(s);
        if i < k0.len() {
            assert(n[i] == k0[i]);
        } else if i < k0.len() + k1.len() {
            assert(n[i] == k1[i - k0.len()]);
        } else if i < k0.len() + k1.len() + k2.len() {
            assert(n[i] == k2[i - k0.len() - k1.len()]);
        } else {
            assert(n[i] == k3[i - k0.len() - k1.len() - k2.len()]);
        }
    }
}

} // verus!
