//! Which `HOST` values make a listening address: the host followed by
//! `:` and a port must read as a socket address, that is the host is an
//! IPv4 address in dotted-decimal form or a bracketed IPv6 address with an
//! optional numeric scope id.
use vstd::prelude::*;

use crate::config::{all_digits, digits_value, is_digit, lemma_digits_value_prefix};
use crate::text::chars_of;

verus! {

/// The pieces of `s` between the occurrences of `sep` (`str::split`): one
/// more piece than `s` has separators, empty pieces included.
pub open spec fn fields(s: Seq<char>, sep: char) -> Seq<Seq<char>>
    decreases s.len(),
{
    if s.len() == 0 {
        seq![Seq::empty()]
    } else {
        let f = fields(s.drop_last(), sep);
        if s.last() == sep {
            f.push(Seq::empty())
        } else {
            f.update(f.len() - 1, f.last().push(s.last()))
        }
    }
}

/// A decimal number of at least one digit whose value is at most `limit`.
pub open spec fn decimal_within(s: Seq<char>, limit: int) -> bool {
    s.len() > 0 && all_digits(s) && digits_value(s) <= limit
}

/// One part of a dotted-decimal IPv4 address: one to three digits, no
/// leading zero, at most 255.
pub open spec fn dec_octet(g: Seq<char>) -> bool {
    &&& g.len() <= 3
    &&& decimal_within(g, 255)
    &&& (g.len() == 1 || g[0] != '0')
}

/// Every piece is an IPv4 octet.
pub open spec fn all_octets(f: Seq<Seq<char>>) -> bool {
    forall|k: int| 0 <= k < f.len() ==> dec_octet(#[trigger] f[k])
}

/// An IPv4 address in dotted-decimal form: four octets joined by `.`.
pub open spec fn ipv4_text(s: Seq<char>) -> bool {
    fields(s, '.').len() == 4 && all_octets(fields(s, '.'))
}

/// A hexadecimal digit, in either case.
pub open spec fn is_hex(c: char) -> bool {
    ||| '0' <= c <= '9'
    ||| 'a' <= c <= 'f'
    ||| 'A' <= c <= 'F'
}

/// One group of an IPv6 address: one to four hexadecimal digits.
pub open spec fn hex_group(g: Seq<char>) -> bool {
    1 <= g.len() <= 4 && forall|i: int| 0 <= i < g.len() ==> is_hex(#[trigger] g[i])
}

/// Every piece is an IPv6 group.
pub open spec fn all_hex_groups(f: Seq<Seq<char>>) -> bool {
    forall|k: int| 0 <= k < f.len() ==> hex_group(#[trigger] f[k])
}

/// The first place at or after `i` where `s` holds `::`.
pub open spec fn double_colon_from(s: Seq<char>, i: int) -> Option<int>
    decreases s.len() - i,
{
    if i < 0 || i + 1 >= s.len() {
        None
    } else if s[i] == ':' && s[i + 1] == ':' {
        Some(i)
    } else {
        double_colon_from(s, i + 1)
    }
}

/// The number of groups before a `::`: none, or groups joined by `:`.
pub open spec fn head_groups(h: Seq<char>) -> Option<nat> {
    if h.len() == 0 {
        Some(0)
    } else if all_hex_groups(fields(h, ':')) {
        Some(fields(h, ':').len())
    } else {
        None
    }
}

/// The number of 16-bit groups after a `::`: none, or groups joined by `:`
/// of which the last may be an IPv4 address (worth two groups).
pub open spec fn tail_groups(t: Seq<char>) -> Option<nat> {
    let f = fields(t, ':');
    if t.len() == 0 {
        Some(0)
    } else if all_hex_groups(f) {
        Some(f.len())
    } else if all_hex_groups(f.drop_last()) && ipv4_text(f.last()) {
        Some(f.len() + 1)
    } else {
        None
    }
}

/// An IPv6 address in text form: eight groups (the last two may be an IPv4
/// address), or groups before and after one `::` that stands for at least
/// one zero group.
pub open spec fn ipv6_text(s: Seq<char>) -> bool {
    match double_colon_from(s, 0) {
        None => {
            let f = fields(s, ':');
            (f.len() == 8 && all_hex_groups(f)) || (f.len() == 7 && all_hex_groups(f.take(6))
                && ipv4_text(f[6]))
        },
        Some(i) => match (head_groups(s.take(i)), tail_groups(s.skip(i + 2))) {
            (Some(k), Some(m)) => k <= 7 && m + k <= 7,
            _ => false,
        },
    }
}

/// What stands between the brackets of an IPv6 host: the address, and
/// optionally `%` and a decimal scope id that fits in 32 bits.
pub open spec fn bracketed_ok(s: Seq<char>) -> bool {
    let f = fields(s, '%');
    ||| f.len() == 1 && ipv6_text(f[0])
    ||| f.len() == 2 && ipv6_text(f[0]) && decimal_within(f[1], 0xFFFF_FFFF)
}

/// A host that, followed by `:` and a port, reads as a socket address.
pub open spec fn listen_host_ok(h: Seq<char>) -> bool {
    ||| ipv4_text(h)
    ||| h.len() >= 2 && h[0] == '[' && h.last() == ']' && bracketed_ok(h.subrange(1, h.len() - 1))
}

/// The values of a list of character vectors.
pub open spec fn views(v: Seq<Vec<char>>) -> Seq<Seq<char>> {
    v.map_values(|p: Vec<char>| p@)
}

proof fn lemma_fields_len(s: Seq<char>, sep: char)
    ensures
        fields(s, sep).len() >= 1,
    decreases s.len(),
{
    if s.len() > 0 {
        lemma_fields_len(s.drop_last(), sep);
    }
}

/// Splits `s` at every `sep`.
pub fn split_fields(s: &Vec<char>, sep: char) -> (r: Vec<Vec<char>>)
    ensures
        views(r@) == fields(s@, sep),
{
    let n = s.len();
    let mut done: Vec<Vec<char>> = Vec::new();
    let mut cur: Vec<char> = Vec::new();
    assert(s@.take(0) =~= Seq::<char>::empty());
    assert(views(done@).push(cur@) =~= fields(s@.take(0), sep));
    for i in 0..n
        invariant
            n == s@.len(),
            views(done@).push(cur@) == fields(s@.take(i as int), sep),
    {
        let c = s[i];
        assert(s@.take(i + 1).drop_last() =~= s@.take(i as int));
        proof {
            lemma_fields_len(s@.take(i as int), sep);
        }
        let ghost before = views(done@);
        let ghost cur_before = cur@;
        if c == sep {
            done.push(cur);
            cur = Vec::new();
            assert(views(done@) =~= before.push(cur_before));
            assert(views(done@).push(cur@) =~= fields(s@.take(i + 1), sep));
        } else {
            cur.push(c);
            assert(views(done@).push(cur@) =~= fields(s@.take(i + 1), sep));
        }
    }
    assert(s@.take(n as int) =~= s@);
    let ghost before = views(done@);
    let ghost last = cur@;
    done.push(cur);
    assert(views(done@) =~= before.push(last));
    done
}

/// Whether `s` is a decimal number of at least one digit that is at most
/// `limit`.
pub fn decimal_at_most(s: &Vec<char>, limit: u64) -> (r: bool)
    requires
        limit <= 0xFFFF_FFFF,
    ensures
        r == decimal_within(s@, limit as int),
{
    let n = s.len();
    if n == 0 {
        return false;
    }
    let mut value: u64 = 0;
    for i in 0..n
        invariant
            n == s@.len(),
            limit <= 0xFFFF_FFFF,
            forall|k: int| 0 <= k < i ==> is_digit(#[trigger] s@[k]),
            value as int == digits_value(s@.take(i as int)),
            value <= limit,
    {
        let c = s[i];
        if !('0' <= c && c <= '9') {
            assert(!is_digit(s@[i as int]));
            return false;
        }
        assert(s@.take(i + 1).drop_last() =~= s@.take(i as int));
        let next = value * 10 + ((c as u32) - ('0' as u32)) as u64;
        if next > limit {
            proof {
                if all_digits(s@) {
                    lemma_digits_value_prefix(s@, i + 1);
                }
            }
            return false;
        }
        value = next;
    }
    assert(s@.take(n as int) =~= s@);
    true
}

fn dec_octet_exec(g: &Vec<char>) -> (r: bool)
    ensures
        r == dec_octet(g@),
{
    g.len() <= 3 && decimal_at_most(g, 255) && (g.len() == 1 || g[0] != '0')
}

/// Whether `s` is an IPv4 address in dotted-decimal form.
pub fn is_ipv4(s: &Vec<char>) -> (r: bool)
    ensures
        r == ipv4_text(s@),
{
    let f = split_fields(s, '.');
    if f.len() != 4 {
        return false;
    }
    for k in 0..4
        invariant
            f@.len() == 4,
            views(f@) == fields(s@, '.'),
            forall|j: int| 0 <= j < k ==> dec_octet(#[trigger] fields(s@, '.')[j]),
    {
        if !dec_octet_exec(&f[k]) {
            assert(!dec_octet(fields(s@, '.')[k as int]));
            return false;
        }
    }
    true
}

fn hex_group_exec(g: &Vec<char>) -> (r: bool)
    ensures
        r == hex_group(g@),
{
    let n = g.len();
    if n < 1 || n > 4 {
        return false;
    }
    for i in 0..n
        invariant
            n == g@.len(),
            forall|j: int| 0 <= j < i ==> is_hex(#[trigger] g@[j]),
    {
        let c = g[i];
        if !(('0' <= c && c <= '9') || ('a' <= c && c <= 'f') || ('A' <= c && c <= 'F')) {
            assert(!is_hex(g@[i as int]));
            return false;
        }
    }
    true
}

/// Whether the first `count` pieces are IPv6 groups.
fn hex_groups_upto(f: &Vec<Vec<char>>, count: usize) -> (r: bool)
    requires
        count <= f@.len(),
    ensures
        r == all_hex_groups(views(f@).take(count as int)),
{
    for k in 0..count
        invariant
            count <= f@.len(),
            forall|j: int| 0 <= j < k ==> hex_group(#[trigger] views(f@)[j]),
    {
        if !hex_group_exec(&f[k]) {
            assert(!hex_group(views(f@).take(count as int)[k as int]));
            return false;
        }
    }
    assert forall|j: int| 0 <= j < count implies hex_group(
        #[trigger] views(f@).take(count as int)[j],
    ) by {
        assert(views(f@).take(count as int)[j] == views(f@)[j]);
    }
    true
}

fn sub_vec(v: &Vec<char>, from: usize, to: usize) -> (r: Vec<char>)
    requires
        from <= to <= v@.len(),
    ensures
        r@ == v@.subrange(from as int, to as int),
{
    let mut r: Vec<char> = Vec::new();
    for i in from..to
        invariant
            from <= to <= v@.len(),
            r@ == v@.subrange(from as int, i as int),
    {
        r.push(v[i]);
        assert(v@.subrange(from as int, i + 1) =~= v@.subrange(from as int, i as int).push(
            v@[i as int],
        ));
    }
    r
}

fn head_groups_exec(h: &Vec<char>) -> (r: Option<usize>)
    ensures
        match r {
            Some(k) => head_groups(h@) == Some(k as nat),
            None => head_groups(h@) is None,
        },
{
    if h.len() == 0 {
        return Some(0);
    }
    let f = split_fields(h, ':');
    let n = f.len();
    assert(views(f@).take(n as int) =~= views(f@));
    if hex_groups_upto(&f, n) {
        Some(n)
    } else {
        None
    }
}

fn tail_groups_within(t: &Vec<char>, limit: usize) -> (r: bool)
    ensures
        r == (tail_groups(t@) matches Some(m) && m <= limit),
{
    if t.len() == 0 {
        return true;
    }
    let f = split_fields(t, ':');
    let n = f.len();
    proof {
        lemma_fields_len(t@, ':');
    }
    assert(views(f@).take(n as int) =~= views(f@));
    assert(views(f@).take(n - 1) =~= views(f@).drop_last());
    if hex_groups_upto(&f, n) {
        n <= limit
    } else if hex_groups_upto(&f, n - 1) && is_ipv4(&f[n - 1]) {
        n < limit
    } else {
        false
    }
}

/// Whether `s` is an IPv6 address in text form.
pub fn is_ipv6(s: &Vec<char>) -> (r: bool)
    ensures
        r == ipv6_text(s@),
{
    let n = s.len();
    let mut i: usize = 0;
    if n >= 2 {
        while i < n - 1 && !(s[i] == ':' && s[i + 1] == ':')
            invariant
                n == s@.len(),
                n >= 2,
                i <= n - 1,
                double_colon_from(s@, 0) == double_colon_from(s@, i as int),
            decreases n - i,
        {
            i = i + 1;
        }
    }
    if n < 2 || i >= n - 1 {
        assert(double_colon_from(s@, 0) is None);
        let f = split_fields(s, ':');
        let count = f.len();
        if count == 8 {
            assert(views(f@).take(8) =~= views(f@));
            return hex_groups_upto(&f, 8);
        }
        if count == 7 {
            return hex_groups_upto(&f, 6) && is_ipv4(&f[6]);
        }
        return false;
    }
    assert(double_colon_from(s@, 0) == Some(i as int));
    let head = sub_vec(s, 0, i);
    let tail = sub_vec(s, i + 2, n);
    assert(head@ =~= s@.take(i as int));
    assert(tail@ =~= s@.skip(i + 2));
    match head_groups_exec(&head) {
        Some(k) => k <= 7 && tail_groups_within(&tail, 7 - k),
        None => false,
    }
}

/// Whether a host, followed by `:` and a port, makes a listening address.
pub fn is_listen_host(host: &str) -> (r: bool)
    ensures
        r == listen_host_ok(host@),
{
    let h = chars_of(host);
    if is_ipv4(&h) {
        return true;
    }
    let n = h.len();
    if n < 2 || h[0] != '[' || h[n - 1] != ']' {
        return false;
    }
    let inner = sub_vec(&h, 1, n - 1);
    let f = split_fields(&inner, '%');
    if f.len() == 1 {
        is_ipv6(&f[0])
    } else if f.len() == 2 {
        is_ipv6(&f[0]) && decimal_at_most(&f[1], 0xFFFF_FFFF)
    } else {
        false
    }
}

} // verus!
