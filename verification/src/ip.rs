//! Internet addresses: the texts of IPv4 and IPv6 addresses, the 128 bits
//! that every address is stored as, and the canonical text of those bits.
use vstd::prelude::*;
use crate::text::{
    all_digits, chars_of, decimal_of, digits_value, is_digit, push_decimal, string_of,
};

verus! {

/// How many characters stand before the first `sep`.
pub open spec fn piece_len(s: Seq<char>, sep: char) -> nat
    decreases s.len(),
{
    if s.len() == 0 || s[0] == sep {
        0
    } else {
        1 + piece_len(s.skip(1), sep)
    }
}

pub proof fn lemma_piece_len(s: Seq<char>, sep: char)
    ensures
        piece_len(s, sep) <= s.len(),
        piece_len(s, sep) < s.len() ==> s[piece_len(s, sep) as int] == sep,
        forall|k: int| 0 <= k < piece_len(s, sep) ==> #[trigger] s[k] != sep,
    decreases s.len(),
{
    if s.len() == 0 || s[0] == sep {
    } else {
        lemma_piece_len(s.skip(1), sep);
        let n = piece_len(s.skip(1), sep);
        if n < s.skip(1).len() {
            assert(s.skip(1)[n as int] == s[n as int + 1]);
        }
        assert forall|k: int| 0 <= k < piece_len(s, sep) implies #[trigger] s[k] != sep by {
            if k > 0 {
                assert(s.skip(1)[k - 1] == s[k]);
            }
        }
    }
}

/// The pieces of `s` between the occurrences of `sep`; a text without `sep`
/// is one piece.
pub open spec fn split(s: Seq<char>, sep: char) -> Seq<Seq<char>>
    decreases s.len(),
    via split_terminates
{
    let n = piece_len(s, sep) as int;
    if n >= s.len() {
        seq![s]
    } else {
        seq![s.take(n)] + split(s.skip(n + 1), sep)
    }
}

#[via_fn]
proof fn split_terminates(s: Seq<char>, sep: char) {
    lemma_piece_len(s, sep);
}

pub open spec fn chars_views(v: Seq<Vec<char>>) -> Seq<Seq<char>> {
    v.map_values(|p: Vec<char>| p@)
}

fn piece_end(v: &Vec<char>, start: usize, sep: char) -> (end: usize)
    requires
        start <= v.len(),
    ensures
        start <= end <= v.len(),
        end - start == piece_len(v@.skip(start as int), sep),
{
    let mut j: usize = start;
    let mut open = true;
    while open && j < v.len()
        invariant
            start <= j <= v.len(),
            piece_len(v@.skip(start as int), sep) == (j - start) + piece_len(
                v@.skip(j as int),
                sep,
            ),
            !open ==> piece_len(v@.skip(j as int), sep) == 0,
        decreases v.len() - j + (if open { 1nat } else { 0nat }),
    {
        proof {
            assert(v@.skip(j as int)[0] == v@[j as int]);
            assert(v@.skip(j as int).skip(1) =~= v@.skip(j + 1));
        }
        if v[j] == sep {
            open = false;
        } else {
            j += 1;
        }
    }
    j
}

fn copy_range(v: &Vec<char>, from: usize, to: usize) -> (out: Vec<char>)
    requires
        from <= to <= v.len(),
    ensures
        out@ == v@.subrange(from as int, to as int),
{
    let mut out: Vec<char> = Vec::new();
    let mut i: usize = from;
    while i < to
        invariant
            from <= i <= to <= v.len(),
            out@ == v@.subrange(from as int, i as int),
        decreases to - i,
    {
        out.push(v[i]);
        proof {
            assert(v@.subrange(from as int, i + 1) =~= v@.subrange(from as int, i as int).push(
                v@[i as int],
            ));
        }
        i += 1;
    }
    out
}

/// Splits `v[from..to]` at each `sep`.
fn split_range(v: &Vec<char>, from: usize, to: usize, sep: char) -> (out: Vec<Vec<char>>)
    requires
        from <= to <= v.len(),
    ensures
        chars_views(out@) == split(v@.subrange(from as int, to as int), sep),
{
    let w = copy_range(v, from, to);
    let mut out: Vec<Vec<char>> = Vec::new();
    let mut i: usize = 0;
    let mut done = false;
    proof {
        assert(w@.skip(0) =~= w@);
        assert(chars_views(out@) =~= Seq::<Seq<char>>::empty());
    }
    while !done
        invariant
            i <= w.len(),
            !done ==> chars_views(out@) + split(w@.skip(i as int), sep) == split(w@, sep),
            done ==> chars_views(out@) == split(w@, sep),
        decreases w.len() - i + (if done { 0nat } else { 1nat }),
    {
        let end = piece_end(&w, i, sep);
        let piece = copy_range(&w, i, end);
        proof {
            let rest = w@.skip(i as int);
            let n = piece_len(rest, sep) as int;
            assert(rest.take(n) =~= w@.subrange(i as int, end as int));
            assert(chars_views(out@.push(piece)) =~= chars_views(out@).push(piece@));
            if end < w.len() {
                assert(rest.skip(n + 1) =~= w@.skip(end + 1));
                assert(chars_views(out@).push(piece@) + split(w@.skip(end + 1), sep) =~= chars_views(
                    out@,
                ) + (seq![piece@] + split(w@.skip(end + 1), sep)));
            } else {
                assert(rest.take(n) =~= rest);
                assert(chars_views(out@).push(piece@) =~= chars_views(out@) + seq![rest]);
            }
        }
        out.push(piece);
        if end < w.len() {
            i = end + 1;
        } else {
            done = true;
        }
    }
    out
}

/// A decimal octet: one to three digits, no leading zero, at most 255.
pub open spec fn octet_of(s: Seq<char>) -> Option<u8> {
    if 1 <= s.len() <= 3 && all_digits(s) && (s.len() == 1 || s[0] != '0') && digits_value(s)
        <= 255 {
        Some(digits_value(s) as u8)
    } else {
        None
    }
}

/// The four octets of a dotted IPv4 address.
pub open spec fn ipv4_of(s: Seq<char>) -> Option<Seq<u8>> {
    let p = split(s, '.');
    if p.len() == 4 && octet_of(p[0]) is Some && octet_of(p[1]) is Some && octet_of(p[2]) is Some
        && octet_of(p[3]) is Some {
        Some(seq![octet_of(p[0])->0, octet_of(p[1])->0, octet_of(p[2])->0, octet_of(p[3])->0])
    } else {
        None
    }
}

fn parse_octet(v: &Vec<char>) -> (r: Option<u8>)
    ensures
        r == octet_of(v@),
{
    if v.len() < 1 || v.len() > 3 {
        return None;
    }
    if v.len() > 1 && v[0] == '0' {
        return None;
    }
    let mut acc: u32 = 0;
    let mut i: usize = 0;
    while i < v.len()
        invariant
            i <= v.len() <= 3,
            all_digits(v@.take(i as int)),
            acc == digits_value(v@.take(i as int)),
            acc <= 999,
        decreases v.len() - i,
    {
        let c = v[i];
        proof {
            assert(v@.take(i + 1).drop_last() =~= v@.take(i as int));
            assert(v@.take(i + 1).last() == c);
        }
        if !(c >= '0' && c <= '9') {
            return None;
        }
        if acc > 99 {
            // A fourth digit cannot come: at most three are read.
            proof {
                lemma_small_digits(v@.take(i as int));
            }
            return None;
        }
        acc = acc * 10 + (c as u32 - '0' as u32);
        proof {
            let next = v@.take(i + 1);
            assert forall|k: int| 0 <= k < next.len() implies is_digit(#[trigger] next[k]) by {
                if k < i {
                    assert(v@.take(i as int)[k] == next[k]);
                }
            }
        }
        i += 1;
    }
    proof {
        assert(v@.take(v@.len() as int) =~= v@);
    }
    if acc > 255 {
        None
    } else {
        Some(acc as u8)
    }
}

/// Up to two digits denote less than a hundred.
proof fn lemma_small_digits(s: Seq<char>)
    requires
        all_digits(s),
        s.len() <= 2,
    ensures
        digits_value(s) <= 99,
{
    if s.len() == 0 {
    } else if s.len() == 1 {
        assert(s.drop_last().len() == 0);
        assert(digits_value(s.drop_last()) == 0);
    } else {
        let t = s.drop_last();
        assert(t.len() == 1);
        assert(t.drop_last().len() == 0);
        assert(digits_value(t.drop_last()) == 0);
        assert(is_digit(t.last())) by {
            assert(t.last() == s[0]);
        }
        assert(digits_value(t) <= 9);
    }
}

fn parse_ipv4(v: &Vec<char>, from: usize, to: usize) -> (r: Option<[u8; 4]>)
    requires
        from <= to <= v.len(),
    ensures
        match r {
            Some(o) => ipv4_of(v@.subrange(from as int, to as int)) == Some(o@),
            None => ipv4_of(v@.subrange(from as int, to as int)) is None,
        },
{
    let parts = split_range(v, from, to, '.');
    if parts.len() != 4 {
        return None;
    }
    proof {
        assert(forall|k: int| 0 <= k < 4 ==> chars_views(parts@)[k] == parts@[k]@);
    }
    let a = parse_octet(&parts[0]);
    let b = parse_octet(&parts[1]);
    let c = parse_octet(&parts[2]);
    let d = parse_octet(&parts[3]);
    match (a, b, c, d) {
        (Some(a), Some(b), Some(c), Some(d)) => {
            let o = [a, b, c, d];
            proof {
                assert(o@ =~= seq![a, b, c, d]);
            }
            Some(o)
        },
        _ => None,
    }
}


pub open spec fn is_hex(c: char) -> bool {
    is_digit(c) || ('a' <= c <= 'f') || ('A' <= c <= 'F')
}

pub open spec fn hex_value(c: char) -> nat {
    if is_digit(c) {
        (c as u32 - '0' as u32) as nat
    } else if 'a' <= c <= 'f' {
        (c as u32 - 'a' as u32 + 10) as nat
    } else {
        (c as u32 - 'A' as u32 + 10) as nat
    }
}

/// The number that a run of hexadecimal digits denotes.
pub open spec fn hex_digits_value(s: Seq<char>) -> nat
    decreases s.len(),
{
    if s.len() == 0 {
        0
    } else {
        hex_digits_value(s.drop_last()) * 16 + hex_value(s.last())
    }
}

pub open spec fn all_hex(s: Seq<char>) -> bool {
    forall|i: int| 0 <= i < s.len() ==> is_hex(#[trigger] s[i])
}

/// The largest number that `n` hexadecimal digits denote, for `n` up to 4.
pub open spec fn hex_cap(n: int) -> nat {
    if n <= 0 {
        0
    } else if n == 1 {
        15
    } else if n == 2 {
        255
    } else if n == 3 {
        4095
    } else {
        65535
    }
}

/// A group of an IPv6 address: one to four hexadecimal digits.
pub open spec fn hex_group_of(s: Seq<char>) -> Option<u16> {
    if 1 <= s.len() <= 4 && all_hex(s) {
        Some(hex_digits_value(s) as u16)
    } else {
        None
    }
}

fn parse_hex_group(v: &Vec<char>) -> (r: Option<u16>)
    ensures
        r == hex_group_of(v@),
{
    if v.len() < 1 || v.len() > 4 {
        return None;
    }
    let mut acc: u32 = 0;
    let mut i: usize = 0;
    while i < v.len()
        invariant
            i <= v.len() <= 4,
            all_hex(v@.take(i as int)),
            acc == hex_digits_value(v@.take(i as int)),
            acc <= hex_cap(i as int),
        decreases v.len() - i,
    {
        let c = v[i];
        proof {
            assert(v@.take(i + 1).drop_last() =~= v@.take(i as int));
            assert(v@.take(i + 1).last() == c);
        }
        let d: u32 = if c >= '0' && c <= '9' {
            c as u32 - '0' as u32
        } else if c >= 'a' && c <= 'f' {
            c as u32 - 'a' as u32 + 10
        } else if c >= 'A' && c <= 'F' {
            c as u32 - 'A' as u32 + 10
        } else {
            return None;
        };
        acc = acc * 16 + d;
        proof {
            let next = v@.take(i + 1);
            assert forall|k: int| 0 <= k < next.len() implies is_hex(#[trigger] next[k]) by {
                if k < i {
                    assert(v@.take(i as int)[k] == next[k]);
                }
            }
        }
        i += 1;
    }
    proof {
        assert(v@.take(v@.len() as int) =~= v@);
    }
    Some(acc as u16)
}

/// The groups that the pieces denote, where each is a group.
pub open spec fn hex_groups(parts: Seq<Seq<char>>) -> Option<Seq<u16>> {
    if forall|i: int| 0 <= i < parts.len() ==> (#[trigger] hex_group_of(parts[i])) is Some {
        Some(parts.map_values(|p: Seq<char>| hex_group_of(p)->0))
    } else {
        None
    }
}

/// The two groups that hold the four octets of an IPv4 address.
pub open spec fn v4_groups(o: Seq<u8>) -> Seq<u16> {
    seq![(o[0] * 256 + o[1]) as u16, (o[2] * 256 + o[3]) as u16]
}

/// The groups of pieces of which the last may be a dotted IPv4 address,
/// which stands for two groups.
pub open spec fn tail_groups(parts: Seq<Seq<char>>) -> Option<Seq<u16>> {
    if parts.len() > 0 && ipv4_of(parts.last()) is Some {
        match hex_groups(parts.drop_last()) {
            Some(g) => Some(g + v4_groups(ipv4_of(parts.last())->0)),
            None => None,
        }
    } else {
        hex_groups(parts)
    }
}

/// Where the first `::` of `s` at or after `from` stands.
pub open spec fn first_pair(s: Seq<char>, from: int) -> Option<int>
    decreases s.len() - from,
{
    if from < 0 || from + 1 >= s.len() {
        None
    } else if s[from] == ':' && s[from + 1] == ':' {
        Some(from)
    } else {
        first_pair(s, from + 1)
    }
}

/// The groups on one side of `::`; an empty side has none. A dotted IPv4
/// address may end the side after `::` only.
pub open spec fn side_groups(side: Seq<char>, v4: bool) -> Option<Seq<u16>> {
    if side.len() == 0 {
        Some(Seq::empty())
    } else if v4 {
        tail_groups(split(side, ':'))
    } else {
        hex_groups(split(side, ':'))
    }
}

pub open spec fn zero_groups(n: int) -> Seq<u16> {
    Seq::new(n as nat, |i: int| 0u16)
}

/// The eight groups of an IPv6 address: eight groups separated by `:`, or
/// fewer with one `::` that stands for the missing groups, all zero.
pub open spec fn ipv6_of(s: Seq<char>) -> Option<Seq<u16>> {
    match first_pair(s, 0) {
        Some(i) => {
            let h = side_groups(s.take(i), false);
            let t = side_groups(s.skip(i + 2), true);
            if h is Some && t is Some && h->0.len() + t->0.len() <= 7 {
                Some(h->0 + zero_groups(8 - h->0.len() - t->0.len()) + t->0)
            } else {
                None
            }
        },
        None => {
            let g = tail_groups(split(s, ':'));
            if g is Some && g->0.len() == 8 {
                g
            } else {
                None
            }
        },
    }
}

/// The IPv6 address that an IPv4 address is mapped to.
pub open spec fn mapped(o: Seq<u8>) -> Seq<u16> {
    zero_groups(5) + seq![0xffffu16] + v4_groups(o)
}

/// The eight groups of the address that a text denotes, an IPv4 address
/// mapped into IPv6.
pub open spec fn address_of(s: Seq<char>) -> Option<Seq<u16>> {
    match ipv4_of(s) {
        Some(o) => Some(mapped(o)),
        None => ipv6_of(s),
    }
}

/// The 128 bits of eight groups, the first group highest.
pub open spec fn bits_of(g: Seq<u16>) -> u128 {
    (((((((g[0] as int * 65536 + g[1]) * 65536 + g[2]) * 65536 + g[3]) * 65536 + g[4]) * 65536
        + g[5]) * 65536 + g[6]) * 65536 + g[7]) as u128
}

/// The 128 bits of the address that a text denotes.
pub open spec fn ip_of_text(s: Seq<char>) -> Option<u128> {
    match address_of(s) {
        Some(g) => Some(bits_of(g)),
        None => None,
    }
}

fn parse_hex_groups(parts: &Vec<Vec<char>>, count: usize) -> (r: Option<Vec<u16>>)
    requires
        count <= parts.len(),
    ensures
        match r {
            Some(g) => hex_groups(chars_views(parts@).take(count as int)) == Some(g@),
            None => hex_groups(chars_views(parts@).take(count as int)) is None,
        },
{
    let ghost ps = chars_views(parts@).take(count as int);
    let mut out: Vec<u16> = Vec::new();
    let mut i: usize = 0;
    while i < count
        invariant
            i <= count <= parts.len(),
            ps == chars_views(parts@).take(count as int),
            out.len() == i,
            forall|k: int|
                0 <= k < i ==> (#[trigger] hex_group_of(ps[k])) is Some && out@[k] == hex_group_of(
                    ps[k],
                )->0,
        decreases count - i,
    {
        proof {
            assert(ps[i as int] == parts@[i as int]@);
        }
        match parse_hex_group(&parts[i]) {
            Some(g) => {
                out.push(g);
            },
            None => {
                proof {
                    assert(hex_group_of(ps[i as int]) is None);
                }
                return None;
            },
        }
        i += 1;
    }
    proof {
        assert(out@ =~= ps.map_values(|p: Seq<char>| hex_group_of(p)->0));
    }
    Some(out)
}

fn parse_tail_groups(parts: &Vec<Vec<char>>) -> (r: Option<Vec<u16>>)
    ensures
        match r {
            Some(g) => tail_groups(chars_views(parts@)) == Some(g@),
            None => tail_groups(chars_views(parts@)) is None,
        },
{
    let ghost ps = chars_views(parts@);
    let n = parts.len();
    proof {
        assert(ps.take(n as int) =~= ps);
    }
    if n > 0 {
        let last = &parts[n - 1];
        proof {
            assert(ps.last() == last@);
            assert(last@.subrange(0, last@.len() as int) =~= last@);
            assert(ps.take(n - 1) =~= ps.drop_last());
        }
        match parse_ipv4(last, 0, last.len()) {
            Some(o) => {
                match parse_hex_groups(parts, n - 1) {
                    Some(mut g) => {
                        let ghost before = g@;
                        g.push((o[0] as u16) * 256 + o[1] as u16);
                        g.push((o[2] as u16) * 256 + o[3] as u16);
                        proof {
                            assert(g@ =~= before + v4_groups(o@));
                        }
                        return Some(g);
                    },
                    None => {
                        return None;
                    },
                }
            },
            None => {},
        }
    }
    parse_hex_groups(parts, n)
}

fn find_pair(v: &Vec<char>) -> (r: Option<usize>)
    ensures
        match r {
            Some(i) => first_pair(v@, 0) == Some(i as int) && i + 2 <= v.len(),
            None => first_pair(v@, 0) is None,
        },
{
    if v.len() < 2 {
        return None;
    }
    let mut i: usize = 0;
    while i < v.len() - 1
        invariant
            v.len() >= 2,
            i <= v.len() - 1,
            first_pair(v@, 0) == first_pair(v@, i as int),
        decreases v.len() - i,
    {
        if v[i] == ':' && v[i + 1] == ':' {
            return Some(i);
        }
        i += 1;
    }
    None
}

fn parse_side(v: &Vec<char>, from: usize, to: usize, v4: bool) -> (r: Option<Vec<u16>>)
    requires
        from <= to <= v.len(),
    ensures
        match r {
            Some(g) => side_groups(v@.subrange(from as int, to as int), v4) == Some(g@),
            None => side_groups(v@.subrange(from as int, to as int), v4) is None,
        },
{
    if from == to {
        return Some(Vec::new());
    }
    let parts = split_range(v, from, to, ':');
    if v4 {
        parse_tail_groups(&parts)
    } else {
        proof {
            assert(chars_views(parts@).take(parts@.len() as int) =~= chars_views(parts@));
        }
        parse_hex_groups(&parts, parts.len())
    }
}

fn parse_ipv6(v: &Vec<char>) -> (r: Option<Vec<u16>>)
    ensures
        match r {
            Some(g) => ipv6_of(v@) == Some(g@) && g@.len() == 8,
            None => ipv6_of(v@) is None,
        },
{
    match find_pair(v) {
        Some(i) => {
            proof {
                assert(v@.subrange(0, i as int) =~= v@.take(i as int));
                assert(v@.subrange(i + 2, v@.len() as int) =~= v@.skip(i + 2));
            }
            let head = parse_side(v, 0, i, false);
            let tail = parse_side(v, i + 2, v.len(), true);
            match (head, tail) {
                (Some(h), Some(t)) => {
                    if h.len() > 7 || t.len() > 7 - h.len() {
                        return None;
                    }
                    let mut out: Vec<u16> = Vec::new();
                    let fill: usize = 8 - h.len() - t.len();
                    let mut k: usize = 0;
                    while k < h.len()
                        invariant
                            k <= h.len(),
                            out@ == h@.take(k as int),
                        decreases h.len() - k,
                    {
                        out.push(h[k]);
                        proof {
                            assert(h@.take(k + 1) =~= h@.take(k as int).push(h@[k as int]));
                        }
                        k += 1;
                    }
                    let mut z: usize = 0;
                    while z < fill
                        invariant
                            z <= fill,
                            out@ == h@ + zero_groups(z as int),
                            h@.take(h@.len() as int) == h@,
                        decreases fill - z,
                    {
                        out.push(0);
                        proof {
                            assert(h@ + zero_groups(z + 1) =~= (h@ + zero_groups(z as int)).push(
                                0u16,
                            ));
                        }
                        z += 1;
                    }
                    let mut k: usize = 0;
                    while k < t.len()
                        invariant
                            k <= t.len(),
                            out@ == h@ + zero_groups(fill as int) + t@.take(k as int),
                        decreases t.len() - k,
                    {
                        out.push(t[k]);
                        proof {
                            assert(h@ + zero_groups(fill as int) + t@.take(k + 1) =~= (h@
                                + zero_groups(fill as int) + t@.take(k as int)).push(t@[k as int]));
                        }
                        k += 1;
                    }
                    proof {
                        assert(t@.take(t@.len() as int) =~= t@);
                    }
                    Some(out)
                },
                _ => None,
            }
        },
        None => {
            proof {
                assert(v@.subrange(0, v@.len() as int) =~= v@);
            }
            let parts = split_range(v, 0, v.len(), ':');
            match parse_tail_groups(&parts) {
                Some(g) => {
                    if g.len() == 8 {
                        Some(g)
                    } else {
                        None
                    }
                },
                None => None,
            }
        },
    }
}

fn bits_from_groups(g: &Vec<u16>) -> (bits: u128)
    requires
        g@.len() == 8,
    ensures
        bits == bits_of(g@),
{
    let hi: u64 = (((g[0] as u64) * 65536 + g[1] as u64) * 65536 + g[2] as u64) * 65536
        + g[3] as u64;
    let lo: u64 = (((g[4] as u64) * 65536 + g[5] as u64) * 65536 + g[6] as u64) * 65536
        + g[7] as u64;
    (hi as u128) * 18_446_744_073_709_551_616u128 + lo as u128
}

/// An address of either family.
#[derive(Clone, Copy, Debug, PartialEq, Eq)]
pub enum IpAddress {
    /// The four octets of an IPv4 address.
    V4([u8; 4]),
    /// The eight groups of an IPv6 address.
    V6([u16; 8]),
}

impl IpAddress {
    /// The eight groups of the address, an IPv4 address mapped into IPv6.
    pub open spec fn groups(self) -> Seq<u16> {
        match self {
            IpAddress::V4(o) => mapped(o@),
            IpAddress::V6(g) => g@,
        }
    }
}

/// Reads an IPv4 or IPv6 address.
pub fn parse_address(s: &str) -> (r: Option<IpAddress>)
    ensures
        match r {
            Some(a) => address_of(s@) == Some(a.groups()),
            None => address_of(s@) is None,
        },
{
    let v = chars_of(s);
    proof {
        assert(v@.subrange(0, v@.len() as int) =~= v@);
    }
    match parse_ipv4(&v, 0, v.len()) {
        Some(o) => Some(IpAddress::V4(o)),
        None => match parse_ipv6(&v) {
            Some(g) => {
                let a = [g[0], g[1], g[2], g[3], g[4], g[5], g[6], g[7]];
                proof {
                    assert(a@ =~= g@);
                }
                Some(IpAddress::V6(a))
            },
            None => None,
        },
    }
}

/// The 128 bits that an address is stored as: an IPv6 address as it is, an
/// IPv4 address as the IPv6 address that it is mapped to.
pub fn convert_ip_to_ipv6(ip: IpAddress) -> (bits: u128)
    ensures
        bits == bits_of(ip.groups()),
{
    let mut g: Vec<u16> = Vec::new();
    match ip {
        IpAddress::V4(o) => {
            g.push(0);
            g.push(0);
            g.push(0);
            g.push(0);
            g.push(0);
            g.push(0xffff);
            g.push((o[0] as u16) * 256 + o[1] as u16);
            g.push((o[2] as u16) * 256 + o[3] as u16);
            proof {
                assert(g@ =~= mapped(o@));
            }
        },
        IpAddress::V6(a) => {
            g.push(a[0]);
            g.push(a[1]);
            g.push(a[2]);
            g.push(a[3]);
            g.push(a[4]);
            g.push(a[5]);
            g.push(a[6]);
            g.push(a[7]);
            proof {
                assert(g@ =~= a@);
            }
        },
    }
    bits_from_groups(&g)
}

/// Reads an IPv4 or IPv6 address and gives its 128 bits.
pub fn parse_ip(s: &str) -> (r: Option<u128>)
    ensures
        r == ip_of_text(s@),
{
    match parse_address(s) {
        Some(a) => Some(convert_ip_to_ipv6(a)),
        None => None,
    }
}

/// The eight groups of 128 bits, the highest first.
pub open spec fn groups_of(bits: u128) -> Seq<u16> {
    Seq::new(8, |i: int| group_at(bits, i))
}

/// The group of `bits` at position `i`, counted from the highest.
pub open spec fn group_at(bits: u128, i: int) -> u16 {
    if i == 0 {
        (bits / 0x1_0000_0000_0000_0000_0000_0000_0000u128) as u16
    } else if i == 1 {
        (bits / 0x1_0000_0000_0000_0000_0000_0000u128 % 65536) as u16
    } else if i == 2 {
        (bits / 0x1_0000_0000_0000_0000_0000u128 % 65536) as u16
    } else if i == 3 {
        (bits / 0x1_0000_0000_0000_0000u128 % 65536) as u16
    } else if i == 4 {
        (bits / 0x1_0000_0000_0000u128 % 65536) as u16
    } else if i == 5 {
        (bits / 0x1_0000_0000u128 % 65536) as u16
    } else if i == 6 {
        (bits / 0x1_0000u128 % 65536) as u16
    } else {
        (bits % 65536) as u16
    }
}

fn groups_from_bits(bits: u128) -> (g: Vec<u16>)
    ensures
        g@ == groups_of(bits),
{
    let mut g: Vec<u16> = Vec::new();
    g.push((bits / 0x1_0000_0000_0000_0000_0000_0000_0000u128) as u16);
    g.push((bits / 0x1_0000_0000_0000_0000_0000_0000u128 % 65536) as u16);
    g.push((bits / 0x1_0000_0000_0000_0000_0000u128 % 65536) as u16);
    g.push((bits / 0x1_0000_0000_0000_0000u128 % 65536) as u16);
    g.push((bits / 0x1_0000_0000_0000u128 % 65536) as u16);
    g.push((bits / 0x1_0000_0000u128 % 65536) as u16);
    g.push((bits / 0x1_0000u128 % 65536) as u16);
    g.push((bits % 65536) as u16);
    proof {
        assert(g@ =~= groups_of(bits));
    }
    g
}

pub open spec fn hex_char(d: nat) -> char {
    if d % 16 < 10 {
        (('0' as u8) + (d % 16) as u8) as char
    } else {
        (('a' as u8) + ((d % 16) - 10) as u8) as char
    }
}

/// The lowercase hexadecimal digits of `n`, without leading zeros.
pub open spec fn hex_of(n: nat) -> Seq<char>
    decreases n,
{
    if n < 16 {
        seq![hex_char(n)]
    } else {
        hex_of(n / 16).push(hex_char(n % 16))
    }
}

fn push_hex(out: &mut Vec<char>, n: u16)
    ensures
        final(out)@ == old(out)@ + hex_of(n as nat),
    decreases n,
{
    if n >= 16 {
        push_hex(out, n / 16);
    }
    let d: u8 = (n % 16) as u8;
    let c: char = if d < 10 {
        (('0' as u8) + d) as char
    } else {
        (('a' as u8) + (d - 10)) as char
    };
    out.push(c);
    proof {
        assert(final(out)@ =~= old(out)@ + hex_of(n as nat));
    }
}

/// The groups in hexadecimal, with `:` between them.
pub open spec fn joined(g: Seq<u16>) -> Seq<char>
    decreases g.len(),
{
    if g.len() == 0 {
        Seq::empty()
    } else if g.len() == 1 {
        hex_of(g[0] as nat)
    } else {
        joined(g.drop_last()) + seq![':'] + hex_of(g.last() as nat)
    }
}

fn push_joined(out: &mut Vec<char>, g: &Vec<u16>, from: usize, to: usize)
    requires
        from <= to <= g.len(),
    ensures
        final(out)@ == old(out)@ + joined(g@.subrange(from as int, to as int)),
{
    let mut i: usize = from;
    proof {
        assert(old(out)@ + joined(g@.subrange(from as int, from as int)) =~= old(out)@);
    }
    while i < to
        invariant
            from <= i <= to <= g.len(),
            out@ == old(out)@ + joined(g@.subrange(from as int, i as int)),
        decreases to - i,
    {
        let ghost before = g@.subrange(from as int, i as int);
        let ghost next = g@.subrange(from as int, i + 1);
        proof {
            assert(next.drop_last() =~= before);
            assert(next.last() == g@[i as int]);
        }
        if i > from {
            out.push(':');
        }
        push_hex(out, g[i]);
        proof {
            if i > from {
                assert(out@ =~= old(out)@ + (joined(before) + seq![':'] + hex_of(
                    g@[i as int] as nat,
                )));
            } else {
                assert(joined(before) =~= Seq::<char>::empty());
                assert(out@ =~= old(out)@ + hex_of(g@[i as int] as nat));
            }
        }
        i += 1;
    }
}

/// How many zero groups stand in a row from position `i` on.
pub open spec fn zero_run(g: Seq<u16>, i: int) -> nat
    decreases g.len() - i,
{
    if 0 <= i < g.len() && g[i] == 0 {
        1 + zero_run(g, i + 1)
    } else {
        0
    }
}

/// The first position, at or after `i`, of a longest run of zero groups.
pub open spec fn longest_run(g: Seq<u16>, i: int) -> int
    decreases g.len() - i,
{
    if i < 0 || i >= g.len() {
        g.len() as int
    } else {
        let later = longest_run(g, i + 1);
        if zero_run(g, i) >= zero_run(g, later) {
            i
        } else {
            later
        }
    }
}

/// An IPv4 address mapped into IPv6: five zero groups, then `ffff`.
pub open spec fn is_mapped(g: Seq<u16>) -> bool {
    g[0] == 0 && g[1] == 0 && g[2] == 0 && g[3] == 0 && g[4] == 0 && g[5] == 0xffff
}

/// The four octets of two groups, in decimal with `.` between them.
pub open spec fn dotted(hi: u16, lo: u16) -> Seq<char> {
    decimal_of((hi / 256) as nat) + seq!['.'] + decimal_of((hi % 256) as nat) + seq!['.']
        + decimal_of((lo / 256) as nat) + seq!['.'] + decimal_of((lo % 256) as nat)
}

/// The canonical text of an address given by its eight groups: a mapped
/// IPv4 address as `::ffff:` and the dotted address; else the groups in
/// hexadecimal, the first longest run of two or more zero groups as `::`.
pub open spec fn canonical_groups_text(g: Seq<u16>) -> Seq<char> {
    if is_mapped(g) {
        seq![':', ':', 'f', 'f', 'f', 'f', ':'] + dotted(g[6], g[7])
    } else {
        let start = longest_run(g, 0);
        let len = zero_run(g, start) as int;
        if len > 1 {
            joined(g.take(start)) + seq![':', ':'] + joined(g.skip(start + len))
        } else {
            joined(g)
        }
    }
}

/// The canonical text of the address with the given bits.
pub open spec fn canonical_ip(bits: u128) -> Seq<char> {
    canonical_groups_text(groups_of(bits))
}

/// The start and the length of the first longest run of zero groups.
fn find_longest_run(g: &Vec<u16>) -> (r: (usize, usize))
    requires
        g.len() == 8,
    ensures
        r.0 == longest_run(g@, 0),
        r.1 == zero_run(g@, r.0 as int),
        r.0 + r.1 <= 8,
{
    let mut best: usize = 8;
    let mut best_len: usize = 0;
    let mut run: usize = 0;
    let mut i: usize = 8;
    while i > 0
        invariant
            g.len() == 8,
            i <= 8,
            run == zero_run(g@, i as int),
            best == longest_run(g@, i as int),
            best_len == zero_run(g@, best as int),
            i <= best <= 8,
            best + best_len <= 8,
            i + run <= 8,
        decreases i,
    {
        i -= 1;
        if g[i] == 0 {
            run += 1;
        } else {
            run = 0;
        }
        if run >= best_len {
            best = i;
            best_len = run;
        }
    }
    (best, best_len)
}

/// The canonical text of the address with the given bits.
pub fn ip_text(bits: u128) -> (s: String)
    ensures
        s@ == canonical_ip(bits),
{
    let g = groups_from_bits(bits);
    let mut out: Vec<char> = Vec::new();
    if g[0] == 0 && g[1] == 0 && g[2] == 0 && g[3] == 0 && g[4] == 0 && g[5] == 0xffff {
        out.push(':');
        out.push(':');
        out.push('f');
        out.push('f');
        out.push('f');
        out.push('f');
        out.push(':');
        push_decimal(&mut out, (g[6] / 256) as u64);
        out.push('.');
        push_decimal(&mut out, (g[6] % 256) as u64);
        out.push('.');
        push_decimal(&mut out, (g[7] / 256) as u64);
        out.push('.');
        push_decimal(&mut out, (g[7] % 256) as u64);
        proof {
            assert(out@ =~= seq![':', ':', 'f', 'f', 'f', 'f', ':'] + dotted(g@[6], g@[7]));
        }
    } else {
        let (start, len) = find_longest_run(&g);
        if len > 1 {
            push_joined(&mut out, &g, 0, start);
            out.push(':');
            out.push(':');
            push_joined(&mut out, &g, start + len, 8);
            proof {
                assert(g@.subrange(0, start as int) =~= g@.take(start as int));
                assert(g@.subrange(start + len, 8) =~= g@.skip(start + len));
                assert(out@ =~= joined(g@.take(start as int)) + seq![':', ':'] + joined(
                    g@.skip(start + len),
                ));
            }
        } else {
            push_joined(&mut out, &g, 0, 8);
            proof {
                assert(g@.subrange(0, 8) =~= g@);
                assert(out@ =~= joined(g@));
            }
        }
    }
    string_of(&out)
}

} // verus!
