//! Reading back what is written: the text forms of addresses parse to the
//! addresses they were written from.

use vstd::prelude::*;
use crate::text::{dec_text, digit_char, hex_text};
use super::{
    all_dec, all_hex, dec_digit_value, dec_value, first_double_colon, hex_digit_value,
    hex_groups_text, hex_value, ipv4_of, ipv4_text, ipv6_of, ipv6_text, is_ipv4_mapped,
    longest_zero_run_from, octets, parse_dec_octet, parse_groups, parse_hex_group, parse_ipv4_text,
    parse_ipv6_text, segments, split, zero_run,
};

verus! {

proof fn lemma_digit_char(d: nat)
    requires
        d < 16,
    ensures
        hex_digit_value(digit_char(d)) == Some(d),
        d < 10 ==> dec_digit_value(digit_char(d)) == Some(d),
        d == 0 <==> digit_char(d) == '0',
        digit_char(d) != ':',
        digit_char(d) != '.',
{
}

proof fn lemma_dec_text(n: nat)
    ensures
        dec_text(n).len() >= 1,
        all_dec(dec_text(n)),
        dec_value(dec_text(n)) == n,
        n >= 10 ==> dec_text(n)[0] != '0',
        n < 10 ==> dec_text(n).len() == 1,
        n < 100 ==> dec_text(n).len() <= 2,
        n < 1000 ==> dec_text(n).len() <= 3,
        !dec_text(n).contains('.'),
        !dec_text(n).contains(':'),
    decreases n,
{
    lemma_digit_char(n % 10);
    if n >= 10 {
        let p = dec_text(n / 10);
        lemma_dec_text(n / 10);
        lemma_digit_char(n / 10 % 10);
        let t = p.push(digit_char(n % 10));
        assert(t.drop_last() =~= p);
        assert(dec_text(n) == t);
        assert(dec_value(t) == dec_value(p) * 10 + n % 10);
        assert(n == (n / 10) * 10 + n % 10);
        assert forall|i: int| 0 <= i < t.len() implies #[trigger] dec_digit_value(t[i]) is Some by {
            if i < p.len() {
                assert(t[i] == p[i]);
            }
        }
        if n / 10 < 10 {
            assert(p == seq![digit_char(n / 10)]);
        }
        assert(!t.contains('.')) by {
            if t.contains('.') {
                let i = choose|i: int| 0 <= i < t.len() && t[i] == '.';
                if i < p.len() {
                    assert(p[i] == '.');
                }
            }
        }
        assert(!t.contains(':')) by {
            if t.contains(':') {
                let i = choose|i: int| 0 <= i < t.len() && t[i] == ':';
                if i < p.len() {
                    assert(p[i] == ':');
                }
            }
        }
    } else {
        let t = seq![digit_char(n)];
        assert(dec_text(n) == t);
        assert(t.drop_last() =~= Seq::<char>::empty());
        assert(dec_value(t) == dec_value(t.drop_last()) * 10 + n);
        assert(!t.contains('.')) by {
            if t.contains('.') {
                let i = choose|i: int| 0 <= i < t.len() && t[i] == '.';
            }
        }
        assert(!t.contains(':')) by {
            if t.contains(':') {
                let i = choose|i: int| 0 <= i < t.len() && t[i] == ':';
            }
        }
    }
}

proof fn lemma_hex_text(n: nat)
    ensures
        hex_text(n).len() >= 1,
        all_hex(hex_text(n)),
        hex_value(hex_text(n)) == n,
        n < 16 ==> hex_text(n).len() == 1,
        n < 256 ==> hex_text(n).len() <= 2,
        n < 4096 ==> hex_text(n).len() <= 3,
        n < 65536 ==> hex_text(n).len() <= 4,
        !hex_text(n).contains('.'),
        !hex_text(n).contains(':'),
    decreases n,
{
    lemma_digit_char(n % 16);
    if n >= 16 {
        let p = hex_text(n / 16);
        lemma_hex_text(n / 16);
        let t = p.push(digit_char(n % 16));
        assert(t.drop_last() =~= p);
        assert(hex_text(n) == t);
        assert(hex_value(t) == hex_value(p) * 16 + n % 16);
        assert(n == (n / 16) * 16 + n % 16);
        assert forall|i: int| 0 <= i < t.len() implies #[trigger] hex_digit_value(t[i]) is Some by {
            if i < p.len() {
                assert(t[i] == p[i]);
            }
        }
        assert(!t.contains('.')) by {
            if t.contains('.') {
                let i = choose|i: int| 0 <= i < t.len() && t[i] == '.';
                if i < p.len() {
                    assert(p[i] == '.');
                }
            }
        }
        assert(!t.contains(':')) by {
            if t.contains(':') {
                let i = choose|i: int| 0 <= i < t.len() && t[i] == ':';
                if i < p.len() {
                    assert(p[i] == ':');
                }
            }
        }
    } else {
        let t = seq![digit_char(n)];
        assert(hex_text(n) == t);
        assert(t.drop_last() =~= Seq::<char>::empty());
        assert(hex_value(t) == hex_value(t.drop_last()) * 16 + n);
        assert(!t.contains('.')) by {
            if t.contains('.') {
                let i = choose|i: int| 0 <= i < t.len() && t[i] == '.';
            }
        }
        assert(!t.contains(':')) by {
            if t.contains(':') {
                let i = choose|i: int| 0 <= i < t.len() && t[i] == ':';
            }
        }
    }
}

/// Text without the separator is a single piece.
proof fn lemma_split_single(s: Seq<char>, sep: char)
    requires
        !s.contains(sep),
    ensures
        split(s, sep) == seq![s],
    decreases s.len(),
{
    if s.len() > 0 {
        assert(!s.drop_last().contains(sep)) by {
            if s.drop_last().contains(sep) {
                let i = choose|i: int| 0 <= i < s.drop_last().len() && s.drop_last()[i] == sep;
                assert(s[i] == sep);
            }
        }
        lemma_split_single(s.drop_last(), sep);
        assert(s.last() != sep) by {
            assert(s[s.len() - 1] == s.last());
        }
        let r = split(s.drop_last(), sep);
        assert(r == seq![s.drop_last()]);
        assert(split(s, sep) == r.update(r.len() - 1, r.last().push(s.last())));
        assert(s.drop_last().push(s.last()) =~= s);
        assert(split(s, sep) =~= seq![s]);
    } else {
        assert(s =~= Seq::<char>::empty());
    }
}

/// Splitting text joined at a separator yields the pieces of both sides.
proof fn lemma_split_join(a: Seq<char>, b: Seq<char>, sep: char)
    ensures
        split(a + seq![sep] + b, sep) == split(a, sep) + split(b, sep),
    decreases b.len(),
{
    super::lemma_split_nonempty(a, sep);
    if b.len() == 0 {
        let s = a + seq![sep] + b;
        assert(s.drop_last() =~= a);
        assert(split(b, sep) == seq![Seq::<char>::empty()]);
        assert(split(s, sep) =~= split(a, sep) + split(b, sep));
    } else {
        let s = a + seq![sep] + b;
        let b0 = b.drop_last();
        lemma_split_join(a, b0, sep);
        super::lemma_split_nonempty(b0, sep);
        assert(s.drop_last() =~= a + seq![sep] + b0);
        assert(s.last() == b.last());
        assert(split(s, sep) =~= split(a, sep) + split(b, sep));
    }
}

proof fn lemma_parse_octet(o: u8)
    ensures
        parse_dec_octet(dec_text(o as nat)) == Some(o),
{
    lemma_dec_text(o as nat);
    if o as nat >= 10 {
        assert(dec_text(o as nat)[0] != '0');
    }
}

/// The dotted-decimal text of an IPv4 address parses back to it.
pub proof fn lemma_ipv4_roundtrip(a: u32)
    ensures
        parse_ipv4_text(ipv4_text(a)) == Some(a),
{
    let o = octets(a);
    let d0 = dec_text(o[0] as nat);
    let d1 = dec_text(o[1] as nat);
    let d2 = dec_text(o[2] as nat);
    let d3 = dec_text(o[3] as nat);
    lemma_dec_text(o[0] as nat);
    lemma_dec_text(o[1] as nat);
    lemma_dec_text(o[2] as nat);
    lemma_dec_text(o[3] as nat);
    lemma_split_single(d0, '.');
    lemma_split_single(d1, '.');
    lemma_split_single(d2, '.');
    lemma_split_single(d3, '.');
    lemma_split_join(d0, d1, '.');
    lemma_split_join(d0 + seq!['.'] + d1, d2, '.');
    lemma_split_join(d0 + seq!['.'] + d1 + seq!['.'] + d2, d3, '.');
    let s = ipv4_text(a);
    assert(s == d0 + seq!['.'] + d1 + seq!['.'] + d2 + seq!['.'] + d3);
    assert(split(s, '.') =~= seq![d0, d1, d2, d3]);
    lemma_parse_octet(o[0]);
    lemma_parse_octet(o[1]);
    lemma_parse_octet(o[2]);
    lemma_parse_octet(o[3]);
    assert(ipv4_of(
        ((a >> 24u32) & 0xff) as u8,
        ((a >> 16u32) & 0xff) as u8,
        ((a >> 8u32) & 0xff) as u8,
        (a & 0xff) as u8,
    ) == a) by (bit_vector);
}


/// No two adjacent colons.
spec fn no_double_colon(s: Seq<char>) -> bool {
    forall|i: int| 0 <= i < s.len() - 1 ==> !(#[trigger] s[i] == ':' && s[i + 1] == ':')
}

proof fn lemma_parse_hex_group(x: u16)
    ensures
        parse_hex_group(hex_text(x as nat)) == Some(x),
{
    lemma_hex_text(x as nat);
}

/// The text of one or more segments splits into their hex texts, holds no
/// `.`, no `::`, and does not end with `:`.
proof fn lemma_hex_groups(g: Seq<u16>)
    requires
        g.len() >= 1,
    ensures
        split(hex_groups_text(g), ':') == g.map_values(|x: u16| hex_text(x as nat)),
        !hex_groups_text(g).contains('.'),
        hex_groups_text(g).len() >= 1,
        hex_groups_text(g).last() != ':',
        no_double_colon(hex_groups_text(g)),
    decreases g.len(),
{
    let s = hex_groups_text(g);
    let h = hex_text(g.last() as nat);
    lemma_hex_text(g.last() as nat);
    assert(h.last() != ':') by {
        assert(h[h.len() - 1] == h.last());
    }
    if g.len() == 1 {
        assert(s == hex_text(g[0] as nat));
        assert(g.last() == g[0]);
        lemma_split_single(s, ':');
        assert(g.map_values(|x: u16| hex_text(x as nat)) =~= seq![s]);
        assert forall|i: int| 0 <= i < s.len() - 1 implies !(#[trigger] s[i] == ':' && s[i + 1]
            == ':') by {
            if s[i] == ':' {
                assert(s.contains(':'));
            }
        }
    } else {
        let prev = hex_groups_text(g.drop_last());
        lemma_hex_groups(g.drop_last());
        assert(s == prev + seq![':'] + h);
        lemma_split_single(h, ':');
        lemma_split_join(prev, h, ':');
        assert(g.map_values(|x: u16| hex_text(x as nat)) =~= g.drop_last().map_values(
            |x: u16| hex_text(x as nat),
        ).push(h));
        assert(split(s, ':') =~= g.map_values(|x: u16| hex_text(x as nat)));
        assert(!s.contains('.')) by {
            if s.contains('.') {
                let i = choose|i: int| 0 <= i < s.len() && s[i] == '.';
                if i < prev.len() {
                    assert(prev[i] == '.');
                } else if i > prev.len() {
                    assert(h[i - prev.len() - 1] == '.');
                }
            }
        }
        assert(s.last() == h.last()) by {
            assert(s[s.len() - 1] == h[h.len() - 1]);
        }
        assert forall|i: int| 0 <= i < s.len() - 1 implies !(#[trigger] s[i] == ':' && s[i + 1]
            == ':') by {
            if i < prev.len() - 1 {
                assert(s[i] == prev[i] && s[i + 1] == prev[i + 1]);
            } else if i == prev.len() - 1 {
                assert(s[i] == prev[prev.len() - 1]);
                assert(prev[prev.len() - 1] == prev.last());
            } else if i == prev.len() {
                assert(s[i + 1] == h[0]);
                assert(h.contains(h[0]));
            } else {
                assert(s[i] == h[i - prev.len() - 1]);
                if s[i] == ':' {
                    assert(h.contains(':'));
                }
            }
        }
    }
}

/// The text of segments reads back as those segments, in either position.
proof fn lemma_parse_hex_groups(g: Seq<u16>, ipv4_tail: bool)
    ensures
        parse_groups(hex_groups_text(g), ipv4_tail) == Some(g),
{
    if g.len() == 0 {
        assert(hex_groups_text(g).len() == 0);
        assert(g =~= Seq::<u16>::empty());
    } else {
        let s = hex_groups_text(g);
        lemma_hex_groups(g);
        let ps = split(s, ':');
        let n = ps.len();
        assert(n == g.len());
        assert forall|i: int| 0 <= i < n implies #[trigger] parse_hex_group(ps[i]) == Some(g[i]) by {
            lemma_parse_hex_group(g[i]);
        }
        let head = Seq::new((n - 1) as nat, |i: int| parse_hex_group(ps[i])->0);
        assert(head =~= g.drop_last());
        lemma_hex_text(g.last() as nat);
        assert(ps[n - 1] == hex_text(g.last() as nat));
        assert(head.push(g.last()) =~= g);
    }
}

/// Text without adjacent colons has no `::`.
proof fn lemma_no_double_colon(s: Seq<char>, i: int)
    requires
        0 <= i,
        no_double_colon(s),
    ensures
        first_double_colon(s, i) is None,
    decreases s.len() - i,
{
    if i + 1 < s.len() {
        assert(!(s[i] == ':' && s[i + 1] == ':'));
        lemma_no_double_colon(s, i + 1);
    }
}

/// In `h :: t`, the first `::` is the one after `h` when `h` has none and
/// does not end with a colon.
proof fn lemma_first_double_colon(h: Seq<char>, t: Seq<char>, i: int)
    requires
        0 <= i <= h.len(),
        no_double_colon(h),
        h.len() > 0 ==> h.last() != ':',
    ensures
        first_double_colon(h + seq![':', ':'] + t, i) == Some(h.len() as int),
    decreases h.len() - i,
{
    let s = h + seq![':', ':'] + t;
    if i < h.len() {
        if i < h.len() - 1 {
            assert(s[i] == h[i] && s[i + 1] == h[i + 1]);
        } else {
            assert(s[i] == h[h.len() - 1]);
            assert(h[h.len() - 1] == h.last());
        }
        lemma_first_double_colon(h, t, i + 1);
    } else {
        assert(s[i] == ':' && s[i + 1] == ':');
    }
}

/// A run of zeros really is zeros, and stays inside the sequence.
proof fn lemma_zero_run(g: Seq<u16>, i: int)
    requires
        0 <= i <= g.len(),
    ensures
        i + zero_run(g, i) <= g.len(),
        forall|j: int| i <= j < i + zero_run(g, i) ==> g[j] == 0,
    decreases g.len() - i,
{
    if i < g.len() && g[i] == 0 {
        lemma_zero_run(g, i + 1);
    }
}

proof fn lemma_segments_roundtrip(a: u128)
    ensures
        ipv6_of(segments(a)) == a,
        segments(a).len() == 8,
{
    assert(((((a >> 112u32) & 0xffff) as u16 as u128) << 112u32) | ((((a >> 96u32) & 0xffff) as u16
        as u128) << 96u32) | ((((a >> 80u32) & 0xffff) as u16 as u128) << 80u32) | ((((a >> 64u32)
        & 0xffff) as u16 as u128) << 64u32) | ((((a >> 48u32) & 0xffff) as u16 as u128) << 48u32)
        | ((((a >> 32u32) & 0xffff) as u16 as u128) << 32u32) | ((((a >> 16u32) & 0xffff) as u16
        as u128) << 16u32) | ((a & 0xffff) as u16 as u128) == a) by (bit_vector);
}

proof fn lemma_mapped_roundtrip(a: u128)
    requires
        is_ipv4_mapped(a),
    ensures
        ipv6_of(
            seq![
                0u16,
                0u16,
                0u16,
                0u16,
                0u16,
                0xffffu16,
                ((a as u32) >> 16u32) as u16,
                ((a as u32) & 0xffff) as u16,
            ],
        ) == a,
{
    assert((a >> 32u32) == 0xffffu128 ==> ((0u16 as u128) << 112u32) | ((0u16 as u128) << 96u32)
        | ((0u16 as u128) << 80u32) | ((0u16 as u128) << 64u32) | ((0u16 as u128) << 48u32) | ((
    0xffffu16 as u128) << 32u32) | ((((a as u32) >> 16u32) as u16 as u128) << 16u32) | (((a
        as u32) & 0xffff) as u16 as u128) == a) by (bit_vector);
}

proof fn lemma_ipv4_text_has_dot(a: u32)
    ensures
        ipv4_text(a).contains('.'),
        !ipv4_text(a).contains(':'),
{
    let o = octets(a);
    let d0 = dec_text(o[0] as nat);
    let s = ipv4_text(a);
    lemma_dec_text(o[0] as nat);
    lemma_dec_text(o[1] as nat);
    lemma_dec_text(o[2] as nat);
    lemma_dec_text(o[3] as nat);
    assert(s[d0.len() as int] == '.');
    assert(!s.contains(':')) by {
        lemma_split_single(dec_text(o[0] as nat), ':');
        lemma_split_single(dec_text(o[1] as nat), ':');
        lemma_split_single(dec_text(o[2] as nat), ':');
        lemma_split_single(dec_text(o[3] as nat), ':');
        if s.contains(':') {
            let i = choose|i: int| 0 <= i < s.len() && s[i] == ':';
            let d1 = dec_text(o[1] as nat);
            let d2 = dec_text(o[2] as nat);
            let d3 = dec_text(o[3] as nat);
            if i < d0.len() {
                assert(d0[i] == ':');
            } else if d0.len() < i < d0.len() + 1 + d1.len() {
                assert(d1[i - d0.len() - 1] == ':');
            } else if d0.len() + 1 + d1.len() < i < d0.len() + 2 + d1.len() + d2.len() {
                assert(d2[i - d0.len() - 2 - d1.len()] == ':');
            } else if d0.len() + 2 + d1.len() + d2.len() < i {
                assert(d3[i - d0.len() - 3 - d1.len() - d2.len()] == ':');
            }
        }
    }
}

proof fn lemma_mapped_text_roundtrip(a: u128)
    requires
        is_ipv4_mapped(a),
    ensures
        parse_ipv6_text(ipv6_text(a)) == Some(a),
{
    let s = ipv6_text(a);
    let low = a as u32;
    let v4 = ipv4_text(low);
    let ffff = seq!['f', 'f', 'f', 'f'];
    let tail = ffff + seq![':'] + v4;
    assert(s =~= Seq::<char>::empty() + seq![':', ':'] + tail);
    lemma_first_double_colon(Seq::<char>::empty(), tail, 0);
    assert(s.subrange(0, 0) =~= Seq::<char>::empty());
    assert(s.subrange(2, s.len() as int) =~= tail);
    lemma_ipv4_text_has_dot(low);
    assert(!ffff.contains(':')) by {
        if ffff.contains(':') {
            let i = choose|i: int| 0 <= i < ffff.len() && ffff[i] == ':';
        }
    }
    lemma_split_single(ffff, ':');
    lemma_split_single(v4, ':');
    lemma_split_join(ffff, v4, ':');
    let ps = split(tail, ':');
    assert(ps =~= seq![ffff, v4]);
    assert(hex_value(ffff) == 65535) by {
        assert(hex_digit_value('f') == Some(15nat));
        let f1 = seq!['f'];
        let f2 = seq!['f', 'f'];
        let f3 = seq!['f', 'f', 'f'];
        assert(f1.drop_last() =~= Seq::<char>::empty());
        assert(hex_value(Seq::<char>::empty()) == 0);
        assert(f1.last() == 'f' && f2.last() == 'f' && f3.last() == 'f' && ffff.last() == 'f');
        assert(hex_value(f1) == 15);
        assert(f2.drop_last() =~= f1);
        assert(hex_value(f2) == 255);
        assert(f3.drop_last() =~= f2);
        assert(hex_value(f3) == 4095);
        assert(ffff.drop_last() =~= f3);
    }
    assert(all_hex(ffff));
    assert(parse_hex_group(ffff) == Some(0xffffu16));
    lemma_ipv4_roundtrip(low);
    let t = seq![0xffffu16, (low >> 16u32) as u16, (low & 0xffff) as u16];
    assert(Seq::new(1, |i: int| parse_hex_group(ps[i])->0) =~= seq![0xffffu16]);
    assert(parse_groups(tail, true) == Some(
        seq![0xffffu16] + seq![(low >> 16u32) as u16, (low & 0xffff) as u16],
    ));
    assert(seq![0xffffu16] + seq![(low >> 16u32) as u16, (low & 0xffff) as u16] =~= t);
    assert(parse_groups(s.subrange(0, 0), false) == Some(Seq::<u16>::empty()));
    lemma_mapped_roundtrip(a);
    assert(Seq::<u16>::empty() + Seq::new(5, |i: int| 0u16) + t =~= seq![
        0u16,
        0u16,
        0u16,
        0u16,
        0u16,
        0xffffu16,
        ((a as u32) >> 16u32) as u16,
        ((a as u32) & 0xffff) as u16,
    ]);
}

proof fn lemma_compressed_text_roundtrip(a: u128)
    requires
        !is_ipv4_mapped(a),
        longest_zero_run_from(segments(a), 0).1 > 1,
    ensures
        parse_ipv6_text(ipv6_text(a)) == Some(a),
{
    let g = segments(a);
    lemma_segments_roundtrip(a);
    let s = ipv6_text(a);
    let (st, l) = longest_zero_run_from(g, 0);
    super::lemma_longest_zero_run_is_leftmost_longest(g);
    lemma_zero_run(g, st);
    let hg = g.subrange(0, st);
    let tg = g.subrange(st + l, 8);
    let h = hex_groups_text(hg);
    let t = hex_groups_text(tg);
    assert(s == h + seq![':', ':'] + t);
    if hg.len() > 0 {
        lemma_hex_groups(hg);
    } else {
        assert(h.len() == 0);
    }
    lemma_first_double_colon(h, t, 0);
    assert(s.subrange(0, h.len() as int) =~= h);
    assert(s.subrange(h.len() + 2int, s.len() as int) =~= t);
    lemma_parse_hex_groups(hg, false);
    lemma_parse_hex_groups(tg, true);
    assert(hg + Seq::new((8 - hg.len() - tg.len()) as nat, |i: int| 0u16) + tg =~= g);
}

proof fn lemma_plain_text_roundtrip(a: u128)
    requires
        !is_ipv4_mapped(a),
        longest_zero_run_from(segments(a), 0).1 <= 1,
    ensures
        parse_ipv6_text(ipv6_text(a)) == Some(a),
{
    let g = segments(a);
    lemma_segments_roundtrip(a);
    let s = ipv6_text(a);
    assert(s == hex_groups_text(g));
    lemma_hex_groups(g);
    lemma_no_double_colon(s, 0);
    lemma_parse_hex_groups(g, true);
}

/// The canonical text of an IPv6 address parses back to it.
pub proof fn lemma_ipv6_roundtrip(a: u128)
    ensures
        parse_ipv6_text(ipv6_text(a)) == Some(a),
{
    if is_ipv4_mapped(a) {
        lemma_mapped_text_roundtrip(a);
    } else if longest_zero_run_from(segments(a), 0).1 > 1 {
        lemma_compressed_text_roundtrip(a);
    } else {
        lemma_plain_text_roundtrip(a);
    }
}

} // verus!
