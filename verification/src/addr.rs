//! IPv4 and IPv6 addresses held as plain integers (the value `to_bits`
//! gives for std's address types): their standard text forms, parsing of
//! those text forms, and network-prefix masking.

use vstd::prelude::*;
use crate::text::{ascii_lower, chars_of, dec_text, hex_text, push_char, push_dec, push_hex};

verus! {

// ---------------------------------------------------------------------
// Components
// ---------------------------------------------------------------------

/// The four octets of an IPv4 address, most significant first.
pub open spec fn octets(a: u32) -> Seq<u8> {
    seq![
        ((a >> 24u32) & 0xff) as u8,
        ((a >> 16u32) & 0xff) as u8,
        ((a >> 8u32) & 0xff) as u8,
        (a & 0xff) as u8,
    ]
}

/// The IPv4 address with octets `o0.o1.o2.o3`.
pub open spec fn ipv4_of(o0: u8, o1: u8, o2: u8, o3: u8) -> u32 {
    ((o0 as u32) << 24u32) | ((o1 as u32) << 16u32) | ((o2 as u32) << 8u32) | (o3 as u32)
}

/// The eight 16-bit segments of an IPv6 address, most significant first.
pub open spec fn segments(a: u128) -> Seq<u16> {
    seq![
        ((a >> 112u32) & 0xffff) as u16,
        ((a >> 96u32) & 0xffff) as u16,
        ((a >> 80u32) & 0xffff) as u16,
        ((a >> 64u32) & 0xffff) as u16,
        ((a >> 48u32) & 0xffff) as u16,
        ((a >> 32u32) & 0xffff) as u16,
        ((a >> 16u32) & 0xffff) as u16,
        (a & 0xffff) as u16,
    ]
}

/// The IPv6 address with the eight segments `g`.
pub open spec fn ipv6_of(g: Seq<u16>) -> u128
    recommends
        g.len() == 8,
{
    ((g[0] as u128) << 112u32) | ((g[1] as u128) << 96u32) | ((g[2] as u128) << 80u32) | ((
    g[3] as u128) << 64u32) | ((g[4] as u128) << 48u32) | ((g[5] as u128) << 32u32) | ((
    g[6] as u128) << 16u32) | (g[7] as u128)
}

/// Whether `a` is an IPv4-mapped IPv6 address (`::ffff:a.b.c.d`).
pub open spec fn is_ipv4_mapped(a: u128) -> bool {
    (a >> 32u32) == 0xffffu128
}

// ---------------------------------------------------------------------
// Text forms
// ---------------------------------------------------------------------

/// Dotted-decimal text of an IPv4 address, e.g. `1.2.3.4`.
pub open spec fn ipv4_text(a: u32) -> Seq<char> {
    let o = octets(a);
    dec_text(o[0] as nat) + seq!['.'] + dec_text(o[1] as nat) + seq!['.'] + dec_text(
        o[2] as nat,
    ) + seq!['.'] + dec_text(o[3] as nat)
}

/// Number of consecutive zero segments in `g` starting at index `i`.
pub open spec fn zero_run(g: Seq<u16>, i: int) -> nat
    decreases g.len() - i,
{
    if 0 <= i < g.len() && g[i] == 0 {
        1 + zero_run(g, i + 1)
    } else {
        0
    }
}

/// Start and length of the leftmost longest run of zero segments among
/// indices `i..`; the length is 0 when there is none.
pub open spec fn longest_zero_run_from(g: Seq<u16>, i: int) -> (int, nat)
    decreases g.len() - i,
{
    if i < 0 || i >= g.len() {
        (g.len() as int, 0)
    } else {
        let rest = longest_zero_run_from(g, i + 1);
        if zero_run(g, i) >= rest.1 {
            (i, zero_run(g, i))
        } else {
            rest
        }
    }
}

/// Segments in lower-case hexadecimal, separated by `:`.
pub open spec fn hex_groups_text(g: Seq<u16>) -> Seq<char>
    decreases g.len(),
{
    if g.len() == 0 {
        Seq::empty()
    } else if g.len() == 1 {
        hex_text(g[0] as nat)
    } else {
        hex_groups_text(g.drop_last()) + seq![':'] + hex_text(g.last() as nat)
    }
}

/// The canonical (RFC 5952) text of an IPv6 address, as std's `Display`
/// writes it: IPv4-mapped addresses as `::ffff:a.b.c.d`; otherwise
/// lower-case hex segments, with the leftmost longest run of two or more
/// zero segments written as `::`.
pub open spec fn ipv6_text(a: u128) -> Seq<char> {
    let g = segments(a);
    if is_ipv4_mapped(a) {
        seq![':', ':', 'f', 'f', 'f', 'f', ':'] + ipv4_text(a as u32)
    } else {
        let (s, l) = longest_zero_run_from(g, 0);
        if l > 1 {
            hex_groups_text(g.subrange(0, s)) + seq![':', ':'] + hex_groups_text(
                g.subrange(s + l, 8),
            )
        } else {
            hex_groups_text(g)
        }
    }
}

/// What `longest_zero_run_from(g, 0)` picks: a run of zeros that no other
/// run is longer than, and that every earlier run is shorter than (the
/// leftmost of the longest runs), which is the run RFC 5952 compresses.
pub proof fn lemma_longest_zero_run_is_leftmost_longest(g: Seq<u16>)
    ensures
        ({
            let (s, l) = longest_zero_run_from(g, 0);
            &&& 0 <= s <= g.len()
            &&& l == zero_run(g, s)
            &&& forall|j: int| 0 <= j < g.len() ==> zero_run(g, j) <= l
            &&& forall|j: int| 0 <= j < s ==> zero_run(g, j) < l
        }),
{
    lemma_longest_zero_run_from(g, 0);
}

proof fn lemma_longest_zero_run_from(g: Seq<u16>, i: int)
    requires
        0 <= i <= g.len(),
    ensures
        ({
            let (s, l) = longest_zero_run_from(g, i);
            &&& i <= s <= g.len()
            &&& l == zero_run(g, s)
            &&& forall|j: int| i <= j < g.len() ==> zero_run(g, j) <= l
            &&& forall|j: int| i <= j < s ==> zero_run(g, j) < l
        }),
    decreases g.len() - i,
{
    if i < g.len() {
        lemma_longest_zero_run_from(g, i + 1);
    } else {
        assert(zero_run(g, g.len() as int) == 0);
    }
}

// ---------------------------------------------------------------------
// Rendering
// ---------------------------------------------------------------------

/// Appends the dotted-decimal text of an IPv4 address.
pub fn push_ipv4(s: &mut String, a: u32)
    ensures
        final(s)@ == old(s)@ + ipv4_text(a),
{
    let ghost start = s@;
    push_dec(s, ((a >> 24u32) & 0xff) as u128);
    push_char(s, '.');
    push_dec(s, ((a >> 16u32) & 0xff) as u128);
    push_char(s, '.');
    push_dec(s, ((a >> 8u32) & 0xff) as u128);
    push_char(s, '.');
    push_dec(s, (a & 0xff) as u128);
    proof {
        assert(((a >> 24u32) & 0xff) < 256) by (bit_vector);
        assert(((a >> 16u32) & 0xff) < 256) by (bit_vector);
        assert(((a >> 8u32) & 0xff) < 256) by (bit_vector);
        assert((a & 0xff) < 256) by (bit_vector);
        assert(s@ =~= start + ipv4_text(a));
    }
}

/// The dotted-decimal text of an IPv4 address (std's `Ipv4Addr` display).
pub fn ipv4_to_string(a: u32) -> (s: String)
    ensures
        s@ == ipv4_text(a),
{
    let mut s = String::new();
    push_ipv4(&mut s, a);
    assert(s@ =~= ipv4_text(a));
    s
}

fn segments_of(a: u128) -> (g: Vec<u16>)
    ensures
        g@ == segments(a),
{
    let mut g: Vec<u16> = Vec::new();
    g.push(((a >> 112u32) & 0xffff) as u16);
    g.push(((a >> 96u32) & 0xffff) as u16);
    g.push(((a >> 80u32) & 0xffff) as u16);
    g.push(((a >> 64u32) & 0xffff) as u16);
    g.push(((a >> 48u32) & 0xffff) as u16);
    g.push(((a >> 32u32) & 0xffff) as u16);
    g.push(((a >> 16u32) & 0xffff) as u16);
    g.push((a & 0xffff) as u16);
    assert(g@ =~= segments(a));
    g
}

/// Appends `g[from..to]` as lower-case hex separated by `:`.
fn push_hex_groups(s: &mut String, g: &[u16], from: usize, to: usize)
    requires
        from <= to <= g@.len(),
    ensures
        final(s)@ == old(s)@ + hex_groups_text(g@.subrange(from as int, to as int)),
{
    let ghost start = s@;
    let mut k: usize = from;
    assert(g@.subrange(from as int, from as int) =~= Seq::<u16>::empty());
    while k < to
        invariant
            from <= k <= to <= g@.len(),
            s@ == start + hex_groups_text(g@.subrange(from as int, k as int)),
        decreases to - k,
    {
        let ghost before = s@;
        let ghost prev = g@.subrange(from as int, k as int);
        let ghost next = g@.subrange(from as int, k + 1);
        assert(next.drop_last() =~= prev);
        assert(next.last() == g@[k as int]);
        if k > from {
            push_char(s, ':');
        }
        push_hex(s, g[k] as u128);
        proof {
            if k > from {
                assert(s@ =~= start + hex_groups_text(next));
            } else {
                assert(next.len() == 1);
                assert(s@ =~= start + hex_groups_text(next));
            }
        }
        k = k + 1;
    }
}

/// The canonical text of an IPv6 address (std's `Ipv6Addr` display).
pub fn ipv6_to_string(a: u128) -> (s: String)
    ensures
        s@ == ipv6_text(a),
{
    let mut s = String::new();
    if (a >> 32u32) == 0xffffu128 {
        push_char(&mut s, ':');
        push_char(&mut s, ':');
        push_char(&mut s, 'f');
        push_char(&mut s, 'f');
        push_char(&mut s, 'f');
        push_char(&mut s, 'f');
        push_char(&mut s, ':');
        push_ipv4(&mut s, a as u32);
        assert(s@ =~= ipv6_text(a));
        return s;
    }
    let g = segments_of(a);
    let mut best_start: usize = 8;
    let mut best_len: usize = 0;
    let mut cur: usize = 0;
    let mut i: usize = 8;
    while i > 0
        invariant
            i <= 8,
            g@.len() == 8,
            cur == zero_run(g@, i as int),
            cur <= 8 - i,
            (best_start as int, best_len as nat) == longest_zero_run_from(g@, i as int),
            best_start + best_len <= 8,
        decreases i,
    {
        i = i - 1;
        if g[i] == 0 {
            cur = cur + 1;
        } else {
            cur = 0;
        }
        if cur >= best_len {
            best_start = i;
            best_len = cur;
        }
    }
    if best_len > 1 {
        push_hex_groups(&mut s, &g, 0, best_start);
        push_char(&mut s, ':');
        push_char(&mut s, ':');
        push_hex_groups(&mut s, &g, best_start + best_len, 8);
    } else {
        push_hex_groups(&mut s, &g, 0, 8);
        assert(g@.subrange(0, 8) =~= g@);
    }
    assert(s@ =~= ipv6_text(a));
    s
}


// ---------------------------------------------------------------------
// Parsing
// ---------------------------------------------------------------------

/// The pieces of `s` between occurrences of `sep` (as `str::split` yields
/// them): always at least one piece, possibly empty.
pub open spec fn split(s: Seq<char>, sep: char) -> Seq<Seq<char>>
    decreases s.len(),
{
    if s.len() == 0 {
        seq![Seq::empty()]
    } else {
        let r = split(s.drop_last(), sep);
        if s.last() == sep {
            r.push(Seq::empty())
        } else {
            r.update(r.len() - 1, r.last().push(s.last()))
        }
    }
}

/// Value of a hexadecimal digit of either case.
pub open spec fn hex_digit_value(c: char) -> Option<nat> {
    if '0' <= c <= '9' {
        Some((c as nat - 48) as nat)
    } else if 'a' <= c <= 'f' {
        Some((c as nat - 87) as nat)
    } else if 'A' <= c <= 'F' {
        Some((c as nat - 55) as nat)
    } else {
        None
    }
}

/// Hexadecimal digits are read without regard to letter case: a capital
/// `A`..`F` has the same value as its small letter, `a`..`f` stand for ten
/// to fifteen, and lower-casing a character never turns a non-digit into a
/// digit or changes a digit's value. Decimal digits are untouched by case.
pub proof fn lemma_hex_digits_ignore_case(c: char)
    ensures
        hex_digit_value(ascii_lower(c)) == hex_digit_value(c),
        dec_digit_value(ascii_lower(c)) == dec_digit_value(c),
        'a' <= c <= 'f' ==> hex_digit_value(c) == Some((c as int - 'a' as int + 10) as nat),
        'A' <= c <= 'F' ==> hex_digit_value(c) == Some((c as int - 'A' as int + 10) as nat),
{
}

/// Value of a decimal digit.
pub open spec fn dec_digit_value(c: char) -> Option<nat> {
    if '0' <= c <= '9' {
        Some((c as nat - 48) as nat)
    } else {
        None
    }
}

/// Whether every character of `p` is a hexadecimal digit.
pub open spec fn all_hex(p: Seq<char>) -> bool {
    forall|i: int| 0 <= i < p.len() ==> #[trigger] hex_digit_value(p[i]) is Some
}

/// Whether every character of `p` is a decimal digit.
pub open spec fn all_dec(p: Seq<char>) -> bool {
    forall|i: int| 0 <= i < p.len() ==> #[trigger] dec_digit_value(p[i]) is Some
}

/// The number that the hexadecimal digits `p` denote.
pub open spec fn hex_value(p: Seq<char>) -> nat
    decreases p.len(),
{
    if p.len() == 0 {
        0
    } else {
        hex_value(p.drop_last()) * 16 + match hex_digit_value(p.last()) {
            Some(d) => d,
            None => 0,
        }
    }
}

/// The number that the decimal digits `p` denote.
pub open spec fn dec_value(p: Seq<char>) -> nat
    decreases p.len(),
{
    if p.len() == 0 {
        0
    } else {
        dec_value(p.drop_last()) * 10 + match dec_digit_value(p.last()) {
            Some(d) => d,
            None => 0,
        }
    }
}

/// An IPv6 segment written as one to four hexadecimal digits.
pub open spec fn parse_hex_group(p: Seq<char>) -> Option<u16> {
    if 1 <= p.len() <= 4 && all_hex(p) {
        Some(hex_value(p) as u16)
    } else {
        None
    }
}

/// An IPv4 octet written as one to three decimal digits, at most 255, with
/// no leading zero unless it is `0` itself.
pub open spec fn parse_dec_octet(p: Seq<char>) -> Option<u8> {
    if 1 <= p.len() <= 3 && all_dec(p) && !(p.len() > 1 && p[0] == '0') && dec_value(p) <= 255 {
        Some(dec_value(p) as u8)
    } else {
        None
    }
}

/// The IPv4 address that `s` denotes in dotted-decimal form, if any (what
/// std's `Ipv4Addr::from_str` accepts).
pub open spec fn parse_ipv4_text(s: Seq<char>) -> Option<u32> {
    let ps = split(s, '.');
    if ps.len() == 4 && parse_dec_octet(ps[0]) is Some && parse_dec_octet(ps[1]) is Some
        && parse_dec_octet(ps[2]) is Some && parse_dec_octet(ps[3]) is Some {
        Some(
            ipv4_of(
                parse_dec_octet(ps[0])->0,
                parse_dec_octet(ps[1])->0,
                parse_dec_octet(ps[2])->0,
                parse_dec_octet(ps[3])->0,
            ),
        )
    } else {
        None
    }
}

/// The segments named by a `:`-separated list of hexadecimal groups; when
/// `ipv4_tail` holds, the last item may instead be a dotted IPv4 address,
/// which names two segments. The empty text names no segment.
pub open spec fn parse_groups(s: Seq<char>, ipv4_tail: bool) -> Option<Seq<u16>> {
    if s.len() == 0 {
        Some(Seq::empty())
    } else {
        let ps = split(s, ':');
        let n = ps.len();
        if forall|i: int| 0 <= i < n - 1 ==> #[trigger] parse_hex_group(ps[i]) is Some {
            let head = Seq::new((n - 1) as nat, |i: int| parse_hex_group(ps[i])->0);
            if ipv4_tail && ps[n - 1].contains('.') {
                match parse_ipv4_text(ps[n - 1]) {
                    Some(v) => Some(head + seq![(v >> 16u32) as u16, (v & 0xffff) as u16]),
                    None => None,
                }
            } else {
                match parse_hex_group(ps[n - 1]) {
                    Some(h) => Some(head.push(h)),
                    None => None,
                }
            }
        } else {
            None
        }
    }
}

/// Index of the first `::` in `s` at or after `i`.
pub open spec fn first_double_colon(s: Seq<char>, i: int) -> Option<int>
    decreases s.len() - i,
{
    if i < 0 || i + 1 >= s.len() {
        None
    } else if s[i] == ':' && s[i + 1] == ':' {
        Some(i)
    } else {
        first_double_colon(s, i + 1)
    }
}

/// The IPv6 address that `s` denotes, if any (what std's
/// `Ipv6Addr::from_str` accepts): eight groups, or groups before and after
/// one `::` that stands for at least one zero segment; an embedded dotted
/// IPv4 address may stand for the last two segments.
pub open spec fn parse_ipv6_text(s: Seq<char>) -> Option<u128> {
    match first_double_colon(s, 0) {
        Some(k) => match (
            parse_groups(s.subrange(0, k), false),
            parse_groups(s.subrange(k + 2, s.len() as int), true),
        ) {
            (Some(h), Some(t)) => if h.len() + t.len() <= 7 {
                Some(ipv6_of(h + Seq::new((8 - h.len() - t.len()) as nat, |i: int| 0u16) + t))
            } else {
                None
            },
            _ => None,
        },
        None => match parse_groups(s, true) {
            Some(g) => if g.len() == 8 {
                Some(ipv6_of(g))
            } else {
                None
            },
            None => None,
        },
    }
}

/// `split` always yields at least one piece.
pub proof fn lemma_split_nonempty(s: Seq<char>, sep: char)
    ensures
        split(s, sep).len() >= 1,
    decreases s.len(),
{
    if s.len() > 0 {
        lemma_split_nonempty(s.drop_last(), sep);
    }
}

fn copy_range(s: &[char], from: usize, to: usize) -> (r: Vec<char>)
    requires
        from <= to <= s@.len(),
    ensures
        r@ == s@.subrange(from as int, to as int),
{
    let mut r: Vec<char> = Vec::new();
    let mut k = from;
    while k < to
        invariant
            from <= k <= to <= s@.len(),
            r@ == s@.subrange(from as int, k as int),
        decreases to - k,
    {
        r.push(s[k]);
        assert(s@.subrange(from as int, k + 1) =~= s@.subrange(from as int, k as int).push(
            s@[k as int],
        ));
        k = k + 1;
    }
    r
}

fn split_chars(s: &[char], sep: char) -> (r: Vec<Vec<char>>)
    ensures
        r@.len() == split(s@, sep).len(),
        forall|i: int| 0 <= i < r@.len() ==> #[trigger] r@[i]@ == split(s@, sep)[i],
{
    let mut done: Vec<Vec<char>> = Vec::new();
    let mut cur: Vec<char> = Vec::new();
    let n = s.len();
    let mut i: usize = 0;
    assert(s@.take(0) =~= Seq::<char>::empty());
    while i < n
        invariant
            i <= n == s@.len(),
            split(s@.take(i as int), sep).len() == done@.len() + 1,
            forall|j: int|
                0 <= j < done@.len() ==> #[trigger] done@[j]@ == split(s@.take(i as int), sep)[j],
            cur@ == split(s@.take(i as int), sep).last(),
        decreases n - i,
    {
        let ghost pre = s@.take(i as int);
        let ghost post = s@.take(i + 1);
        assert(post.drop_last() =~= pre);
        assert(post.last() == s@[i as int]);
        proof {
            lemma_split_nonempty(pre, sep);
        }
        if s[i] == sep {
            done.push(cur);
            cur = Vec::new();
            assert(cur@ =~= split(post, sep).last());
        } else {
            cur.push(s[i]);
        }
        i = i + 1;
    }
    done.push(cur);
    assert(s@.take(n as int) =~= s@);
    done
}

fn hex_digit(c: char) -> (d: Option<u32>)
    ensures
        d is Some <==> hex_digit_value(c) is Some,
        d is Some ==> d->0 as nat == hex_digit_value(c)->0 && d->0 < 16,
{
    if '0' <= c && c <= '9' {
        Some((c as u32) - 48)
    } else if 'a' <= c && c <= 'f' {
        Some((c as u32) - 87)
    } else if 'A' <= c && c <= 'F' {
        Some((c as u32) - 55)
    } else {
        None
    }
}

fn dec_digit(c: char) -> (d: Option<u32>)
    ensures
        d is Some <==> dec_digit_value(c) is Some,
        d is Some ==> d->0 as nat == dec_digit_value(c)->0 && d->0 < 10,
{
    if '0' <= c && c <= '9' {
        Some((c as u32) - 48)
    } else {
        None
    }
}

fn parse_hex_group_chars(p: &[char]) -> (r: Option<u16>)
    ensures
        r == parse_hex_group(p@),
{
    let n = p.len();
    if n < 1 || n > 4 {
        return None;
    }
    let mut v: u32 = 0;
    let mut i: usize = 0;
    assert(p@.take(0) =~= Seq::<char>::empty());
    while i < n
        invariant
            i <= n == p@.len() <= 4,
            v as nat == hex_value(p@.take(i as int)),
            v < 0x10000,
            i < 4 ==> v < 0x1000,
            i < 3 ==> v < 0x100,
            i < 2 ==> v < 0x10,
            i < 1 ==> v == 0,
            all_hex(p@.take(i as int)),
        decreases n - i,
    {
        match hex_digit(p[i]) {
            Some(d) => {
                assert(p@.take(i + 1).drop_last() =~= p@.take(i as int));
                v = v * 16 + d;
                assert(all_hex(p@.take(i + 1))) by {
                    assert forall|j: int| 0 <= j < i + 1 implies #[trigger] hex_digit_value(
                        p@.take(i + 1)[j],
                    ) is Some by {
                        if j < i {
                            assert(p@.take(i + 1)[j] == p@.take(i as int)[j]);
                        }
                    }
                }
            },
            None => {
                assert(!all_hex(p@)) by {
                    assert(hex_digit_value(p@[i as int]) is None);
                }
                return None;
            },
        }
        i = i + 1;
    }
    assert(p@.take(n as int) =~= p@);
    Some(v as u16)
}

fn parse_dec_octet_chars(p: &[char]) -> (r: Option<u8>)
    ensures
        r == parse_dec_octet(p@),
{
    let n = p.len();
    if n < 1 || n > 3 {
        return None;
    }
    let mut v: u32 = 0;
    let mut i: usize = 0;
    assert(p@.take(0) =~= Seq::<char>::empty());
    while i < n
        invariant
            i <= n == p@.len() <= 3,
            v as nat == dec_value(p@.take(i as int)),
            v < 1000,
            i < 3 ==> v < 100,
            i < 2 ==> v < 10,
            i < 1 ==> v == 0,
            all_dec(p@.take(i as int)),
        decreases n - i,
    {
        match dec_digit(p[i]) {
            Some(d) => {
                assert(p@.take(i + 1).drop_last() =~= p@.take(i as int));
                v = v * 10 + d;
                assert(all_dec(p@.take(i + 1))) by {
                    assert forall|j: int| 0 <= j < i + 1 implies #[trigger] dec_digit_value(
                        p@.take(i + 1)[j],
                    ) is Some by {
                        if j < i {
                            assert(p@.take(i + 1)[j] == p@.take(i as int)[j]);
                        }
                    }
                }
            },
            None => {
                assert(!all_dec(p@)) by {
                    assert(dec_digit_value(p@[i as int]) is None);
                }
                return None;
            },
        }
        i = i + 1;
    }
    assert(p@.take(n as int) =~= p@);
    if n > 1 && p[0] == '0' {
        return None;
    }
    if v > 255 {
        return None;
    }
    Some(v as u8)
}

fn parse_ipv4_chars(s: &[char]) -> (r: Option<u32>)
    ensures
        r == parse_ipv4_text(s@),
{
    let ps = split_chars(s, '.');
    if ps.len() != 4 {
        return None;
    }
    let o0 = match parse_dec_octet_chars(&ps[0]) {
        Some(o) => o,
        None => return None,
    };
    let o1 = match parse_dec_octet_chars(&ps[1]) {
        Some(o) => o,
        None => return None,
    };
    let o2 = match parse_dec_octet_chars(&ps[2]) {
        Some(o) => o,
        None => return None,
    };
    let o3 = match parse_dec_octet_chars(&ps[3]) {
        Some(o) => o,
        None => return None,
    };
    Some(((o0 as u32) << 24u32) | ((o1 as u32) << 16u32) | ((o2 as u32) << 8u32) | (o3 as u32))
}

fn contains_char(p: &[char], c: char) -> (b: bool)
    ensures
        b == p@.contains(c),
{
    let mut i: usize = 0;
    while i < p.len()
        invariant
            i <= p@.len(),
            forall|j: int| 0 <= j < i ==> p@[j] != c,
        decreases p.len() - i,
    {
        if p[i] == c {
            return true;
        }
        i = i + 1;
    }
    false
}

fn parse_groups_chars(s: &[char], ipv4_tail: bool) -> (r: Option<Vec<u16>>)
    ensures
        match r {
            Some(g) => parse_groups(s@, ipv4_tail) == Some(g@),
            None => parse_groups(s@, ipv4_tail) is None,
        },
{
    if s.len() == 0 {
        let g: Vec<u16> = Vec::new();
        assert(g@ =~= Seq::<u16>::empty());
        return Some(g);
    }
    let ps = split_chars(s, ':');
    let ghost sp = split(s@, ':');
    proof {
        lemma_split_nonempty(s@, ':');
    }
    let n = ps.len();
    let mut head: Vec<u16> = Vec::new();
    let mut i: usize = 0;
    while i < n - 1
        invariant
            s@.len() != 0,
            sp == split(s@, ':'),
            n == ps@.len() == sp.len() >= 1,
            forall|j: int| 0 <= j < ps@.len() ==> #[trigger] ps@[j]@ == sp[j],
            i <= n - 1,
            head@.len() == i,
            forall|j: int| 0 <= j < i ==> #[trigger] parse_hex_group(sp[j]) is Some,
            forall|j: int| 0 <= j < i ==> #[trigger] head@[j] == parse_hex_group(sp[j])->0,
        decreases n - 1 - i,
    {
        match parse_hex_group_chars(&ps[i]) {
            Some(h) => {
                head.push(h);
            },
            None => {
                assert(parse_hex_group(sp[i as int]) is None);
                assert(!(forall|j: int| 0 <= j < n - 1 ==> #[trigger] parse_hex_group(sp[j]) is Some));
                assert(parse_groups(s@, ipv4_tail) is None);
                return None;
            },
        }
        i = i + 1;
    }
    let ghost hs = Seq::new((n - 1) as nat, |j: int| parse_hex_group(sp[j])->0);
    assert(head@ =~= hs);
    let last = &ps[n - 1];
    assert(last@ == sp[n - 1]);
    assert(forall|j: int| 0 <= j < n - 1 ==> #[trigger] parse_hex_group(sp[j]) is Some);
    if ipv4_tail && contains_char(last, '.') {
        match parse_ipv4_chars(last) {
            Some(v) => {
                head.push((v >> 16u32) as u16);
                head.push((v & 0xffff) as u16);
                assert(head@ =~= hs + seq![(v >> 16u32) as u16, (v & 0xffff) as u16]);
                assert(parse_groups(s@, ipv4_tail) == Some(head@));
                Some(head)
            },
            None => None,
        }
    } else {
        match parse_hex_group_chars(last) {
            Some(h) => {
                head.push(h);
                assert(head@ =~= hs.push(h));
                Some(head)
            },
            None => None,
        }
    }
}

fn find_double_colon(s: &[char]) -> (r: Option<usize>)
    ensures
        match r {
            Some(k) => first_double_colon(s@, 0) == Some(k as int) && k + 1 < s@.len(),
            None => first_double_colon(s@, 0) is None,
        },
{
    let n = s.len();
    let mut i: usize = 0;
    while n > 0 && i < n - 1
        invariant
            n == s@.len(),
            i <= n,
            first_double_colon(s@, 0) == first_double_colon(s@, i as int),
        decreases n - i,
    {
        if s[i] == ':' && s[i + 1] == ':' {
            return Some(i);
        }
        i = i + 1;
    }
    None
}

fn ipv6_from_segments(g: &[u16]) -> (a: u128)
    requires
        g@.len() == 8,
    ensures
        a == ipv6_of(g@),
{
    ((g[0] as u128) << 112u32) | ((g[1] as u128) << 96u32) | ((g[2] as u128) << 80u32) | ((
    g[3] as u128) << 64u32) | ((g[4] as u128) << 48u32) | ((g[5] as u128) << 32u32) | ((
    g[6] as u128) << 16u32) | (g[7] as u128)
}

fn parse_ipv6_chars(s: &[char]) -> (r: Option<u128>)
    ensures
        r == parse_ipv6_text(s@),
{
    match find_double_colon(s) {
        Some(k) => {
            let n = s.len();
            assert(k + 1 < n);
            let head_text = copy_range(s, 0, k);
            let tail_text = copy_range(s, k + 2, n);
            let h = match parse_groups_chars(&head_text, false) {
                Some(h) => h,
                None => return None,
            };
            let t = match parse_groups_chars(&tail_text, true) {
                Some(t) => t,
                None => return None,
            };
            if h.len() > 7 || t.len() > 7 - h.len() {
                return None;
            }
            let zeros = 8 - h.len() - t.len();
            let mut g: Vec<u16> = Vec::new();
            let mut i: usize = 0;
            while i < h.len()
                invariant
                    i <= h@.len(),
                    g@ == h@.take(i as int),
                decreases h.len() - i,
            {
                g.push(h[i]);
                assert(h@.take(i + 1) =~= h@.take(i as int).push(h@[i as int]));
                i = i + 1;
            }
            let mut z: usize = 0;
            while z < zeros
                invariant
                    z <= zeros,
                    h@.len() <= 7,
                    g@ == h@ + Seq::new(z as nat, |j: int| 0u16),
                decreases zeros - z,
            {
                g.push(0u16);
                assert(h@ + Seq::new((z + 1) as nat, |j: int| 0u16) =~= (h@ + Seq::new(
                    z as nat,
                    |j: int| 0u16,
                )).push(0u16));
                z = z + 1;
            }
            let ghost mid = g@;
            let mut j: usize = 0;
            while j < t.len()
                invariant
                    j <= t@.len(),
                    g@ == mid + t@.take(j as int),
                decreases t.len() - j,
            {
                g.push(t[j]);
                assert(mid + t@.take(j + 1) =~= (mid + t@.take(j as int)).push(t@[j as int]));
                j = j + 1;
            }
            assert(t@.take(t@.len() as int) =~= t@);
            assert(h@.take(h@.len() as int) =~= h@);
            Some(ipv6_from_segments(&g))
        },
        None => {
            match parse_groups_chars(s, true) {
                Some(g) => if g.len() == 8 {
                    Some(ipv6_from_segments(&g))
                } else {
                    None
                },
                None => None,
            }
        },
    }
}

/// Parses a dotted-decimal IPv4 address (std's `str::parse::<Ipv4Addr>`).
pub fn parse_ipv4(s: &str) -> (r: Option<u32>)
    ensures
        r == parse_ipv4_text(s@),
{
    let v = chars_of(s);
    parse_ipv4_chars(&v)
}

/// Parses an IPv6 address in any of its text forms (std's
/// `str::parse::<Ipv6Addr>`).
pub fn parse_ipv6(s: &str) -> (r: Option<u128>)
    ensures
        r == parse_ipv6_text(s@),
{
    let v = chars_of(s);
    parse_ipv6_chars(&v)
}


// ---------------------------------------------------------------------
// Network prefixes
// ---------------------------------------------------------------------

/// The netmask with the top `prefix_len` of 32 bits set (none for 0, all
/// from 32 on).
pub open spec fn ipv4_mask(prefix_len: u8) -> u32 {
    if prefix_len == 0 {
        0u32
    } else if prefix_len >= 32 {
        0xffff_ffffu32
    } else {
        !0u32 << (32 - prefix_len) as u32
    }
}

/// The netmask with the top `prefix_len` of 128 bits set (none for 0, all
/// from 128 on).
pub open spec fn ipv6_mask(prefix_len: u8) -> u128 {
    if prefix_len == 0 {
        0u128
    } else if prefix_len >= 128 {
        u128::MAX
    } else {
        !0u128 << (128 - prefix_len) as u32
    }
}

/// The `prefix_len`-bit network prefix that contains `a`.
pub open spec fn ipv4_network(a: u32, prefix_len: u8) -> u32 {
    a & ipv4_mask(prefix_len)
}

/// The `prefix_len`-bit network prefix that contains `a`.
pub open spec fn ipv6_network(a: u128, prefix_len: u8) -> u128 {
    a & ipv6_mask(prefix_len)
}

/// Masks off the host bits of `addr`, leaving only the `prefix_len`-bit
/// network prefix (the all-zero network for a zero `prefix_len`, the whole
/// address from 32 on).
pub fn ipv4_network_prefix(addr: u32, prefix_len: u8) -> (r: u32)
    ensures
        r == ipv4_network(addr, prefix_len),
{
    let mask = if prefix_len == 0 {
        0u32
    } else if prefix_len >= 32 {
        u32::MAX
    } else {
        !0u32 << (32 - prefix_len as u32)
    };
    addr & mask
}

/// Masks off the host bits of `addr`, leaving only the `prefix_len`-bit
/// network prefix (the all-zero network for a zero `prefix_len`, the whole
/// address from 128 on).
pub fn ipv6_network_prefix(addr: u128, prefix_len: u8) -> (r: u128)
    ensures
        r == ipv6_network(addr, prefix_len),
{
    let mask = if prefix_len == 0 {
        0u128
    } else if prefix_len >= 128 {
        u128::MAX
    } else {
        !0u128 << (128 - prefix_len as u32)
    };
    addr & mask
}

/// Two IPv4 addresses fall in the same `prefix_len`-bit network exactly when
/// their top `prefix_len` bits agree; a zero prefix gives the all-zero
/// network and a prefix of 32 or more keeps the whole address.
pub proof fn lemma_ipv4_network_same_prefix(a: u32, b: u32, prefix_len: u8)
    ensures
        prefix_len == 0 ==> ipv4_network(a, prefix_len) == 0,
        0 < prefix_len < 32 ==> (ipv4_network(a, prefix_len) == ipv4_network(b, prefix_len) <==> (a
            >> (32 - prefix_len) as u32) == (b >> (32 - prefix_len) as u32)),
        prefix_len >= 32 ==> ipv4_network(a, prefix_len) == a,
{
    if prefix_len == 0 {
        assert(a & 0u32 == 0) by (bit_vector);
    } else if prefix_len < 32 {
        let sh: u32 = (32 - prefix_len) as u32;
        assert(0 < sh < 32);
        assert(((a & (!0u32 << sh)) == (b & (!0u32 << sh))) <==> ((a >> sh) == (b >> sh)))
            by (bit_vector)
            requires
                0 < sh < 32,
        ;
    } else {
        assert(a & 0xffff_ffffu32 == a) by (bit_vector);
    }
}

/// Two IPv6 addresses fall in the same `prefix_len`-bit network exactly when
/// their top `prefix_len` bits agree; a zero prefix gives the all-zero
/// network and a prefix of 128 or more keeps the whole address.
pub proof fn lemma_ipv6_network_same_prefix(a: u128, b: u128, prefix_len: u8)
    ensures
        prefix_len == 0 ==> ipv6_network(a, prefix_len) == 0,
        0 < prefix_len < 128 ==> (ipv6_network(a, prefix_len) == ipv6_network(b, prefix_len) <==> (a
            >> (128 - prefix_len) as u32) == (b >> (128 - prefix_len) as u32)),
        prefix_len >= 128 ==> ipv6_network(a, prefix_len) == a,
{
    if prefix_len == 0 {
        assert(a & 0u128 == 0) by (bit_vector);
    } else if prefix_len < 128 {
        let sh: u32 = (128 - prefix_len) as u32;
        assert(0 < sh < 128);
        assert(a & (!0u128 << sh) == (a >> sh) << sh) by (bit_vector)
            requires
                0 < sh < 128,
        ;
        assert(b & (!0u128 << sh) == (b >> sh) << sh) by (bit_vector)
            requires
                0 < sh < 128,
        ;
        assert(((a >> sh) << sh) >> sh == a >> sh) by (bit_vector)
            requires
                0 < sh < 128,
        ;
        assert(((b >> sh) << sh) >> sh == b >> sh) by (bit_vector)
            requires
                0 < sh < 128,
        ;
    } else {
        assert(a & u128::MAX == a) by (bit_vector);
    }
}

/// Masking to a network prefix is idempotent: a network address is its own
/// network.
pub proof fn lemma_network_prefix_idempotent(a: u32, b: u128, p4: u8, p6: u8)
    ensures
        ipv4_network(ipv4_network(a, p4), p4) == ipv4_network(a, p4),
        ipv6_network(ipv6_network(b, p6), p6) == ipv6_network(b, p6),
{
    let m4 = ipv4_mask(p4);
    let m6 = ipv6_mask(p6);
    assert((a & m4) & m4 == a & m4) by (bit_vector);
    assert((b & m6) & m6 == b & m6) by (bit_vector);
}

} // verus!

pub mod letter_case;
pub mod roundtrip;
