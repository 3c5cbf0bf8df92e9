//! Letter case in address text: hexadecimal digits may be written small or
//! capital, and which address a text names does not depend on it.

use vstd::prelude::*;
use crate::text::ascii_lower;
use super::{
    all_dec, all_hex, dec_digit_value, dec_value, first_double_colon, hex_digit_value, hex_value,
    lemma_hex_digits_ignore_case, lemma_split_nonempty, parse_dec_octet, parse_groups,
    parse_hex_group, parse_ipv4_text, parse_ipv6_text, split,
};

verus! {

/// `s` with every ASCII capital letter lower-cased.
pub open spec fn lower_text(s: Seq<char>) -> Seq<char> {
    s.map_values(|c: char| ascii_lower(c))
}

proof fn lemma_lower_text_parts(s: Seq<char>)
    ensures
        lower_text(s).len() == s.len(),
        s.len() > 0 ==> lower_text(s).drop_last() == lower_text(s.drop_last()),
        s.len() > 0 ==> lower_text(s).last() == ascii_lower(s.last()),
        forall|a: int, b: int|
            0 <= a <= b <= s.len() ==> #[trigger] lower_text(s).subrange(a, b) == lower_text(
                s.subrange(a, b),
            ),
{
    if s.len() > 0 {
        assert(lower_text(s).drop_last() =~= lower_text(s.drop_last()));
    }
    assert forall|a: int, b: int| 0 <= a <= b <= s.len() implies #[trigger] lower_text(s).subrange(
        a,
        b,
    ) == lower_text(s.subrange(a, b)) by {
        assert(lower_text(s).subrange(a, b) =~= lower_text(s.subrange(a, b)));
    }
}

/// Lower-casing never makes or removes a `:` or a `.`.
proof fn lemma_lower_keeps_separators(c: char)
    ensures
        (ascii_lower(c) == ':') == (c == ':'),
        (ascii_lower(c) == '.') == (c == '.'),
        (ascii_lower(c) == '0') == (c == '0'),
{
}

proof fn lemma_split_lower(s: Seq<char>, sep: char)
    requires
        sep == ':' || sep == '.',
    ensures
        split(lower_text(s), sep) == split(s, sep).map_values(|p: Seq<char>| lower_text(p)),
    decreases s.len(),
{
    let f = |p: Seq<char>| lower_text(p);
    lemma_lower_text_parts(s);
    if s.len() == 0 {
        assert(lower_text(s) =~= Seq::<char>::empty());
        assert(lower_text(Seq::<char>::empty()) =~= Seq::<char>::empty());
        assert(split(s, sep).map_values(f) =~= seq![Seq::<char>::empty()]);
    } else {
        let t = s.drop_last();
        lemma_split_lower(t, sep);
        lemma_split_nonempty(t, sep);
        lemma_lower_keeps_separators(s.last());
        let r = split(t, sep);
        let lr = split(lower_text(t), sep);
        assert(lr == r.map_values(f));
        if s.last() == sep {
            assert(lower_text(Seq::<char>::empty()) =~= Seq::<char>::empty());
            assert(split(lower_text(s), sep) == lr.push(Seq::<char>::empty()));
            assert(split(s, sep) == r.push(Seq::<char>::empty()));
            assert(lr.push(Seq::<char>::empty()) =~= r.push(Seq::<char>::empty()).map_values(f));
        } else {
            let x = s.last();
            assert(lower_text(r.last().push(x)) =~= lower_text(r.last()).push(ascii_lower(x)));
            assert(split(lower_text(s), sep) == lr.update(
                lr.len() - 1,
                lr.last().push(ascii_lower(x)),
            ));
            assert(split(s, sep) == r.update(r.len() - 1, r.last().push(x)));
            assert(lr.update(lr.len() - 1, lr.last().push(ascii_lower(x))) =~= r.update(
                r.len() - 1,
                r.last().push(x),
            ).map_values(f));
        }
    }
}

proof fn lemma_digits_lower(p: Seq<char>)
    ensures
        all_hex(lower_text(p)) == all_hex(p),
        all_dec(lower_text(p)) == all_dec(p),
        hex_value(lower_text(p)) == hex_value(p),
        dec_value(lower_text(p)) == dec_value(p),
    decreases p.len(),
{
    lemma_lower_text_parts(p);
    let lp = lower_text(p);
    assert forall|i: int| 0 <= i < p.len() implies #[trigger] hex_digit_value(lp[i])
        == hex_digit_value(p[i]) && dec_digit_value(lp[i]) == dec_digit_value(p[i]) by {
        lemma_hex_digits_ignore_case(p[i]);
    }
    if all_hex(p) {
        assert forall|i: int| 0 <= i < lp.len() implies #[trigger] hex_digit_value(lp[i]) is Some by {
            assert(hex_digit_value(p[i]) is Some);
        }
    }
    if all_hex(lp) {
        assert forall|i: int| 0 <= i < p.len() implies #[trigger] hex_digit_value(p[i]) is Some by {
            assert(hex_digit_value(lp[i]) is Some);
        }
    }
    if all_dec(p) {
        assert forall|i: int| 0 <= i < lp.len() implies #[trigger] dec_digit_value(lp[i]) is Some by {
            assert(dec_digit_value(p[i]) is Some);
        }
    }
    if all_dec(lp) {
        assert forall|i: int| 0 <= i < p.len() implies #[trigger] dec_digit_value(p[i]) is Some by {
            assert(dec_digit_value(lp[i]) is Some);
        }
    }
    if p.len() > 0 {
        lemma_digits_lower(p.drop_last());
        lemma_hex_digits_ignore_case(p.last());
    }
}

proof fn lemma_group_and_octet_lower(p: Seq<char>)
    ensures
        parse_hex_group(lower_text(p)) == parse_hex_group(p),
        parse_dec_octet(lower_text(p)) == parse_dec_octet(p),
{
    lemma_lower_text_parts(p);
    lemma_digits_lower(p);
    if p.len() > 0 {
        lemma_lower_keeps_separators(p[0]);
    }
}

/// Dotted IPv4 text is read the same after lower-casing.
pub proof fn lemma_ipv4_parse_ignores_case(s: Seq<char>)
    ensures
        parse_ipv4_text(lower_text(s)) == parse_ipv4_text(s),
{
    let f = |p: Seq<char>| lower_text(p);
    lemma_split_lower(s, '.');
    let ps = split(s, '.');
    let lps = split(lower_text(s), '.');
    assert(lps == ps.map_values(f));
    assert forall|k: int| 0 <= k < ps.len() implies #[trigger] parse_dec_octet(lps[k])
        == parse_dec_octet(ps[k]) by {
        lemma_group_and_octet_lower(ps[k]);
    }
    if ps.len() == 4 {
        assert(parse_dec_octet(lps[0]) == parse_dec_octet(ps[0]));
        assert(parse_dec_octet(lps[1]) == parse_dec_octet(ps[1]));
        assert(parse_dec_octet(lps[2]) == parse_dec_octet(ps[2]));
        assert(parse_dec_octet(lps[3]) == parse_dec_octet(ps[3]));
    }
}

proof fn lemma_contains_dot_lower(p: Seq<char>)
    ensures
        lower_text(p).contains('.') == p.contains('.'),
{
    lemma_lower_text_parts(p);
    if p.contains('.') {
        let i = choose|i: int| 0 <= i < p.len() && p[i] == '.';
        assert(lower_text(p)[i] == '.');
    }
    if lower_text(p).contains('.') {
        let i = choose|i: int| 0 <= i < p.len() && lower_text(p)[i] == '.';
        lemma_lower_keeps_separators(p[i]);
    }
}

proof fn lemma_parse_groups_lower(s: Seq<char>, ipv4_tail: bool)
    ensures
        parse_groups(lower_text(s), ipv4_tail) == parse_groups(s, ipv4_tail),
{
    let f = |p: Seq<char>| lower_text(p);
    lemma_lower_text_parts(s);
    if s.len() > 0 {
        lemma_split_lower(s, ':');
        lemma_split_nonempty(s, ':');
        let ps = split(s, ':');
        let lps = split(lower_text(s), ':');
        let n = ps.len();
        assert(lps == ps.map_values(f));
        assert forall|i: int| 0 <= i < n implies #[trigger] parse_hex_group(lps[i])
            == parse_hex_group(ps[i]) by {
            lemma_group_and_octet_lower(ps[i]);
        }
        let last = ps[n - 1];
        lemma_group_and_octet_lower(last);
        lemma_ipv4_parse_ignores_case(last);
        lemma_contains_dot_lower(last);
        assert(lps[n - 1] == lower_text(last));
        let head = Seq::new((n - 1) as nat, |i: int| parse_hex_group(ps[i])->0);
        let lhead = Seq::new((n - 1) as nat, |i: int| parse_hex_group(lps[i])->0);
        assert(head =~= lhead);
        if forall|i: int| 0 <= i < n - 1 ==> #[trigger] parse_hex_group(ps[i]) is Some {
            assert forall|i: int| 0 <= i < n - 1 implies #[trigger] parse_hex_group(lps[i]) is Some by {
                assert(parse_hex_group(ps[i]) is Some);
            }
        } else {
            let i = choose|i: int| 0 <= i < n - 1 && !(#[trigger] parse_hex_group(ps[i]) is Some);
            assert(!(parse_hex_group(lps[i]) is Some));
        }
    } else {
        assert(lower_text(s).len() == 0);
    }
}

proof fn lemma_first_double_colon_lower(s: Seq<char>, i: int)
    ensures
        first_double_colon(lower_text(s), i) == first_double_colon(s, i),
    decreases s.len() - i,
{
    lemma_lower_text_parts(s);
    if !(i < 0 || i + 1 >= s.len()) {
        lemma_lower_keeps_separators(s[i]);
        lemma_lower_keeps_separators(s[i + 1]);
        lemma_first_double_colon_lower(s, i + 1);
    }
}

proof fn lemma_first_double_colon_range(s: Seq<char>, i: int)
    ensures
        first_double_colon(s, i) matches Some(k) ==> 0 <= i <= k && k + 2 <= s.len(),
    decreases s.len() - i,
{
    if !(i < 0 || i + 1 >= s.len()) {
        lemma_first_double_colon_range(s, i + 1);
    }
}

/// IPv6 text is read without regard to the case of its hexadecimal digits
/// (as std's parser reads it): lower-casing a text never changes which
/// address, if any, it names. So `FE80::1` and `fe80::1` name the same
/// address, and an upper-case digit is never a reason to refuse a text.
pub proof fn lemma_ipv6_parse_ignores_case(s: Seq<char>)
    ensures
        parse_ipv6_text(lower_text(s)) == parse_ipv6_text(s),
{
    lemma_lower_text_parts(s);
    lemma_first_double_colon_lower(s, 0);
    match first_double_colon(s, 0) {
        Some(k) => {
            lemma_first_double_colon_range(s, 0);
            lemma_parse_groups_lower(s.subrange(0, k), false);
            lemma_parse_groups_lower(s.subrange(k + 2, s.len() as int), true);
            assert(lower_text(s).subrange(0, k) == lower_text(s.subrange(0, k)));
            assert(lower_text(s).subrange(k + 2, s.len() as int) == lower_text(
                s.subrange(k + 2, s.len() as int),
            ));
        },
        None => {
            lemma_parse_groups_lower(s, true);
        },
    }
}

} // verus!
