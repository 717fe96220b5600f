//! What holds of trimming, searching and numbers, in terms of single characters.

use crate::text::{all_digits, decimal, digit_char, digits_value, find, find_from, find_last};
use crate::text::{i32_of, is_digit, is_white_space, matches_at, number};
use crate::text::{trim_end, trim_start, trimmed, u16_of, without_plus};
use vstd::prelude::*;

verus! {

/// A character that counts as white space, one by one.
pub open spec fn blank_char(c: char) -> bool {
    ||| c == '\t' || c == '\n' || c == '\u{b}' || c == '\u{c}' || c == '\r' || c == ' '
    ||| c == '\u{85}' || c == '\u{a0}' || c == '\u{1680}'
    ||| c == '\u{2000}' || c == '\u{2001}' || c == '\u{2002}' || c == '\u{2003}'
    ||| c == '\u{2004}' || c == '\u{2005}' || c == '\u{2006}' || c == '\u{2007}'
    ||| c == '\u{2008}' || c == '\u{2009}' || c == '\u{200a}'
    ||| c == '\u{2028}' || c == '\u{2029}' || c == '\u{202f}' || c == '\u{205f}'
    ||| c == '\u{3000}'
}

/// There is nothing but white space in `s`.
pub open spec fn blank(s: Seq<char>) -> bool {
    forall|i: int| 0 <= i < s.len() ==> blank_char(#[trigger] s[i])
}

/// `s` neither begins nor ends with white space.
pub open spec fn bare(s: Seq<char>) -> bool {
    s.len() > 0 ==> !blank_char(s[0]) && !blank_char(s[s.len() - 1])
}

/// `pat` stands in `s` at `i`, character by character.
pub open spec fn stands(s: Seq<char>, pat: Seq<char>, i: int) -> bool {
    &&& 0 <= i
    &&& i + pat.len() <= s.len()
    &&& forall|k: int| 0 <= k < pat.len() ==> s[i + k] == #[trigger] pat[k]
}

/// What a digit counts.
pub open spec fn digit(c: char) -> int {
    c as int - '0' as int
}

/// What the digits of `s` amount to.
pub open spec fn amount(s: Seq<char>) -> int
    decreases s.len(),
{
    if s.len() == 0 {
        0
    } else {
        amount(s.drop_last()) * 10 + digit(s.last())
    }
}

/// `s` is made of digits, at least one, that amount to `n`.
pub open spec fn numeral(s: Seq<char>, n: int) -> bool {
    &&& s.len() > 0
    &&& forall|i: int| 0 <= i < s.len() ==> 0 <= digit(#[trigger] s[i]) <= 9
    &&& amount(s) == n
}

/// `s` is the numeral for `n` that begins with no needless zero.
pub open spec fn plain(s: Seq<char>, n: int) -> bool {
    numeral(s, n) && (s.len() > 1 ==> s[0] != '0')
}

/// `s` writes `n` by digits, with a plus sign before them or none.
pub open spec fn writes_unsigned(s: Seq<char>, n: int) -> bool {
    numeral(s, n) || (s.len() > 0 && s[0] == '+' && numeral(s.skip(1), n))
}

/// `s` writes `v` by digits, with a sign before them or none.
pub open spec fn writes_signed(s: Seq<char>, v: int) -> bool {
    writes_unsigned(s, v) || (s.len() > 0 && s[0] == '-' && numeral(s.skip(1), -v))
}

/// White space is what Unicode calls so.
pub proof fn law_white_space(c: char)
    ensures
        is_white_space(c) == blank_char(c),
{
}

proof fn lemma_blank_is_dropped(a: Seq<char>, rest: Seq<char>)
    requires
        blank(a),
        rest.len() > 0 ==> !blank_char(rest[0]),
    ensures
        trim_start(a + rest) == rest,
    decreases a.len(),
{
    if a.len() == 0 {
        assert(a + rest =~= rest);
        if rest.len() > 0 {
            law_white_space(rest[0]);
        }
    } else {
        law_white_space(a[0]);
        assert((a + rest)[0] == a[0]);
        assert((a + rest).drop_first() =~= a.drop_first() + rest);
        assert forall|i: int| 0 <= i < a.drop_first().len() implies blank_char(
            #[trigger] a.drop_first()[i],
        ) by {
            assert(a.drop_first()[i] == a[i + 1]);
        }
        lemma_blank_is_dropped(a.drop_first(), rest);
    }
}

proof fn lemma_blank_is_cut(t: Seq<char>, b: Seq<char>)
    requires
        blank(b),
        t.len() > 0 ==> !blank_char(t[t.len() - 1]),
    ensures
        trim_end(t + b) == t,
    decreases b.len(),
{
    if b.len() == 0 {
        assert(t + b =~= t);
        if t.len() > 0 {
            law_white_space(t[t.len() - 1]);
        }
    } else {
        law_white_space(b[b.len() - 1]);
        assert((t + b).last() == b[b.len() - 1]);
        assert((t + b).drop_last() =~= t + b.drop_last());
        lemma_blank_is_cut(t, b.drop_last());
    }
}

/// White space before and after a text is dropped, all of it, and nothing else.
pub proof fn law_trimming(a: Seq<char>, t: Seq<char>, b: Seq<char>)
    requires
        blank(a),
        blank(b),
        bare(t),
    ensures
        trimmed(a + t + b) == t,
{
    if t.len() == 0 {
        let s = a + t + b;
        assert forall|i: int| 0 <= i < s.len() implies blank_char(#[trigger] s[i]) by {
            if i < a.len() {
                assert(s[i] == a[i]);
            } else {
                assert(s[i] == b[i - a.len()]);
            }
        }
        lemma_blank_is_dropped(s, t);
        assert(s + t =~= s);
        assert(trim_end(t) == t);
    } else {
        assert(a + t + b =~= a + (t + b));
        assert((t + b)[0] == t[0]);
        lemma_blank_is_dropped(a, t + b);
        lemma_blank_is_cut(t, b);
    }
}

proof fn lemma_start_splits(s: Seq<char>) -> (a: Seq<char>)
    ensures
        blank(a),
        s == a + trim_start(s),
        trim_start(s).len() > 0 ==> !blank_char(trim_start(s)[0]),
    decreases s.len(),
{
    if s.len() > 0 {
        law_white_space(s[0]);
    }
    if s.len() > 0 && is_white_space(s.first()) {
        let rest = lemma_start_splits(s.drop_first());
        let a = seq![s[0]] + rest;
        let left = trim_start(s);
        assert(s =~= seq![s[0]] + s.drop_first());
        assert(seq![s[0]] + (rest + left) =~= a + left);
        assert forall|i: int| 0 <= i < a.len() implies blank_char(#[trigger] a[i]) by {
            if i > 0 {
                assert(a[i] == rest[i - 1]);
            }
        }
        a
    } else {
        assert(s =~= Seq::<char>::empty() + s);
        Seq::empty()
    }
}

proof fn lemma_end_splits(s: Seq<char>) -> (b: Seq<char>)
    ensures
        blank(b),
        s == trim_end(s) + b,
        trim_end(s).len() > 0 ==> !blank_char(trim_end(s)[trim_end(s).len() - 1]),
    decreases s.len(),
{
    if s.len() > 0 {
        law_white_space(s.last());
    }
    if s.len() > 0 && is_white_space(s.last()) {
        let rest = lemma_end_splits(s.drop_last());
        let b = rest.push(s.last());
        let left = trim_end(s);
        assert(s =~= s.drop_last().push(s.last()));
        assert((left + rest).push(s.last()) =~= left + b);
        assert forall|i: int| 0 <= i < b.len() implies blank_char(#[trigger] b[i]) by {
            if i < rest.len() {
                assert(b[i] == rest[i]);
            }
        }
        b
    } else {
        assert(s =~= s + Seq::<char>::empty());
        Seq::empty()
    }
}

/// Every text is what trimming leaves of it, with white space before and after.
pub proof fn law_trimming_leaves_the_rest(s: Seq<char>)
    ensures
        bare(trimmed(s)),
        exists|a: Seq<char>, b: Seq<char>| #![trigger a + trimmed(s) + b]
            blank(a) && blank(b) && s == a + trimmed(s) + b,
{
    let a = lemma_start_splits(s);
    let b = lemma_end_splits(trim_start(s));
    assert(s =~= a + trimmed(s) + b);
    if trimmed(s).len() > 0 {
        assert(trim_start(s)[0] == trimmed(s)[0]);
    }
}

/// Nothing is left of a text exactly where it is white space altogether.
pub proof fn law_blank_leaves_nothing(s: Seq<char>)
    ensures
        (trimmed(s).len() == 0) == blank(s),
{
    law_trimming_leaves_the_rest(s);
    let (a, b): (Seq<char>, Seq<char>) = choose|a: Seq<char>, b: Seq<char>|
        #![trigger a + trimmed(s) + b]
        blank(a) && blank(b) && s == a + trimmed(s) + b;
    let t = trimmed(s);
    if t.len() == 0 {
        assert forall|i: int| 0 <= i < s.len() implies blank_char(#[trigger] s[i]) by {
            if i < a.len() {
                assert(s[i] == a[i]);
            } else {
                assert(s[i] == b[i - a.len()]);
            }
        }
    } else {
        assert(s[a.len() as int] == t[0]);
    }
}

proof fn lemma_stands(s: Seq<char>, pat: Seq<char>, i: int)
    ensures
        matches_at(s, pat, i) == stands(s, pat, i),
{
    if 0 <= i && i + pat.len() <= s.len() {
        let m = s.subrange(i, i + pat.len());
        if stands(s, pat, i) {
            assert(m =~= pat);
        }
        if m == pat {
            assert forall|k: int| 0 <= k < pat.len() implies s[i + k] == #[trigger] pat[k] by {
                assert(m[k] == pat[k]);
            }
        }
    }
}

proof fn lemma_found_from(s: Seq<char>, pat: Seq<char>, from: int)
    requires
        0 <= from,
    ensures
        match find_from(s, pat, from) {
            Some(i) => from <= i && stands(s, pat, i) && forall|j: int|
                from <= j < i ==> !#[trigger] stands(s, pat, j),
            None => forall|j: int| from <= j ==> !#[trigger] stands(s, pat, j),
        },
    decreases s.len() + 1 - from,
{
    lemma_stands(s, pat, from);
    if from + pat.len() <= s.len() && !matches_at(s, pat, from) {
        lemma_found_from(s, pat, from + 1);
    }
}

/// What is found is the first place at which the pattern stands, and it is found wherever it
/// stands.
pub proof fn law_found_is_first(s: Seq<char>, pat: Seq<char>)
    ensures
        match find(s, pat) {
            Some(i) => stands(s, pat, i) && forall|j: int|
                0 <= j < i ==> !#[trigger] stands(s, pat, j),
            None => forall|j: int| !#[trigger] stands(s, pat, j),
        },
{
    lemma_found_from(s, pat, 0);
}

/// The last place of a character has the character, and no later one has.
pub proof fn law_found_is_last(s: Seq<char>, c: char)
    ensures
        match find_last(s, c) {
            Some(i) => 0 <= i < s.len() && s[i] == c && forall|j: int|
                i < j < s.len() ==> #[trigger] s[j] != c,
            None => forall|j: int| 0 <= j < s.len() ==> #[trigger] s[j] != c,
        },
    decreases s.len(),
{
    if s.len() > 0 && s.last() != c {
        law_found_is_last(s.drop_last(), c);
        match find_last(s, c) {
            Some(i) => {
                assert forall|j: int| i < j < s.len() implies #[trigger] s[j] != c by {
                    if j < s.len() - 1 {
                        assert(s.drop_last()[j] == s[j]);
                    }
                }
            },
            None => {
                assert forall|j: int| 0 <= j < s.len() implies #[trigger] s[j] != c by {
                    if j < s.len() - 1 {
                        assert(s.drop_last()[j] == s[j]);
                    }
                }
            },
        }
    }
}

/// The decimal form of a number is its numeral.
pub proof fn law_decimal_is_plain(n: nat)
    ensures
        plain(decimal(n), n as int),
    decreases n,
{
    let d = decimal(n);
    if n < 10 {
        assert(d.drop_last() =~= Seq::<char>::empty());
        assert(amount(Seq::<char>::empty()) == 0);
        assert(d.last() == digit_char(n));
    } else {
        let m = n / 10;
        law_decimal_is_plain(m);
        assert(d.drop_last() =~= decimal(m));
        assert(d.last() == digit_char(n % 10));
        assert forall|i: int| 0 <= i < d.len() implies 0 <= digit(#[trigger] d[i]) <= 9 by {
            if i < d.len() - 1 {
                assert(d[i] == decimal(m)[i]);
            }
        }
        assert(d[0] == decimal(m)[0]);
        if decimal(m).len() == 1 {
            assert(decimal(m).drop_last() =~= Seq::<char>::empty());
            assert(amount(Seq::<char>::empty()) == 0);
        }
    }
}

proof fn lemma_amount_bound(s: Seq<char>)
    requires
        s.len() > 0,
        forall|i: int| 0 <= i < s.len() ==> 0 <= digit(#[trigger] s[i]) <= 9,
    ensures
        amount(s) >= 0,
        s.len() == 1 ==> amount(s) == digit(s[0]),
        s[0] != '0' ==> amount(s) > 0,
        s[0] != '0' && s.len() > 1 ==> amount(s) >= 10,
    decreases s.len(),
{
    if s.len() == 1 {
        assert(s.drop_last() =~= Seq::<char>::empty());
        assert(amount(Seq::<char>::empty()) == 0);
    } else {
        let r = s.drop_last();
        assert forall|i: int| 0 <= i < r.len() implies 0 <= digit(#[trigger] r[i]) <= 9 by {
            assert(r[i] == s[i]);
        }
        lemma_amount_bound(r);
        assert(r[0] == s[0]);
    }
}

/// A number has one plain numeral.
pub proof fn law_plain_numeral_is_unique(s: Seq<char>, t: Seq<char>, n: int)
    requires
        plain(s, n),
        plain(t, n),
    ensures
        s == t,
    decreases s.len(),
{
    lemma_amount_bound(s);
    lemma_amount_bound(t);
    if s.len() == 1 || t.len() == 1 {
        assert(s.len() == t.len());
        assert(s =~= t);
    } else {
        let (u, v) = (s.drop_last(), t.drop_last());
        assert forall|i: int| 0 <= i < u.len() implies 0 <= digit(#[trigger] u[i]) <= 9 by {
            assert(u[i] == s[i]);
        }
        assert forall|i: int| 0 <= i < v.len() implies 0 <= digit(#[trigger] v[i]) <= 9 by {
            assert(v[i] == t[i]);
        }
        assert(0 <= digit(s[s.len() - 1]) <= 9);
        assert(0 <= digit(t[t.len() - 1]) <= 9);
        assert(amount(u) == amount(v) && digit(s.last()) == digit(t.last()));
        assert(u[0] == s[0] && v[0] == t[0]);
        law_plain_numeral_is_unique(u, v, amount(u));
        assert(s =~= u.push(s.last()));
        assert(t =~= v.push(t.last()));
    }
}

/// A number is written by its plain numeral.
pub proof fn law_number_is_written_plainly(n: nat, d: Seq<char>)
    requires
        plain(d, n as int),
    ensures
        decimal(n) == d,
{
    law_decimal_is_plain(n);
    law_plain_numeral_is_unique(decimal(n), d, n as int);
}

proof fn lemma_digit(c: char)
    ensures
        is_digit(c) == (0 <= digit(c) <= 9),
        is_digit(c) ==> digit(c) == c as u32 - 48,
{
}

proof fn lemma_values_agree(s: Seq<char>)
    requires
        all_digits(s),
    ensures
        digits_value(s) == amount(s),
    decreases s.len(),
{
    if s.len() > 0 {
        assert(is_digit(s[s.len() - 1]));
        lemma_digit(s.last());
        assert(all_digits(s.drop_last())) by {
            assert forall|i: int| 0 <= i < s.drop_last().len() implies is_digit(
                #[trigger] s.drop_last()[i],
            ) by {
                assert(s.drop_last()[i] == s[i]);
            }
        }
        lemma_values_agree(s.drop_last());
    }
}

proof fn lemma_number(s: Seq<char>, limit: nat)
    ensures
        match number(s, limit) {
            Some(n) => n <= limit && numeral(s, n as int),
            None => forall|n: int| n <= limit ==> !#[trigger] numeral(s, n),
        },
{
    if all_digits(s) {
        lemma_values_agree(s);
        assert forall|i: int| 0 <= i < s.len() implies 0 <= digit(#[trigger] s[i]) <= 9 by {
            assert(is_digit(s[i]));
            lemma_digit(s[i]);
        }
    }
    if number(s, limit) is None {
        assert forall|n: int| n <= limit implies !#[trigger] numeral(s, n) by {
            if numeral(s, n) {
                assert forall|i: int| 0 <= i < s.len() implies is_digit(#[trigger] s[i]) by {
                    assert(0 <= digit(s[i]) <= 9);
                    lemma_digit(s[i]);
                }
            }
        }
    }
}

proof fn lemma_signs_are_no_digits(s: Seq<char>, n: int)
    requires
        numeral(s, n),
    ensures
        s[0] != '+' && s[0] != '-',
        n >= 0,
{
    assert(0 <= digit(s[0]) <= 9);
    lemma_amount_bound(s);
}

/// A text writes a port exactly where it consists of digits, with a plus sign before them or none,
/// that amount to at most 65535; the port is what they amount to.
pub proof fn law_port_is_read(s: Seq<char>)
    ensures
        match u16_of(s) {
            Some(n) => n <= 65535 && writes_unsigned(s, n as int),
            None => forall|n: int| n <= 65535 ==> !#[trigger] writes_unsigned(s, n),
        },
{
    lemma_number(without_plus(s), u16::MAX as nat);
    assert forall|n: int| numeral(s, n) implies s[0] != '+' by {
        lemma_signs_are_no_digits(s, n);
    }
}

/// A text writes a port for one number only.
pub proof fn law_port_is_unique(s: Seq<char>, n: int)
    requires
        writes_unsigned(s, n),
        n <= 65535,
    ensures
        u16_of(s) == Some(n as nat),
        n >= 0,
{
    law_port_is_read(s);
    if numeral(s, n) {
        lemma_signs_are_no_digits(s, n);
    } else {
        lemma_signs_are_no_digits(s.skip(1), n);
    }
    let m = u16_of(s)->0;
    if numeral(s, m as int) {
        lemma_signs_are_no_digits(s, m as int);
    }
}

/// A text writes an integer of 32 bits exactly where it consists of digits, with a sign before them
/// or none, whose amount with that sign is in range; the integer is that.
pub proof fn law_integer_is_read(s: Seq<char>)
    ensures
        match i32_of(s) {
            Some(v) => -0x8000_0000 <= v <= 0x7fff_ffff && writes_signed(s, v),
            None => forall|v: int|
                -0x8000_0000 <= v <= 0x7fff_ffff ==> !#[trigger] writes_signed(s, v),
        },
{
    lemma_number(without_plus(s), i32::MAX as nat);
    if s.len() > 0 {
        lemma_number(s.skip(1), 0x8000_0000);
    }
    assert forall|n: int| numeral(s, n) implies s[0] != '+' && s[0] != '-' by {
        lemma_signs_are_no_digits(s, n);
    }
    if i32_of(s) is None {
        assert forall|v: int| -0x8000_0000 <= v <= 0x7fff_ffff implies !#[trigger] writes_signed(
            s,
            v,
        ) by {
            if writes_signed(s, v) && s[0] == '-' {
                assert(numeral(s.skip(1), -v));
            }
        }
    }
}

/// A text writes an integer of 32 bits for one number only.
pub proof fn law_integer_is_unique(s: Seq<char>, v: int)
    requires
        writes_signed(s, v),
        -0x8000_0000 <= v <= 0x7fff_ffff,
    ensures
        i32_of(s) == Some(v),
{
    law_integer_is_read(s);
    let w = i32_of(s)->0;
    assert forall|n: int| numeral(s, n) implies s[0] != '+' && s[0] != '-' by {
        lemma_signs_are_no_digits(s, n);
    }
}

}
