//! The pair codec: slash-separated text such as `"03/12"` read as two
//! optional halves, in a textual and a numeric flavour, and rendered back.

use vstd::prelude::*;
use crate::decimal::{
    all_digits, decimal_to_padding_string, lemma_padded_decimal_parses, padded_decimal,
    parse_decimal, parse_u32,
};
use crate::text::{
    find_slash, is_white_space, lemma_slash_offset, lemma_slash_offset_bounds, lemma_trim_end,
    lemma_trim_start, lemma_trimmed, slash_offset, trim, trimmed,
};

verus! {

/// The view of an optional string.
pub open spec fn opt_view(o: Option<String>) -> Option<Seq<char>> {
    match o {
        Some(s) => Some(s@),
        None => None,
    }
}

/// The text before the first `'/'` (all of `s` when it has none).
pub open spec fn first_segment(s: Seq<char>) -> Seq<char> {
    s.subrange(0, slash_offset(s) as int)
}

/// The text between the first and the second `'/'` (or the end), when `s`
/// holds a `'/'` at all. Whatever follows a second `'/'` is ignored.
pub open spec fn second_segment(s: Seq<char>) -> Option<Seq<char>> {
    if slash_offset(s) < s.len() {
        let rest = s.subrange(slash_offset(s) as int + 1, s.len() as int);
        Some(rest.subrange(0, slash_offset(rest) as int))
    } else {
        None
    }
}

/// A textual half: the trimmed segment, absent when nothing but white space.
pub open spec fn present_text(segment: Seq<char>) -> Option<Seq<char>> {
    if trimmed(segment).len() == 0 {
        None
    } else {
        Some(trimmed(segment))
    }
}

/// A numeric half: the trimmed segment read as a `u32`, absent when it does
/// not parse.
pub open spec fn present_number(segment: Seq<char>) -> Option<u32> {
    parse_u32(trimmed(segment))
}

/// The textual pair that `s` holds.
pub open spec fn text_pair(s: Seq<char>) -> (Option<Seq<char>>, Option<Seq<char>>) {
    (
        present_text(first_segment(s)),
        match second_segment(s) {
            Some(segment) => present_text(segment),
            None => None,
        },
    )
}

/// The numeric pair that `s` holds.
pub open spec fn number_pair(s: Seq<char>) -> (Option<u32>, Option<u32>) {
    (
        present_number(first_segment(s)),
        match second_segment(s) {
            Some(segment) => present_number(segment),
            None => None,
        },
    )
}

/// The text of a pair: nothing when both halves are absent, the first half
/// alone without a slash, or a slash with whatever halves are present.
pub open spec fn join_pair(first: Option<Seq<char>>, second: Option<Seq<char>>) -> Option<
    Seq<char>,
> {
    match (first, second) {
        (None, None) => None,
        (None, Some(b)) => Some(seq!['/'] + b),
        (Some(a), None) => Some(a),
        (Some(a), Some(b)) => Some(a + seq!['/'] + b),
    }
}

/// A numeric half rendered with zero padding.
pub open spec fn padded_half(half: Option<u32>, padding: nat) -> Option<Seq<char>> {
    match half {
        Some(n) => Some(padded_decimal(n as nat, padding)),
        None => None,
    }
}

/// The text of a numeric pair, each present half padded to `padding` digits.
pub open spec fn encode_number_pair(first: Option<u32>, second: Option<u32>, padding: nat) -> Option<
    Seq<char>,
> {
    join_pair(padded_half(first, padding), padded_half(second, padding))
}

/// `Some(n)` for a non-zero `n`; zero stands for "absent".
pub fn u32_to_option(n: u32) -> (r: Option<u32>)
    ensures
        r == (if n == 0 {
            None
        } else {
            Some(n)
        }),
{
    if n == 0 {
        None
    } else {
        Some(n)
    }
}

/// A textual half from an optional segment: trimmed, and `None` when the
/// segment is missing or holds nothing but white space.
pub fn get_text(input: &Option<&str>) -> (r: Option<String>)
    ensures
        opt_view(r) == match *input {
            Some(s) => present_text(s@),
            None => None,
        },
{
    if let Some(string) = input {
        let string = trim(string);
        if string.unicode_len() != 0 {
            return Some(string.to_owned());
        }
    }
    None
}

/// A numeric half from an optional segment: the trimmed segment parsed as a
/// `u32`, and `None` when it is missing or does not parse.
pub fn get_num(input: &Option<&str>) -> (r: Option<u32>)
    ensures
        r == match *input {
            Some(s) => present_number(s@),
            None => None,
        },
{
    if let Some(string) = input {
        parse_decimal(trim(string))
    } else {
        None
    }
}

/// The first segment of `text` and, when it holds a `'/'`, the second.
fn segments(text: &str) -> (r: (Option<&str>, Option<&str>))
    ensures
        r.0 matches Some(a) && a@ == first_segment(text@),
        match (r.1, second_segment(text@)) {
            (Some(b), Some(g)) => b@ == g,
            (None, None) => true,
            _ => false,
        },
{
    let n = text.unicode_len();
    let i = find_slash(text, 0);
    assert(text@.subrange(0, n as int) =~= text@);
    let first = text.substring_char(0, i);
    if i < n {
        let j = find_slash(text, i + 1);
        (Some(first), Some(text.substring_char(i + 1, j)))
    } else {
        (Some(first), None)
    }
}

/// Splits `text` at its first `'/'` into two trimmed textual halves.
pub fn get_text_pair(text: &str) -> (r: (Option<String>, Option<String>))
    ensures
        (opt_view(r.0), opt_view(r.1)) == text_pair(text@),
{
    let (a, b) = segments(text);
    let first = get_text(&a);
    let second = get_text(&b);
    (first, second)
}

/// Splits `text` at its first `'/'` into two numeric halves; a half that is
/// empty or not a number is `None`, never an error.
pub fn get_number_pair(text: &str) -> (r: (Option<u32>, Option<u32>))
    ensures
        r == number_pair(text@),
{
    let (a, b) = segments(text);
    let first = get_num(&a);
    let second = get_num(&b);
    (first, second)
}

/// The text of a textual pair, `None` when both halves are absent.
pub fn text_pair_to_string(first: &Option<String>, last: &Option<String>) -> (r: Option<String>)
    ensures
        opt_view(r) == join_pair(opt_view(*first), opt_view(*last)),
{
    proof {
        reveal_strlit("/");
    }
    match (first, last) {
        (None, None) => None,
        (None, Some(b)) => {
            let mut s = String::from_str("/");
            s.append(b.as_str());
            Some(s)
        },
        (Some(a), None) => Some(a.clone()),
        (Some(a), Some(b)) => {
            let mut s = a.clone();
            s.append("/");
            s.append(b.as_str());
            Some(s)
        },
    }
}

/// The text of a numeric pair, each half zero-padded to `padding` digits;
/// `None` when both halves are absent.
pub fn num_pair_to_string(first: &Option<u32>, second: &Option<u32>, padding: usize) -> (r: Option<
    String,
>)
    ensures
        opt_view(r) == encode_number_pair(*first, *second, padding as nat),
{
    let a = match first {
        Some(n) => Some(decimal_to_padding_string(*n, padding)),
        None => None,
    };
    let b = match second {
        Some(n) => Some(decimal_to_padding_string(*n, padding)),
        None => None,
    };
    text_pair_to_string(&a, &b)
}

proof fn lemma_digit_run(p: Seq<char>)
    requires
        p.len() > 0,
        all_digits(p),
    ensures
        slash_offset(p) == p.len(),
        trimmed(p) == p,
        forall|i: int| 0 <= i < p.len() ==> #[trigger] p[i] != '/',
{
    assert forall|i: int| 0 <= i < p.len() implies #[trigger] p[i] != '/' && !is_white_space(
        p[i],
    ) by {
        assert(crate::decimal::is_digit(p[i]));
    }
    lemma_slash_offset(p, p.len() as int);
    lemma_trim_start(p, 0);
    assert(p.subrange(0, p.len() as int) =~= p);
    lemma_trim_end(p, p.len() as int);
}

/// Encoding a numeric pair and parsing the text back gives the same pair;
/// when both halves are absent nothing is written, and the empty text reads
/// as two absent halves.
pub proof fn lemma_number_pair_round_trip(first: Option<u32>, second: Option<u32>, padding: nat)
    ensures
        number_pair(
            match encode_number_pair(first, second, padding) {
                Some(t) => t,
                None => Seq::empty(),
            },
        ) == (first, second),
{
    let empty = Seq::<char>::empty();
    assert(trimmed(empty) == empty);
    assert(parse_u32(empty) is None);
    match (first, second) {
        (None, None) => {
            assert(slash_offset(empty) == 0);
            assert(first_segment(empty) =~= empty);
        },
        (None, Some(b)) => {
            let pb = padded_decimal(b as nat, padding);
            lemma_padded_decimal_parses(b, padding);
            lemma_digit_run(pb);
            let t = seq!['/'] + pb;
            assert(slash_offset(t) == 0);
            assert(first_segment(t) =~= empty);
            assert(t.subrange(1, t.len() as int) =~= pb);
            assert(pb.subrange(0, pb.len() as int) =~= pb);
        },
        (Some(a), None) => {
            let pa = padded_decimal(a as nat, padding);
            lemma_padded_decimal_parses(a, padding);
            lemma_digit_run(pa);
            assert(pa.subrange(0, pa.len() as int) =~= pa);
        },
        (Some(a), Some(b)) => {
            let pa = padded_decimal(a as nat, padding);
            let pb = padded_decimal(b as nat, padding);
            lemma_padded_decimal_parses(a, padding);
            lemma_padded_decimal_parses(b, padding);
            lemma_digit_run(pa);
            lemma_digit_run(pb);
            let t = pa + seq!['/'] + pb;
            assert forall|j: int| 0 <= j < pa.len() implies #[trigger] t[j] != '/' by {
                assert(t[j] == pa[j]);
            }
            lemma_slash_offset(t, pa.len() as int);
            assert(first_segment(t) =~= pa);
            assert(t.subrange(pa.len() as int + 1, t.len() as int) =~= pb);
            assert(pb.subrange(0, pb.len() as int) =~= pb);
        },
    }
}

/// A half as a pair reads it: non-empty, trimmed, and without a slash.
pub open spec fn clean_half(h: Seq<char>) -> bool {
    &&& h.len() > 0
    &&& trimmed(h) == h
    &&& forall|j: int| 0 <= j < h.len() ==> #[trigger] h[j] != '/'
}

proof fn lemma_present_text_clean(segment: Seq<char>)
    requires
        forall|j: int| 0 <= j < segment.len() ==> #[trigger] segment[j] != '/',
    ensures
        present_text(segment) matches Some(h) ==> clean_half(h),
{
    lemma_trimmed(segment);
    let t = trimmed(segment);
    let a = choose|a: int|
        0 <= a && a + t.len() <= segment.len() && t == #[trigger] segment.subrange(a, a + t.len());
    assert forall|j: int| 0 <= j < t.len() implies #[trigger] t[j] != '/' by {
        assert(t[j] == segment[a + j]);
    }
}

/// Each half that a textual pair reads is clean.
pub proof fn lemma_text_pair_clean(s: Seq<char>)
    ensures
        text_pair(s).0 matches Some(h) ==> clean_half(h),
        text_pair(s).1 matches Some(h) ==> clean_half(h),
{
    lemma_slash_offset_bounds(s);
    let f = first_segment(s);
    assert forall|j: int| 0 <= j < f.len() implies #[trigger] f[j] != '/' by {
        assert(f[j] == s[j]);
    }
    lemma_present_text_clean(f);
    if slash_offset(s) < s.len() {
        let rest = s.subrange(slash_offset(s) as int + 1, s.len() as int);
        lemma_slash_offset_bounds(rest);
        let g = rest.subrange(0, slash_offset(rest) as int);
        assert forall|j: int| 0 <= j < g.len() implies #[trigger] g[j] != '/' by {
            assert(g[j] == rest[j]);
        }
        lemma_present_text_clean(g);
    }
}

/// A clean half written alone reads back as the first half.
pub proof fn lemma_text_pair_first_alone(h: Seq<char>)
    requires
        clean_half(h),
    ensures
        text_pair(h) == (Some(h), None::<Seq<char>>),
{
    lemma_slash_offset(h, h.len() as int);
    assert(h.subrange(0, h.len() as int) =~= h);
}

/// A clean half written after a slash reads back as the second half.
pub proof fn lemma_text_pair_second_alone(h: Seq<char>)
    requires
        clean_half(h),
    ensures
        text_pair(seq!['/'] + h) == (None::<Seq<char>>, Some(h)),
{
    let t = seq!['/'] + h;
    let empty = Seq::<char>::empty();
    assert(slash_offset(t) == 0);
    assert(first_segment(t) =~= empty);
    assert(trimmed(empty) == empty);
    assert(t.subrange(1, t.len() as int) =~= h);
    lemma_slash_offset(h, h.len() as int);
    assert(h.subrange(0, h.len() as int) =~= h);
}

/// A clean half written alone has no second half, in either flavour.
pub proof fn lemma_half_alone_has_no_second(h: Seq<char>)
    requires
        clean_half(h),
    ensures
        second_segment(h) is None,
        number_pair(h).1 is None,
        text_pair(h).1 is None,
{
    lemma_slash_offset(h, h.len() as int);
}

/// A clean half written after a slash has no first half, in either flavour.
pub proof fn lemma_half_after_slash_has_no_first(h: Seq<char>)
    ensures
        number_pair(seq!['/'] + h).0 is None,
        text_pair(seq!['/'] + h).0 is None,
{
    let t = seq!['/'] + h;
    let empty = Seq::<char>::empty();
    assert(slash_offset(t) == 0);
    assert(first_segment(t) =~= empty);
    assert(trimmed(empty) == empty);
}

/// The plain decimal text of a number is a clean half.
pub proof fn lemma_decimal_is_clean(n: u32)
    ensures
        clean_half(crate::decimal::decimal_digits(n as nat)),
{
    lemma_padded_decimal_parses(n, 0);
    lemma_digit_run(padded_decimal(n as nat, 0));
}

} // verus!
