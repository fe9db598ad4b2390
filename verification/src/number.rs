//! Normalization of kanji numerals and fullwidth digits to ASCII digits.
use vstd::prelude::*;

use crate::text::{chars_of, push_char, string_from_chars};
use crate::token::Token;

verus! {

pub open spec fn spec_is_fullwidth_digit(ch: char) -> bool {
    '０' <= ch && ch <= '９'
}

/// The ASCII digit with the value of a fullwidth digit.
pub open spec fn spec_fullwidth_to_ascii(ch: char) -> char {
    ((ch as u32 - '０' as u32) + '0' as u32) as char
}

pub open spec fn spec_is_kanji_numeral(ch: char) -> bool {
    ch == '〇' || ch == '一' || ch == '二' || ch == '三' || ch == '四' || ch == '五' || ch == '六'
        || ch == '七' || ch == '八' || ch == '九' || ch == '十' || ch == '百' || ch == '千'
        || ch == '万' || ch == '億' || ch == '兆'
}

pub open spec fn spec_kanji_digit(ch: char) -> Option<u64> {
    match ch {
        '〇' => Some(0u64),
        '一' => Some(1u64),
        '二' => Some(2u64),
        '三' => Some(3u64),
        '四' => Some(4u64),
        '五' => Some(5u64),
        '六' => Some(6u64),
        '七' => Some(7u64),
        '八' => Some(8u64),
        '九' => Some(9u64),
        _ => None,
    }
}

pub open spec fn spec_kanji_multiplier(ch: char) -> Option<u64> {
    match ch {
        '十' => Some(10u64),
        '百' => Some(100u64),
        '千' => Some(1000u64),
        '万' => Some(10_000u64),
        '億' => Some(100_000_000u64),
        '兆' => Some(1_000_000_000_000u64),
        _ => None,
    }
}

/// Every character is a kanji digit (〇 to 九).
pub open spec fn all_kanji_digits(s: Seq<char>) -> bool {
    forall|i: int| 0 <= i < s.len() ==> #[trigger] spec_kanji_digit(s[i]) is Some
}

/// The value of a sequence of kanji digits read positionally, as in 一二三.
pub open spec fn positional_value(s: Seq<char>) -> nat
    decreases s.len(),
{
    if s.len() == 0 {
        0
    } else {
        positional_value(s.drop_last()) * 10 + spec_kanji_digit(s.last())->0 as nat
    }
}

/// The running state of a multiplicative reading, as in 三百二十一:
/// the amount gathered in units of 万 and above, the amount below that,
/// and the digit waiting for a unit.
pub struct KanjiAccumulator {
    pub big: int,
    pub total: int,
    pub current: int,
}

/// One character of a multiplicative reading.
pub open spec fn accumulate(st: KanjiAccumulator, ch: char) -> KanjiAccumulator {
    if spec_kanji_digit(ch) is Some {
        KanjiAccumulator { current: spec_kanji_digit(ch)->0 as int, ..st }
    } else if spec_kanji_multiplier(ch) is Some {
        let mult = spec_kanji_multiplier(ch)->0 as int;
        if mult >= 10_000 {
            let add = if st.current == 0 && st.total == 0 {
                mult
            } else {
                (st.total + st.current) * mult
            };
            KanjiAccumulator { big: st.big + add, total: 0, current: 0 }
        } else {
            let cur = if st.current == 0 {
                1
            } else {
                st.current
            };
            KanjiAccumulator { big: st.big, total: st.total + cur * mult, current: 0 }
        }
    } else {
        st
    }
}

/// The state after reading all of `s`.
pub open spec fn accumulated(s: Seq<char>) -> KanjiAccumulator
    decreases s.len(),
{
    if s.len() == 0 {
        KanjiAccumulator { big: 0, total: 0, current: 0 }
    } else {
        accumulate(accumulated(s.drop_last()), s.last())
    }
}

/// Every amount computed while reading `ch` in state `st` fits in a `u64`.
pub open spec fn accumulate_fits(st: KanjiAccumulator, ch: char) -> bool {
    spec_kanji_digit(ch) is None && spec_kanji_multiplier(ch) is Some ==> {
        let mult = spec_kanji_multiplier(ch)->0 as int;
        if mult >= 10_000 {
            &&& (st.total + st.current) * mult <= u64::MAX
            &&& accumulate(st, ch).big <= u64::MAX
        } else {
            accumulate(st, ch).total <= u64::MAX
        }
    }
}

/// Every amount computed while reading `s` fits in a `u64`.
pub open spec fn accumulation_fits(s: Seq<char>) -> bool
    decreases s.len(),
{
    s.len() == 0 || (accumulation_fits(s.drop_last()) && accumulate_fits(
        accumulated(s.drop_last()),
        s.last(),
    ))
}

pub open spec fn accumulated_value(s: Seq<char>) -> int {
    let st = accumulated(s);
    st.big + st.total + st.current
}

/// A multiplicative reading of `s` can be computed in `u64` arithmetic.
pub open spec fn multiplicative_fits(s: Seq<char>) -> bool {
    accumulation_fits(s) && accumulated_value(s) <= u64::MAX
}

/// The value of a multiplicative reading; none where it reads zero from
/// anything but zeros.
pub open spec fn spec_parse_kanji_multiplicative(s: Seq<char>) -> Option<u64> {
    if accumulated_value(s) == 0 && !(forall|i: int| 0 <= i < s.len() ==> s[i] == '〇') {
        None
    } else {
        Some(accumulated_value(s) as u64)
    }
}

/// The value of a kanji numeral: positional when it has only digits,
/// multiplicative otherwise.
pub open spec fn spec_parse_kanji_number(s: Seq<char>) -> Option<u64> {
    if s.len() == 0 {
        None
    } else if all_kanji_digits(s) {
        if positional_value(s) <= u64::MAX {
            Some(positional_value(s) as u64)
        } else {
            None
        }
    } else {
        spec_parse_kanji_multiplicative(s)
    }
}

/// Reading `s` as a kanji numeral stays within `u64` arithmetic.
pub open spec fn kanji_number_fits(s: Seq<char>) -> bool {
    s.len() == 0 || all_kanji_digits(s) || multiplicative_fits(s)
}

pub open spec fn spec_digit_char(d: nat) -> char {
    (d + '0' as u32) as char
}

/// The decimal spelling of a natural number.
pub open spec fn decimal(n: nat) -> Seq<char>
    decreases n,
{
    if n < 10 {
        seq![spec_digit_char(n)]
    } else {
        decimal(n / 10).push(spec_digit_char(n % 10))
    }
}

pub fn is_fullwidth_digit(ch: char) -> (r: bool)
    ensures
        r == spec_is_fullwidth_digit(ch),
{
    '０' <= ch && ch <= '９'
}

pub fn fullwidth_to_ascii(ch: char) -> (r: char)
    requires
        spec_is_fullwidth_digit(ch),
    ensures
        r == spec_fullwidth_to_ascii(ch),
{
    let d: u8 = (ch as u32 - '０' as u32) as u8;
    (48u8 + d) as char
}

pub fn is_kanji_numeral(ch: char) -> (r: bool)
    ensures
        r == spec_is_kanji_numeral(ch),
{
    ch == '〇' || ch == '一' || ch == '二' || ch == '三' || ch == '四' || ch == '五' || ch == '六'
        || ch == '七' || ch == '八' || ch == '九' || ch == '十' || ch == '百' || ch == '千'
        || ch == '万' || ch == '億' || ch == '兆'
}

pub fn kanji_digit(ch: char) -> (r: Option<u64>)
    ensures
        r == spec_kanji_digit(ch),
{
    match ch {
        '〇' => Some(0),
        '一' => Some(1),
        '二' => Some(2),
        '三' => Some(3),
        '四' => Some(4),
        '五' => Some(5),
        '六' => Some(6),
        '七' => Some(7),
        '八' => Some(8),
        '九' => Some(9),
        _ => None,
    }
}

pub fn kanji_multiplier(ch: char) -> (r: Option<u64>)
    ensures
        r == spec_kanji_multiplier(ch),
{
    match ch {
        '十' => Some(10),
        '百' => Some(100),
        '千' => Some(1000),
        '万' => Some(10_000),
        '億' => Some(100_000_000),
        '兆' => Some(1_000_000_000_000),
        _ => None,
    }
}


proof fn lemma_positional_prefix(s: Seq<char>, k: int)
    requires
        0 <= k <= s.len(),
    ensures
        positional_value(s.take(k)) <= positional_value(s),
    decreases s.len() - k,
{
    if k < s.len() {
        lemma_positional_prefix(s, k + 1);
        assert(s.take(k + 1).drop_last() =~= s.take(k));
    } else {
        assert(s.take(k) =~= s);
    }
}

proof fn lemma_accumulation_fits_prefix(s: Seq<char>, k: int)
    requires
        accumulation_fits(s),
        0 <= k <= s.len(),
    ensures
        accumulation_fits(s.take(k)),
    decreases s.len(),
{
    if k == s.len() {
        assert(s.take(k) =~= s);
    } else {
        lemma_accumulation_fits_prefix(s.drop_last(), k);
        assert(s.drop_last().take(k) =~= s.take(k));
    }
}

proof fn lemma_accumulated_nonnegative(s: Seq<char>)
    ensures
        accumulated(s).big >= 0,
        accumulated(s).total >= 0,
        0 <= accumulated(s).current <= 9,
    decreases s.len(),
{
    if s.len() > 0 {
        lemma_accumulated_nonnegative(s.drop_last());
        let st = accumulated(s.drop_last());
        let ch = s.last();
        if spec_kanji_digit(ch) is None && spec_kanji_multiplier(ch) is Some {
            let mult = spec_kanji_multiplier(ch)->0 as int;
            assert((st.total + st.current) * mult >= 0) by (nonlinear_arith)
                requires
                    st.total + st.current >= 0,
                    mult >= 0,
            ;
            let cur = if st.current == 0 { 1 } else { st.current };
            assert(cur * mult >= 0) by (nonlinear_arith)
                requires
                    cur >= 0,
                    mult >= 0,
            ;
        }
    }
}

/// Reads a multiplicative kanji numeral such as 三百二十一.
pub fn parse_kanji_multiplicative(chars: &[char]) -> (r: Option<u64>)
    requires
        multiplicative_fits(chars@),
    ensures
        r == spec_parse_kanji_multiplicative(chars@),
{
    let len = chars.len();
    let mut total: u64 = 0;
    let mut current: u64 = 0;
    let mut big_unit_acc: u64 = 0;
    let mut i: usize = 0;
    while i < len
        invariant
            len == chars@.len(),
            i <= len,
            multiplicative_fits(chars@),
            accumulated(chars@.take(i as int)) == (KanjiAccumulator {
                big: big_unit_acc as int,
                total: total as int,
                current: current as int,
            }),
        decreases len - i,
    {
        let ch = chars[i];
        proof {
            lemma_accumulation_fits_prefix(chars@, i + 1);
            assert(chars@.take(i + 1).drop_last() =~= chars@.take(i as int));
            lemma_accumulated_nonnegative(chars@.take(i as int));
        }
        if let Some(d) = kanji_digit(ch) {
            current = d;
        } else if let Some(mult) = kanji_multiplier(ch) {
            if mult >= 10_000 {
                let add = if current == 0 && total == 0 {
                    mult
                } else {
                    assert(total + current <= (total + current) * mult) by (nonlinear_arith)
                        requires
                            mult >= 1,
                            total + current >= 0,
                    ;
                    (total + current) * mult
                };
                big_unit_acc = big_unit_acc + add;
                total = 0;
                current = 0;
            } else {
                if current == 0 {
                    current = 1;
                }
                assert(current * mult >= 0) by (nonlinear_arith)
                    requires
                        current >= 0,
                        mult >= 0,
                ;
                total = total + current * mult;
                current = 0;
            }
        }
        i = i + 1;
    }
    assert(chars@.take(len as int) =~= chars@);
    let result = big_unit_acc + total + current;
    if result == 0 {
        let mut all_zero = true;
        let mut j: usize = 0;
        while j < len
            invariant
                len == chars@.len(),
                j <= len,
                all_zero == (forall|k: int| 0 <= k < j ==> chars@[k] == '〇'),
            decreases len - j,
        {
            if chars[j] != '〇' {
                all_zero = false;
            }
            j = j + 1;
        }
        if !all_zero {
            return None;
        }
    }
    Some(result)
}

/// Reads a kanji numeral, positionally when it has only digits and
/// multiplicatively otherwise.
pub fn parse_kanji_number(s: &str) -> (r: Option<u64>)
    requires
        kanji_number_fits(s@),
    ensures
        r == spec_parse_kanji_number(s@),
{
    let chars = chars_of(s);
    let len = chars.len();
    if len == 0 {
        return None;
    }
    let mut all_digits = true;
    let mut j: usize = 0;
    while j < len
        invariant
            len == chars@.len(),
            j <= len,
            all_digits == (forall|k: int| 0 <= k < j ==> #[trigger] spec_kanji_digit(chars@[k]) is Some),
        decreases len - j,
    {
        if kanji_digit(chars[j]).is_none() {
            all_digits = false;
        }
        j = j + 1;
    }
    if all_digits {
        let mut value: u64 = 0;
        let mut i: usize = 0;
        while i < len
            invariant
                len == chars@.len(),
                chars@ == s@,
                i <= len,
                all_kanji_digits(chars@),
                value == positional_value(chars@.take(i as int)),
            decreases len - i,
        {
            assert(chars@.take(i + 1).drop_last() =~= chars@.take(i as int));
            let d = match kanji_digit(chars[i]) {
                Some(d) => d,
                None => 0,
            };
            assert(spec_kanji_digit(chars@[i as int]) is Some);
            match value.checked_mul(10) {
                Some(tens) => match tens.checked_add(d) {
                    Some(v) => {
                        value = v;
                    },
                    None => {
                        proof {
                            lemma_positional_prefix(chars@, i + 1);
                        }
                        return None;
                    },
                },
                None => {
                    proof {
                        lemma_positional_prefix(chars@, i + 1);
                    }
                    return None;
                },
            }
            i = i + 1;
        }
        assert(chars@.take(len as int) =~= chars@);
        Some(value)
    } else {
        parse_kanji_multiplicative(chars.as_slice())
    }
}


pub fn digit_char(d: u8) -> (c: char)
    requires
        d < 10,
    ensures
        c == spec_digit_char(d as nat),
{
    (48u8 + d) as char
}

fn push_decimal(n: u64, out: &mut Vec<char>)
    ensures
        final(out)@ == old(out)@ + decimal(n as nat),
    decreases n,
{
    if n >= 10 {
        push_decimal(n / 10, out);
    }
    out.push(digit_char((n % 10) as u8));
}

/// The decimal spelling of a number.
pub fn decimal_string(n: u64) -> (s: String)
    ensures
        s@ == decimal(n as nat),
{
    let mut digits: Vec<char> = Vec::new();
    push_decimal(n, &mut digits);
    assert(digits@ =~= decimal(n as nat));
    string_from_chars(&digits)
}

/// Characters that a fullwidth number may hold: fullwidth digits and the
/// fullwidth full stop and comma.
pub open spec fn is_fullwidth_number_char(c: char) -> bool {
    spec_is_fullwidth_digit(c) || c == '．' || c == '，'
}

/// The ASCII character for a character of a fullwidth number.
pub open spec fn normalize_fullwidth_char(c: char) -> char {
    if spec_is_fullwidth_digit(c) {
        spec_fullwidth_to_ascii(c)
    } else if c == '．' {
        '.'
    } else {
        ','
    }
}

pub open spec fn all_fullwidth_number_chars(s: Seq<char>) -> bool {
    forall|i: int| 0 <= i < s.len() ==> #[trigger] is_fullwidth_number_char(s[i])
}

pub open spec fn all_kanji_numerals(s: Seq<char>) -> bool {
    forall|i: int| 0 <= i < s.len() ==> #[trigger] spec_is_kanji_numeral(s[i])
}

/// The term the number filter makes of `s`: a fullwidth number becomes its
/// ASCII spelling, a kanji numeral with a value becomes the decimal spelling
/// of that value, and anything else is left as it is.
pub open spec fn spec_normalize_number(s: Seq<char>) -> Seq<char> {
    if all_fullwidth_number_chars(s) {
        s.map_values(|c: char| normalize_fullwidth_char(c))
    } else if s.len() > 0 && all_kanji_numerals(s) {
        match spec_parse_kanji_number(s) {
            Some(v) => decimal(v as nat),
            None => s,
        }
    } else {
        s
    }
}

/// The number filter can read `s` without leaving `u64` arithmetic.
pub open spec fn number_term_fits(s: Seq<char>) -> bool {
    s.len() > 0 && all_kanji_numerals(s) ==> kanji_number_fits(s)
}

/// Normalizes kanji numerals and fullwidth digits to ASCII digits.
#[derive(Debug, Clone, Copy, Default)]
pub struct KuromojiNumberFilter;

impl KuromojiNumberFilter {
    pub fn new() -> (f: Self) {
        KuromojiNumberFilter
    }

    /// Replaces the term by its normalized spelling; never deletes the token
    /// and adds none.
    pub fn filter(&self, token: &mut Token) -> (r: (bool, Option<Vec<Token>>))
        requires
            number_term_fits(old(token).term@),
        ensures
            final(token).term@ == spec_normalize_number(old(token).term@),
            final(token).start_offset == old(token).start_offset,
            final(token).end_offset == old(token).end_offset,
            final(token).position == old(token).position,
            r.0 == false,
            r.1 is None,
    {
        let chars = chars_of(token.term.as_str());
        let len = chars.len();
        let mut all_fullwidth = true;
        let mut j: usize = 0;
        while j < len
            invariant
                len == chars@.len(),
                j <= len,
                all_fullwidth == (forall|k: int|
                    0 <= k < j ==> #[trigger] is_fullwidth_number_char(chars@[k])),
            decreases len - j,
        {
            let c = chars[j];
            let ok = is_fullwidth_digit(c) || c == '．' || c == '，';
            assert(ok == is_fullwidth_number_char(chars@[j as int]));
            if !ok {
                all_fullwidth = false;
            }
            j = j + 1;
        }
        if all_fullwidth {
            let mut normalized: Vec<char> = Vec::new();
            let mut i: usize = 0;
            while i < len
                invariant
                    len == chars@.len(),
                    i <= len,
                    all_fullwidth_number_chars(chars@),
                    normalized@ =~= chars@.take(i as int).map_values(
                        |c: char| normalize_fullwidth_char(c),
                    ),
                decreases len - i,
            {
                let c = chars[i];
                assert(is_fullwidth_number_char(chars@[i as int]));
                let n = if is_fullwidth_digit(c) {
                    fullwidth_to_ascii(c)
                } else if c == '．' {
                    '.'
                } else {
                    ','
                };
                normalized.push(n);
                i = i + 1;
            }
            assert(chars@.take(len as int) =~= chars@);
            if normalized.len() > 0 {
                token.term = string_from_chars(&normalized);
            } else {
                assert(chars@.map_values(|c: char| normalize_fullwidth_char(c)) =~= chars@);
            }
            return (false, None);
        }
        let mut all_kanji = true;
        let mut k: usize = 0;
        while k < len
            invariant
                len == chars@.len(),
                k <= len,
                all_kanji == (forall|m: int| 0 <= m < k ==> #[trigger] spec_is_kanji_numeral(chars@[m])),
            decreases len - k,
        {
            if !is_kanji_numeral(chars[k]) {
                all_kanji = false;
            }
            k = k + 1;
        }
        if all_kanji && len > 0 {
            if let Some(value) = parse_kanji_number(token.term.as_str()) {
                token.term = decimal_string(value);
            }
        }
        (false, None)
    }
}


/// Whether the number filter can read `term` without leaving `u64`
/// arithmetic: the condition under which it may be called.
pub fn number_term_in_range(term: &str) -> (r: bool)
    ensures
        r == number_term_fits(term@),
{
    let chars = chars_of(term);
    let len = chars.len();
    let mut all_kanji = true;
    let mut all_digits = true;
    let mut k: usize = 0;
    while k < len
        invariant
            len == chars@.len(),
            k <= len,
            all_kanji == (forall|m: int| 0 <= m < k ==> #[trigger] spec_is_kanji_numeral(chars@[m])),
            all_digits == (forall|m: int| 0 <= m < k ==> #[trigger] spec_kanji_digit(chars@[m]) is Some),
        decreases len - k,
    {
        if !is_kanji_numeral(chars[k]) {
            all_kanji = false;
        }
        if kanji_digit(chars[k]).is_none() {
            all_digits = false;
        }
        k = k + 1;
    }
    if len == 0 || !all_kanji || all_digits {
        return true;
    }
    let mut total: u64 = 0;
    let mut current: u64 = 0;
    let mut big_unit_acc: u64 = 0;
    let mut i: usize = 0;
    while i < len
        invariant
            len == chars@.len(),
            chars@ == term@,
            i <= len,
            len > 0,
            all_kanji_numerals(chars@),
            !all_kanji_digits(chars@),
            accumulation_fits(chars@.take(i as int)),
            accumulated(chars@.take(i as int)) == (KanjiAccumulator {
                big: big_unit_acc as int,
                total: total as int,
                current: current as int,
            }),
        decreases len - i,
    {
        let ch = chars[i];
        proof {
            assert(chars@.take(i + 1).drop_last() =~= chars@.take(i as int));
            lemma_accumulated_nonnegative(chars@.take(i as int));
            if !accumulate_fits(accumulated(chars@.take(i as int)), ch) {
                assert(!accumulation_fits(chars@.take(i + 1)));
                if accumulation_fits(chars@) {
                    lemma_accumulation_fits_prefix(chars@, i + 1);
                }
            }
        }
        if let Some(d) = kanji_digit(ch) {
            current = d;
        } else if let Some(mult) = kanji_multiplier(ch) {
            if mult >= 10_000 {
                let add = if current == 0 && total == 0 {
                    mult
                } else {
                    match total.checked_add(current) {
                        None => {
                            assert(total + current <= (total + current) * mult) by (nonlinear_arith)
                                requires
                                    mult >= 1,
                                    total + current >= 0,
                            ;
                            return false;
                        },
                        Some(t) => match t.checked_mul(mult) {
                            None => {
                                return false;
                            },
                            Some(x) => x,
                        },
                    }
                };
                match big_unit_acc.checked_add(add) {
                    None => {
                        return false;
                    },
                    Some(b) => {
                        big_unit_acc = b;
                    },
                }
                total = 0;
                current = 0;
            } else {
                let cur: u64 = if current == 0 {
                    1
                } else {
                    current
                };
                assert(cur * mult <= 9 * 1000) by (nonlinear_arith)
                    requires
                        0 <= cur <= 9,
                        0 <= mult <= 1000,
                ;
                match total.checked_add(cur * mult) {
                    None => {
                        return false;
                    },
                    Some(t) => {
                        total = t;
                    },
                }
                current = 0;
            }
        }
        i = i + 1;
    }
    assert(chars@.take(len as int) =~= chars@);
    match big_unit_acc.checked_add(total) {
        None => false,
        Some(x) => x.checked_add(current).is_some(),
    }
}

proof fn lemma_decimal_digits(n: nat)
    ensures
        decimal(n).len() > 0,
        forall|i: int| 0 <= i < decimal(n).len() ==> '0' <= #[trigger] decimal(n)[i] <= '9',
    decreases n,
{
    if n >= 10 {
        lemma_decimal_digits(n / 10);
    }
}

/// The number filter is idempotent: a term it has normalized is left as it
/// is by a second pass, which may always be made.
pub proof fn lemma_normalize_number_idempotent(s: Seq<char>)
    requires
        number_term_fits(s),
    ensures
        number_term_fits(spec_normalize_number(s)),
        spec_normalize_number(spec_normalize_number(s)) == spec_normalize_number(s),
{
    let t = spec_normalize_number(s);
    if all_fullwidth_number_chars(s) {
        if s.len() > 0 {
            assert(!is_fullwidth_number_char(t[0]));
            assert(!spec_is_kanji_numeral(t[0]));
        } else {
            assert(t =~= s);
        }
    } else if s.len() > 0 && all_kanji_numerals(s) {
        match spec_parse_kanji_number(s) {
            Some(v) => {
                lemma_decimal_digits(v as nat);
                assert(!is_fullwidth_number_char(t[0]));
                assert(!spec_is_kanji_numeral(t[0]));
            },
            None => {},
        }
    }
}


/// The ASCII digit for a kanji digit.
pub open spec fn kanji_digit_to_ascii(c: char) -> char {
    spec_digit_char(spec_kanji_digit(c)->0 as nat)
}

proof fn lemma_positional_at_least_one(s: Seq<char>)
    requires
        s.len() > 0,
        all_kanji_digits(s),
        s[0] != '〇',
    ensures
        positional_value(s) >= 1,
    decreases s.len(),
{
    if s.len() > 1 {
        assert(s.drop_last()[0] == s[0]);
        assert(spec_kanji_digit(s.drop_last().last()) is Some) by {
            assert(spec_kanji_digit(s[s.len() - 2]) is Some);
        }
        lemma_positional_at_least_one(s.drop_last());
    } else {
        assert(spec_kanji_digit(s[0]) is Some);
    }
}

proof fn lemma_positional_spelling(s: Seq<char>)
    requires
        s.len() > 0,
        all_kanji_digits(s),
        s[0] != '〇' || s.len() == 1,
    ensures
        decimal(positional_value(s)) =~= s.map_values(|c: char| kanji_digit_to_ascii(c)),
    decreases s.len(),
{
    let d = spec_kanji_digit(s.last())->0 as nat;
    assert(spec_kanji_digit(s.last()) is Some) by {
        assert(spec_kanji_digit(s[s.len() - 1]) is Some);
    }
    assert(d < 10);
    if s.len() == 1 {
        assert(positional_value(s.drop_last()) == 0);
    } else {
        let prefix = s.drop_last();
        assert(prefix[0] == s[0]);
        assert(all_kanji_digits(prefix)) by {
            assert forall|i: int| 0 <= i < prefix.len() implies #[trigger] spec_kanji_digit(
                prefix[i],
            ) is Some by {
                assert(spec_kanji_digit(s[i]) is Some);
            }
        }
        lemma_positional_spelling(prefix);
        lemma_positional_at_least_one(prefix);
        let p = positional_value(prefix);
        let v = p * 10 + d;
        assert(v / 10 == p && v % 10 == d && v >= 10) by (nonlinear_arith)
            requires
                v == p * 10 + d,
                0 <= d < 10,
                p >= 1,
        ;
        assert(s.map_values(|c: char| kanji_digit_to_ascii(c)) =~= prefix.map_values(
            |c: char| kanji_digit_to_ascii(c),
        ).push(kanji_digit_to_ascii(s.last())));
    }
}

/// A positional kanji numeral without leading zeros, such as 一二三, is
/// written digit by digit: 123.
pub proof fn lemma_positional_numeral_written_digit_by_digit(s: Seq<char>)
    requires
        s.len() > 0,
        all_kanji_digits(s),
        s[0] != '〇' || s.len() == 1,
        positional_value(s) <= u64::MAX,
    ensures
        number_term_fits(s),
        spec_normalize_number(s) == s.map_values(|c: char| kanji_digit_to_ascii(c)),
{
    assert(!is_fullwidth_number_char(s[0])) by {
        assert(spec_kanji_digit(s[0]) is Some);
    }
    assert(all_kanji_numerals(s)) by {
        assert forall|i: int| 0 <= i < s.len() implies #[trigger] spec_is_kanji_numeral(s[i]) by {
            assert(spec_kanji_digit(s[i]) is Some);
        }
    }
    lemma_positional_spelling(s);
}

/// The state after reading `q` from state `st`.
pub open spec fn accumulate_from(st: KanjiAccumulator, q: Seq<char>) -> KanjiAccumulator
    decreases q.len(),
{
    if q.len() == 0 {
        st
    } else {
        accumulate(accumulate_from(st, q.drop_last()), q.last())
    }
}

/// Every amount computed while reading `q` from state `st` fits in a `u64`.
pub open spec fn fits_from(st: KanjiAccumulator, q: Seq<char>) -> bool
    decreases q.len(),
{
    q.len() == 0 || (fits_from(st, q.drop_last()) && accumulate_fits(
        accumulate_from(st, q.drop_last()),
        q.last(),
    ))
}

/// Reading `p + q` is reading `p`, then `q` from where `p` left off.
proof fn lemma_accumulated_split(p: Seq<char>, q: Seq<char>)
    ensures
        accumulated(p + q) == accumulate_from(accumulated(p), q),
        accumulation_fits(p + q) == (accumulation_fits(p) && fits_from(accumulated(p), q)),
    decreases q.len(),
{
    if q.len() == 0 {
        assert(p + q =~= p);
    } else {
        lemma_accumulated_split(p, q.drop_last());
        assert((p + q).drop_last() =~= p + q.drop_last());
        assert((p + q).last() == q.last());
    }
}

/// A unit of ten or more.
pub open spec fn is_kanji_unit(c: char) -> bool {
    spec_kanji_multiplier(c) is Some
}

/// A multiplicative numeral that starts with a unit reads as if 一 stood
/// before it: 十二 reads as 一十二, 万 as 一万.
pub proof fn lemma_leading_unit_reads_as_one(chars: Seq<char>)
    requires
        chars.len() > 0,
        is_kanji_unit(chars[0]),
    ensures
        spec_parse_kanji_multiplicative(chars) == spec_parse_kanji_multiplicative(
            seq!['一'] + chars,
        ),
        multiplicative_fits(chars) == multiplicative_fits(seq!['一'] + chars),
{
    let u = chars[0];
    let rest = chars.subrange(1, chars.len() as int);
    let one = seq![u];
    let two = seq!['一', u];
    assert(chars =~= one + rest);
    assert(seq!['一'] + chars =~= two + rest);
    assert(one.drop_last() =~= Seq::<char>::empty());
    assert(two.drop_last() =~= seq!['一']);
    assert(seq!['一'].drop_last() =~= Seq::<char>::empty());
    let start = KanjiAccumulator { big: 0, total: 0, current: 0 };
    let after_one = KanjiAccumulator { big: 0, total: 0, current: 1 };
    assert(accumulated(Seq::<char>::empty()) == start);
    assert(accumulated(seq!['一']) == after_one) by {
        assert(accumulated(seq!['一']) == accumulate(start, '一'));
    }
    assert(accumulation_fits(seq!['一'])) by {
        assert(accumulation_fits(Seq::<char>::empty()));
        assert(spec_kanji_digit('一') is Some);
        assert(accumulate_fits(start, '一'));
    }
    assert(accumulated(one) == accumulate(start, u));
    assert(accumulated(two) == accumulate(after_one, u));
    assert(u == '十' || u == '百' || u == '千' || u == '万' || u == '億' || u == '兆');
    assert(spec_kanji_digit(u) is None);
    assert(accumulate(start, u) == accumulate(after_one, u));
    assert(accumulate_fits(start, u) && accumulate_fits(after_one, u));
    assert(accumulated(one) == accumulated(two));
    assert(accumulation_fits(one) && accumulation_fits(two));
    lemma_accumulated_split(one, rest);
    lemma_accumulated_split(two, rest);
    assert(chars[0] != '〇');
    assert((seq!['一'] + chars)[0] != '〇');
}

} // verus!
