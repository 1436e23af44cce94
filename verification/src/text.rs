//! Text helpers shared by the rest of the crate: character access, search,
//! splitting, and decimal numerals.

use vstd::prelude::*;
use vstd::std_specs::iter::IteratorSpec;

verus! {

/// The characters of a string slice, in order.
pub fn chars_of(s: &str) -> (v: Vec<char>)
    ensures
        v@ == s@,
{
    let mut v: Vec<char> = Vec::new();
    let mut it = s.chars();
    let ghost mut done: int = 0;
    loop
        invariant
            0 <= done <= s@.len(),
            v@ == s@.subrange(0, done),
            it.remaining() == s@.subrange(done, s@.len() as int),
            it.obeys_prophetic_iter_laws(),
        ensures
            done == s@.len(),
        decreases s@.len() - done,
    {
        match it.next() {
            Some(c) => {
                v.push(c);
                proof {
                    done = done + 1;
                }
            },
            None => {
                assert(done == s@.len());
                break ;
            },
        }
    }
    v
}

/// The text of `s` between two character positions, as an owned string.
pub fn slice_of(s: &str, from: usize, to: usize) -> (r: String)
    requires
        from <= to <= s@.len(),
    ensures
        r@ == s@.subrange(from as int, to as int),
{
    String::from_str(s.substring_char(from, to))
}

/// Whether `needle` stands in `hay` starting at position `at`.
pub open spec fn occurs_at(hay: Seq<char>, needle: Seq<char>, at: int) -> bool {
    &&& 0 <= at
    &&& at + needle.len() <= hay.len()
    &&& hay.subrange(at, at + needle.len()) == needle
}

/// What follows the first occurrence of `needle` in `hay`, if it occurs.
pub open spec fn after_first(hay: Seq<char>, needle: Seq<char>) -> Option<Seq<char>>
    decreases hay.len(),
{
    if occurs_at(hay, needle, 0) {
        Some(hay.subrange(needle.len() as int, hay.len() as int))
    } else if hay.len() == 0 {
        None
    } else {
        after_first(hay.drop_first(), needle)
    }
}

/// Whether `needle` stands in `hay` at position `at`, decided by comparing
/// character by character.
pub fn matches_at(hay: &Vec<char>, needle: &Vec<char>, at: usize) -> (r: bool)
    requires
        at <= hay.len(),
    ensures
        r == occurs_at(hay@, needle@, at as int),
{
    if needle.len() > hay.len() - at {
        return false;
    }
    let mut k: usize = 0;
    while k < needle.len()
        invariant
            at + needle.len() <= hay.len(),
            k <= needle.len(),
            forall|j: int| 0 <= j < k ==> hay@[at + j] == needle@[j],
        decreases needle.len() - k,
    {
        if hay[at + k] != needle[k] {
            assert(hay@.subrange(at as int, at + needle.len())[k as int] != needle@[k as int]);
            return false;
        }
        k += 1;
    }
    assert(hay@.subrange(at as int, at + needle.len()) =~= needle@);
    true
}

/// The position just past the first occurrence of `needle` in `hay`.
pub fn find_after(hay: &Vec<char>, needle: &Vec<char>) -> (r: Option<usize>)
    ensures
        match r {
            Some(p) => p <= hay.len() && after_first(hay@, needle@) == Some(
                hay@.subrange(p as int, hay.len() as int),
            ),
            None => after_first(hay@, needle@) is None,
        },
{
    let mut i: usize = 0;
    assert(hay@.subrange(0, hay.len() as int) =~= hay@);
    loop
        invariant
            i <= hay.len(),
            after_first(hay@, needle@) == after_first(
                hay@.subrange(i as int, hay.len() as int),
                needle@,
            ),
        decreases hay.len() - i,
    {
        let ghost rest = hay@.subrange(i as int, hay.len() as int);
        if matches_at(hay, needle, i) {
            proof {
                assert(rest.subrange(0, needle.len() as int) =~= hay@.subrange(
                    i as int,
                    i + needle.len(),
                ));
                assert(rest.subrange(needle.len() as int, rest.len() as int) =~= hay@.subrange(
                    i + needle.len(),
                    hay.len() as int,
                ));
            }
            return Some(i + needle.len());
        }
        proof {
            if needle.len() <= rest.len() {
                assert(rest.subrange(0, needle.len() as int) =~= hay@.subrange(
                    i as int,
                    i + needle.len(),
                ));
            }
            assert(!occurs_at(rest, needle@, 0));
        }
        if i == hay.len() {
            return None;
        }
        proof {
            assert(rest.drop_first() =~= hay@.subrange(i + 1, hay.len() as int));
        }
        i += 1;
    }
}

/// The pieces of `s` from position `from` on, split at the occurrences
/// of `sep` at or after position `at`; there is none between `from` and
/// `at`.
pub open spec fn split_from(s: Seq<char>, sep: char, from: int, at: int) -> Seq<Seq<char>>
    decreases s.len() - at,
{
    if at >= s.len() {
        seq![s.subrange(from, s.len() as int)]
    } else if s[at] == sep {
        seq![s.subrange(from, at)] + split_from(s, sep, at + 1, at + 1)
    } else {
        split_from(s, sep, from, at + 1)
    }
}

/// The pieces of `s` between occurrences of `sep`. A text without the
/// separator is a single piece; the pieces never hold the separator.
pub open spec fn split_text(s: Seq<char>, sep: char) -> Seq<Seq<char>> {
    split_from(s, sep, 0, 0)
}

/// The views of a vector of strings.
pub open spec fn texts_of(v: Seq<String>) -> Seq<Seq<char>> {
    v.map_values(|s: String| s@)
}

/// Splits `s` at every occurrence of `sep`.
pub fn split(s: &str, sep: char) -> (pieces: Vec<String>)
    ensures
        texts_of(pieces@) == split_text(s@, sep),
{
    let cs = chars_of(s);
    let mut pieces: Vec<String> = Vec::new();
    let mut from: usize = 0;
    let mut at: usize = 0;
    while at < cs.len()
        invariant
            cs@ == s@,
            from <= at <= cs.len(),
            split_text(s@, sep) == texts_of(pieces@) + split_from(s@, sep, from as int, at as int),
        decreases cs.len() - at,
    {
        if cs[at] == sep {
            let piece = slice_of(s, from, at);
            let ghost before = pieces@;
            pieces.push(piece);
            proof {
                assert(texts_of(pieces@) =~= texts_of(before) + seq![s@.subrange(
                    from as int,
                    at as int,
                )]);
                assert(texts_of(before) + (seq![s@.subrange(from as int, at as int)] + split_from(
                    s@,
                    sep,
                    at + 1,
                    at + 1,
                )) =~= texts_of(pieces@) + split_from(s@, sep, at + 1, at + 1));
            }
            from = at + 1;
        }
        at += 1;
    }
    let last = slice_of(s, from, cs.len());
    let ghost before = pieces@;
    pieces.push(last);
    proof {
        assert(texts_of(pieces@) =~= texts_of(before) + seq![s@.subrange(
            from as int,
            s@.len() as int,
        )]);
    }
    pieces
}

/// Whether `c` is one of the ten decimal digits.
pub open spec fn is_digit(c: char) -> bool {
    '0' <= c && c <= '9'
}

/// The number that a decimal digit stands for.
pub open spec fn digit_value(c: char) -> nat {
    (c as u32 - '0' as u32) as nat
}

/// Whether every character of `s` is a decimal digit.
pub open spec fn all_digits(s: Seq<char>) -> bool {
    forall|i: int| 0 <= i < s.len() ==> is_digit(#[trigger] s[i])
}

/// The number written by a sequence of decimal digits, most significant
/// first. The empty sequence writes zero.
pub open spec fn digits_value(s: Seq<char>) -> nat
    decreases s.len(),
{
    if s.len() == 0 {
        0
    } else {
        digits_value(s.drop_last()) * 10 + digit_value(s.last())
    }
}

/// The digit character for a number below ten.
pub open spec fn digit_char(d: nat) -> char {
    if d == 0 {
        '0'
    } else if d == 1 {
        '1'
    } else if d == 2 {
        '2'
    } else if d == 3 {
        '3'
    } else if d == 4 {
        '4'
    } else if d == 5 {
        '5'
    } else if d == 6 {
        '6'
    } else if d == 7 {
        '7'
    } else if d == 8 {
        '8'
    } else {
        '9'
    }
}

/// The decimal numeral of `n`, without sign or leading zeros.
pub open spec fn decimal_text(n: nat) -> Seq<char>
    decreases n,
{
    if n < 10 {
        seq![digit_char(n)]
    } else {
        decimal_text(n / 10).push(digit_char(n % 10))
    }
}

/// The number that a character stands for, if it is a decimal digit.
pub fn digit_of(c: char) -> (r: Option<u8>)
    ensures
        r is Some == is_digit(c),
        r is Some ==> r.unwrap() as nat == digit_value(c) && r.unwrap() < 10,
{
    if c >= '0' && c <= '9' {
        let d: u32 = (c as u32) - ('0' as u32);
        Some(d as u8)
    } else {
        None
    }
}

/// The one-character text of a digit below ten.
pub fn digit_str(d: u8) -> (s: &'static str)
    requires
        d < 10,
    ensures
        s@ == seq![digit_char(d as nat)],
{
    proof {
        reveal_strlit("0");
        reveal_strlit("1");
        reveal_strlit("2");
        reveal_strlit("3");
        reveal_strlit("4");
        reveal_strlit("5");
        reveal_strlit("6");
        reveal_strlit("7");
        reveal_strlit("8");
        reveal_strlit("9");
    }
    let s = if d == 0 {
        "0"
    } else if d == 1 {
        "1"
    } else if d == 2 {
        "2"
    } else if d == 3 {
        "3"
    } else if d == 4 {
        "4"
    } else if d == 5 {
        "5"
    } else if d == 6 {
        "6"
    } else if d == 7 {
        "7"
    } else if d == 8 {
        "8"
    } else {
        "9"
    };
    assert(s@ =~= seq![digit_char(d as nat)]);
    s
}

/// Writes `n` as a decimal numeral.
pub fn u64_to_string(n: u64) -> (r: String)
    ensures
        r@ == decimal_text(n as nat),
    decreases n,
{
    if n < 10 {
        String::from_str(digit_str(n as u8))
    } else {
        let mut r = u64_to_string(n / 10);
        r.append(digit_str((n % 10) as u8));
        assert(r@ =~= decimal_text((n / 10) as nat).push(digit_char((n % 10) as nat)));
        r
    }
}

/// A numeral never writes less than one of its prefixes.
pub proof fn lemma_digits_prefix(s: Seq<char>, k: int)
    requires
        0 <= k <= s.len(),
    ensures
        digits_value(s.subrange(0, k)) <= digits_value(s),
    decreases s.len(),
{
    if k == s.len() {
        assert(s.subrange(0, k) =~= s);
    } else {
        lemma_digits_prefix(s.drop_last(), k);
        assert(s.drop_last().subrange(0, k) =~= s.subrange(0, k));
    }
}

/// The number written by a text, when the text is not empty, all its
/// characters are digits, and the number fits in 64 bits.
pub open spec fn digits_u64(s: Seq<char>) -> Option<u64> {
    if s.len() > 0 && all_digits(s) && digits_value(s) <= u64::MAX {
        Some(digits_value(s) as u64)
    } else {
        None
    }
}

/// Reads the digits of `cs` between two positions as a number.
pub fn parse_digits(cs: &Vec<char>, from: usize, to: usize) -> (r: Option<u64>)
    requires
        from <= to <= cs.len(),
    ensures
        r == digits_u64(cs@.subrange(from as int, to as int)),
{
    let ghost whole = cs@.subrange(from as int, to as int);
    if from == to {
        return None;
    }
    let mut acc: u64 = 0;
    let mut i: usize = from;
    assert(cs@.subrange(from as int, from as int) =~= Seq::<char>::empty());
    while i < to
        invariant
            from <= i <= to <= cs.len(),
            whole == cs@.subrange(from as int, to as int),
            acc == digits_value(cs@.subrange(from as int, i as int)),
            all_digits(cs@.subrange(from as int, i as int)),
        decreases to - i,
    {
        let ghost head = cs@.subrange(from as int, i as int);
        let ghost next = cs@.subrange(from as int, i + 1);
        proof {
            assert(next.drop_last() =~= head);
            assert(next.last() == cs@[i as int]);
            assert(whole.subrange(0, i + 1 - from) =~= next);
            lemma_digits_prefix(whole, i + 1 - from);
        }
        match digit_of(cs[i]) {
            None => {
                assert(whole[i - from] == cs@[i as int]);
                return None;
            },
            Some(d) => {
                if acc > (u64::MAX - d as u64) / 10 {
                    return None;
                }
                acc = acc * 10 + d as u64;
                assert(all_digits(next)) by {
                    assert forall|j: int| 0 <= j < next.len() implies is_digit(
                        #[trigger] next[j],
                    ) by {
                        if j < head.len() {
                            assert(next[j] == head[j]);
                        }
                    }
                }
            },
        }
        i += 1;
    }
    Some(acc)
}

/// The digits of an unsigned numeral: the text after an optional leading
/// plus sign.
pub open spec fn unsigned_body(s: Seq<char>) -> Seq<char> {
    if s.len() > 0 && s[0] == '+' {
        s.subrange(1, s.len() as int)
    } else {
        s
    }
}

/// The number that `s` writes as an unsigned decimal numeral of at most
/// 64 bits: an optional plus sign, then one or more digits.
pub open spec fn parse_u64_spec(s: Seq<char>) -> Option<u64> {
    digits_u64(unsigned_body(s))
}

/// Reads an unsigned decimal numeral.
pub fn parse_u64(s: &str) -> (r: Option<u64>)
    ensures
        r == parse_u64_spec(s@),
{
    let cs = chars_of(s);
    let from: usize = if cs.len() > 0 && cs[0] == '+' {
        1
    } else {
        0
    };
    assert(cs@.subrange(0, cs.len() as int) =~= cs@);
    parse_digits(&cs, from, cs.len())
}

} // verus!
