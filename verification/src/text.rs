//! Text building blocks of the legend: decimal numerals, the width of a text
//! in UTF-8 bytes, prefixes, and the order in which key labels are sorted.

use vstd::prelude::*;
use vstd::string::*;
use vstd::utf8::*;

verus! {

/// `String::push` of the standard library: the character is appended and
/// nothing else changes.
pub assume_specification[ String::push ](s: &mut String, c: char)
    ensures
        final(s)@ == old(s)@.push(c),
;

// ---------------------------------------------------------------------------
// Decimal numerals
// ---------------------------------------------------------------------------

/// The character that stands for the digit `d`.
pub open spec fn digit_char(d: nat) -> char
    recommends
        d < 10,
{
    if d == 0 {
        '0'
    } else if d == 1 {
        '1'
    } else if d == 2 {
        '2'
    } else if d == 3 {
        '3'
    } else if d == 4 {
        '4'
    } else if d == 5 {
        '5'
    } else if d == 6 {
        '6'
    } else if d == 7 {
        '7'
    } else if d == 8 {
        '8'
    } else {
        '9'
    }
}

/// The decimal numeral of `n`: no sign, no leading zero, `"0"` for zero.
pub open spec fn decimal_digits(n: nat) -> Seq<char>
    decreases n,
{
    if n < 10 {
        seq![digit_char(n)]
    } else {
        decimal_digits(n / 10).push(digit_char(n % 10))
    }
}

/// True of the ten ASCII digits.
pub open spec fn is_digit(c: char) -> bool {
    48 <= c as u32 <= 57
}

/// The number that a digit stands for.
pub open spec fn digit_value(c: char) -> nat
    recommends
        is_digit(c),
{
    (c as u32 - 48) as nat
}

/// True of a non-empty text made of ASCII digits only.
pub open spec fn is_numeral(s: Seq<char>) -> bool {
    &&& s.len() > 0
    &&& forall|i: int| 0 <= i < s.len() ==> is_digit(#[trigger] s[i])
}

/// The number that a text of digits denotes, most significant digit first.
pub open spec fn numeral_value(s: Seq<char>) -> nat
    decreases s.len(),
{
    if s.len() == 0 {
        0
    } else {
        numeral_value(s.drop_last()) * 10 + digit_value(s.last())
    }
}

/// What is left of a text once one leading `+` is taken away.
pub open spec fn unsigned_part(s: Seq<char>) -> Seq<char> {
    if s.len() > 0 && s[0] == '+' {
        s.skip(1)
    } else {
        s
    }
}

/// The number that a text denotes as a `usize`: an optional `+`, then at least
/// one digit and nothing else, and a value that fits. `None` for every other
/// text.
pub open spec fn parsed_usize(s: Seq<char>) -> Option<usize> {
    let digits = unsigned_part(s);
    if is_numeral(digits) && numeral_value(digits) <= usize::MAX {
        Some(numeral_value(digits) as usize)
    } else {
        None
    }
}

/// Reading the numeral of `n` gives `n` back.
pub proof fn lemma_decimal_round_trip(n: nat)
    ensures
        is_numeral(decimal_digits(n)),
        numeral_value(decimal_digits(n)) == n,
        decimal_digits(n)[0] != '+',
    decreases n,
{
    if n < 10 {
        let s = decimal_digits(n);
        assert(s.drop_last() =~= Seq::<char>::empty());
        assert(numeral_value(s.drop_last()) == 0);
    } else {
        lemma_decimal_round_trip(n / 10);
        let head = decimal_digits(n / 10);
        let s = decimal_digits(n);
        assert(s.drop_last() =~= head);
        assert(s.last() == digit_char(n % 10));
        assert(s[0] == head[0]);
    }
}

/// The numeral of a `usize` parses back to the same `usize`.
pub proof fn lemma_parse_decimal(n: usize)
    ensures
        parsed_usize(decimal_digits(n as nat)) == Some(n),
{
    lemma_decimal_round_trip(n as nat);
}

/// A text of digits denotes at least what any of its prefixes denotes.
pub proof fn lemma_numeral_prefix(s: Seq<char>, k: int)
    requires
        0 <= k <= s.len(),
    ensures
        numeral_value(s.take(k)) <= numeral_value(s),
    decreases s.len() - k,
{
    if k == s.len() {
        assert(s.take(k) =~= s);
    } else {
        lemma_numeral_prefix(s, k + 1);
        assert(s.take(k + 1).drop_last() =~= s.take(k));
    }
}

fn digit(d: u64) -> (c: char)
    requires
        d < 10,
    ensures
        c == digit_char(d as nat),
{
    if d == 0 {
        '0'
    } else if d == 1 {
        '1'
    } else if d == 2 {
        '2'
    } else if d == 3 {
        '3'
    } else if d == 4 {
        '4'
    } else if d == 5 {
        '5'
    } else if d == 6 {
        '6'
    } else if d == 7 {
        '7'
    } else if d == 8 {
        '8'
    } else {
        '9'
    }
}

/// Writes `n` as a decimal numeral.
pub fn decimal_string(n: u64) -> (s: String)
    ensures
        s@ == decimal_digits(n as nat),
    decreases n,
{
    if n < 10 {
        let mut s = String::new();
        s.push(digit(n));
        s
    } else {
        let mut s = decimal_string(n / 10);
        s.push(digit(n % 10));
        s
    }
}

/// Reads a `usize` from a text, as `parsed_usize` defines it.
pub fn parse_usize(s: &str) -> (r: Option<usize>)
    ensures
        r == parsed_usize(s@),
{
    let n: usize = s.unicode_len();
    let mut i: usize = 0;
    if n > 0 && s.get_char(0) == '+' {
        i = 1;
    }
    let start: usize = i;
    let ghost digits = unsigned_part(s@);
    assert(digits =~= s@.skip(start as int));
    if i == n {
        return None;
    }
    let mut acc: usize = 0;
    while i < n
        invariant
            start <= i <= n,
            n == s@.len(),
            digits == s@.skip(start as int),
            digits == unsigned_part(s@),
            forall|j: int| 0 <= j < i - start ==> is_digit(#[trigger] digits[j]),
            acc == numeral_value(digits.take(i - start)),
        decreases n - i,
    {
        let c = s.get_char(i);
        let v: u32 = c as u32;
        proof {
            assert(digits[i - start] == c);
            assert(digits.take(i - start + 1).drop_last() =~= digits.take(i - start));
            assert(digits.take(i - start + 1).last() == c);
        }
        if v < 48 || v > 57 {
            assert(!is_digit(digits[i - start]));
            return None;
        }
        let d: usize = (v - 48) as usize;
        if acc > (usize::MAX - d) / 10 {
            proof {
                lemma_numeral_prefix(digits, i - start + 1);
                assert(acc * 10 + d > usize::MAX);
                assert(numeral_value(digits.take(i - start + 1)) == acc * 10 + d);
            }
            return None;
        }
        acc = acc * 10 + d;
        i = i + 1;
    }
    assert(digits.take(i - start) =~= digits);
    Some(acc)
}

// ---------------------------------------------------------------------------
// Widths
// ---------------------------------------------------------------------------

/// The number of bytes that one character takes in UTF-8.
pub open spec fn utf8_width(c: char) -> nat {
    if (c as u32) < 0x80 {
        1
    } else if (c as u32) < 0x800 {
        2
    } else if (c as u32) < 0x10000 {
        3
    } else {
        4
    }
}

/// The number of bytes that a text takes in UTF-8.
pub open spec fn text_width(s: Seq<char>) -> nat
    decreases s.len(),
{
    if s.len() == 0 {
        0
    } else {
        utf8_width(s[0]) + text_width(s.drop_first())
    }
}

/// How many leading characters of `s` fit into `budget` bytes.
pub open spec fn fitting_chars(s: Seq<char>, budget: nat) -> nat
    decreases s.len(),
{
    if s.len() == 0 || utf8_width(s[0]) > budget {
        0
    } else {
        1 + fitting_chars(s.drop_first(), (budget - utf8_width(s[0])) as nat)
    }
}

/// The width of a text is the length of its UTF-8 encoding.
pub proof fn lemma_text_width_is_encoded_len(s: Seq<char>)
    ensures
        text_width(s) == encode_utf8(s).len(),
    decreases s.len(),
{
    if s.len() > 0 {
        char_is_scalar(s[0]);
        lemma_text_width_is_encoded_len(s.drop_first());
    }
}

/// Widths add up over concatenation.
pub proof fn lemma_text_width_concat(a: Seq<char>, b: Seq<char>)
    ensures
        text_width(a + b) == text_width(a) + text_width(b),
    decreases a.len(),
{
    if a.len() == 0 {
        assert(a + b =~= b);
    } else {
        assert((a + b).drop_first() =~= a.drop_first() + b);
        lemma_text_width_concat(a.drop_first(), b);
    }
}

/// A text of ASCII characters is as wide as it is long.
pub proof fn lemma_ascii_width(s: Seq<char>)
    requires
        forall|i: int| 0 <= i < s.len() ==> (#[trigger] s[i] as u32) < 0x80,
    ensures
        text_width(s) == s.len(),
    decreases s.len(),
{
    if s.len() > 0 {
        let rest = s.drop_first();
        assert forall|i: int| 0 <= i < rest.len() implies (#[trigger] rest[i] as u32) < 0x80 by {
            assert(rest[i] == s[i + 1]);
        }
        lemma_ascii_width(rest);
    }
}

/// The numeral of a number below a thousand has at most three digits, and a
/// numeral is as wide as it is long.
pub proof fn lemma_decimal_width(n: nat)
    ensures
        text_width(decimal_digits(n)) == decimal_digits(n).len(),
        n < 1000 ==> decimal_digits(n).len() <= 3,
{
    lemma_decimal_round_trip(n);
    lemma_ascii_width(decimal_digits(n));
    reveal_with_fuel(decimal_digits, 3);
}

/// What `fitting_chars` counts: a prefix that stays within the budget, and
/// the longest one, since the next character would exceed it.
pub proof fn lemma_fitting_chars(s: Seq<char>, budget: nat)
    ensures
        fitting_chars(s, budget) <= s.len(),
        text_width(s.take(fitting_chars(s, budget) as int)) <= budget,
        fitting_chars(s, budget) < s.len() ==> text_width(
            s.take(fitting_chars(s, budget) as int + 1),
        ) > budget,
    decreases s.len(),
{
    if s.len() == 0 {
        assert(s.take(0) =~= Seq::<char>::empty());
    } else if utf8_width(s[0]) > budget {
        assert(s.take(0) =~= Seq::<char>::empty());
        assert(s.take(1).drop_first() =~= Seq::<char>::empty());
    } else {
        let rest = s.drop_first();
        let left = (budget - utf8_width(s[0])) as nat;
        lemma_fitting_chars(rest, left);
        let k = fitting_chars(rest, left) as int;
        assert(s.take(k + 1).drop_first() =~= rest.take(k));
        if k < rest.len() {
            assert(s.take(k + 2).drop_first() =~= rest.take(k + 1));
        }
    }
}

/// The width of a text in UTF-8 bytes.
pub fn byte_width(s: &str) -> (w: usize)
    ensures
        w == text_width(s@),
{
    proof {
        lemma_text_width_is_encoded_len(s@);
    }
    s.as_bytes().len()
}

fn char_width(c: char) -> (w: usize)
    ensures
        w == utf8_width(c),
{
    let v: u32 = c as u32;
    if v < 0x80 {
        1
    } else if v < 0x800 {
        2
    } else if v < 0x10000 {
        3
    } else {
        4
    }
}

/// The longest prefix of `s`, in whole characters, that takes at most `budget`
/// bytes.
pub fn fitting_prefix(s: &str, budget: usize) -> (p: String)
    ensures
        p@ == s@.take(fitting_chars(s@, budget as nat) as int),
{
    let n: usize = s.unicode_len();
    let mut i: usize = 0;
    let mut left: usize = budget;
    assert(s@.skip(0) =~= s@);
    loop
        invariant_except_break
            fitting_chars(s@, budget as nat) == i + fitting_chars(s@.skip(i as int), left as nat),
        invariant
            i <= n,
            n == s@.len(),
            left <= budget,
        ensures
            fitting_chars(s@, budget as nat) == i,
        decreases n - i,
    {
        if i == n {
            break;
        }
        let w: usize = char_width(s.get_char(i));
        assert(s@.skip(i as int)[0] == s@[i as int]);
        if w > left {
            break;
        }
        assert(s@.skip(i as int).drop_first() =~= s@.skip(i + 1));
        left = left - w;
        i = i + 1;
    }
    String::from_str(s.substring_char(0, i))
}

// ---------------------------------------------------------------------------
// Prefixes and order
// ---------------------------------------------------------------------------

/// True when `s` begins with `p`.
pub open spec fn has_prefix(s: Seq<char>, p: Seq<char>) -> bool {
    p.len() <= s.len() && s.take(p.len() as int) == p
}

/// Tells whether `s` begins with `p`.
pub fn starts_with(s: &str, p: &str) -> (r: bool)
    ensures
        r == has_prefix(s@, p@),
{
    let n: usize = s.unicode_len();
    let m: usize = p.unicode_len();
    if m > n {
        return false;
    }
    let mut i: usize = 0;
    while i < m
        invariant
            i <= m <= n,
            n == s@.len(),
            m == p@.len(),
            s@.take(i as int) == p@.take(i as int),
        decreases m - i,
    {
        if s.get_char(i) != p.get_char(i) {
            assert(s@.take(m as int)[i as int] != p@[i as int]);
            return false;
        }
        assert(s@.take(i + 1) =~= s@.take(i as int).push(s@[i as int]));
        assert(p@.take(i + 1) =~= p@.take(i as int).push(p@[i as int]));
        i = i + 1;
    }
    assert(p@.take(m as int) =~= p@);
    true
}

/// The order of labels: character by character by code point, a proper prefix
/// before the longer text. It is the order of the UTF-8 encodings taken byte
/// by byte.
pub open spec fn text_le(a: Seq<char>, b: Seq<char>) -> bool
    decreases a.len(),
{
    if a.len() == 0 {
        true
    } else if b.len() == 0 {
        false
    } else if a[0] != b[0] {
        (a[0] as u32) < (b[0] as u32)
    } else {
        text_le(a.drop_first(), b.drop_first())
    }
}

/// Every text is at most itself.
pub proof fn lemma_text_le_reflexive(a: Seq<char>)
    ensures
        text_le(a, a),
    decreases a.len(),
{
    if a.len() > 0 {
        lemma_text_le_reflexive(a.drop_first());
    }
}

/// Of two texts one is at most the other.
pub proof fn lemma_text_le_total(a: Seq<char>, b: Seq<char>)
    ensures
        text_le(a, b) || text_le(b, a),
    decreases a.len(),
{
    if a.len() > 0 && b.len() > 0 {
        if a[0] == b[0] {
            lemma_text_le_total(a.drop_first(), b.drop_first());
        } else {
            char_u32_cast(a[0], a[0] as u32);
            char_u32_cast(b[0], b[0] as u32);
        }
    }
}

/// The order of labels is transitive.
pub proof fn lemma_text_le_transitive(a: Seq<char>, b: Seq<char>, c: Seq<char>)
    requires
        text_le(a, b),
        text_le(b, c),
    ensures
        text_le(a, c),
    decreases a.len(),
{
    if a.len() > 0 && b.len() > 0 && c.len() > 0 && a[0] == b[0] && b[0] == c[0] {
        lemma_text_le_transitive(a.drop_first(), b.drop_first(), c.drop_first());
    }
}

/// Two texts that are each at most the other are the same text.
pub proof fn lemma_text_le_antisymmetric(a: Seq<char>, b: Seq<char>)
    requires
        text_le(a, b),
        text_le(b, a),
    ensures
        a == b,
    decreases a.len(),
{
    if a.len() == 0 || b.len() == 0 {
        assert(a =~= b);
    } else {
        lemma_text_le_antisymmetric(a.drop_first(), b.drop_first());
        assert(a =~= seq![a[0]] + a.drop_first());
        assert(b =~= seq![b[0]] + b.drop_first());
    }
}

/// Tells whether `a` comes at or before `b` in the order of labels.
pub fn text_at_most(a: &str, b: &str) -> (r: bool)
    ensures
        r == text_le(a@, b@),
{
    let n: usize = a.unicode_len();
    let m: usize = b.unicode_len();
    let mut i: usize = 0;
    assert(a@.skip(0) =~= a@);
    assert(b@.skip(0) =~= b@);
    loop
        invariant
            i <= n,
            i <= m,
            n == a@.len(),
            m == b@.len(),
            text_le(a@, b@) == text_le(a@.skip(i as int), b@.skip(i as int)),
        decreases n - i,
    {
        if i == n {
            return true;
        }
        if i == m {
            return false;
        }
        let x: u32 = a.get_char(i) as u32;
        let y: u32 = b.get_char(i) as u32;
        assert(a@.skip(i as int)[0] == a@[i as int]);
        assert(b@.skip(i as int)[0] == b@[i as int]);
        if x != y {
            return x < y;
        }
        assert(a@.skip(i as int).drop_first() =~= a@.skip(i + 1));
        assert(b@.skip(i as int).drop_first() =~= b@.skip(i + 1));
        i = i + 1;
    }
}

} // verus!
