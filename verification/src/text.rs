//! Text: what the library reads from a string and how it builds one.
//!
//! A string is seen as the sequence of its characters; sizes that the wire
//! format or a file bounds are counted in UTF-8 bytes.
use vstd::prelude::*;

verus! {

/// Outside function: `String::push`, of which the standard library says that
/// it appends the given character to the end of the string.
pub assume_specification[ String::push ](s: &mut String, c: char)
    ensures
        final(s)@ == old(s)@.push(c),
;

/// The error of a fallible function with its message seen as characters.
pub open spec fn outcome<T>(r: Result<T, String>) -> Result<T, Seq<char>> {
    match r {
        Ok(value) => Ok(value),
        Err(message) => Err(message@),
    }
}

/// The characters of an optional string.
pub open spec fn opt_view(s: Option<String>) -> Option<Seq<char>> {
    match s {
        Some(text) => Some(text@),
        None => None,
    }
}

/// The characters of each string of a list.
pub open spec fn list_view(s: Seq<String>) -> Seq<Seq<char>> {
    s.map_values(|text: String| text@)
}

/// Length of a string in UTF-8 bytes.
pub open spec fn byte_len(s: Seq<char>) -> nat {
    vstd::utf8::encode_utf8(s).len()
}

pub open spec fn is_digit(c: char) -> bool {
    '0' <= c && c <= '9'
}

pub open spec fn is_ascii_lower(c: char) -> bool {
    'a' <= c && c <= 'z'
}

pub open spec fn is_ascii_upper(c: char) -> bool {
    'A' <= c && c <= 'Z'
}

pub open spec fn is_alphanumeric(c: char) -> bool {
    is_digit(c) || is_ascii_lower(c) || is_ascii_upper(c)
}

pub open spec fn is_hex_digit(c: char) -> bool {
    is_digit(c) || ('a' <= c && c <= 'f') || ('A' <= c && c <= 'F')
}

/// The control characters of Unicode (category Cc).
pub open spec fn is_control(c: char) -> bool {
    (c as u32) < 0x20 || (0x7f <= (c as u32) && (c as u32) <= 0x9f)
}

/// The characters with the Unicode property White_Space.
pub open spec fn is_white_space(c: char) -> bool {
    let n = c as u32;
    ||| 0x09 <= n <= 0x0d
    ||| n == 0x20
    ||| n == 0x85
    ||| n == 0xa0
    ||| n == 0x1680
    ||| 0x2000 <= n <= 0x200a
    ||| n == 0x2028
    ||| n == 0x2029
    ||| n == 0x202f
    ||| n == 0x205f
    ||| n == 0x3000
}

/// An upper-case ASCII letter becomes its lower-case one; nothing else changes.
pub open spec fn lower_char(c: char) -> char {
    if is_ascii_upper(c) {
        ((c as u32) + 32) as char
    } else {
        c
    }
}

pub open spec fn lower(s: Seq<char>) -> Seq<char> {
    s.map_values(|c: char| lower_char(c))
}

pub open spec fn replaced(s: Seq<char>, from: char, to: char) -> Seq<char> {
    s.map_values(|c: char| if c == from { to } else { c })
}

/// `part` stands in `s` at `at`.
pub open spec fn occurs_at(s: Seq<char>, part: Seq<char>, at: int) -> bool {
    &&& 0 <= at
    &&& at + part.len() <= s.len()
    &&& s.subrange(at, at + part.len()) == part
}

pub open spec fn has_part(s: Seq<char>, part: Seq<char>) -> bool {
    exists|at: int| occurs_at(s, part, at)
}

pub open spec fn has_prefix(s: Seq<char>, part: Seq<char>) -> bool {
    occurs_at(s, part, 0)
}

pub open spec fn has_suffix(s: Seq<char>, part: Seq<char>) -> bool {
    occurs_at(s, part, s.len() - part.len())
}

/// Every character of `s` satisfies `p`.
pub open spec fn each(s: Seq<char>, p: spec_fn(char) -> bool) -> bool {
    forall|i: int| 0 <= i < s.len() ==> p(#[trigger] s[i])
}

/// `s` without the characters at its front that satisfy `p`.
pub open spec fn without_front(s: Seq<char>, p: spec_fn(char) -> bool) -> Seq<char>
    decreases s.len(),
{
    if s.len() > 0 && p(s[0]) {
        without_front(s.drop_first(), p)
    } else {
        s
    }
}

/// `s` without the characters at its end that satisfy `p`.
pub open spec fn without_back(s: Seq<char>, p: spec_fn(char) -> bool) -> Seq<char>
    decreases s.len(),
{
    if s.len() > 0 && p(s.last()) {
        without_back(s.drop_last(), p)
    } else {
        s
    }
}

/// `s` without white space at either end.
pub open spec fn trimmed(s: Seq<char>) -> Seq<char> {
    let p = |c: char| is_white_space(c);
    without_back(without_front(s, p), p)
}

/// A version tag without the letters `v` at its front.
pub open spec fn untagged(s: Seq<char>) -> Seq<char> {
    without_front(s, |c: char| c == 'v')
}

/// The place of the first `c` in `s`, or the length of `s`.
pub open spec fn first_at(s: Seq<char>, c: char) -> int
    decreases s.len(),
{
    if s.len() == 0 {
        0
    } else if s[0] == c {
        0
    } else {
        1 + first_at(s.drop_first(), c)
    }
}

/// The digit that stands for `d`.
pub open spec fn digit_char(d: nat) -> char {
    (48 + d) as char
}

/// The decimal numeral of `n`.
pub open spec fn decimal(n: nat) -> Seq<char>
    decreases n,
{
    if n < 10 {
        seq![digit_char(n)]
    } else {
        decimal(n / 10).push(digit_char(n % 10))
    }
}

/// The number that a sequence of digits denotes.
pub open spec fn digits_value(s: Seq<char>) -> nat
    decreases s.len(),
{
    if s.len() == 0 {
        0
    } else {
        digits_value(s.drop_last()) * 10 + ((s.last() as u32) - 48) as nat
    }
}

pub open spec fn all_digits(s: Seq<char>) -> bool {
    each(s, |c: char| is_digit(c))
}

/// A numeral may start with one plus sign.
pub open spec fn unsigned_part(s: Seq<char>) -> Seq<char> {
    if s.len() > 0 && s[0] == '+' {
        s.drop_first()
    } else {
        s
    }
}

/// The unsigned integer that `s` denotes: an optional plus sign and digits,
/// with a value that 64 bits hold.
pub open spec fn numeral(s: Seq<char>) -> Option<u64> {
    let digits = unsigned_part(s);
    if digits.len() > 0 && all_digits(digits) && digits_value(digits) <= u64::MAX {
        Some(digits_value(digits) as u64)
    } else {
        None
    }
}

/// The parts one after another with `separator` between each two.
pub open spec fn joined(parts: Seq<Seq<char>>, separator: Seq<char>) -> Seq<char>
    decreases parts.len(),
{
    if parts.len() == 0 {
        Seq::empty()
    } else if parts.len() == 1 {
        parts[0]
    } else {
        joined(parts.drop_last(), separator) + separator + parts.last()
    }
}

pub fn byte_count(s: &str) -> (n: usize)
    ensures
        n == byte_len(s@),
{
    s.as_bytes().len()
}

/// Whether two strings hold the same characters.
pub fn same(a: &str, b: &str) -> (r: bool)
    ensures
        r == (a@ == b@),
{
    let left = a.as_bytes();
    let right = b.as_bytes();
    if left.len() != right.len() {
        return false;
    }
    let mut i: usize = 0;
    while i < left.len()
        invariant
            i <= left.len(),
            left.len() == right.len(),
            left@ == vstd::utf8::encode_utf8(a@),
            right@ == vstd::utf8::encode_utf8(b@),
            left@.take(i as int) == right@.take(i as int),
        decreases left.len() - i,
    {
        if left[i] != right[i] {
            assert(left@ != right@) by {
                assert(left@[i as int] != right@[i as int]);
            }
            return false;
        }
        assert(left@.take(i + 1) == left@.take(i as int).push(left@[i as int]));
        assert(right@.take(i + 1) == right@.take(i as int).push(right@[i as int]));
        i += 1;
    }
    proof {
        assert(left@.take(i as int) == left@);
        assert(right@.take(i as int) == right@);
        vstd::utf8::encode_utf8_decode_utf8(a@);
        vstd::utf8::encode_utf8_decode_utf8(b@);
    }
    true
}

/// The characters of a string.
pub fn chars_of(s: &str) -> (r: Vec<char>)
    ensures
        r@ == s@,
{
    let mut out: Vec<char> = Vec::new();
    for c in it: s.chars()
        invariant
            out@ == s@.take(it.index() as int),
            it.seq() == s@,
    {
        out.push(c);
    }
    out
}

/// The string of the characters from `from` up to `to`.
pub fn text_of(chars: &Vec<char>, from: usize, to: usize) -> (r: String)
    requires
        from <= to <= chars.len(),
    ensures
        r@ == chars@.subrange(from as int, to as int),
{
    let mut out = String::new();
    let mut i: usize = from;
    while i < to
        invariant
            from <= i <= to <= chars.len(),
            out@ == chars@.subrange(from as int, i as int),
        decreases to - i,
    {
        out.push(chars[i]);
        i += 1;
    }
    out
}

pub fn digit(c: char) -> (r: bool)
    ensures
        r == is_digit(c),
{
    '0' <= c && c <= '9'
}

pub fn alphanumeric(c: char) -> (r: bool)
    ensures
        r == is_alphanumeric(c),
{
    digit(c) || ('a' <= c && c <= 'z') || ('A' <= c && c <= 'Z')
}

pub fn hex_digit(c: char) -> (r: bool)
    ensures
        r == is_hex_digit(c),
{
    digit(c) || ('a' <= c && c <= 'f') || ('A' <= c && c <= 'F')
}

pub fn control(c: char) -> (r: bool)
    ensures
        r == is_control(c),
{
    let n: u32 = c as u32;
    n < 0x20 || (0x7f <= n && n <= 0x9f)
}

pub fn white_space(c: char) -> (r: bool)
    ensures
        r == is_white_space(c),
{
    let n: u32 = c as u32;
    (0x09 <= n && n <= 0x0d) || n == 0x20 || n == 0x85 || n == 0xa0 || n == 0x1680 || (0x2000 <= n
        && n <= 0x200a) || n == 0x2028 || n == 0x2029 || n == 0x202f || n == 0x205f || n == 0x3000
}

pub fn lowered(c: char) -> (r: char)
    ensures
        r == lower_char(c),
{
    if 'A' <= c && c <= 'Z' {
        ((c as u8) + 32) as char
    } else {
        c
    }
}

pub fn lower_text(s: &str) -> (r: String)
    ensures
        r@ == lower(s@),
{
    let mut out = String::new();
    for c in it: s.chars()
        invariant
            out@ == lower(s@.take(it.index() as int)),
            it.seq() == s@,
    {
        let low = lowered(c);
        proof {
            assert(s@.take(it.index() + 1) == s@.take(it.index() as int).push(c));
            assert(lower(s@.take(it.index() + 1)) == lower(s@.take(it.index() as int)).push(low));
        }
        out.push(low);
    }
    assert(s@.take(s@.len() as int) == s@);
    out
}

pub fn replace_char(s: &str, from: char, to: char) -> (r: String)
    ensures
        r@ == replaced(s@, from, to),
{
    let mut out = String::new();
    for c in it: s.chars()
        invariant
            out@ == replaced(s@.take(it.index() as int), from, to),
            it.seq() == s@,
    {
        let put = if c == from {
            to
        } else {
            c
        };
        proof {
            assert(s@.take(it.index() + 1) == s@.take(it.index() as int).push(c));
            assert(replaced(s@.take(it.index() + 1), from, to) == replaced(
                s@.take(it.index() as int),
                from,
                to,
            ).push(put));
        }
        out.push(put);
    }
    assert(s@.take(s@.len() as int) == s@);
    out
}

/// Whether `part` stands in `s` at `at`.
pub fn stands_at(s: &Vec<char>, part: &Vec<char>, at: usize) -> (r: bool)
    ensures
        r == occurs_at(s@, part@, at as int),
{
    if at > s.len() || part.len() > s.len() - at {
        return false;
    }
    let mut i: usize = 0;
    while i < part.len()
        invariant
            i <= part.len(),
            at + part.len() <= s.len(),
            forall|k: int| 0 <= k < i ==> s@[at + k] == part@[k],
        decreases part.len() - i,
    {
        if s[at + i] != part[i] {
            assert(s@.subrange(at as int, at + part@.len())[i as int] == s@[at + i]);
            return false;
        }
        i += 1;
    }
    assert(s@.subrange(at as int, at + part@.len()) =~= part@);
    true
}

pub fn starts_with(s: &str, part: &str) -> (r: bool)
    ensures
        r == has_prefix(s@, part@),
{
    stands_at(&chars_of(s), &chars_of(part), 0)
}

pub fn ends_with(s: &str, part: &str) -> (r: bool)
    ensures
        r == has_suffix(s@, part@),
{
    let whole = chars_of(s);
    let end = chars_of(part);
    if end.len() > whole.len() {
        return false;
    }
    stands_at(&whole, &end, whole.len() - end.len())
}

pub fn contains_text(s: &str, part: &str) -> (r: bool)
    ensures
        r == has_part(s@, part@),
{
    let whole = chars_of(s);
    let piece = chars_of(part);
    if piece.len() > whole.len() {
        return false;
    }
    if piece.len() == 0 {
        assert(s@.subrange(0, 0) =~= part@);
        assert(occurs_at(s@, part@, 0));
        return true;
    }
    let mut at: usize = 0;
    while at <= whole.len() - piece.len()
        invariant
            piece@ == part@,
            whole@ == s@,
            0 < piece.len() <= whole.len(),
            at <= whole.len() - piece.len() + 1,
            forall|k: int| 0 <= k < at ==> !occurs_at(s@, part@, k),
        decreases whole.len() - piece.len() + 1 - at,
    {
        if stands_at(&whole, &piece, at) {
            return true;
        }
        at += 1;
    }
    false
}

pub fn contains_char(s: &str, c: char) -> (r: bool)
    ensures
        r == s@.contains(c),
{
    for x in it: s.chars()
        invariant
            it.seq() == s@,
            forall|k: int| 0 <= k < it.index() ==> s@[k] != c,
    {
        if x == c {
            return true;
        }
    }
    false
}

proof fn lemma_front_step(s: Seq<char>, i: int, p: spec_fn(char) -> bool)
    requires
        0 <= i < s.len(),
    ensures
        p(s[i]) ==> without_front(s.skip(i), p) == without_front(s.skip(i + 1), p),
        !p(s[i]) ==> without_front(s.skip(i), p) == s.skip(i),
{
    assert(s.skip(i).drop_first() == s.skip(i + 1));
}

proof fn lemma_back_step(s: Seq<char>, from: int, i: int, p: spec_fn(char) -> bool)
    requires
        0 <= from < i <= s.len(),
    ensures
        p(s[i - 1]) ==> without_back(s.subrange(from, i), p) == without_back(
            s.subrange(from, i - 1),
            p,
        ),
        !p(s[i - 1]) ==> without_back(s.subrange(from, i), p) == s.subrange(from, i),
{
    assert(s.subrange(from, i).drop_last() == s.subrange(from, i - 1));
}

/// `s` without white space at either end.
pub fn trim(s: &str) -> (r: String)
    ensures
        r@ == trimmed(s@),
{
    let chars = chars_of(s);
    let ghost p = |c: char| is_white_space(c);
    let mut from: usize = 0;
    assert(chars@.skip(0) == chars@);
    while from < chars.len() && white_space(chars[from])
        invariant
            p == (|c: char| is_white_space(c)),
            from <= chars.len(),
            without_front(chars@.skip(from as int), p) == without_front(chars@, p),
        decreases chars.len() - from,
    {
        proof {
            lemma_front_step(chars@, from as int, p);
        }
        from += 1;
    }
    proof {
        if from < chars.len() {
            lemma_front_step(chars@, from as int, p);
        } else {
            assert(chars@.skip(from as int).len() == 0);
        }
    }
    assert(without_front(chars@, p) == chars@.skip(from as int));
    let mut to: usize = chars.len();
    assert(chars@.skip(from as int) == chars@.subrange(from as int, to as int));
    while to > from && white_space(chars[to - 1])
        invariant
            p == (|c: char| is_white_space(c)),
            from <= to <= chars.len(),
            without_back(chars@.subrange(from as int, to as int), p) == trimmed(chars@),
        decreases to - from,
    {
        proof {
            lemma_back_step(chars@, from as int, to as int, p);
        }
        to -= 1;
    }
    proof {
        if to > from {
            lemma_back_step(chars@, from as int, to as int, p);
        } else {
            assert(chars@.subrange(from as int, to as int).len() == 0);
        }
    }
    text_of(&chars, from, to)
}

/// `s` without the letters `v` at its front.
pub fn untag(s: &str) -> (r: String)
    ensures
        r@ == untagged(s@),
{
    let chars = chars_of(s);
    let ghost p = |c: char| c == 'v';
    let mut from: usize = 0;
    assert(chars@.skip(0) == chars@);
    while from < chars.len() && chars[from] == 'v'
        invariant
            p == (|c: char| c == 'v'),
            from <= chars.len(),
            without_front(chars@.skip(from as int), p) == without_front(chars@, p),
        decreases chars.len() - from,
    {
        proof {
            lemma_front_step(chars@, from as int, p);
        }
        from += 1;
    }
    proof {
        if from < chars.len() {
            lemma_front_step(chars@, from as int, p);
        } else {
            assert(chars@.skip(from as int).len() == 0);
        }
    }
    assert(chars@.skip(from as int) == chars@.subrange(from as int, chars@.len() as int));
    text_of(&chars, from, chars.len())
}

pub proof fn lemma_first_at(s: Seq<char>, c: char)
    ensures
        0 <= first_at(s, c) <= s.len(),
        forall|k: int| 0 <= k < first_at(s, c) ==> s[k] != c,
        first_at(s, c) < s.len() ==> s[first_at(s, c)] == c,
        s.contains(c) <==> first_at(s, c) < s.len(),
    decreases s.len(),
{
    if s.len() > 0 && s[0] != c {
        let rest = s.drop_first();
        lemma_first_at(rest, c);
        assert forall|k: int| 0 <= k < first_at(s, c) implies s[k] != c by {
            if k > 0 {
                assert(rest[k - 1] == s[k]);
            }
        }
        if first_at(s, c) < s.len() {
            assert(s[first_at(s, c)] == rest[first_at(rest, c)]);
        }
    }
    if s.contains(c) {
        let k = choose|k: int| 0 <= k < s.len() && s[k] == c;
        if first_at(s, c) >= s.len() {
            assert(s[k] != c);
        }
    }
}

/// The place of the first `c`, or the number of characters.
pub fn index_of(chars: &Vec<char>, c: char) -> (r: usize)
    ensures
        r == first_at(chars@, c),
{
    let mut i: usize = 0;
    while i < chars.len() && chars[i] != c
        invariant
            i <= chars.len(),
            forall|k: int| 0 <= k < i ==> chars@[k] != c,
        decreases chars.len() - i,
    {
        i += 1;
    }
    proof {
        lemma_first_at(chars@, c);
        let at = first_at(chars@, c);
        if at < i {
            assert(chars@[at] != c);
        }
        if i < at {
            assert(chars@[i as int] != c);
        }
    }
    i
}

pub fn decimal_text(n: u64) -> (r: String)
    ensures
        r@ == decimal(n as nat),
{
    wide_decimal_text(n as u128)
}

/// The decimal numeral of a wide number.
pub fn wide_decimal_text(n: u128) -> (r: String)
    ensures
        r@ == decimal(n as nat),
    decreases n,
{
    let last = ((48 + (n % 10)) as u8) as char;
    let mut out = if n < 10 {
        String::new()
    } else {
        wide_decimal_text(n / 10)
    };
    out.push(last);
    assert(n < 10 ==> out@ == seq![last]);
    out
}

proof fn lemma_value_grows(s: Seq<char>, i: int)
    requires
        0 <= i <= s.len(),
        all_digits(s),
    ensures
        digits_value(s.take(i)) <= digits_value(s),
    decreases s.len() - i,
{
    if i < s.len() {
        lemma_value_grows(s, i + 1);
        assert(s.take(i + 1).drop_last() == s.take(i));
    } else {
        assert(s.take(i) == s);
    }
}

/// Reads an unsigned integer: an optional plus sign and digits.
pub fn parse_numeral(s: &str) -> (r: Option<u64>)
    ensures
        r == numeral(s@),
{
    let chars = chars_of(s);
    let from: usize = if chars.len() > 0 && chars[0] == '+' {
        1
    } else {
        0
    };
    let ghost digits = unsigned_part(s@);
    assert(digits == chars@.skip(from as int));
    if from == chars.len() {
        return None;
    }
    let mut i: usize = from;
    let mut value: u64 = 0;
    assert(digits.take(0).len() == 0);
    while i < chars.len()
        invariant
            chars@ == s@,
            from <= i <= chars.len(),
            digits == chars@.skip(from as int),
            digits == unsigned_part(s@),
            digits.len() > 0,
            forall|k: int| 0 <= k < i - from ==> is_digit(#[trigger] digits[k]),
            value == digits_value(digits.take(i - from)),
        decreases chars.len() - i,
    {
        let c = chars[i];
        assert(digits[i - from] == c);
        if !digit(c) {
            assert(!all_digits(digits));
            return None;
        }
        let d: u64 = (c as u64) - 48;
        proof {
            assert(digits.take(i - from + 1).drop_last() == digits.take(i - from));
            assert(digits.take(i - from + 1).last() == c);
            if all_digits(digits) {
                lemma_value_grows(digits, i - from + 1);
            }
        }
        if value > u64::MAX / 10 {
            return None;
        }
        let scaled = value * 10;
        if scaled > u64::MAX - d {
            return None;
        }
        value = scaled + d;
        i += 1;
    }
    proof {
        assert(digits.take(i - from) == digits);
        assert(all_digits(digits));
    }
    Some(value)
}

/// Every character takes a byte at least.
pub proof fn lemma_not_fewer_bytes(s: Seq<char>)
    ensures
        s.len() <= byte_len(s),
    decreases s.len(),
{
    if s.len() > 0 {
        lemma_not_fewer_bytes(s.drop_first());
    }
}

pub proof fn lemma_decimal_digits(n: nat)
    ensures
        decimal(n).len() > 0,
        all_digits(decimal(n)),
        digits_value(decimal(n)) == n,
    decreases n,
{
    if n < 10 {
        let s = seq![digit_char(n)];
        assert(s.drop_last().len() == 0);
        assert(s.last() == digit_char(n));
        assert(digits_value(s) == digits_value(s.drop_last()) * 10 + ((s.last() as u32)
            - 48) as nat);
    } else {
        lemma_decimal_digits(n / 10);
        assert(decimal(n).drop_last() == decimal(n / 10));
        assert forall|i: int| 0 <= i < decimal(n).len() implies is_digit(
            #[trigger] decimal(n)[i],
        ) by {
            if i < decimal(n / 10).len() {
                assert(decimal(n)[i] == decimal(n / 10)[i]);
            }
        }
    }
}

/// A numeral that the library writes reads back as the same number.
pub proof fn numeral_reads_back_decimal(n: u64)
    ensures
        numeral(decimal(n as nat)) == Some(n),
{
    let s = decimal(n as nat);
    lemma_decimal_digits(n as nat);
    assert(is_digit(s[0]));
    assert(unsigned_part(s) == s);
}

/// The parts one after another with `separator` between each two.
pub fn join(parts: &Vec<String>, separator: &str) -> (r: String)
    ensures
        r@ == joined(list_view(parts@), separator@),
{
    let mut out = String::new();
    let mut i: usize = 0;
    assert(list_view(parts@).take(0).len() == 0);
    while i < parts.len()
        invariant
            i <= parts.len(),
            out@ == joined(list_view(parts@).take(i as int), separator@),
        decreases parts.len() - i,
    {
        if i > 0 {
            out.append(separator);
        }
        out.append(parts[i].as_str());
        proof {
            let seen = list_view(parts@).take(i + 1);
            assert(seen.drop_last() == list_view(parts@).take(i as int));
            assert(seen.last() == parts@[i as int]@);
            if i == 0 {
                assert(out@ =~= seen[0]);
            }
        }
        i += 1;
    }
    assert(list_view(parts@).take(i as int) == list_view(parts@));
    out
}

/// Position of the first string that equals `wanted`.
pub open spec fn position_of(list: Seq<Seq<char>>, wanted: Seq<char>) -> Option<int>
    decreases list.len(),
{
    if list.len() == 0 {
        None
    } else if list[0] == wanted {
        Some(0)
    } else {
        match position_of(list.drop_first(), wanted) {
            Some(i) => Some(i + 1),
            None => None,
        }
    }
}

pub proof fn lemma_position_of(list: Seq<Seq<char>>, wanted: Seq<char>)
    ensures
        match position_of(list, wanted) {
            Some(i) => 0 <= i < list.len() && list[i] == wanted && forall|k: int|
                0 <= k < i ==> list[k] != wanted,
            None => !list.contains(wanted),
        },
    decreases list.len(),
{
    if list.len() > 0 && list[0] != wanted {
        let rest = list.drop_first();
        lemma_position_of(rest, wanted);
        match position_of(rest, wanted) {
            Some(i) => {
                assert(list[i + 1] == rest[i]);
                assert forall|k: int| 0 <= k < i + 1 implies list[k] != wanted by {
                    if k > 0 {
                        assert(rest[k - 1] == list[k]);
                    }
                }
            },
            None => {
                assert forall|k: int| 0 <= k < list.len() implies list[k] != wanted by {
                    if k > 0 {
                        assert(rest[k - 1] == list[k]);
                        assert(rest.contains(rest[k - 1]));
                    }
                }
            },
        }
    }
}

/// Position of the first string that equals `wanted`.
pub fn find_text(list: &Vec<String>, wanted: &str) -> (r: Option<usize>)
    ensures
        r is Some <==> position_of(list_view(list@), wanted@) is Some,
        r is Some ==> position_of(list_view(list@), wanted@) == Some(r->0 as int),
        r is Some ==> r->0 < list.len(),
{
    let ghost texts = list_view(list@);
    proof {
        lemma_position_of(texts, wanted@);
    }
    let mut i: usize = 0;
    while i < list.len()
        invariant
            i <= list.len(),
            texts == list_view(list@),
            forall|k: int| 0 <= k < i ==> texts[k] != wanted@,
        decreases list.len() - i,
    {
        if same(list[i].as_str(), wanted) {
            proof {
                assert(texts[i as int] == wanted@);
                lemma_position_of(texts, wanted@);
                assert(texts.contains(texts[i as int]));
                let at = position_of(texts, wanted@)->0;
                if at < i {
                    assert(texts[at] != wanted@);
                }
                if i < at {
                    assert(texts[i as int] != wanted@);
                }
            }
            return Some(i);
        }
        i += 1;
    }
    None
}

pub fn contains_item(list: &Vec<String>, wanted: &str) -> (r: bool)
    ensures
        r == list_view(list@).contains(wanted@),
{
    proof {
        lemma_position_of(list_view(list@), wanted@);
    }
    match find_text(list, wanted) {
        Some(_) => true,
        None => false,
    }
}

pub fn copy_opt(s: &Option<String>) -> (r: Option<String>)
    ensures
        opt_view(r) == opt_view(*s),
{
    match s {
        Some(text) => Some(text.clone()),
        None => None,
    }
}

pub fn copy_list(s: &Vec<String>) -> (r: Vec<String>)
    ensures
        list_view(r@) == list_view(s@),
{
    let mut out: Vec<String> = Vec::new();
    let mut i: usize = 0;
    while i < s.len()
        invariant
            i <= s.len(),
            list_view(out@) == list_view(s@).take(i as int),
        decreases s.len() - i,
    {
        let ghost before = out@;
        out.push(s[i].clone());
        proof {
            assert(list_view(out@) == list_view(before).push(s@[i as int]@));
        }
        i += 1;
    }
    assert(list_view(s@).take(i as int) == list_view(s@));
    out
}

/// Whether two optional strings hold the same characters or are both absent.
pub fn same_opt(a: &Option<String>, b: &Option<String>) -> (r: bool)
    ensures
        r == (opt_view(*a) == opt_view(*b)),
{
    match (a, b) {
        (Some(x), Some(y)) => same(x.as_str(), y.as_str()),
        (None, None) => true,
        _ => false,
    }
}

proof fn lemma_without_front(s: Seq<char>, p: spec_fn(char) -> bool)
    ensures
        ({
            let r = without_front(s, p);
            &&& r.len() <= s.len()
            &&& r == s.skip(s.len() - r.len())
            &&& r.len() > 0 ==> !p(r[0])
        }),
    decreases s.len(),
{
    if s.len() > 0 && p(s[0]) {
        let rest = s.drop_first();
        lemma_without_front(rest, p);
        let r = without_front(rest, p);
        assert(s.skip(s.len() - r.len()) =~= rest.skip(rest.len() - r.len()));
    } else {
        assert(s.skip(0) =~= s);
    }
}

proof fn lemma_without_back(s: Seq<char>, p: spec_fn(char) -> bool)
    ensures
        ({
            let r = without_back(s, p);
            &&& r.len() <= s.len()
            &&& r == s.take(r.len() as int)
            &&& r.len() > 0 ==> !p(r.last())
        }),
    decreases s.len(),
{
    if s.len() > 0 && p(s.last()) {
        let rest = s.drop_last();
        lemma_without_back(rest, p);
        let r = without_back(rest, p);
        assert(s.take(r.len() as int) =~= rest.take(r.len() as int));
    } else {
        assert(s.take(s.len() as int) =~= s);
    }
}

/// A text without outer white space stays as it is.
pub proof fn trimmed_twice(s: Seq<char>)
    ensures
        trimmed(trimmed(s)) == trimmed(s),
{
    let p = |c: char| is_white_space(c);
    let front = without_front(s, p);
    let both = without_back(front, p);
    lemma_without_front(s, p);
    lemma_without_back(front, p);
    if both.len() > 0 {
        assert(both[0] == front[0]);
    }
}

/// A list without one text.
pub open spec fn without_text(list: Seq<Seq<char>>, text: Seq<char>) -> Seq<Seq<char>>
    decreases list.len(),
{
    if list.len() == 0 {
        Seq::empty()
    } else if list.last() == text {
        without_text(list.drop_last(), text)
    } else {
        without_text(list.drop_last(), text).push(list.last())
    }
}

/// Takes a text out of a list.
pub fn remove_text(list: &Vec<String>, text: &str) -> (r: Vec<String>)
    ensures
        list_view(r@) == without_text(list_view(list@), text@),
{
    let ghost texts = list_view(list@);
    let mut out: Vec<String> = Vec::new();
    let mut i: usize = 0;
    assert(list_view(out@) =~= Seq::<Seq<char>>::empty());
    assert(texts.take(0).len() == 0);
    while i < list.len()
        invariant
            i <= list.len(),
            texts == list_view(list@),
            list_view(out@) == without_text(texts.take(i as int), text@),
        decreases list.len() - i,
    {
        assert(texts.take(i + 1).drop_last() =~= texts.take(i as int));
        assert(texts.take(i + 1).last() == list@[i as int]@);
        if !same(list[i].as_str(), text) {
            let ghost before = out@;
            out.push(list[i].as_str().to_string());
            assert(list_view(out@) =~= list_view(before).push(list@[i as int]@));
        }
        i += 1;
    }
    assert(texts.take(i as int) =~= texts);
    out
}

} // verus!
