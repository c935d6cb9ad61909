//! Character-level string helpers with exact specifications.
//!
//! Every helper works on the `Seq<char>` view of a string: positions and
//! lengths are counted in characters, never in bytes.

use vstd::prelude::*;

verus! {

// ---------------------------------------------------------------------------
// Specifications
// ---------------------------------------------------------------------------

/// `needle` occurs in `hay` starting at character position `i`.
pub open spec fn occurs_at(hay: Seq<char>, needle: Seq<char>, i: int) -> bool {
    0 <= i && i + needle.len() <= hay.len() && hay.subrange(i, i + needle.len()) == needle
}

/// `needle` occurs somewhere in `hay` (the empty needle occurs everywhere).
pub open spec fn contains_seq(hay: Seq<char>, needle: Seq<char>) -> bool {
    exists|i: int| occurs_at(hay, needle, i)
}

/// `hay` begins with `prefix`.
pub open spec fn starts_with_seq(hay: Seq<char>, prefix: Seq<char>) -> bool {
    prefix.len() <= hay.len() && hay.subrange(0, prefix.len() as int) == prefix
}

/// The views of a sequence of strings.
pub open spec fn string_views(v: Seq<String>) -> Seq<Seq<char>> {
    v.map_values(|s: String| s@)
}

/// The characters of an optional string.
pub open spec fn opt_chars(o: Option<String>) -> Option<Seq<char>> {
    match o {
        Some(s) => Some(s@),
        None => None,
    }
}

// ---------------------------------------------------------------------------
// Building strings
// ---------------------------------------------------------------------------

/// Appends one character to a string (std's `String::push`).
#[verifier::external_body]
pub(crate) fn push_char(s: &mut String, c: char)
    ensures
        final(s)@ == old(s)@.push(c),
{
    s.push(c);
}

/// The characters of `s`, collected into a vector.
pub fn chars_of(s: &str) -> (v: Vec<char>)
    ensures
        v@ == s@,
{
    let mut v: Vec<char> = Vec::new();
    for c in it: s.chars()
        invariant
            v@ == it.seq().take(it.index()),
            it.seq() == s@,
    {
        v.push(c);
    }
    v
}

/// The string made of the characters `chars[from..to]`.
pub fn string_from_range(chars: &Vec<char>, from: usize, to: usize) -> (s: String)
    requires
        from <= to <= chars.len(),
    ensures
        s@ == chars@.subrange(from as int, to as int),
{
    let mut s = String::new();
    let mut i = from;
    while i < to
        invariant
            from <= i <= to <= chars.len(),
            s@ == chars@.subrange(from as int, i as int),
        decreases to - i,
    {
        push_char(&mut s, chars[i]);
        i = i + 1;
    }
    s
}

/// The string made of all characters of `chars`.
pub fn string_from_chars(chars: &Vec<char>) -> (s: String)
    ensures
        s@ == chars@,
{
    let s = string_from_range(chars, 0, chars.len());
    assert(chars@.subrange(0, chars@.len() as int) == chars@);
    s
}

/// The characters of `v` from position `from` on.
pub fn suffix_chars(v: &Vec<char>, from: usize) -> (r: Vec<char>)
    requires
        from <= v.len(),
    ensures
        r@ == v@.skip(from as int),
{
    let mut tail: Vec<char> = Vec::new();
    let mut k = from;
    while k < v.len()
        invariant
            from <= k <= v.len(),
            tail@ == v@.subrange(from as int, k as int),
        decreases v.len() - k,
    {
        tail.push(v[k]);
        k = k + 1;
    }
    tail
}

/// Appends every character of `extra` to `s`.
pub fn append_chars(s: &mut String, extra: &Vec<char>)
    ensures
        final(s)@ == old(s)@ + extra@,
{
    let mut i: usize = 0;
    while i < extra.len()
        invariant
            i <= extra.len(),
            s@ == old(s)@ + extra@.take(i as int),
        decreases extra.len() - i,
    {
        push_char(s, extra[i]);
        i = i + 1;
        assert(extra@.take(i as int) == extra@.take((i - 1) as int).push(extra@[i - 1]));
    }
    assert(extra@.take(extra@.len() as int) == extra@);
}

/// The text std's `String::from_utf8_lossy` decodes from `bytes`.
pub uninterp spec fn utf8_lossy(bytes: Seq<u8>) -> Seq<char>;

/// Decodes `bytes[from..to]` with std's `String::from_utf8_lossy`: valid
/// UTF-8 as it stands, each invalid sequence as U+FFFD. The result is
/// named; of valid UTF-8 the contract states the decoded text, as std's
/// documentation does. What an invalid sequence decodes to is not stated.
#[verifier::external_body]
pub(crate) fn lossy_text(bytes: &[u8], from: usize, to: usize) -> (s: String)
    requires
        from <= to <= bytes@.len(),
    ensures
        s@ == utf8_lossy(bytes@.subrange(from as int, to as int)),
        vstd::utf8::valid_utf8(bytes@.subrange(from as int, to as int)) ==> s@ == vstd::utf8::decode_utf8(
            bytes@.subrange(from as int, to as int),
        ),
{
    String::from_utf8_lossy(&bytes[from..to]).into_owned()
}

// ---------------------------------------------------------------------------
// Comparing and searching
// ---------------------------------------------------------------------------

/// Whether two strings hold the same characters.
pub fn str_eq(a: &str, b: &str) -> (r: bool)
    ensures
        r == (a@ == b@),
{
    let x = chars_of(a);
    let y = chars_of(b);
    if x.len() != y.len() {
        return false;
    }
    let mut i: usize = 0;
    while i < x.len()
        invariant
            x@ == a@,
            y@ == b@,
            x.len() == y.len(),
            i <= x.len(),
            forall|j: int| 0 <= j < i ==> x@[j] == y@[j],
        decreases x.len() - i,
    {
        if x[i] != y[i] {
            return false;
        }
        i = i + 1;
    }
    assert(x@ == y@);
    true
}

/// Whether `needle` occurs in `hay` at position `at`.
pub fn matches_at(hay: &Vec<char>, needle: &Vec<char>, at: usize) -> (r: bool)
    ensures
        r == occurs_at(hay@, needle@, at as int),
{
    if needle.len() > hay.len() || at > hay.len() - needle.len() {
        return false;
    }
    let mut j: usize = 0;
    while j < needle.len()
        invariant
            at + needle.len() <= hay.len(),
            j <= needle.len(),
            forall|k: int| 0 <= k < j ==> hay@[at + k] == needle@[k],
        decreases needle.len() - j,
    {
        if hay[at + j] != needle[j] {
            assert(hay@.subrange(at as int, at + needle.len())[j as int] != needle@[j as int]);
            return false;
        }
        j = j + 1;
    }
    assert(hay@.subrange(at as int, at + needle.len()) == needle@);
    true
}

/// The first character position at which `needle` occurs in `hay`.
pub fn find_chars(hay: &Vec<char>, needle: &Vec<char>) -> (r: Option<usize>)
    ensures
        match r {
            Some(i) => occurs_at(hay@, needle@, i as int) && forall|j: int|
                0 <= j < i ==> !occurs_at(hay@, needle@, j),
            None => !contains_seq(hay@, needle@),
        },
{
    if needle.len() > hay.len() {
        assert forall|j: int| !occurs_at(hay@, needle@, j) by {}
        return None;
    }
    let last = hay.len() - needle.len();
    let mut i: usize = 0;
    loop
        invariant
            last + needle.len() == hay.len(),
            i <= last,
            forall|j: int| 0 <= j < i ==> !occurs_at(hay@, needle@, j),
        decreases last - i,
    {
        if matches_at(hay, needle, i) {
            return Some(i);
        }
        if i == last {
            assert forall|j: int| !occurs_at(hay@, needle@, j) by {
                if 0 <= j && j + needle@.len() <= hay@.len() {
                    assert(j <= i);
                }
            }
            return None;
        }
        i = i + 1;
    }
}

/// Whether `needle` occurs in `hay`.
pub fn str_contains(hay: &str, needle: &str) -> (r: bool)
    ensures
        r == contains_seq(hay@, needle@),
{
    let h = chars_of(hay);
    let n = chars_of(needle);
    match find_chars(&h, &n) {
        Some(_) => true,
        None => false,
    }
}

/// Whether `hay` begins with `prefix`.
pub fn str_starts_with(hay: &str, prefix: &str) -> (r: bool)
    ensures
        r == starts_with_seq(hay@, prefix@),
{
    let h = chars_of(hay);
    let p = chars_of(prefix);
    let r = matches_at(&h, &p, 0);
    proof {
        if starts_with_seq(hay@, prefix@) {
            assert(occurs_at(h@, p@, 0));
        }
    }
    r
}

// ---------------------------------------------------------------------------
// Character classes
// ---------------------------------------------------------------------------

/// Unicode `White_Space`, as std's `char::is_whitespace` defines it.
pub open spec fn is_ws(c: char) -> bool {
    let u = c as u32;
    (9 <= u <= 13) || u == 32 || u == 0x85 || u == 0xA0 || u == 0x1680 || (0x2000 <= u <= 0x200A)
        || u == 0x2028 || u == 0x2029 || u == 0x202F || u == 0x205F || u == 0x3000
}

/// Whether `c` is Unicode white space.
pub fn char_is_ws(c: char) -> (r: bool)
    ensures
        r == is_ws(c),
{
    let u = c as u32;
    (9 <= u && u <= 13) || u == 32 || u == 0x85 || u == 0xA0 || u == 0x1680 || (0x2000 <= u && u
        <= 0x200A) || u == 0x2028 || u == 0x2029 || u == 0x202F || u == 0x205F || u == 0x3000
}

/// `c` with an ASCII upper-case letter turned into lower case.
pub open spec fn lower_char(c: char) -> char {
    if 'A' <= c <= 'Z' {
        ((c as u32) + 32) as char
    } else {
        c
    }
}

/// `s` with every ASCII upper-case letter turned into lower case.
pub open spec fn ascii_lower(s: Seq<char>) -> Seq<char> {
    s.map_values(|c: char| lower_char(c))
}

/// ASCII lower-casing of one character.
pub fn char_to_lower(c: char) -> (r: char)
    ensures
        r == lower_char(c),
{
    if 'A' <= c && c <= 'Z' {
        let u = (c as u32) + 32;
        let b = u as u8;
        b as char
    } else {
        c
    }
}

/// `s` with ASCII letters lower-cased, other characters unchanged.
pub fn ascii_lowercase(s: &str) -> (r: String)
    ensures
        r@ == ascii_lower(s@),
{
    let v = chars_of(s);
    let mut r = String::new();
    let mut i: usize = 0;
    while i < v.len()
        invariant
            v@ == s@,
            i <= v.len(),
            r@ == ascii_lower(s@).take(i as int),
        decreases v.len() - i,
    {
        let c = char_to_lower(v[i]);
        push_char(&mut r, c);
        i = i + 1;
        assert(ascii_lower(s@).take(i as int) == ascii_lower(s@).take((i - 1) as int).push(c));
    }
    assert(ascii_lower(s@).take(v.len() as int) == ascii_lower(s@));
    r
}

/// ASCII case-insensitive equality, as std's `str::eq_ignore_ascii_case`.
pub fn eq_ignore_ascii_case(a: &str, b: &str) -> (r: bool)
    ensures
        r == (ascii_lower(a@) == ascii_lower(b@)),
{
    let x = ascii_lowercase(a);
    let y = ascii_lowercase(b);
    x == y
}

// ---------------------------------------------------------------------------
// Trimming
// ---------------------------------------------------------------------------

/// The character classes that are trimmed from the ends of a string.
#[derive(PartialEq, Eq, Structural, Clone, Copy, Debug)]
pub enum TrimSet {
    /// Unicode white space.
    Whitespace,
    /// The quotes and punctuation stripped from generated titles.
    TitlePunctuation,
    /// The double quote.
    DoubleQuote,
}

/// Whether `c` belongs to the class `set`.
pub open spec fn in_trim_set(set: TrimSet, c: char) -> bool {
    match set {
        TrimSet::Whitespace => is_ws(c),
        TrimSet::TitlePunctuation => c == '"' || c == '\'' || c == '`' || c == '.' || c == ':',
        TrimSet::DoubleQuote => c == '"',
    }
}

/// Whether `c` belongs to the class `set`.
pub fn char_in_trim_set(set: TrimSet, c: char) -> (r: bool)
    ensures
        r == in_trim_set(set, c),
{
    match set {
        TrimSet::Whitespace => char_is_ws(c),
        TrimSet::TitlePunctuation => c == '"' || c == '\'' || c == '`' || c == '.' || c == ':',
        TrimSet::DoubleQuote => c == '"',
    }
}

/// `s` without its leading characters of class `set`.
pub open spec fn trim_start(set: TrimSet, s: Seq<char>) -> Seq<char>
    decreases s.len(),
{
    if s.len() > 0 && in_trim_set(set, s[0]) {
        trim_start(set, s.drop_first())
    } else {
        s
    }
}

/// `s` without its trailing characters of class `set`.
pub open spec fn trim_end(set: TrimSet, s: Seq<char>) -> Seq<char>
    decreases s.len(),
{
    if s.len() > 0 && in_trim_set(set, s.last()) {
        trim_end(set, s.drop_last())
    } else {
        s
    }
}

/// `s` without the characters of class `set` at either end.
pub open spec fn trim_both(set: TrimSet, s: Seq<char>) -> Seq<char> {
    trim_end(set, trim_start(set, s))
}

/// `s` without white space at either end, as std's `str::trim`.
pub open spec fn trim(s: Seq<char>) -> Seq<char> {
    trim_both(TrimSet::Whitespace, s)
}

/// The characters of `v` without those of class `set` at either end.
pub fn trim_chars(set: TrimSet, v: &Vec<char>) -> (r: Vec<char>)
    ensures
        r@ == trim_both(set, v@),
{
    let mut i: usize = 0;
    assert(v@.skip(0) == v@);
    while i < v.len() && char_in_trim_set(set, v[i])
        invariant
            i <= v.len(),
            trim_start(set, v@.skip(i as int)) == trim_start(set, v@),
        decreases v.len() - i,
    {
        assert(v@.skip(i as int).drop_first() == v@.skip(i + 1));
        i = i + 1;
    }
    let ghost mid = v@.skip(i as int);
    assert(trim_start(set, mid) == mid);
    let mut j: usize = v.len();
    while j > i && char_in_trim_set(set, v[j - 1])
        invariant
            i <= j <= v.len(),
            mid == v@.skip(i as int),
            trim_end(set, v@.subrange(i as int, j as int)) == trim_end(set, mid),
        decreases j,
    {
        assert(v@.subrange(i as int, j as int).drop_last() == v@.subrange(i as int, j - 1));
        j = j - 1;
    }
    assert(trim_end(set, v@.subrange(i as int, j as int)) == v@.subrange(i as int, j as int));
    let mut r: Vec<char> = Vec::new();
    let mut k = i;
    while k < j
        invariant
            i <= k <= j <= v.len(),
            r@ == v@.subrange(i as int, k as int),
        decreases j - k,
    {
        r.push(v[k]);
        k = k + 1;
    }
    r
}

/// `s` without white space at either end.
pub fn trim_str(s: &str) -> (r: String)
    ensures
        r@ == trim(s@),
{
    let v = chars_of(s);
    let t = trim_chars(TrimSet::Whitespace, &v);
    string_from_chars(&t)
}

/// Whether `s` holds nothing but white space.
pub fn is_blank(s: &str) -> (r: bool)
    ensures
        r == (trim(s@).len() == 0),
{
    let v = chars_of(s);
    let t = trim_chars(TrimSet::Whitespace, &v);
    t.len() == 0
}

// ---------------------------------------------------------------------------
// Decimal numbers
// ---------------------------------------------------------------------------

/// The character of the decimal digit `d`.
pub open spec fn digit_char(d: int) -> char {
    if d == 0 {
        '0'
    } else if d == 1 {
        '1'
    } else if d == 2 {
        '2'
    } else if d == 3 {
        '3'
    } else if d == 4 {
        '4'
    } else if d == 5 {
        '5'
    } else if d == 6 {
        '6'
    } else if d == 7 {
        '7'
    } else if d == 8 {
        '8'
    } else {
        '9'
    }
}

/// The decimal notation of `n`, without leading zeros.
pub open spec fn decimal(n: nat) -> Seq<char>
    decreases n,
{
    if n < 10 {
        seq![digit_char(n as int)]
    } else {
        decimal(n / 10).push(digit_char((n % 10) as int))
    }
}

/// The character of a digit below ten.
pub fn digit_to_char(d: u64) -> (c: char)
    requires
        d < 10,
    ensures
        c == digit_char(d as int),
{
    if d == 0 {
        '0'
    } else if d == 1 {
        '1'
    } else if d == 2 {
        '2'
    } else if d == 3 {
        '3'
    } else if d == 4 {
        '4'
    } else if d == 5 {
        '5'
    } else if d == 6 {
        '6'
    } else if d == 7 {
        '7'
    } else if d == 8 {
        '8'
    } else {
        '9'
    }
}

/// Appends the decimal notation of `n` to `s`.
pub fn push_decimal(s: &mut String, n: u64)
    ensures
        final(s)@ == old(s)@ + decimal(n as nat),
    decreases n,
{
    if n >= 10 {
        push_decimal(s, n / 10);
    }
    push_char(s, digit_to_char(n % 10));
}

/// The decimal notation of `n`.
pub fn decimal_string(n: u64) -> (s: String)
    ensures
        s@ == decimal(n as nat),
{
    let mut s = String::new();
    push_decimal(&mut s, n);
    s
}

/// `c` is an ASCII decimal digit.
pub open spec fn is_digit(c: char) -> bool {
    '0' <= c <= '9'
}

/// The value of a decimal digit character.
pub open spec fn digit_value(c: char) -> int {
    (c as u32) - ('0' as u32)
}

/// Every character of `s` is a decimal digit.
pub open spec fn all_digits(s: Seq<char>) -> bool {
    forall|i: int| 0 <= i < s.len() ==> is_digit(#[trigger] s[i])
}

/// The value of the digit string `s` (zero for the empty string).
pub open spec fn digits_value(s: Seq<char>) -> nat
    decreases s.len(),
{
    if s.len() == 0 {
        0
    } else {
        (digits_value(s.drop_last()) * 10 + digit_value(s.last())) as nat
    }
}

/// What std's `str::parse` reads from `s` as a decimal integer: an optional
/// sign (`-` only where `signed`), then one or more ASCII digits.
pub open spec fn parsed_integer(s: Seq<char>, signed: bool) -> Option<int> {
    if s.len() > 0 && (s[0] == '+' || (signed && s[0] == '-')) {
        let rest = s.drop_first();
        if rest.len() > 0 && all_digits(rest) {
            Some(if s[0] == '-' { -digits_value(rest) } else { digits_value(rest) as int })
        } else {
            None
        }
    } else if s.len() > 0 && all_digits(s) {
        Some(digits_value(s) as int)
    } else {
        None
    }
}

proof fn lemma_capped_step(v: nat, cap: nat, d: int)
    requires
        0 <= d < 10,
        cap > 0,
    ensures
        (if (if v < cap { v } else { cap }) * 10 + d < cap {
            (if v < cap { v } else { cap }) * 10 + d
        } else {
            cap as int
        }) == (if v * 10 + d < cap {
            v * 10 + d
        } else {
            cap as int
        }),
{
    if v >= cap {
        assert(cap * 10 + d >= cap) by (nonlinear_arith)
            requires
                cap > 0,
                d >= 0,
        ;
        assert(v * 10 + d >= cap) by (nonlinear_arith)
            requires
                v >= cap,
                cap > 0,
                d >= 0,
        ;
    }
}

/// The value of the digits `v[from..to]`, capped at `cap`; `None` unless the
/// range is a non-empty run of digits.
pub fn digits_capped(v: &Vec<char>, from: usize, to: usize, cap: u128) -> (r: Option<u128>)
    requires
        from <= to <= v.len(),
        0 < cap <= 0x1_0000_0000_0000_0000,
    ensures
        match r {
            Some(x) => from < to && all_digits(v@.subrange(from as int, to as int)) && x == (if digits_value(
                v@.subrange(from as int, to as int),
            ) < cap {
                digits_value(v@.subrange(from as int, to as int)) as int
            } else {
                cap as int
            }),
            None => !(from < to && all_digits(v@.subrange(from as int, to as int))),
        },
{
    if from == to {
        return None;
    }
    let mut acc: u128 = 0;
    let mut i = from;
    while i < to
        invariant
            from <= i <= to <= v.len(),
            0 < cap <= 0x1_0000_0000_0000_0000,
            all_digits(v@.subrange(from as int, i as int)),
            acc == (if digits_value(v@.subrange(from as int, i as int)) < cap {
                digits_value(v@.subrange(from as int, i as int)) as int
            } else {
                cap as int
            }),
        decreases to - i,
    {
        let c = v[i];
        if !('0' <= c && c <= '9') {
            assert(v@.subrange(from as int, to as int)[i - from] == c);
            return None;
        }
        let d = (c as u32 - '0' as u32) as u128;
        let ghost prev = v@.subrange(from as int, i as int);
        let ghost next = v@.subrange(from as int, i + 1);
        assert(next.drop_last() == prev);
        assert(next.last() == c);
        proof {
            lemma_capped_step(digits_value(prev), cap as nat, d as int);
        }
        let t = acc * 10 + d;
        acc = if t < cap { t } else { cap };
        i = i + 1;
        assert(all_digits(next)) by {
            assert forall|k: int| 0 <= k < next.len() implies is_digit(#[trigger] next[k]) by {
                if k < prev.len() {
                    assert(next[k] == prev[k]);
                }
            }
        }
    }
    Some(acc)
}

/// std's `str::parse::<i32>` on the characters `v[from..to]`.
pub fn parse_i32_range(v: &Vec<char>, from: usize, to: usize) -> (r: Option<i32>)
    requires
        from <= to <= v.len(),
    ensures
        r == (match parsed_integer(v@.subrange(from as int, to as int), true) {
            Some(x) => if i32::MIN <= x <= i32::MAX {
                Some(x as i32)
            } else {
                None
            },
            None => None,
        }),
{
    let ghost s = v@.subrange(from as int, to as int);
    if from == to {
        return None;
    }
    let first = v[from];
    let negative = first == '-';
    let start = if first == '+' || first == '-' { from + 1 } else { from };
    assert(s[0] == first);
    if start > from {
        assert(s.drop_first() == v@.subrange(start as int, to as int));
    } else {
        assert(s == v@.subrange(start as int, to as int));
    }
    let cap: u128 = 0x1_0000_0000;
    match digits_capped(v, start, to, cap) {
        None => None,
        Some(x) => {
            if negative {
                if x <= 0x8000_0000 {
                    let m = x as i64;
                    Some((0 - m) as i32)
                } else {
                    None
                }
            } else if x <= 0x7fff_ffff {
                Some(x as i32)
            } else {
                None
            }
        },
    }
}

/// std's `str::parse::<usize>` on the characters `v[from..to]`.
pub fn parse_usize_range(v: &Vec<char>, from: usize, to: usize) -> (r: Option<usize>)
    requires
        from <= to <= v.len(),
    ensures
        r == (match parsed_integer(v@.subrange(from as int, to as int), false) {
            Some(x) => if x <= usize::MAX {
                Some(x as usize)
            } else {
                None
            },
            None => None,
        }),
{
    let ghost s = v@.subrange(from as int, to as int);
    if from == to {
        return None;
    }
    let first = v[from];
    let start = if first == '+' { from + 1 } else { from };
    assert(s[0] == first);
    if start > from {
        assert(s.drop_first() == v@.subrange(start as int, to as int));
    } else {
        assert(s == v@.subrange(start as int, to as int));
    }
    let cap: u128 = (usize::MAX as u128) + 1;
    match digits_capped(v, start, to, cap) {
        None => None,
        Some(x) => {
            if x <= usize::MAX as u128 {
                Some(x as usize)
            } else {
                None
            }
        },
    }
}

/// std's `str::parse::<u64>` on the characters `v[from..to]`.
pub fn parse_u64_range(v: &Vec<char>, from: usize, to: usize) -> (r: Option<u64>)
    requires
        from <= to <= v.len(),
    ensures
        r == (match parsed_integer(v@.subrange(from as int, to as int), false) {
            Some(x) => if x <= u64::MAX {
                Some(x as u64)
            } else {
                None
            },
            None => None,
        }),
{
    let ghost s = v@.subrange(from as int, to as int);
    if from == to {
        return None;
    }
    let first = v[from];
    let start = if first == '+' { from + 1 } else { from };
    assert(s[0] == first);
    if start > from {
        assert(s.drop_first() == v@.subrange(start as int, to as int));
    } else {
        assert(s == v@.subrange(start as int, to as int));
    }
    let cap: u128 = 0x1_0000_0000_0000_0000;
    match digits_capped(v, start, to, cap) {
        None => None,
        Some(x) => {
            if x <= 0xffff_ffff_ffff_ffff {
                Some(x as u64)
            } else {
                None
            }
        },
    }
}

// ---------------------------------------------------------------------------
// Lines, words and joins
// ---------------------------------------------------------------------------

/// The position of the first `c` in `s`, or `s.len()` when there is none.
pub open spec fn first_pos(s: Seq<char>, c: char) -> int
    decreases s.len(),
{
    if s.len() == 0 {
        0
    } else if s[0] == c {
        0
    } else {
        1 + first_pos(s.drop_first(), c)
    }
}

/// `line` without one trailing carriage return.
pub open spec fn strip_cr(line: Seq<char>) -> Seq<char> {
    if line.len() > 0 && line.last() == '\r' {
        line.drop_last()
    } else {
        line
    }
}

/// The lines of `s` as std's `str::lines` yields them: split at `\n`, a
/// `\r` just before the `\n` dropped, no empty line after a final `\n`.
pub open spec fn lines(s: Seq<char>) -> Seq<Seq<char>>
    decreases s.len(),
{
    if s.len() == 0 {
        seq![]
    } else {
        let p = first_pos(s, '\n');
        if 0 <= p < s.len() {
            seq![strip_cr(s.take(p))] + lines(s.skip(p + 1))
        } else {
            seq![s]
        }
    }
}

proof fn lemma_first_pos_bounds(s: Seq<char>, c: char)
    ensures
        0 <= first_pos(s, c) <= s.len(),
        forall|k: int| 0 <= k < first_pos(s, c) ==> s[k] != c,
        first_pos(s, c) < s.len() ==> s[first_pos(s, c)] == c,
    decreases s.len(),
{
    if s.len() > 0 && s[0] != c {
        lemma_first_pos_bounds(s.drop_first(), c);
        assert forall|k: int| 0 <= k < first_pos(s, c) implies s[k] != c by {
            if k > 0 {
                assert(s[k] == s.drop_first()[k - 1]);
            }
        }
    }
}

/// `first_pos` is `k` when `s[k]` is the first `c`, or `k == s.len()`
/// and `s` holds no `c`.
pub proof fn lemma_first_pos_exact(s: Seq<char>, c: char, k: int)
    requires
        0 <= k <= s.len(),
        forall|m: int| 0 <= m < k ==> s[m] != c,
        k < s.len() ==> s[k] == c,
    ensures
        first_pos(s, c) == k,
    decreases s.len(),
{
    if s.len() > 0 && s[0] != c {
        assert forall|m: int| 0 <= m < k - 1 implies s.drop_first()[m] != c by {
            assert(s.drop_first()[m] == s[m + 1]);
        }
        if k < s.len() {
            assert(s.drop_first()[k - 1] == s[k]);
        }
        lemma_first_pos_exact(s.drop_first(), c, k - 1);
    }
}

proof fn lemma_first_pos_of_concat(a: Seq<char>, b: Seq<char>, c: char)
    requires
        forall|k: int| 0 <= k < a.len() ==> a[k] != c,
    ensures
        first_pos(a + b, c) == a.len() + first_pos(b, c),
    decreases a.len(),
{
    if a.len() > 0 {
        assert((a + b).drop_first() == a.drop_first() + b);
        lemma_first_pos_of_concat(a.drop_first(), b, c);
    } else {
        assert(a + b == b);
    }
}

proof fn lemma_no_char_first_pos(a: Seq<char>, c: char)
    requires
        forall|k: int| 0 <= k < a.len() ==> a[k] != c,
    ensures
        first_pos(a, c) == a.len(),
{
    lemma_first_pos_of_concat(a, seq![], c);
    assert(a + seq![] == a);
}

/// The lines of `s`, as std's `str::lines`.
pub fn lines_of(s: &str) -> (r: Vec<String>)
    ensures
        r@.map_values(|l: String| l@) == lines(s@),
{
    let v = chars_of(s);
    let mut out: Vec<String> = Vec::new();
    let mut cur: Vec<char> = Vec::new();
    let mut i: usize = 0;
    assert(v@.skip(0) == v@);
    assert(cur@ + v@.skip(0) == v@);
    while i < v.len()
        invariant
            v@ == s@,
            i <= v.len(),
            forall|k: int| 0 <= k < cur@.len() ==> cur@[k] != '\n',
            out@.map_values(|l: String| l@) + lines(cur@ + v@.skip(i as int)) == lines(s@),
        decreases v.len() - i,
    {
        let c = v[i];
        let ghost rest = v@.skip(i as int);
        assert(rest[0] == c);
        if c == '\n' {
            let ghost whole = cur@ + rest;
            proof {
                lemma_first_pos_of_concat(cur@, rest, '\n');
                assert(first_pos(rest, '\n') == 0);
                assert(whole.take(cur@.len() as int) == cur@);
                assert(whole.skip(cur@.len() + 1 as int) == v@.skip(i + 1));
                assert(lines(whole) == seq![strip_cr(cur@)] + lines(v@.skip(i + 1)));
            }
            let ghost cur_old_view = cur@;
            let mut line_end = cur.len();
            if line_end > 0 && cur[line_end - 1] == '\r' {
                line_end = line_end - 1;
            }
            let line = string_from_range(&cur, 0, line_end);
            assert(line@ == strip_cr(cur@));
            let ghost before = out@.map_values(|l: String| l@);
            out.push(line);
            assert(out@.map_values(|l: String| l@) == before.push(line@));
            cur = Vec::new();
            i = i + 1;
            assert(cur@ + v@.skip(i as int) == v@.skip(i as int));
            assert(before.push(line@) + lines(v@.skip(i as int)) == before + (seq![strip_cr(cur_old_view)] + lines(v@.skip(i as int))));
        } else {
            let ghost old_cur = cur@;
            cur.push(c);
            i = i + 1;
            assert(old_cur + rest == cur@ + v@.skip(i as int));
        }
    }
    proof {
        lemma_no_char_first_pos(cur@, '\n');
        assert(cur@ + v@.skip(i as int) == cur@);
    }
    if cur.len() > 0 {
        let line = string_from_chars(&cur);
        let ghost before = out@.map_values(|l: String| l@);
        out.push(line);
        assert(out@.map_values(|l: String| l@) == before + seq![cur@]);
    } else {
        assert(lines(cur@) == Seq::<Seq<char>>::empty());
        assert(out@.map_values(|l: String| l@) + lines(cur@) == out@.map_values(|l: String| l@));
    }
    out
}

/// The pieces of `s` between occurrences of `c`, as std's `str::split`
/// with a character pattern yields them (always at least one piece).
pub open spec fn split_char(s: Seq<char>, c: char) -> Seq<Seq<char>>
    decreases s.len(),
{
    if s.len() == 0 {
        seq![seq![]]
    } else {
        let w = split_char(s.drop_last(), c);
        if s.last() == c {
            w.push(seq![])
        } else {
            w.update(w.len() - 1, w.last().push(s.last()))
        }
    }
}

/// The pieces of `v` between occurrences of `c`.
pub fn split_chars(v: &Vec<char>, c: char) -> (r: Vec<Vec<char>>)
    ensures
        r@.map_values(|p: Vec<char>| p@) == split_char(v@, c),
{
    let mut done: Vec<Vec<char>> = Vec::new();
    let mut cur: Vec<char> = Vec::new();
    let mut i: usize = 0;
    assert(v@.take(0) == Seq::<char>::empty());
    while i < v.len()
        invariant
            i <= v.len(),
            done@.map_values(|p: Vec<char>| p@).push(cur@) == split_char(v@.take(i as int), c),
        decreases v.len() - i,
    {
        let x = v[i];
        let ghost t = v@.take(i + 1);
        assert(t.drop_last() == v@.take(i as int));
        assert(t.last() == x);
        let ghost before = done@.map_values(|p: Vec<char>| p@);
        if x == c {
            let finished = cur;
            done.push(finished);
            cur = Vec::new();
            assert(done@.map_values(|p: Vec<char>| p@) == before.push(finished@));
        } else {
            let ghost old_cur = cur@;
            cur.push(x);
            assert(before.push(old_cur).update(before.len() as int, old_cur.push(x)) == before.push(
                cur@,
            ));
        }
        i = i + 1;
    }
    assert(v@.take(v.len() as int) == v@);
    let ghost before = done@.map_values(|p: Vec<char>| p@);
    done.push(cur);
    assert(done@.map_values(|p: Vec<char>| p@) == before.push(cur@));
    done
}

/// The parts of `s` before and after its first `c`, as std's
/// `str::split_once` with a character pattern.
pub open spec fn split_once(s: Seq<char>, c: char) -> Option<(Seq<char>, Seq<char>)> {
    if s.contains(c) {
        Some((s.take(first_pos(s, c)), s.skip(first_pos(s, c) + 1)))
    } else {
        None
    }
}

/// The parts of `v` before and after its first `c`.
pub fn split_once_chars(v: &Vec<char>, c: char) -> (r: Option<(Vec<char>, Vec<char>)>)
    ensures
        match r {
            Some((a, b)) => split_once(v@, c) == Some((a@, b@)),
            None => split_once(v@, c) is None,
        },
{
    let mut i: usize = 0;
    while i < v.len()
        invariant
            i <= v.len(),
            forall|k: int| 0 <= k < i ==> v@[k] != c,
        decreases v.len() - i,
    {
        if v[i] == c {
            proof {
                lemma_first_pos_exact(v@, c, i as int);
                assert(v@[i as int] == c);
            }
            let mut a: Vec<char> = Vec::new();
            let mut j: usize = 0;
            while j < i
                invariant
                    j <= i < v.len(),
                    a@ == v@.take(j as int),
                decreases i - j,
            {
                a.push(v[j]);
                j = j + 1;
            }
            let b = suffix_chars(v, i + 1);
            return Some((a, b));
        }
        i = i + 1;
    }
    assert(!v@.contains(c));
    None
}

/// Whether two character vectors hold the same characters.
pub fn chars_eq(a: &Vec<char>, b: &Vec<char>) -> (r: bool)
    ensures
        r == (a@ == b@),
{
    if a.len() != b.len() {
        return false;
    }
    let mut i: usize = 0;
    while i < a.len()
        invariant
            a.len() == b.len(),
            i <= a.len(),
            forall|j: int| 0 <= j < i ==> a@[j] == b@[j],
        decreases a.len() - i,
    {
        if a[i] != b[i] {
            return false;
        }
        i = i + 1;
    }
    assert(a@ == b@);
    true
}

/// The index of the first element of `s` equal to `x`, or `s.len()` when
/// there is none (std's `position`).
pub open spec fn first_index<A>(s: Seq<A>, x: A) -> int
    decreases s.len(),
{
    if s.len() == 0 {
        0
    } else if s[0] == x {
        0
    } else {
        1 + first_index(s.drop_first(), x)
    }
}

/// `first_index` is `k` when `s[k]` is the first `x`, or `k == s.len()`
/// and `s` holds no `x`.
pub proof fn lemma_first_index_exact<A>(s: Seq<A>, x: A, k: int)
    requires
        0 <= k <= s.len(),
        forall|m: int| 0 <= m < k ==> s[m] != x,
        k < s.len() ==> s[k] == x,
    ensures
        first_index(s, x) == k,
    decreases s.len(),
{
    if s.len() > 0 && s[0] != x {
        assert forall|m: int| 0 <= m < k - 1 implies s.drop_first()[m] != x by {
            assert(s.drop_first()[m] == s[m + 1]);
        }
        if k < s.len() {
            assert(s.drop_first()[k - 1] == s[k]);
        }
        lemma_first_index_exact(s.drop_first(), x, k - 1);
    }
}

/// The index of the first of `items` that holds the characters of `name`,
/// or `items.len()` when none does.
pub fn index_of_chars(items: &Vec<Vec<char>>, name: &Vec<char>) -> (r: usize)
    ensures
        r as int == first_index(items@.map_values(|p: Vec<char>| p@), name@),
        r <= items.len(),
{
    let ghost views = items@.map_values(|p: Vec<char>| p@);
    let mut i: usize = 0;
    while i < items.len()
        invariant
            i <= items.len(),
            views == items@.map_values(|p: Vec<char>| p@),
            forall|m: int| 0 <= m < i ==> views[m] != name@,
        decreases items.len() - i,
    {
        if chars_eq(&items[i], name) {
            proof {
                lemma_first_index_exact(views, name@, i as int);
            }
            return i;
        }
        i = i + 1;
    }
    proof {
        lemma_first_index_exact(views, name@, i as int);
    }
    i
}

/// The maximal runs of non-white-space characters of `s`, in order, as
/// std's `str::split_whitespace` yields them.
pub open spec fn words(s: Seq<char>) -> Seq<Seq<char>>
    decreases s.len(),
{
    if s.len() == 0 {
        seq![]
    } else {
        let w = words(s.drop_last());
        let c = s.last();
        if is_ws(c) {
            w
        } else if s.len() >= 2 && !is_ws(s[s.len() - 2]) && w.len() > 0 {
            w.update(w.len() - 1, w.last().push(c))
        } else {
            w.push(seq![c])
        }
    }
}

/// `parts` joined with `sep` between consecutive parts, as std's `join`.
pub open spec fn join(parts: Seq<Seq<char>>, sep: Seq<char>) -> Seq<char>
    decreases parts.len(),
{
    if parts.len() == 0 {
        seq![]
    } else if parts.len() == 1 {
        parts[0]
    } else {
        join(parts.drop_last(), sep) + sep + parts.last()
    }
}

/// The words of `s`, as std's `str::split_whitespace`.
pub fn words_of(s: &str) -> (r: Vec<String>)
    ensures
        r@.map_values(|w: String| w@) == words(s@),
{
    let v = chars_of(s);
    let mut out: Vec<String> = Vec::new();
    let mut cur: Vec<char> = Vec::new();
    let mut i: usize = 0;
    assert(v@.take(0) == Seq::<char>::empty());
    while i < v.len()
        invariant
            v@ == s@,
            i <= v.len(),
            cur@.len() > 0 ==> i > 0 && !is_ws(v@[i - 1]),
            cur@.len() == 0 ==> (i == 0 || is_ws(v@[i - 1])),
            cur@.len() == 0 ==> out@.map_values(|w: String| w@) == words(v@.take(i as int)),
            cur@.len() > 0 ==> out@.map_values(|w: String| w@).push(cur@) == words(
                v@.take(i as int),
            ),
        decreases v.len() - i,
    {
        let c = v[i];
        let ghost t = v@.take(i + 1);
        assert(t.drop_last() == v@.take(i as int));
        assert(t.last() == c);
        let ws = char_is_ws(c);
        if ws {
            if cur.len() > 0 {
                let w = string_from_chars(&cur);
                let ghost before = out@.map_values(|x: String| x@);
                out.push(w);
                assert(out@.map_values(|x: String| x@) == before.push(cur@));
                cur = Vec::new();
            }
        } else {
            let ghost before = out@.map_values(|x: String| x@);
            if cur.len() > 0 {
                let ghost old_cur = cur@;
                proof {
                    assert(t[t.len() - 2] == v@[i - 1]);
                    assert(words(v@.take(i as int)) == before.push(old_cur));
                    assert(before.push(old_cur).update(before.len() as int, old_cur.push(c))
                        == before.push(old_cur.push(c)));
                }
                cur.push(c);
            } else {
                cur.push(c);
                proof {
                    if i > 0 {
                        assert(t[t.len() - 2] == v@[i - 1]);
                    }
                    assert(cur@ == seq![c]);
                }
            }
        }
        i = i + 1;
    }
    assert(v@.take(v.len() as int) == v@);
    if cur.len() > 0 {
        let w = string_from_chars(&cur);
        let ghost before = out@.map_values(|x: String| x@);
        out.push(w);
        assert(out@.map_values(|x: String| x@) == before.push(cur@));
    }
    out
}

/// `parts` joined with `sep` between consecutive parts.
pub fn join_strings(parts: &Vec<String>, sep: &str) -> (r: String)
    ensures
        r@ == join(parts@.map_values(|p: String| p@), sep@),
{
    let mut r = String::new();
    let mut i: usize = 0;
    while i < parts.len()
        invariant
            i <= parts.len(),
            r@ == join(parts@.map_values(|p: String| p@).take(i as int), sep@),
        decreases parts.len() - i,
    {
        let ghost views = parts@.map_values(|p: String| p@);
        assert(views.take(i + 1).drop_last() == views.take(i as int));
        assert(views.take(i + 1).last() == parts@[i as int]@);
        if i > 0 {
            r.append(sep);
        }
        r.append(parts[i].as_str());
        i = i + 1;
    }
    assert(parts@.map_values(|p: String| p@).take(parts.len() as int) == parts@.map_values(
        |p: String| p@,
    ));
    r
}

} // verus!
