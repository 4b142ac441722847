//! Text as a sequence of characters: searching, trimming, ordering, and decimal
//! numbers.
use vstd::prelude::*;
use vstd::string::*;

verus! {

/// `pattern` stands in `s` at position `i`.
pub open spec fn occurs_at(s: Seq<char>, pattern: Seq<char>, i: int) -> bool {
    &&& 0 <= i
    &&& i + pattern.len() <= s.len()
    &&& s.subrange(i, i + pattern.len()) == pattern
}

/// `pattern` stands somewhere in `s`.
pub open spec fn has_text(s: Seq<char>, pattern: Seq<char>) -> bool {
    exists|i: int| occurs_at(s, pattern, i)
}

/// `s` begins with `pattern`.
pub open spec fn begins_with(s: Seq<char>, pattern: Seq<char>) -> bool {
    occurs_at(s, pattern, 0)
}

/// What an optional text holds.
pub open spec fn opt_text(s: Option<&str>) -> Option<Seq<char>> {
    match s {
        Some(t) => Some(t@),
        None => None,
    }
}

/// What an optional owned text holds.
pub open spec fn opt_string(s: Option<String>) -> Option<Seq<char>> {
    match s {
        Some(t) => Some(t@),
        None => None,
    }
}

/// The optional text, or the empty text in its place.
pub open spec fn text_or_empty(s: Option<Seq<char>>) -> Seq<char> {
    match s {
        Some(t) => t,
        None => Seq::empty(),
    }
}

/// What each of a list of texts holds.
pub open spec fn texts(list: Seq<String>) -> Seq<Seq<char>> {
    list.map_values(|s: String| s@)
}

/// A copy of a list of texts.
pub(crate) fn copy_texts(list: &Vec<String>) -> (copy: Vec<String>)
    ensures
        copy@ == list@,
{
    let mut copy: Vec<String> = Vec::new();
    let mut i: usize = 0;
    while i < list.len()
        invariant
            i <= list@.len(),
            copy@ == list@.take(i as int),
        decreases list@.len() - i,
    {
        copy.push(list[i].clone());
        proof {
            assert(copy@ =~= list@.take(i + 1));
        }
        i = i + 1;
    }
    proof {
        assert(list@.take(list@.len() as int) =~= list@);
    }
    copy
}

/// The characters of a text.
pub fn to_chars(s: &str) -> (out: Vec<char>)
    ensures
        out@ == s@,
{
    let mut out: Vec<char> = Vec::new();
    for c in it: s.chars()
        invariant
            out@ == it.seq().take(it.index()),
            it.seq() == s@,
    {
        proof {
            assert(it.seq().take(it.index() + 1) =~= it.seq().take(it.index()).push(c));
        }
        out.push(c);
    }
    proof {
        assert(s@.take(s@.len() as int) =~= s@);
    }
    out
}

/// Whether `pattern` stands in `s` at position `at`.
pub fn matches_at(s: &Vec<char>, pattern: &Vec<char>, at: usize) -> (found: bool)
    ensures
        found == occurs_at(s@, pattern@, at as int),
{
    if pattern.len() > s.len() || at > s.len() - pattern.len() {
        return false;
    }
    let n: usize = s.len();
    let mut i: usize = 0;
    while i < pattern.len()
        invariant
            i <= pattern@.len(),
            n == s@.len(),
            at + pattern@.len() <= n,
            forall|k: int| 0 <= k < i ==> s@[at + k] == #[trigger] pattern@[k],
        decreases pattern@.len() - i,
    {
        if s[at + i] != pattern[i] {
            proof {
                assert(s@.subrange(at as int, at + pattern@.len())[i as int] != pattern@[i as int]);
            }
            return false;
        }
        i = i + 1;
    }
    proof {
        assert(s@.subrange(at as int, at + pattern@.len()) =~= pattern@);
    }
    true
}

/// The position at which `pattern` first stands in `s`.
pub fn find_text(s: &Vec<char>, pattern: &Vec<char>) -> (found: Option<usize>)
    ensures
        match found {
            Some(i) => occurs_at(s@, pattern@, i as int) && forall|j: int|
                j < i ==> !occurs_at(s@, pattern@, j),
            None => !has_text(s@, pattern@),
        },
{
    let mut i: usize = 0;
    while i < s.len()
        invariant
            i <= s@.len(),
            forall|j: int| j < i ==> !occurs_at(s@, pattern@, j),
        decreases s@.len() - i,
    {
        if matches_at(s, pattern, i) {
            return Some(i);
        }
        i = i + 1;
    }
    if matches_at(s, pattern, i) {
        return Some(i);
    }
    None
}

/// Whether `pattern` stands somewhere in `s`.
pub fn contains(s: &str, pattern: &str) -> (found: bool)
    ensures
        found == has_text(s@, pattern@),
{
    match find_text(&to_chars(s), &to_chars(pattern)) {
        Some(_) => true,
        None => false,
    }
}

/// Whether `s` begins with `pattern`.
pub fn starts_with(s: &str, pattern: &str) -> (found: bool)
    ensures
        found == begins_with(s@, pattern@),
{
    matches_at(&to_chars(s), &to_chars(pattern), 0)
}

/// Whether two texts are the same.
pub fn same_text(a: &str, b: &str) -> (same: bool)
    ensures
        same == (a@ == b@),
{
    let x: Vec<char> = to_chars(a);
    let y: Vec<char> = to_chars(b);
    let same = x.len() == y.len() && matches_at(&x, &y, 0);
    proof {
        if x@.len() == y@.len() {
            assert(x@.subrange(0, x@.len() as int) =~= x@);
        }
    }
    same
}

/// Every character of the text is an ASCII character.
pub open spec fn ascii(s: Seq<char>) -> bool {
    forall|i: int| 0 <= i < s.len() ==> (#[trigger] s[i] as u32) < 128
}

/// The lowercase form of an ASCII letter; any other character stays as it is.
pub open spec fn ascii_lower(c: char) -> char {
    if 'A' <= c <= 'Z' {
        (c as u32 + 32) as char
    } else {
        c
    }
}

/// The uppercase form of an ASCII letter; any other character stays as it is.
pub open spec fn ascii_upper(c: char) -> char {
    if 'a' <= c <= 'z' {
        (c as u32 - 32) as char
    } else {
        c
    }
}

/// The text with its ASCII letters in lowercase.
pub open spec fn ascii_lowercase(s: Seq<char>) -> Seq<char> {
    s.map_values(|c: char| ascii_lower(c))
}

/// The text with its ASCII letters in uppercase.
pub open spec fn ascii_uppercase(s: Seq<char>) -> Seq<char> {
    s.map_values(|c: char| ascii_upper(c))
}

/// The lowercase form of a text by the Unicode case mapping, as `str::to_lowercase`
/// gives it.
pub uninterp spec fn unicode_lowercase(s: Seq<char>) -> Seq<char>;

/// Calls `str::to_lowercase`. Its result depends on the text alone, by the Unicode
/// case mapping. In a text of ASCII characters that is to put the letters `A` to `Z`
/// in lowercase and to leave every other character; nothing else is claimed of it.
#[verifier::external_body]
fn str_to_lowercase(s: &str) -> (out: String)
    ensures
        out@ == unicode_lowercase(s@),
        ascii(s@) ==> out@ == ascii_lowercase(s@),
{
    s.to_lowercase()
}

/// The lowercase form of a text.
pub open spec fn lowercase(s: Seq<char>) -> Seq<char> {
    if ascii(s) {
        ascii_lowercase(s)
    } else {
        unicode_lowercase(s)
    }
}

/// The lowercase form of a text.
pub(crate) fn to_lowercase(s: &str) -> (out: String)
    ensures
        out@ == lowercase(s@),
{
    str_to_lowercase(s)
}

/// In which case the letters of an ASCII text are written plays no part in its
/// lowercase form.
pub proof fn lemma_lowercase_of_uppercase(s: Seq<char>)
    requires
        ascii(s),
    ensures
        ascii(ascii_uppercase(s)),
        lowercase(ascii_uppercase(s)) == lowercase(s),
{
    let u = ascii_uppercase(s);
    assert forall|i: int| 0 <= i < u.len() implies (#[trigger] u[i] as u32) < 128 by {
        assert((s[i] as u32) < 128);
    }
    assert forall|i: int| 0 <= i < u.len() implies ascii_lowercase(u)[i] == ascii_lowercase(
        s,
    )[i] by {
        assert((s[i] as u32) < 128);
    }
    assert(ascii_lowercase(u) =~= ascii_lowercase(s));
}

/// The first `n` characters of `pattern` stand in `s` at position `at`.
pub open spec fn stands_at(s: Seq<char>, pattern: Seq<char>, at: int, n: nat) -> bool
    decreases n,
{
    n == 0 || (s[at + n - 1] == pattern[n - 1] && stands_at(s, pattern, at, (n - 1) as nat))
}

/// A pattern whose characters stand in `s` in a row stands in `s`.
pub proof fn lemma_has_text(s: Seq<char>, pattern: Seq<char>, at: int)
    requires
        0 <= at,
        at + pattern.len() <= s.len(),
        stands_at(s, pattern, at, pattern.len()),
    ensures
        has_text(s, pattern),
{
    lemma_stands_each(s, pattern, at, pattern.len());
    assert(s.subrange(at, at + pattern.len()) =~= pattern);
    assert(occurs_at(s, pattern, at));
}

/// Characters that stand in a row stand there one by one.
proof fn lemma_stands_each(s: Seq<char>, pattern: Seq<char>, at: int, n: nat)
    requires
        stands_at(s, pattern, at, n),
    ensures
        forall|k: int| 0 <= k < n ==> s[at + k] == #[trigger] pattern[k],
    decreases n,
{
    if n > 0 {
        lemma_stands_each(s, pattern, at, (n - 1) as nat);
    }
}

/// A text stands in itself.
pub proof fn lemma_has_itself(s: Seq<char>)
    ensures
        has_text(s, s),
{
    assert(s.subrange(0, s.len() as int) =~= s);
    assert(occurs_at(s, s, 0));
}

/// The characters `c` and `d` do not follow each other at any of the first `n`
/// positions of `s`.
pub open spec fn apart(s: Seq<char>, c: char, d: char, n: nat) -> bool
    decreases n,
{
    n == 0 || (!(s[n - 1] == c && s[n as int] == d) && apart(s, c, d, (n - 1) as nat))
}

/// A pattern does not stand in `s` where two characters that follow each other in it
/// do not in `s`.
pub proof fn lemma_lacks_text(s: Seq<char>, pattern: Seq<char>, k: int)
    requires
        0 <= k < pattern.len() - 1,
        s.len() > 0,
        apart(s, pattern[k], pattern[k + 1], (s.len() - 1) as nat),
    ensures
        !has_text(s, pattern),
{
    lemma_apart_each(s, pattern[k], pattern[k + 1], (s.len() - 1) as nat);
    if has_text(s, pattern) {
        let i = choose|i: int| occurs_at(s, pattern, i);
        assert(s.subrange(i, i + pattern.len())[k] == s[i + k]);
        assert(s.subrange(i, i + pattern.len())[k + 1] == s[i + k + 1]);
    }
}

/// Characters that are apart do not follow each other at any position.
proof fn lemma_apart_each(s: Seq<char>, c: char, d: char, n: nat)
    requires
        apart(s, c, d, n),
    ensures
        forall|i: int| 0 <= i < n ==> !(#[trigger] s[i] == c && s[i + 1] == d),
    decreases n,
{
    if n > 0 {
        lemma_apart_each(s, c, d, (n - 1) as nat);
    }
}

/// The first `n` characters of `s` are ASCII characters whose lowercase forms are
/// those of `t`.
pub open spec fn lowers_to(s: Seq<char>, t: Seq<char>, n: nat) -> bool
    decreases n,
{
    n == 0 || ((s[n - 1] as u32) < 128 && ascii_lower(s[n - 1]) == t[n - 1] && lowers_to(
        s,
        t,
        (n - 1) as nat,
    ))
}

/// The lowercase form of an ASCII text, character by character.
pub proof fn lemma_lowercase_is(s: Seq<char>, t: Seq<char>)
    requires
        s.len() == t.len(),
        lowers_to(s, t, s.len()),
    ensures
        lowercase(s) == t,
{
    lemma_lowers_each(s, t, s.len());
    assert(ascii_lowercase(s) =~= t);
}

/// Characters that are lowered in a row are lowered one by one.
proof fn lemma_lowers_each(s: Seq<char>, t: Seq<char>, n: nat)
    requires
        lowers_to(s, t, n),
    ensures
        forall|i: int|
            0 <= i < n ==> (#[trigger] s[i] as u32) < 128 && ascii_lower(s[i]) == t[i],
    decreases n,
{
    if n > 0 {
        lemma_lowers_each(s, t, (n - 1) as nat);
    }
}

/// The character has the Unicode property White_Space.
pub open spec fn whitespace(c: char) -> bool {
    ||| '\u{9}' <= c <= '\u{D}'
    ||| c == ' '
    ||| c == '\u{85}'
    ||| c == '\u{A0}'
    ||| c == '\u{1680}'
    ||| '\u{2000}' <= c <= '\u{200A}'
    ||| c == '\u{2028}'
    ||| c == '\u{2029}'
    ||| c == '\u{202F}'
    ||| c == '\u{205F}'
    ||| c == '\u{3000}'
}

/// Whether the character has the Unicode property White_Space.
pub fn is_whitespace(c: char) -> (white: bool)
    ensures
        white == whitespace(c),
{
    (c >= '\u{9}' && c <= '\u{D}') || c == ' ' || c == '\u{85}' || c == '\u{A0}' || c == '\u{1680}'
        || (c >= '\u{2000}' && c <= '\u{200A}') || c == '\u{2028}' || c == '\u{2029}' || c
        == '\u{202F}' || c == '\u{205F}' || c == '\u{3000}'
}

/// `s` without the whitespace at its two ends.
pub open spec fn trimmed(s: Seq<char>) -> Seq<char>
    decreases s.len(),
{
    if s.len() == 0 {
        s
    } else if whitespace(s.first()) {
        trimmed(s.drop_first())
    } else if whitespace(s.last()) {
        trimmed(s.drop_last())
    } else {
        s
    }
}

/// What is left of a text without the whitespace at its ends is a part of it.
pub proof fn lemma_trimmed_is_part(s: Seq<char>) -> (bounds: (int, int))
    ensures
        0 <= bounds.0 <= bounds.1 <= s.len(),
        trimmed(s) == s.subrange(bounds.0, bounds.1),
    decreases s.len(),
{
    if s.len() == 0 {
        assert(s.subrange(0, 0) =~= s);
        (0, 0)
    } else if whitespace(s.first()) {
        let (a, b) = lemma_trimmed_is_part(s.drop_first());
        assert(s.drop_first().subrange(a, b) =~= s.subrange(a + 1, b + 1));
        (a + 1, b + 1)
    } else if whitespace(s.last()) {
        let (a, b) = lemma_trimmed_is_part(s.drop_last());
        assert(s.drop_last().subrange(a, b) =~= s.subrange(a, b));
        (a, b)
    } else {
        assert(s.subrange(0, s.len() as int) =~= s);
        (0, s.len() as int)
    }
}

/// What is left of a text without the whitespace at its ends has none there.
pub proof fn lemma_trimmed_twice(s: Seq<char>)
    ensures
        trimmed(trimmed(s)) == trimmed(s),
    decreases s.len(),
{
    if s.len() > 0 {
        if whitespace(s.first()) {
            lemma_trimmed_twice(s.drop_first());
        } else if whitespace(s.last()) {
            lemma_trimmed_twice(s.drop_last());
        }
    }
}

/// The first `end` characters of `s`, without the whitespace at their two ends.
pub fn trim_prefix(s: &str, end: usize) -> (out: String)
    requires
        end <= s@.len(),
    ensures
        out@ == trimmed(s@.take(end as int)),
{
    let chars: Vec<char> = to_chars(s);
    let mut from: usize = 0;
    let mut to: usize = end;
    proof {
        assert(s@.take(end as int) =~= chars@.subrange(0, end as int));
    }
    while from < to && is_whitespace(chars[from])
        invariant
            from <= to <= chars@.len(),
            chars@ == s@,
            trimmed(s@.take(end as int)) == trimmed(chars@.subrange(from as int, to as int)),
        decreases to - from,
    {
        proof {
            assert(chars@.subrange(from as int, to as int).drop_first() =~= chars@.subrange(
                from + 1,
                to as int,
            ));
        }
        from = from + 1;
    }
    while from < to && is_whitespace(chars[to - 1])
        invariant
            from <= to <= chars@.len(),
            chars@ == s@,
            from < to ==> !whitespace(chars@[from as int]),
            trimmed(s@.take(end as int)) == trimmed(chars@.subrange(from as int, to as int)),
        decreases to - from,
    {
        proof {
            assert(chars@.subrange(from as int, to as int).drop_last() =~= chars@.subrange(
                from as int,
                to - 1,
            ));
        }
        to = to - 1;
    }
    s.substring_char(from, to).to_owned()
}

/// The character of a decimal digit.
pub open spec fn digit(d: nat) -> char {
    "0123456789"@[d as int]
}

/// The decimal form of a number, without leading zeros.
pub open spec fn decimal(n: nat) -> Seq<char>
    decreases n,
{
    if n < 10 {
        seq![digit(n)]
    } else {
        decimal(n / 10).push(digit(n % 10))
    }
}

/// The decimal form of `n`.
pub fn decimal_text(n: u64) -> (out: String)
    ensures
        out@ == decimal(n as nat),
    decreases n,
{
    proof {
        reveal_strlit("0123456789");
    }
    if n < 10 {
        let out: String = "0123456789".substring_char(n as usize, n as usize + 1).to_owned();
        proof {
            assert(out@ =~= seq![digit(n as nat)]);
        }
        out
    } else {
        let mut out: String = decimal_text(n / 10);
        let ghost before = out@;
        let d: usize = (n % 10) as usize;
        out.append("0123456789".substring_char(d, d + 1));
        proof {
            assert(out@ =~= before.push(digit((n % 10) as nat)));
        }
        out
    }
}

/// The decimal form of a number that may be negative.
pub open spec fn signed_decimal(n: int) -> Seq<char> {
    if n < 0 {
        "-"@ + decimal((-n) as nat)
    } else {
        decimal(n as nat)
    }
}

/// The decimal form of a number that may be negative.
pub fn signed_text(n: i32) -> (out: String)
    ensures
        out@ == signed_decimal(n as int),
{
    if n < 0 {
        let mut out: String = "-".to_owned();
        let size: u64 = (-(n as i64)) as u64;
        out.append(decimal_text(size).as_str());
        out
    } else {
        decimal_text(n as u64)
    }
}

/// Whether a character is a decimal digit.
pub open spec fn is_digit(c: char) -> bool {
    '0' <= c <= '9'
}

/// The number that a row of decimal digits stands for.
pub open spec fn digits_value(s: Seq<char>) -> nat
    decreases s.len(),
{
    if s.len() == 0 {
        0
    } else {
        (digits_value(s.drop_last()) * 10 + (s.last() as int - '0' as int)) as nat
    }
}

/// A number reads back from its decimal form.
pub proof fn lemma_decimal_reads_back(n: nat)
    ensures
        digits_value(decimal(n)) == n,
        decimal(n).len() > 0,
        forall|i: int| 0 <= i < decimal(n).len() ==> is_digit(#[trigger] decimal(n)[i]),
    decreases n,
{
    reveal_strlit("0123456789");
    if n < 10 {
        assert(decimal(n).drop_last() =~= Seq::<char>::empty());
        assert(digits_value(decimal(n).drop_last()) == 0);
    } else {
        lemma_decimal_reads_back(n / 10);
        assert(decimal(n).drop_last() =~= decimal(n / 10));
    }
}

/// The number that a text stands for, where the text is a row of at least one
/// digit and the number has at most 32 bits.
pub open spec fn digits_u32(s: Seq<char>) -> Option<u32> {
    if s.len() > 0 && (forall|i: int| 0 <= i < s.len() ==> is_digit(#[trigger] s[i]))
        && digits_value(s) <= u32::MAX {
        Some(digits_value(s) as u32)
    } else {
        None
    }
}

/// The number that a text stands for: as `digits_u32`, but the digits may
/// follow a `+`.
pub open spec fn parsed_u32(s: Seq<char>) -> Option<u32> {
    if s.len() > 0 && s[0] == '+' {
        digits_u32(s.drop_first())
    } else {
        digits_u32(s)
    }
}

/// A row of digits stands for no less than any part that it begins with.
proof fn lemma_prefix_value(s: Seq<char>, i: int)
    requires
        0 <= i <= s.len(),
        forall|k: int| 0 <= k < s.len() ==> is_digit(#[trigger] s[k]),
    ensures
        digits_value(s.take(i)) <= digits_value(s),
    decreases s.len() - i,
{
    if i == s.len() {
        assert(s.take(i) =~= s);
    } else {
        lemma_prefix_value(s, i + 1);
        assert(s.take(i + 1).drop_last() =~= s.take(i));
        assert(is_digit(s[i]));
    }
}

/// The number that `s[from..to]` is the decimal form of.
pub fn parse_u32(s: &Vec<char>, from: usize, to: usize) -> (value: Option<u32>)
    requires
        from <= to <= s@.len(),
    ensures
        value == parsed_u32(s@.subrange(from as int, to as int)),
{
    let ghost part = s@.subrange(from as int, to as int);
    let start: usize = if from < to && s[from] == '+' {
        from + 1
    } else {
        from
    };
    let ghost digits = s@.subrange(start as int, to as int);
    proof {
        if start == from {
            assert(digits =~= part);
        } else {
            assert(digits =~= part.drop_first());
        }
        assert(parsed_u32(part) == digits_u32(digits));
    }
    if start == to {
        return None;
    }
    let mut i: usize = start;
    let mut value: u64 = 0;
    while i < to
        invariant
            start <= i <= to <= s@.len(),
            digits == s@.subrange(start as int, to as int),
            parsed_u32(s@.subrange(from as int, to as int)) == digits_u32(digits),
            value == digits_value(digits.take(i - start)),
            value <= u32::MAX,
            forall|k: int| 0 <= k < i - start ==> is_digit(#[trigger] digits[k]),
        decreases to - i,
    {
        let c: char = s[i];
        proof {
            assert(digits[i - start] == c);
            assert(digits.take(i - start + 1).drop_last() =~= digits.take(i - start));
        }
        if c < '0' || c > '9' {
            return None;
        }
        value = value * 10 + (c as u64 - '0' as u64);
        if value > u32::MAX as u64 {
            proof {
                if forall|k: int| 0 <= k < digits.len() ==> is_digit(#[trigger] digits[k]) {
                    lemma_prefix_value(digits, i - start + 1);
                }
            }
            return None;
        }
        i = i + 1;
    }
    proof {
        assert(digits.take(to - start) =~= digits);
    }
    Some(value as u32)
}

/// The order of texts by the code points of their characters, the first
/// difference deciding; a text comes before every longer one that it begins.
pub open spec fn text_less(a: Seq<char>, b: Seq<char>) -> bool
    decreases a.len(),
{
    if b.len() == 0 {
        false
    } else if a.len() == 0 {
        true
    } else if a[0] != b[0] {
        a[0] < b[0]
    } else {
        text_less(a.drop_first(), b.drop_first())
    }
}

/// No text comes before itself.
pub proof fn lemma_less_irreflexive(a: Seq<char>)
    ensures
        !text_less(a, a),
    decreases a.len(),
{
    if a.len() > 0 {
        lemma_less_irreflexive(a.drop_first());
    }
}

/// The order of texts is transitive.
pub proof fn lemma_less_transitive(a: Seq<char>, b: Seq<char>, c: Seq<char>)
    requires
        text_less(a, b),
        text_less(b, c),
    ensures
        text_less(a, c),
    decreases a.len(),
{
    if a.len() > 0 && a[0] == b[0] && b[0] == c[0] {
        lemma_less_transitive(a.drop_first(), b.drop_first(), c.drop_first());
    }
}

/// Of two different texts one comes before the other.
pub proof fn lemma_less_total(a: Seq<char>, b: Seq<char>)
    ensures
        a == b || text_less(a, b) || text_less(b, a),
    decreases a.len(),
{
    if a.len() > 0 && b.len() > 0 && a[0] == b[0] {
        lemma_less_total(a.drop_first(), b.drop_first());
        if a.drop_first() == b.drop_first() {
            assert(a =~= seq![a[0]] + a.drop_first());
            assert(b =~= seq![b[0]] + b.drop_first());
        }
    } else if a.len() == 0 && b.len() == 0 {
        assert(a =~= b);
    }
}

/// Whether `a` comes before `b` in the order of texts.
pub fn comes_before(a: &str, b: &str) -> (before: bool)
    ensures
        before == text_less(a@, b@),
{
    let x: Vec<char> = to_chars(a);
    let y: Vec<char> = to_chars(b);
    let mut i: usize = 0;
    proof {
        assert(a@.skip(0) =~= a@);
        assert(b@.skip(0) =~= b@);
    }
    while i < x.len() && i < y.len() && x[i] == y[i]
        invariant
            x@ == a@,
            y@ == b@,
            i <= x@.len(),
            i <= y@.len(),
            text_less(a@, b@) == text_less(a@.skip(i as int), b@.skip(i as int)),
        decreases x@.len() - i,
    {
        proof {
            assert(a@.skip(i as int).drop_first() =~= a@.skip(i + 1));
            assert(b@.skip(i as int).drop_first() =~= b@.skip(i + 1));
        }
        i = i + 1;
    }
    if i >= y.len() {
        false
    } else if i >= x.len() {
        true
    } else {
        x[i] < y[i]
    }
}

/// A pattern stands in a text exactly where there is a position from which on the text
/// has the characters of the pattern, one by one; a text begins with a pattern where
/// that position is the first.
pub proof fn law_search_compares_characters(s: Seq<char>, pattern: Seq<char>)
    ensures
        has_text(s, pattern) <==> exists|i: int|
            0 <= i && i + pattern.len() <= s.len() && #[trigger] same_characters(s, pattern, i),
        begins_with(s, pattern) <==> pattern.len() <= s.len() && forall|k: int|
            0 <= k < pattern.len() ==> s[k] == #[trigger] pattern[k],
{
    assert forall|i: int| 0 <= i && i + pattern.len() <= s.len() implies (#[trigger] occurs_at(
        s,
        pattern,
        i,
    ) <==> same_characters(s, pattern, i)) by {
        let part = s.subrange(i, i + pattern.len());
        if same_characters(s, pattern, i) {
            assert forall|k: int| 0 <= k < pattern.len() implies part[k] == pattern[k] by {
                assert(s[i + k] == pattern[k]);
            }
            assert(part =~= pattern);
        }
        if occurs_at(s, pattern, i) {
            assert forall|k: int| 0 <= k < pattern.len() implies s[i + k] == #[trigger] pattern[k] by {
                assert(part[k] == s[i + k]);
            }
        }
    }
    if has_text(s, pattern) {
        let i = choose|i: int| occurs_at(s, pattern, i);
        assert(same_characters(s, pattern, i));
    }
    if exists|i: int|
        0 <= i && i + pattern.len() <= s.len() && #[trigger] same_characters(s, pattern, i) {
        let i = choose|i: int|
            0 <= i && i + pattern.len() <= s.len() && #[trigger] same_characters(s, pattern, i);
        assert(occurs_at(s, pattern, i));
    }
    if pattern.len() <= s.len() {
        assert(occurs_at(s, pattern, 0) <==> same_characters(s, pattern, 0));
        if forall|k: int| 0 <= k < pattern.len() ==> s[k] == #[trigger] pattern[k] {
            assert forall|k: int| 0 <= k < pattern.len() implies s[0 + k] == #[trigger] pattern[k] by {
                assert(s[k] == pattern[k]);
            }
        }
        if same_characters(s, pattern, 0) {
            assert forall|k: int| 0 <= k < pattern.len() implies s[k] == #[trigger] pattern[k] by {
                assert(s[0 + k] == pattern[k]);
            }
        }
    }
}

/// From position `i` on `s` has the characters of `pattern`, one by one.
pub open spec fn same_characters(s: Seq<char>, pattern: Seq<char>, i: int) -> bool {
    forall|k: int| 0 <= k < pattern.len() ==> s[i + k] == #[trigger] pattern[k]
}

/// In an ASCII text to lowercase puts `a` to `z` for `A` to `Z`, which lie 32 code points
/// before them, and leaves every other character.
pub proof fn law_lowercase_by_character(s: Seq<char>, i: int)
    requires
        forall|k: int| 0 <= k < s.len() ==> (#[trigger] s[k] as u32) < 128,
        0 <= i < s.len(),
    ensures
        lowercase(s).len() == s.len(),
        65 <= s[i] as u32 <= 90 ==> lowercase(s)[i] as u32 == s[i] as u32 + 32,
        !(65 <= s[i] as u32 <= 90) ==> lowercase(s)[i] == s[i],
{
}

/// What is trimmed off a text is the whitespace at its two ends, all of it and nothing
/// else.
pub proof fn law_trimming_takes_whitespace(s: Seq<char>) -> (bounds: (int, int))
    ensures
        0 <= bounds.0 <= bounds.1 <= s.len(),
        trimmed(s) == s.subrange(bounds.0, bounds.1),
        forall|k: int| 0 <= k < bounds.0 ==> whitespace(#[trigger] s[k]),
        forall|k: int| bounds.1 <= k < s.len() ==> whitespace(#[trigger] s[k]),
        bounds.0 < bounds.1 ==> !whitespace(s[bounds.0]) && !whitespace(s[bounds.1 - 1]),
    decreases s.len(),
{
    if s.len() == 0 {
        assert(trimmed(s) =~= s.subrange(0, 0));
        (0, 0)
    } else if whitespace(s.first()) {
        let t = s.drop_first();
        let (a, b) = law_trimming_takes_whitespace(t);
        assert(t.subrange(a, b) =~= s.subrange(a + 1, b + 1));
        assert forall|k: int| 0 <= k < a + 1 implies whitespace(#[trigger] s[k]) by {
            if k > 0 {
                assert(whitespace(t[k - 1]));
            }
        }
        assert forall|k: int| b + 1 <= k < s.len() implies whitespace(#[trigger] s[k]) by {
            assert(whitespace(t[k - 1]));
        }
        (a + 1, b + 1)
    } else if whitespace(s.last()) {
        let t = s.drop_last();
        let (a, b) = law_trimming_takes_whitespace(t);
        assert(t.subrange(a, b) =~= s.subrange(a, b));
        assert forall|k: int| 0 <= k < a implies whitespace(#[trigger] s[k]) by {
            assert(whitespace(t[k]));
        }
        assert forall|k: int| b <= k < s.len() implies whitespace(#[trigger] s[k]) by {
            if k < t.len() {
                assert(whitespace(t[k]));
            }
        }
        (a, b)
    } else {
        assert(s =~= s.subrange(0, s.len() as int));
        (0, s.len() as int)
    }
}

/// The decimal form of a number of more than one digit is that of the number without its
/// last digit, followed by that digit; the digits are the code points from that of `0` on.
pub proof fn law_decimal_by_digits(n: nat, d: nat)
    requires
        d < 10,
    ensures
        decimal(d).len() == 1,
        decimal(d)[0] as int == 48 + d,
        n > 0 ==> decimal(10 * n + d) == decimal(n) + decimal(d),
{
    reveal_strlit("0123456789");
    if n > 0 {
        assert((10 * n + d) / 10 == n && (10 * n + d) % 10 == d);
        assert(decimal(10 * n + d) =~= decimal(n) + decimal(d));
    }
}

/// One text comes before another exactly where they agree up to some position and there
/// the first has ended and the second has not, or the first has the character with the
/// smaller code point.
pub proof fn law_order_by_first_difference(a: Seq<char>, b: Seq<char>)
    ensures
        text_less(a, b) <==> exists|i: int| #[trigger] differs_at(a, b, i),
    decreases a.len(),
{
    if b.len() > 0 && a.len() > 0 && a[0] == b[0] {
        let c = a.drop_first();
        let d = b.drop_first();
        law_order_by_first_difference(c, d);
        if text_less(c, d) {
            let i = choose|i: int| #[trigger] differs_at(c, d, i);
            assert forall|k: int| 0 <= k < i + 1 implies #[trigger] a[k] == b[k] by {
                if k > 0 {
                    assert(c[k - 1] == d[k - 1]);
                }
            }
            assert(differs_at(a, b, i + 1));
        }
        if exists|i: int| #[trigger] differs_at(a, b, i) {
            let i = choose|i: int| #[trigger] differs_at(a, b, i);
            assert(i > 0);
            assert forall|k: int| 0 <= k < i - 1 implies #[trigger] c[k] == d[k] by {
                assert(a[k + 1] == b[k + 1]);
            }
            assert(differs_at(c, d, i - 1));
        }
    } else if b.len() > 0 && (a.len() == 0 || a[0] != b[0]) {
        if text_less(a, b) {
            assert(differs_at(a, b, 0));
        }
        if exists|i: int| #[trigger] differs_at(a, b, i) {
            let i = choose|i: int| #[trigger] differs_at(a, b, i);
            if i > 0 {
                assert(a[0] == b[0]);
            }
        }
    }
}

/// The texts agree before position `i`, and there `a` comes first.
pub open spec fn differs_at(a: Seq<char>, b: Seq<char>, i: int) -> bool {
    &&& 0 <= i <= a.len()
    &&& i < b.len()
    &&& forall|k: int| 0 <= k < i ==> #[trigger] a[k] == b[k]
    &&& i == a.len() || a[i] < b[i]
}

/// What is said of an optional text, and of a list of texts, is what they hold.
pub proof fn law_texts_hold_their_characters(s: Option<String>, t: Option<&str>, list: Seq<String>)
    ensures
        s matches Some(text) ==> opt_string(s) == Some(text@),
        s is None ==> opt_string(s) is None && text_or_empty(opt_string(s)).len() == 0,
        s matches Some(text) ==> text_or_empty(opt_string(s)) == text@,
        t matches Some(text) ==> opt_text(t) == Some(text@),
        t is None ==> opt_text(t) is None,
        texts(list).len() == list.len(),
        forall|i: int| 0 <= i < list.len() ==> #[trigger] texts(list)[i] == list[i]@,
{
}

/// A further digit makes a number ten times as large and adds its own value. A text is read
/// as a number where it is a row of digits, perhaps behind one `+`, of a number that 32 bits
/// hold; any other text is none.
pub proof fn law_numbers_by_digits(s: Seq<char>, c: char)
    requires
        '0' <= c <= '9',
    ensures
        digits_value(s.push(c)) == digits_value(s) * 10 + (c as int - 48),
        digits_value(Seq::empty()) == 0,
        parsed_u32(Seq::empty()) is None,
        parsed_u32(seq!['+']) is None,
        ({
            let digits = forall|i: int| 0 <= i < s.len() ==> '0' <= #[trigger] s[i] <= '9';
            let small = digits_value(s) <= 0xFFFF_FFFF;
            &&& s.len() > 0 && digits && small ==> parsed_u32(s) == Some(digits_value(s) as u32)
                && parsed_u32(seq!['+'] + s) == Some(digits_value(s) as u32)
            &&& s.len() > 0 && s[0] != '+' && !(digits && small) ==> parsed_u32(s) is None
            &&& !(digits && small) ==> parsed_u32(seq!['+'] + s) is None
        }),
{
    assert(s.push(c).drop_last() =~= s);
    let signed = seq!['+'] + s;
    assert(signed.drop_first() =~= s);
    assert(seq!['+'].drop_first() =~= Seq::<char>::empty());
    let digits = forall|i: int| 0 <= i < s.len() ==> '0' <= #[trigger] s[i] <= '9';
    let are = forall|i: int| 0 <= i < s.len() ==> is_digit(#[trigger] s[i]);
    if digits {
        assert(are);
        if s.len() > 0 {
            assert(is_digit(s[0]));
        }
    }
    if are {
        assert forall|i: int| 0 <= i < s.len() implies '0' <= #[trigger] s[i] <= '9' by {
            assert(is_digit(s[i]));
        }
    }
}

} // verus!
