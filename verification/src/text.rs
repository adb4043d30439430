//! Character-level string helpers shared by the library.

use vstd::prelude::*;

verus! {

/// Decimal digits of a natural number, most significant first.
pub open spec fn spec_decimal(n: nat) -> Seq<char>
    decreases n,
{
    if n < 10 {
        seq![spec_digit_char(n)]
    } else {
        spec_decimal(n / 10) + seq![spec_digit_char(n % 10)]
    }
}

/// The ASCII digit for a value below ten.
pub open spec fn spec_digit_char(d: nat) -> char {
    if d == 0 { '0' } else if d == 1 { '1' } else if d == 2 { '2' } else if d == 3 { '3' }
    else if d == 4 { '4' } else if d == 5 { '5' } else if d == 6 { '6' } else if d == 7 { '7' }
    else if d == 8 { '8' } else { '9' }
}

/// Whether `c` is an ASCII decimal digit.
pub open spec fn is_digit(c: char) -> bool {
    '0' <= c && c <= '9'
}

/// The number a run of decimal digits denotes, most significant first.
pub open spec fn digits_value(s: Seq<char>) -> int
    decreases s.len(),
{
    if s.len() == 0 {
        0
    } else {
        digits_value(s.drop_last()) * 10 + (s.last() as int - '0' as int)
    }
}

/// A numeral in canonical decimal form: one or more digits, without a leading zero
/// unless it is `0` itself.
pub open spec fn is_decimal_numeral(s: Seq<char>) -> bool {
    &&& s.len() > 0
    &&& forall|i: int| 0 <= i < s.len() ==> is_digit(#[trigger] s[i])
    &&& s.len() > 1 ==> s[0] != '0'
}

/// The number a signed numeral denotes: a leading `-` negates the digits after it.
pub open spec fn signed_value(s: Seq<char>) -> int {
    if s.len() > 0 && s[0] == '-' {
        -digits_value(s.drop_first())
    } else {
        digits_value(s)
    }
}

/// The decimal text of `n` is a canonical numeral that reads back as `n`.
pub proof fn lemma_decimal_reads_back(n: nat)
    ensures
        is_decimal_numeral(spec_decimal(n)),
        digits_value(spec_decimal(n)) == n,
    decreases n,
{
    let d = (n % 10) as nat;
    let c = spec_digit_char(d);
    assert(is_digit(c) && c as int - '0' as int == d) by {
        if d == 0 {} else if d == 1 {} else if d == 2 {} else if d == 3 {} else if d == 4 {}
        else if d == 5 {} else if d == 6 {} else if d == 7 {} else if d == 8 {} else {}
    }
    if n < 10 {
        let t = seq![c];
        assert(t.drop_last() =~= Seq::<char>::empty());
        assert(t.last() == c);
        assert(digits_value(t) == digits_value(t.drop_last()) * 10 + (c as int - '0' as int));
        assert(n % 10 == n);
        if n > 0 {
            assert(c != '0');
        }
    } else {
        lemma_decimal_reads_back(n / 10);
        let p = spec_decimal(n / 10);
        let t = p + seq![c];
        assert(t.drop_last() =~= p);
        assert(t.last() == c);
        assert(digits_value(t) == digits_value(p) * 10 + (c as int - '0' as int));
        assert(t[0] == p[0]);
        assert forall|i: int| 0 <= i < t.len() implies is_digit(#[trigger] t[i]) by {
            if i < p.len() {
                assert(t[i] == p[i]);
            }
        }
        if p.len() == 1 {
            assert(p.drop_last() =~= Seq::<char>::empty());
            assert(p.last() == p[0]);
            assert(digits_value(p) == digits_value(p.drop_last()) * 10 + (p[0] as int - '0' as int));
            assert(p[0] != '0');
        }
        assert(n == (n / 10) * 10 + n % 10);
    }
}

/// The ASCII digit for a value below ten.
pub fn digit_char(d: u64) -> (c: char)
    requires
        d < 10,
    ensures
        c == spec_digit_char(d as nat),
{
    if d == 0 { '0' } else if d == 1 { '1' } else if d == 2 { '2' } else if d == 3 { '3' }
    else if d == 4 { '4' } else if d == 5 { '5' } else if d == 6 { '6' } else if d == 7 { '7' }
    else if d == 8 { '8' } else { '9' }
}

/// Formats an unsigned integer in decimal.
pub fn usize_to_string(n: usize) -> (s: String)
    ensures
        s@ == spec_decimal(n as nat),
{
    u64_to_string(n as u64)
}

/// Formats an unsigned integer in decimal, most significant digit first.
pub fn u64_to_string(n: u64) -> (s: String)
    ensures
        s@ == spec_decimal(n as nat),
    decreases n,
{
    if n < 10 {
        let mut s = String::new();
        string_push(&mut s, digit_char(n));
        assert(s@ =~= seq![spec_digit_char(n as nat)]);
        s
    } else {
        let mut s = u64_to_string(n / 10);
        string_push(&mut s, digit_char(n % 10));
        s
    }
}

/// Appends one character (`String::push`).
#[verifier::external_body]
pub(crate) fn string_push(s: &mut String, c: char)
    ensures
        final(s)@ == old(s)@.push(c),
{
    s.push(c);
}

/// Removes and returns the last character (`String::pop`).
#[verifier::external_body]
pub(crate) fn string_pop(s: &mut String) -> (r: Option<char>)
    ensures
        old(s)@.len() == 0 ==> r is None && final(s)@ == old(s)@,
        old(s)@.len() > 0 ==> r == Some(old(s)@.last()) && final(s)@ == old(s)@.drop_last(),
{
    s.pop()
}

/// Empties a string (`String::clear`).
#[verifier::external_body]
pub(crate) fn string_clear(s: &mut String)
    ensures
        final(s)@ == Seq::<char>::empty(),
{
    s.clear();
}

/// Builds a string from its characters (`String::from_iter` over chars).
#[verifier::external_body]
pub(crate) fn string_from_chars(cs: &Vec<char>) -> (s: String)
    ensures
        s@ == cs@,
{
    cs.iter().collect()
}

/// Copies the characters of a string, in order.
pub(crate) fn chars_of(s: &str) -> (cs: Vec<char>)
    ensures
        cs@ == s@,
{
    let n = s.unicode_len();
    let mut cs: Vec<char> = Vec::new();
    let mut i: usize = 0;
    while i < n
        invariant
            n == s@.len(),
            i <= n,
            cs@ == s@.subrange(0, i as int),
        decreases n - i,
    {
        cs.push(s.get_char(i));
        i = i + 1;
        assert(cs@ =~= s@.subrange(0, i as int));
    }
    assert(s@.subrange(0, n as int) =~= s@);
    cs
}

/// What `str::to_lowercase` returns for a string (full Unicode case mapping).
pub uninterp spec fn spec_to_lowercase(s: Seq<char>) -> Seq<char>;

/// Unicode lowercase mapping of a string (`str::to_lowercase`).
#[verifier::external_body]
pub(crate) fn to_lowercase(s: &str) -> (r: String)
    ensures
        r@ == spec_to_lowercase(s@),
{
    s.to_lowercase()
}

/// Concatenation of two strings into a new string.
pub fn concat_str(a: &str, b: &str) -> (r: String)
    ensures
        r@ == a@ + b@,
{
    let s = String::from_str(a);
    s.concat(b)
}

/// `needle` occurs as a contiguous run of `hay` starting at `start`.
pub open spec fn occurs_at(hay: Seq<char>, needle: Seq<char>, start: int) -> bool {
    &&& 0 <= start
    &&& start + needle.len() <= hay.len()
    &&& hay.subrange(start, start + needle.len()) == needle
}

/// `needle` is a substring of `hay` (`str::contains` with a string pattern).
pub open spec fn is_substring(hay: Seq<char>, needle: Seq<char>) -> bool {
    exists|start: int| #[trigger] occurs_at(hay, needle, start)
}

/// Whether `needle` occurs in `hay` at position `start` (character by character).
fn chars_match_at(hay: &Vec<char>, needle: &Vec<char>, start: usize) -> (r: bool)
    requires
        start + needle@.len() <= hay@.len(),
    ensures
        r == occurs_at(hay@, needle@, start as int),
{
    let hl = hay.len();
    let mut k: usize = 0;
    while k < needle.len()
        invariant
            hl == hay@.len(),
            k <= needle@.len(),
            start + needle@.len() <= hay@.len(),
            forall|j: int| 0 <= j < k ==> hay@[start + j] == needle@[j],
        decreases needle@.len() - k,
    {
        if hay[start + k] != needle[k] {
            assert(hay@.subrange(start as int, start + needle@.len())[k as int] != needle@[k as int]);
            return false;
        }
        k = k + 1;
    }
    assert(hay@.subrange(start as int, start + needle@.len()) =~= needle@);
    true
}

/// Substring search over character vectors.
pub fn chars_contain(hay: &Vec<char>, needle: &Vec<char>) -> (r: bool)
    ensures
        r == is_substring(hay@, needle@),
{
    if needle.len() > hay.len() {
        assert forall|start: int| !occurs_at(hay@, needle@, start) by {}
        return false;
    }
    if needle.len() == 0 {
        assert(hay@.subrange(0, 0) =~= needle@);
        assert(occurs_at(hay@, needle@, 0));
        return true;
    }
    let last = hay.len() - needle.len();
    let mut start: usize = 0;
    while start <= last
        invariant
            last == hay@.len() - needle@.len(),
            needle@.len() <= hay@.len(),
            needle@.len() > 0,
            last < usize::MAX,
            forall|s: int| 0 <= s < start ==> !occurs_at(hay@, needle@, s),
        decreases last + 1 - start,
    {
        if chars_match_at(hay, needle, start) {
            return true;
        }
        start = start + 1;
    }
    assert forall|s: int| !occurs_at(hay@, needle@, s) by {
        if 0 <= s < start {
        }
    }
    false
}

/// Whether a character occurs in a string (`str::contains` with a `char` pattern).
pub fn str_has_char(s: &str, c: char) -> (r: bool)
    ensures
        r == s@.contains(c),
{
    let n = s.unicode_len();
    let mut i: usize = 0;
    while i < n
        invariant
            n == s@.len(),
            i <= n,
            forall|j: int| 0 <= j < i ==> s@[j] != c,
        decreases n - i,
    {
        if s.get_char(i) == c {
            assert(s@[i as int] == c);
            return true;
        }
        i = i + 1;
    }
    false
}

/// ASCII lowercase of a single character (`char::to_ascii_lowercase`).
pub open spec fn ascii_lower(c: char) -> char {
    if 'A' <= c && c <= 'Z' {
        ((c as u32) + 32) as char
    } else {
        c
    }
}

/// Two strings are equal ignoring ASCII case (`str::eq_ignore_ascii_case`).
pub open spec fn eq_ignore_ascii_case(a: Seq<char>, b: Seq<char>) -> bool {
    &&& a.len() == b.len()
    &&& forall|i: int| 0 <= i < a.len() ==> ascii_lower(#[trigger] a[i]) == ascii_lower(b[i])
}

fn char_ascii_lower(c: char) -> (r: char)
    ensures
        r == ascii_lower(c),
{
    match c {
        'A' => 'a',
        'B' => 'b',
        'C' => 'c',
        'D' => 'd',
        'E' => 'e',
        'F' => 'f',
        'G' => 'g',
        'H' => 'h',
        'I' => 'i',
        'J' => 'j',
        'K' => 'k',
        'L' => 'l',
        'M' => 'm',
        'N' => 'n',
        'O' => 'o',
        'P' => 'p',
        'Q' => 'q',
        'R' => 'r',
        'S' => 's',
        'T' => 't',
        'U' => 'u',
        'V' => 'v',
        'W' => 'w',
        'X' => 'x',
        'Y' => 'y',
        'Z' => 'z',
        _ => c,
    }
}

/// Compares two strings ignoring ASCII case.
pub fn str_eq_ignore_ascii_case(a: &str, b: &str) -> (r: bool)
    ensures
        r == eq_ignore_ascii_case(a@, b@),
{
    let n = a.unicode_len();
    let m = b.unicode_len();
    if n != m {
        return false;
    }
    let mut i: usize = 0;
    while i < n
        invariant
            n == a@.len(),
            n == b@.len(),
            i <= n,
            forall|j: int| 0 <= j < i ==> ascii_lower(#[trigger] a@[j]) == ascii_lower(b@[j]),
        decreases n - i,
    {
        let ca = char_ascii_lower(a.get_char(i));
        let cb = char_ascii_lower(b.get_char(i));
        if ca != cb {
            return false;
        }
        i = i + 1;
    }
    true
}

/// Whether two strings hold the same characters.
pub fn str_eq(a: &str, b: &str) -> (r: bool)
    ensures
        r == (a@ == b@),
{
    let n = a.unicode_len();
    let m = b.unicode_len();
    if n != m {
        return false;
    }
    let mut i: usize = 0;
    while i < n
        invariant
            n == a@.len(),
            n == b@.len(),
            i <= n,
            forall|j: int| 0 <= j < i ==> a@[j] == b@[j],
        decreases n - i,
    {
        if a.get_char(i) != b.get_char(i) {
            return false;
        }
        i = i + 1;
    }
    assert(a@ =~= b@);
    true
}

/// Lower-case hexadecimal digit.
pub open spec fn spec_lower_hex_digit(d: nat) -> char {
    if d < 10 {
        spec_digit_char(d)
    } else if d == 10 { 'a' } else if d == 11 { 'b' } else if d == 12 { 'c' }
    else if d == 13 { 'd' } else if d == 14 { 'e' } else { 'f' }
}

/// Lower-case hexadecimal digits of a natural number without padding (`format!("{n:x}")`).
pub open spec fn spec_lower_hex(n: nat) -> Seq<char>
    decreases n,
{
    if n < 16 {
        seq![spec_lower_hex_digit(n)]
    } else {
        spec_lower_hex(n / 16) + seq![spec_lower_hex_digit(n % 16)]
    }
}

/// The lower-case hexadecimal digit for a value below sixteen.
pub fn lower_hex_digit(d: u64) -> (c: char)
    requires
        d < 16,
    ensures
        c == spec_lower_hex_digit(d as nat),
{
    if d < 10 {
        digit_char(d)
    } else if d == 10 { 'a' } else if d == 11 { 'b' } else if d == 12 { 'c' }
    else if d == 13 { 'd' } else if d == 14 { 'e' } else { 'f' }
}

/// Formats a 32-bit value in lower-case hexadecimal, without padding.
pub fn u32_to_lower_hex(n: u32) -> (s: String)
    ensures
        s@ == spec_lower_hex(n as nat),
{
    u64_to_lower_hex(n as u64)
}

/// Formats a 64-bit value in lower-case hexadecimal, without padding.
pub fn u64_to_lower_hex(n: u64) -> (s: String)
    ensures
        s@ == spec_lower_hex(n as nat),
    decreases n,
{
    if n < 16 {
        let mut s = String::new();
        string_push(&mut s, lower_hex_digit(n));
        assert(s@ =~= seq![spec_lower_hex_digit(n as nat)]);
        s
    } else {
        let mut s = u64_to_lower_hex(n / 16);
        string_push(&mut s, lower_hex_digit(n % 16));
        s
    }
}

/// The hexadecimal rendering of a number is never empty.
pub proof fn lemma_lower_hex_nonempty(n: nat)
    ensures
        spec_lower_hex(n).len() >= 1,
    decreases n,
{
    if n >= 16 {
        lemma_lower_hex_nonempty(n / 16);
    }
}

/// Distinct hexadecimal digit values are rendered as distinct characters.
proof fn lemma_lower_hex_digit_injective(a: nat, b: nat)
    requires
        a < 16,
        b < 16,
        spec_lower_hex_digit(a) == spec_lower_hex_digit(b),
    ensures
        a == b,
{
}

/// Distinct numbers have distinct hexadecimal renderings.
pub proof fn lemma_lower_hex_injective(a: nat, b: nat)
    requires
        spec_lower_hex(a) == spec_lower_hex(b),
    ensures
        a == b,
    decreases a + b,
{
    if a < 16 && b < 16 {
        assert(spec_lower_hex(a) == seq![spec_lower_hex_digit(a)]);
        assert(spec_lower_hex(b) == seq![spec_lower_hex_digit(b)]);
        assert(spec_lower_hex(a)[0] == spec_lower_hex_digit(a));
        assert(spec_lower_hex(b)[0] == spec_lower_hex_digit(b));
        lemma_lower_hex_digit_injective(a, b);
    } else if a < 16 {
        lemma_lower_hex_nonempty(b / 16);
        assert(spec_lower_hex(b).len() >= 2);
    } else if b < 16 {
        lemma_lower_hex_nonempty(a / 16);
        assert(spec_lower_hex(a).len() >= 2);
    } else {
        let ha = spec_lower_hex(a);
        let hb = spec_lower_hex(b);
        assert(ha.last() == spec_lower_hex_digit(a % 16));
        assert(hb.last() == spec_lower_hex_digit(b % 16));
        assert(ha.drop_last() =~= spec_lower_hex(a / 16));
        assert(hb.drop_last() =~= spec_lower_hex(b / 16));
        lemma_lower_hex_injective(a / 16, b / 16);
        lemma_lower_hex_digit_injective(a % 16, b % 16);
        assert(a == 16 * (a / 16) + a % 16) by (nonlinear_arith);
        assert(b == 16 * (b / 16) + b % 16) by (nonlinear_arith);
    }
}

/// A character with the Unicode `White_Space` property (`char::is_whitespace`).
pub open spec fn is_white_space(c: char) -> bool {
    let u = c as u32;
    ||| 0x9 <= u <= 0xD
    ||| u == 0x20
    ||| u == 0x85
    ||| u == 0xA0
    ||| u == 0x1680
    ||| 0x2000 <= u <= 0x200A
    ||| u == 0x2028
    ||| u == 0x2029
    ||| u == 0x202F
    ||| u == 0x205F
    ||| u == 0x3000
}

/// A string without its leading white space.
pub open spec fn trim_start(s: Seq<char>) -> Seq<char>
    decreases s.len(),
{
    if s.len() > 0 && is_white_space(s[0]) {
        trim_start(s.drop_first())
    } else {
        s
    }
}

/// A string without its trailing white space.
pub open spec fn trim_end(s: Seq<char>) -> Seq<char>
    decreases s.len(),
{
    if s.len() > 0 && is_white_space(s.last()) {
        trim_end(s.drop_last())
    } else {
        s
    }
}

/// A string without its leading and trailing white space (`str::trim`).
pub open spec fn spec_trim(s: Seq<char>) -> Seq<char> {
    trim_end(trim_start(s))
}

/// Whether `c` has the Unicode `White_Space` property.
pub fn white_space(c: char) -> (r: bool)
    ensures
        r == is_white_space(c),
{
    let u: u32 = c as u32;
    (0x9 <= u && u <= 0xD) || u == 0x20 || u == 0x85 || u == 0xA0 || u == 0x1680 || (0x2000 <= u && u <= 0x200A)
        || u == 0x2028 || u == 0x2029 || u == 0x202F || u == 0x205F || u == 0x3000
}

/// Dropping a leading run of white space does not change what trimming the start gives.
proof fn lemma_trim_start_skip(s: Seq<char>, a: int)
    requires
        0 <= a <= s.len(),
        forall|j: int| 0 <= j < a ==> is_white_space(#[trigger] s[j]),
    ensures
        trim_start(s) == trim_start(s.subrange(a, s.len() as int)),
    decreases a,
{
    if a == 0 {
        assert(s.subrange(0, s.len() as int) =~= s);
    } else {
        let t = s.drop_first();
        assert forall|j: int| 0 <= j < a - 1 implies is_white_space(#[trigger] t[j]) by {
            assert(t[j] == s[j + 1]);
        }
        lemma_trim_start_skip(t, a - 1);
        assert(t.subrange(a - 1, t.len() as int) =~= s.subrange(a, s.len() as int));
    }
}

/// Dropping a trailing run of white space does not change what trimming the end gives.
proof fn lemma_trim_end_skip(s: Seq<char>, b: int)
    requires
        0 <= b <= s.len(),
        forall|j: int| b <= j < s.len() ==> is_white_space(#[trigger] s[j]),
    ensures
        trim_end(s) == trim_end(s.subrange(0, b)),
    decreases s.len() - b,
{
    if b == s.len() {
        assert(s.subrange(0, b) =~= s);
    } else {
        let t = s.drop_last();
        assert forall|j: int| b <= j < t.len() implies is_white_space(#[trigger] t[j]) by {
            assert(t[j] == s[j]);
        }
        lemma_trim_end_skip(t, b);
        assert(t.subrange(0, b) =~= s.subrange(0, b));
    }
}

/// Removes leading and trailing white space.
pub(crate) fn str_trim(s: &str) -> (r: String)
    ensures
        r@ == spec_trim(s@),
{
    let cs = chars_of(s);
    let n = cs.len();
    let mut a: usize = 0;
    while a < n && white_space(cs[a])
        invariant
            cs@ == s@,
            n == cs@.len(),
            a <= n,
            forall|j: int| 0 <= j < a ==> is_white_space(#[trigger] s@[j]),
        decreases n - a,
    {
        a = a + 1;
    }
    let ghost t = s@.subrange(a as int, n as int);
    proof {
        lemma_trim_start_skip(s@, a as int);
        if a < n {
            assert(t[0] == s@[a as int]);
        }
    }
    assert(trim_start(s@) == t);
    let mut b: usize = n;
    while b > a && white_space(cs[b - 1])
        invariant
            cs@ == s@,
            n == cs@.len(),
            a <= b <= n,
            t == s@.subrange(a as int, n as int),
            forall|j: int| b - a <= j < t.len() ==> is_white_space(#[trigger] t[j]),
        decreases b,
    {
        assert(t[b - 1 - a] == s@[b - 1]);
        b = b - 1;
    }
    proof {
        lemma_trim_end_skip(t, (b - a) as int);
        let u = t.subrange(0, (b - a) as int);
        if b > a {
            assert(u.last() == s@[b - 1]);
        }
        assert(u =~= s@.subrange(a as int, b as int));
    }
    String::from_str(s.substring_char(a, b))
}

} // verus!
