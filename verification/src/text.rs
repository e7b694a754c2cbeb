//! Characters and text: case, white space, splitting, decimal numbers.

use vstd::prelude::*;
use vstd::string::*;

verus! {

/// Upper-case form of an ASCII letter; every other character is itself.
pub open spec fn ascii_upper(c: char) -> char {
    if 'a' <= c && c <= 'z' {
        ((c as u8) - 32) as char
    } else {
        c
    }
}

/// Lower-case form of an ASCII letter; every other character is itself.
pub open spec fn ascii_lower(c: char) -> char {
    if 'A' <= c && c <= 'Z' {
        ((c as u8) + 32) as char
    } else {
        c
    }
}

/// The upper-case form of an ASCII letter; any other character unchanged.
pub fn to_ascii_upper(c: char) -> (r: char)
    ensures
        r == ascii_upper(c),
{
    if 'a' <= c && c <= 'z' {
        ((c as u8) - 32) as char
    } else {
        c
    }
}

/// The lower-case form of an ASCII letter; any other character unchanged.
pub fn to_ascii_lower(c: char) -> (r: char)
    ensures
        r == ascii_lower(c),
{
    if 'A' <= c && c <= 'Z' {
        ((c as u8) + 32) as char
    } else {
        c
    }
}

/// Whether `c` has the Unicode property White_Space.
pub open spec fn is_white_space(c: char) -> bool {
    let u = c as u32;
    (0x09 <= u && u <= 0x0D) || u == 0x20 || u == 0x85 || u == 0xA0 || u == 0x1680
        || (0x2000 <= u && u <= 0x200A) || u == 0x2028 || u == 0x2029 || u == 0x202F
        || u == 0x205F || u == 0x3000
}

/// Whether `c` is white space.
pub fn white_space(c: char) -> (r: bool)
    ensures
        r == is_white_space(c),
{
    let u: u32 = c as u32;
    (0x09 <= u && u <= 0x0D) || u == 0x20 || u == 0x85 || u == 0xA0 || u == 0x1680
        || (0x2000 <= u && u <= 0x200A) || u == 0x2028 || u == 0x2029 || u == 0x202F
        || u == 0x205F || u == 0x3000
}

/// The characters of `s`, one by one.
pub fn to_chars(s: &str) -> (r: Vec<char>)
    ensures
        r@ == s@,
{
    broadcast use axiom_spec_iter;

    let mut r: Vec<char> = Vec::new();
    for c in it: s.chars()
        invariant
            it.seq() == s@,
            r@ == s@.subrange(0, it.index() as int),
    {
        r.push(c);
        assert(r@ =~= s@.subrange(0, it.index() + 1));
    }
    assert(s@.subrange(0, s@.len() as int) =~= s@);
    r
}

/// `String::push`. Not proved: that it adds the character `ch` to the end
/// of the text and changes nothing else of it.
pub assume_specification[ String::push ](s: &mut String, ch: char)
    ensures
        final(s)@ == old(s)@.push(ch),
;

/// The text made of the characters `v`.
pub fn to_text(v: &Vec<char>) -> (r: String)
    ensures
        r@ == v@,
{
    let mut r: String = String::new();
    let mut i: usize = 0;
    while i < v.len()
        invariant
            i <= v.len(),
            r@ == v@.subrange(0, i as int),
        decreases v.len() - i,
    {
        r.push(v[i]);
        i += 1;
        assert(r@ =~= v@.subrange(0, i as int));
    }
    assert(v@.subrange(0, v.len() as int) =~= v@);
    r
}

/// Whether the characters `v` spell the text `t`.
pub fn spells(v: &Vec<char>, t: &str) -> (r: bool)
    ensures
        r == (v@ == t@),
{
    let w: Vec<char> = to_chars(t);
    if v.len() != w.len() {
        return false;
    }
    let mut i: usize = 0;
    while i < v.len()
        invariant
            v.len() == w.len(),
            w@ == t@,
            i <= v.len(),
            v@.subrange(0, i as int) == w@.subrange(0, i as int),
        decreases v.len() - i,
    {
        if v[i] != w[i] {
            return false;
        }
        i += 1;
        assert(v@.subrange(0, i as int) =~= w@.subrange(0, i as int));
    }
    assert(v@.subrange(0, v.len() as int) =~= v@);
    assert(w@.subrange(0, w.len() as int) =~= w@);
    true
}

/// The characters of `v` from index `a` up to, not including, index `b`.
pub fn slice_of(v: &Vec<char>, a: usize, b: usize) -> (r: Vec<char>)
    requires
        a <= b <= v.len(),
    ensures
        r@ == v@.subrange(a as int, b as int),
{
    let mut r: Vec<char> = Vec::new();
    let mut i: usize = a;
    while i < b
        invariant
            a <= i <= b <= v.len(),
            r@ == v@.subrange(a as int, i as int),
        decreases b - i,
    {
        r.push(v[i]);
        i += 1;
        assert(r@ =~= v@.subrange(a as int, i as int));
    }
    r
}

/// The first index at or after `i` that holds no white space, or the length.
pub open spec fn skip_space(s: Seq<char>, i: int) -> int
    decreases s.len() - i,
{
    if 0 <= i < s.len() && is_white_space(s[i]) {
        skip_space(s, i + 1)
    } else {
        i
    }
}

/// The first index at or after `i` that holds white space, or the length.
pub open spec fn skip_word(s: Seq<char>, i: int) -> int
    decreases s.len() - i,
{
    if 0 <= i < s.len() && !is_white_space(s[i]) {
        skip_word(s, i + 1)
    } else {
        i
    }
}

/// The least end `e` between `lo` and `j` such that no white space ends
/// the characters before `e`.
pub open spec fn back_space(s: Seq<char>, lo: int, j: int) -> int
    decreases j - lo,
{
    if lo < j <= s.len() && 0 <= lo && is_white_space(s[j - 1]) {
        back_space(s, lo, j - 1)
    } else {
        j
    }
}

/// The first index at or after `i` that holds `sep`, or the length.
pub open spec fn find_char(s: Seq<char>, sep: char, i: int) -> int
    decreases s.len() - i,
{
    if 0 <= i < s.len() && s[i] != sep {
        find_char(s, sep, i + 1)
    } else {
        i
    }
}

/// `s` without the white space at its two ends.
pub open spec fn trimmed(s: Seq<char>) -> Seq<char> {
    let a = skip_space(s, 0);
    s.subrange(a, back_space(s, a, s.len() as int))
}

/// The words of `s` from index `i` on: its longest runs without white space.
pub open spec fn tokens(s: Seq<char>, i: int) -> Seq<Seq<char>>
    decreases s.len() - i,
{
    let a = skip_space(s, i);
    let b = skip_word(s, a);
    if 0 <= i <= a && a < b && b <= s.len() {
        seq![s.subrange(a, b)] + tokens(s, b)
    } else {
        Seq::empty()
    }
}

/// The pieces of `s` from index `i` on that the character `sep` parts; a
/// text without `sep` is one piece, and a piece may be empty.
pub open spec fn fields(s: Seq<char>, sep: char, i: int) -> Seq<Seq<char>>
    decreases s.len() - i,
{
    let e = find_char(s, sep, i);
    if 0 <= i <= e && e < s.len() {
        seq![s.subrange(i, e)] + fields(s, sep, e + 1)
    } else {
        seq![s.subrange(i, s.len() as int)]
    }
}

/// The views of a list of texts.
pub open spec fn texts(v: Seq<Vec<char>>) -> Seq<Seq<char>> {
    Seq::new(v.len(), |i: int| v[i]@)
}

/// The first index at or after `i` that holds no white space.
pub fn skip_space_at(v: &Vec<char>, i: usize) -> (r: usize)
    requires
        i <= v.len(),
    ensures
        r == skip_space(v@, i as int),
        i <= r <= v.len(),
{
    let mut k: usize = i;
    while k < v.len() && white_space(v[k])
        invariant
            i <= k <= v.len(),
            skip_space(v@, k as int) == skip_space(v@, i as int),
        decreases v.len() - k,
    {
        k += 1;
    }
    k
}

/// The first index at or after `i` that holds white space.
pub fn skip_word_at(v: &Vec<char>, i: usize) -> (r: usize)
    requires
        i <= v.len(),
    ensures
        r == skip_word(v@, i as int),
        i <= r <= v.len(),
{
    let mut k: usize = i;
    while k < v.len() && !white_space(v[k])
        invariant
            i <= k <= v.len(),
            skip_word(v@, k as int) == skip_word(v@, i as int),
        decreases v.len() - k,
    {
        k += 1;
    }
    k
}

/// The first index at or after `i` that holds `sep`.
pub fn find_char_at(v: &Vec<char>, sep: char, i: usize) -> (r: usize)
    requires
        i <= v.len(),
    ensures
        r == find_char(v@, sep, i as int),
        i <= r <= v.len(),
{
    let mut k: usize = i;
    while k < v.len() && v[k] != sep
        invariant
            i <= k <= v.len(),
            find_char(v@, sep, k as int) == find_char(v@, sep, i as int),
        decreases v.len() - k,
    {
        k += 1;
    }
    k
}

/// The end of `v`, not before `lo` nor after `j`, once the white space
/// before `j` is left off.
pub fn back_space_at(v: &Vec<char>, lo: usize, j: usize) -> (r: usize)
    requires
        lo <= j <= v.len(),
    ensures
        r == back_space(v@, lo as int, j as int),
        lo <= r <= j,
{
    let mut k: usize = j;
    while lo < k && white_space(v[k - 1])
        invariant
            lo <= k <= j <= v.len(),
            back_space(v@, lo as int, k as int) == back_space(v@, lo as int, j as int),
        decreases k - lo,
    {
        k -= 1;
    }
    k
}

/// Removes the white space at the two ends of `v`.
pub fn trim(v: &Vec<char>) -> (r: Vec<char>)
    ensures
        r@ == trimmed(v@),
{
    let a: usize = skip_space_at(v, 0);
    let b: usize = back_space_at(v, a, v.len());
    slice_of(v, a, b)
}

/// Splits `v` into its words.
pub fn split_words(v: &Vec<char>) -> (r: Vec<Vec<char>>)
    ensures
        texts(r@) == tokens(v@, 0),
{
    let mut out: Vec<Vec<char>> = Vec::new();
    let mut i: usize = 0;
    let mut a: usize = skip_space_at(v, 0);
    let mut b: usize = skip_word_at(v, a);
    assert(texts(out@) + tokens(v@, 0) =~= tokens(v@, 0));
    while a < b
        invariant
            i <= a <= b <= v.len(),
            a == skip_space(v@, i as int),
            b == skip_word(v@, a as int),
            tokens(v@, 0) == texts(out@) + tokens(v@, i as int),
        decreases v.len() - i,
    {
        let ghost before = out@;
        out.push(slice_of(v, a, b));
        assert(texts(out@) + tokens(v@, b as int) =~= texts(before) + tokens(v@, i as int));
        i = b;
        a = skip_space_at(v, i);
        b = skip_word_at(v, a);
    }
    assert(texts(out@) + tokens(v@, i as int) =~= texts(out@));
    out
}

/// Splits `v` at each `sep`.
pub fn split(v: &Vec<char>, sep: char) -> (r: Vec<Vec<char>>)
    ensures
        texts(r@) == fields(v@, sep, 0),
        r.len() >= 1,
{
    let mut out: Vec<Vec<char>> = Vec::new();
    let mut i: usize = 0;
    let mut e: usize = find_char_at(v, sep, 0);
    while e < v.len()
        invariant
            i <= e <= v.len(),
            e == find_char(v@, sep, i as int),
            texts(out@) + fields(v@, sep, i as int) == fields(v@, sep, 0),
        decreases v.len() - i,
    {
        let ghost before = out@;
        out.push(slice_of(v, i, e));
        assert(texts(out@) + fields(v@, sep, e + 1) =~= texts(before) + fields(v@, sep, i as int));
        i = e + 1;
        e = find_char_at(v, sep, i);
    }
    let ghost before = out@;
    out.push(slice_of(v, i, v.len()));
    assert(texts(out@) =~= texts(before) + fields(v@, sep, i as int));
    out
}

/// Whether `needle` stands in `hay` at index `i`.
pub open spec fn occurs_at(hay: Seq<char>, needle: Seq<char>, i: int) -> bool {
    0 <= i && i + needle.len() <= hay.len() && hay.subrange(i, i + needle.len()) == needle
}

/// Whether `needle` stands somewhere in `hay`.
pub open spec fn has_part(hay: Seq<char>, needle: Seq<char>) -> bool {
    exists|i: int| occurs_at(hay, needle, i)
}

/// Whether `needle` stands in `hay` at index `i`.
pub fn matches_at(hay: &Vec<char>, needle: &Vec<char>, i: usize) -> (r: bool)
    requires
        i + needle.len() <= hay.len(),
    ensures
        r == occurs_at(hay@, needle@, i as int),
{
    let mut k: usize = 0;
    while k < needle.len()
        invariant
            k <= needle.len(),
            i + needle.len() <= hay.len(),
            hay@.subrange(i as int, i + k) == needle@.subrange(0, k as int),
        decreases needle.len() - k,
    {
        if hay[i + k] != needle[k] {
            assert(hay@.subrange(i as int, i + needle.len())[k as int] != needle@[k as int]);
            return false;
        }
        k += 1;
        assert(hay@.subrange(i as int, i + k) =~= needle@.subrange(0, k as int));
    }
    assert(needle@.subrange(0, k as int) =~= needle@);
    true
}

/// Whether `needle` stands somewhere in `hay`.
pub fn contains(hay: &Vec<char>, needle: &Vec<char>) -> (r: bool)
    ensures
        r == has_part(hay@, needle@),
{
    if needle.len() > hay.len() {
        return false;
    }
    let last: usize = hay.len() - needle.len();
    let mut i: usize = 0;
    while i < last
        invariant
            last + needle.len() == hay.len(),
            i <= last,
            forall|j: int| 0 <= j < i ==> !occurs_at(hay@, needle@, j),
        decreases last - i,
    {
        if matches_at(hay, needle, i) {
            return true;
        }
        i += 1;
    }
    matches_at(hay, needle, last)
}

/// The digit character of `d`, for `d` from 0 to 9.
pub open spec fn digit_char(d: int) -> char {
    (48 + d) as char
}

/// The decimal digits of `n`, without leading zeros.
pub open spec fn digits(n: nat) -> Seq<char>
    decreases n,
{
    if n < 10 {
        seq![digit_char(n as int)]
    } else {
        digits(n / 10).push(digit_char((n % 10) as int))
    }
}

/// `n` written in decimal, with a minus sign where it is negative.
pub open spec fn decimal(n: int) -> Seq<char> {
    if n < 0 {
        seq!['-'] + digits((-n) as nat)
    } else {
        digits(n as nat)
    }
}

/// Whether `c` is one of the digits 0 to 9.
pub open spec fn is_digit(c: char) -> bool {
    '0' <= c && c <= '9'
}

/// Whether `s` holds digits alone.
pub open spec fn all_digits(s: Seq<char>) -> bool {
    forall|i: int| 0 <= i < s.len() ==> is_digit(#[trigger] s[i])
}

/// The number that the decimal digits `s` write.
pub open spec fn number(s: Seq<char>) -> nat
    decreases s.len(),
{
    if s.len() == 0 {
        0
    } else {
        number(s.drop_last()) * 10 + ((s.last() as int) - 48) as nat
    }
}

/// `s` without a leading plus sign.
pub open spec fn unsigned_part(s: Seq<char>) -> Seq<char> {
    if s.len() > 0 && s[0] == '+' {
        s.subrange(1, s.len() as int)
    } else {
        s
    }
}

/// The number from 1 to 2147483647 that `s` writes in decimal: digits, at
/// least one, after at most one plus sign. Any other text writes none.
pub open spec fn positive_number(s: Seq<char>) -> Option<int> {
    let d = unsigned_part(s);
    if d.len() > 0 && all_digits(d) && 1 <= number(d) <= i32::MAX {
        Some(number(d) as int)
    } else {
        None
    }
}

/// Adds the decimal digits of `n` to `out`.
fn push_digits(n: u32, out: &mut Vec<char>)
    ensures
        final(out)@ == old(out)@ + digits(n as nat),
    decreases n,
{
    if n >= 10 {
        push_digits(n / 10, out);
    }
    let d: u8 = (n % 10) as u8;
    out.push((48u8 + d) as char);
    assert(out@ =~= old(out)@ + digits(n as nat));
}

/// Writes `n` in decimal.
pub fn decimal_chars(n: i32) -> (r: Vec<char>)
    ensures
        r@ == decimal(n as int),
{
    let mut out: Vec<char> = Vec::new();
    if n < 0 {
        out.push('-');
        let m: u32 = (-(n as i64)) as u32;
        push_digits(m, &mut out);
    } else {
        push_digits(n as u32, &mut out);
    }
    assert(out@ =~= decimal(n as int));
    out
}

/// Reads a decimal number from 1 to 2147483647.
pub fn parse_positive(v: &Vec<char>) -> (r: Option<i32>)
    ensures
        match r {
            Some(n) => positive_number(v@) == Some(n as int),
            None => positive_number(v@) is None,
        },
{
    let start: usize = if v.len() > 0 && v[0] == '+' { 1 } else { 0 };
    let ghost d = unsigned_part(v@);
    assert(d =~= v@.subrange(start as int, v.len() as int));
    if start == v.len() {
        return None;
    }
    let mut acc: i64 = 0;
    let mut big: bool = false;
    let mut i: usize = start;
    while i < v.len()
        invariant
            start <= i <= v.len(),
            d == v@.subrange(start as int, v.len() as int),
            d == unsigned_part(v@),
            all_digits(d.subrange(0, i - start)),
            !big ==> acc == number(d.subrange(0, i - start)) && acc <= i32::MAX,
            big ==> number(d.subrange(0, i - start)) > i32::MAX,
            0 <= acc <= i32::MAX,
        decreases v.len() - i,
    {
        let c: char = v[i];
        if !('0' <= c && c <= '9') {
            assert(!is_digit(d[i - start]));
            return None;
        }
        let ghost prev = d.subrange(0, i - start);
        let ghost next = d.subrange(0, i - start + 1);
        assert(next.drop_last() =~= prev);
        assert(next.last() == c);
        let digit: i64 = ((c as u8) - 48) as i64;
        if !big {
            let value: i64 = acc * 10 + digit;
            if value > 2147483647 {
                big = true;
            } else {
                acc = value;
            }
        }
        i += 1;
    }
    assert(d.subrange(0, i - start) =~= d);
    if big || acc < 1 {
        None
    } else {
        Some(acc as i32)
    }
}

/// The digits of a number read back as that number.
pub proof fn lemma_digits_read_back(n: nat)
    ensures
        digits(n).len() >= 1,
        all_digits(digits(n)),
        number(digits(n)) == n,
    decreases n,
{
    if n < 10 {
        let s = digits(n);
        assert(s.drop_last() =~= Seq::<char>::empty());
        assert(number(s.drop_last()) == 0);
    } else {
        lemma_digits_read_back(n / 10);
        let s = digits(n);
        assert(s.drop_last() =~= digits(n / 10));
    }
}

/// A number from 1 to 2147483647, written in decimal, reads back as itself.
pub proof fn lemma_decimal_read_back(n: int)
    requires
        1 <= n <= i32::MAX,
    ensures
        positive_number(decimal(n)) == Some(n),
{
    lemma_digits_read_back(n as nat);
    assert(is_digit(digits(n as nat)[0]));
}

/// Whether every character of `s` is an ASCII character.
pub open spec fn is_ascii_text(s: Seq<char>) -> bool {
    forall|i: int| 0 <= i < s.len() ==> (#[trigger] s[i] as u32) < 128
}

/// `s` with each ASCII capital letter replaced by its small letter.
pub open spec fn ascii_lowercase(s: Seq<char>) -> Seq<char> {
    Seq::new(s.len(), |i: int| ascii_lower(s[i]))
}

/// `s` with each ASCII small letter replaced by its capital letter.
pub open spec fn ascii_uppercase(s: Seq<char>) -> Seq<char> {
    Seq::new(s.len(), |i: int| ascii_upper(s[i]))
}

/// The lower-case form that Unicode gives the text `s`.
pub uninterp spec fn lowercase_of(s: Seq<char>) -> Seq<char>;

/// The upper-case form that Unicode gives the text `s`.
pub uninterp spec fn uppercase_of(s: Seq<char>) -> Seq<char>;

/// Calls `str::to_lowercase`. Not proved: that the result is the Unicode
/// lower-case form of `s`, which has a name here and no definition, and that
/// for a text of ASCII characters alone it is the text with each capital
/// letter replaced by its small letter.
#[verifier::external_body]
pub(crate) fn lowercase(s: &str) -> (r: String)
    ensures
        r@ == lowercase_of(s@),
        is_ascii_text(s@) ==> r@ == ascii_lowercase(s@),
{
    s.to_lowercase()
}

/// Calls `str::to_uppercase`. Not proved: that the result is the Unicode
/// upper-case form of `s`, which has a name here and no definition, and that
/// for a text of ASCII characters alone it is the text with each small
/// letter replaced by its capital letter.
#[verifier::external_body]
pub(crate) fn uppercase(s: &str) -> (r: String)
    ensures
        r@ == uppercase_of(s@),
        is_ascii_text(s@) ==> r@ == ascii_uppercase(s@),
{
    s.to_uppercase()
}

/// The lower-case form of `s`: letter by letter where `s` is ASCII, else
/// the form that Unicode gives it.
pub open spec fn lower_form(s: Seq<char>) -> Seq<char> {
    if is_ascii_text(s) {
        ascii_lowercase(s)
    } else {
        lowercase_of(s)
    }
}

/// The upper-case form of `s`: letter by letter where `s` is ASCII, else
/// the form that Unicode gives it.
pub open spec fn upper_form(s: Seq<char>) -> Seq<char> {
    if is_ascii_text(s) {
        ascii_uppercase(s)
    } else {
        uppercase_of(s)
    }
}

/// The lower-case form of `s`, as characters.
pub fn to_lower(s: &str) -> (r: Vec<char>)
    ensures
        r@ == lower_form(s@),
{
    let low: String = lowercase(s);
    to_chars(low.as_str())
}

/// The upper-case form of `s`, as characters.
pub fn to_upper(s: &str) -> (r: Vec<char>)
    ensures
        r@ == upper_form(s@),
{
    let up: String = uppercase(s);
    to_chars(up.as_str())
}

} // verus!
