use vstd::prelude::*;

verus! {

/// The characters of a string slice, in order.
///
/// Trusted: calls `str::chars` and collects the iterator into a vector; the
/// contract claims that the vector holds exactly the characters of `s`, and
/// that it holds at most `isize::MAX / 4` of them (a `Vec` never takes more
/// than `isize::MAX` bytes, and a `char` takes four).
#[verifier::external_body]
pub fn chars_of(s: &str) -> (v: Vec<char>)
    ensures
        v@ == s@,
        v@.len() <= isize::MAX / 4,
{
    s.chars().collect()
}

/// A string made of the given characters, in order.
///
/// Trusted: collects the characters into a `String` (`FromIterator<char>`); the
/// contract claims that the string holds exactly these characters.
#[verifier::external_body]
pub fn string_from_chars(v: &[char]) -> (s: String)
    ensures
        s@ == v@,
{
    v.iter().collect()
}

/// Appends the characters of `s` to `out`.
pub fn push_str_chars(out: &mut Vec<char>, s: &str)
    ensures
        final(out)@ == old(out)@ + s@,
{
    let v = chars_of(s);
    let mut i: usize = 0;
    while i < v.len()
        invariant
            i <= v.len(),
            v@ == s@,
            out@ == old(out)@ + s@.subrange(0, i as int),
        decreases v.len() - i,
    {
        out.push(v[i]);
        i = i + 1;
        assert(s@.subrange(0, i as int) == s@.subrange(0, (i - 1) as int).push(v@[i - 1]));
    }
    assert(s@.subrange(0, i as int) == s@);
}

/// Whether two strings hold the same characters.
pub fn str_eq(a: &str, b: &str) -> (r: bool)
    ensures
        r == (a@ == b@),
{
    let x = chars_of(a);
    let y = chars_of(b);
    if x.len() != y.len() {
        return false;
    }
    let mut i: usize = 0;
    while i < x.len()
        invariant
            x@ == a@,
            y@ == b@,
            x@.len() == y@.len(),
            i <= x@.len(),
            forall|j: int| 0 <= j < i ==> x@[j] == y@[j],
        decreases x.len() - i,
    {
        if x[i] != y[i] {
            return false;
        }
        i = i + 1;
    }
    assert(x@ =~= y@);
    true
}

/// ASCII whitespace as `char::is_ascii_whitespace` defines it.
pub open spec fn spec_is_ascii_whitespace(c: char) -> bool {
    c == ' ' || c == '\t' || c == '\n' || c == '\x0C' || c == '\r'
}

/// `char::is_ascii_whitespace`.
pub fn is_ascii_whitespace(c: char) -> (b: bool)
    ensures
        b == spec_is_ascii_whitespace(c),
{
    c == ' ' || c == '\t' || c == '\n' || c == '\x0C' || c == '\r'
}

/// ASCII decimal digit.
pub open spec fn spec_is_ascii_digit(c: char) -> bool {
    '0' <= c && c <= '9'
}

/// `char::is_ascii_digit`.
pub fn is_ascii_digit(c: char) -> (b: bool)
    ensures
        b == spec_is_ascii_digit(c),
{
    '0' <= c && c <= '9'
}

/// ASCII letter.
pub open spec fn spec_is_ascii_alphabetic(c: char) -> bool {
    ('a' <= c && c <= 'z') || ('A' <= c && c <= 'Z')
}

/// `char::is_ascii_alphabetic`.
pub fn is_ascii_alphabetic(c: char) -> (b: bool)
    ensures
        b == spec_is_ascii_alphabetic(c),
{
    ('a' <= c && c <= 'z') || ('A' <= c && c <= 'Z')
}

/// ASCII letter or digit.
pub open spec fn spec_is_ascii_alphanumeric(c: char) -> bool {
    spec_is_ascii_alphabetic(c) || spec_is_ascii_digit(c)
}

/// `char::is_ascii_alphanumeric`.
pub fn is_ascii_alphanumeric(c: char) -> (b: bool)
    ensures
        b == spec_is_ascii_alphanumeric(c),
{
    is_ascii_alphabetic(c) || is_ascii_digit(c)
}

} // verus!

verus! {

/// The number of bytes that UTF-8 takes for `c` (what `char::len_utf8`
/// returns).
pub open spec fn spec_utf8_width(c: char) -> nat {
    if (c as u32) < 0x80 {
        1
    } else if (c as u32) < 0x800 {
        2
    } else if (c as u32) < 0x10000 {
        3
    } else {
        4
    }
}

/// `char::len_utf8`.
pub fn utf8_width(c: char) -> (w: usize)
    ensures
        w == spec_utf8_width(c),
        1 <= w <= 4,
{
    let u = c as u32;
    if u < 0x80 {
        1
    } else if u < 0x800 {
        2
    } else if u < 0x10000 {
        3
    } else {
        4
    }
}

/// The number of bytes of the UTF-8 encoding of `s` (what `str::len`
/// returns for a string of these characters).
pub open spec fn byte_len(s: Seq<char>) -> nat
    decreases s.len(),
{
    if s.len() == 0 {
        0
    } else {
        byte_len(s.drop_last()) + spec_utf8_width(s.last())
    }
}

/// The byte offset at which the character with index `k` starts.
pub open spec fn byte_pos(s: Seq<char>, k: int) -> nat {
    byte_len(s.take(k))
}

/// Whether byte offset `b` falls on a character boundary of `s` (the end of
/// the string included).
pub open spec fn is_boundary(s: Seq<char>, b: int) -> bool {
    exists|k: int| 0 <= k <= s.len() && byte_pos(s, k) == b
}

/// The index of the character that starts at byte offset `b` (the length of
/// `s` for its end); meaningful where `b` is a boundary.
pub open spec fn char_index(s: Seq<char>, b: int) -> int {
    choose|k: int| 0 <= k <= s.len() && byte_pos(s, k) == b
}

/// The characters between byte offsets `start` and `end`, or `None` where
/// slicing the string there panics (an offset off a character boundary, or
/// `start` after `end`).
pub open spec fn byte_slice(s: Seq<char>, start: int, end: int) -> Option<Seq<char>> {
    if is_boundary(s, start) && is_boundary(s, end) && start <= end {
        Some(s.subrange(char_index(s, start), char_index(s, end)))
    } else {
        None
    }
}

/// A string takes at most four bytes per character.
pub proof fn lemma_byte_len_bound(s: Seq<char>)
    ensures
        s.len() <= byte_len(s) <= 4 * s.len(),
    decreases s.len(),
{
    if s.len() > 0 {
        lemma_byte_len_bound(s.drop_last());
    }
}

/// The next character starts its width after the one before.
pub proof fn lemma_byte_pos_step(s: Seq<char>, k: int)
    requires
        0 <= k < s.len(),
    ensures
        byte_pos(s, k + 1) == byte_pos(s, k) + spec_utf8_width(s[k]),
{
    assert(s.take(k + 1).drop_last() == s.take(k));
}

/// The first character starts at byte zero.
pub proof fn lemma_byte_pos_zero(s: Seq<char>)
    ensures
        byte_pos(s, 0) == 0,
{
    assert(s.take(0).len() == 0);
}

/// The end of the string is at its length in bytes.
pub proof fn lemma_byte_pos_full(s: Seq<char>)
    ensures
        byte_pos(s, s.len() as int) == byte_len(s),
{
    assert(s.take(s.len() as int) == s);
}

/// Byte offsets grow strictly with character indices.
pub proof fn lemma_byte_pos_mono(s: Seq<char>, i: int, j: int)
    requires
        0 <= i <= j <= s.len(),
    ensures
        byte_pos(s, i) + (j - i) <= byte_pos(s, j),
    decreases j - i,
{
    if i < j {
        lemma_byte_pos_mono(s, i, j - 1);
        lemma_byte_pos_step(s, j - 1);
    }
}

/// A boundary lies within the string's bytes, at most four per character.
pub proof fn lemma_boundary_bound(s: Seq<char>, b: int)
    requires
        is_boundary(s, b),
    ensures
        0 <= b <= byte_len(s) <= 4 * s.len(),
{
    let k = choose|k: int| 0 <= k <= s.len() && byte_pos(s, k) == b;
    lemma_byte_pos_mono(s, k, s.len() as int);
    lemma_byte_pos_full(s);
    lemma_byte_len_bound(s);
}

/// The character index of a boundary is the one that starts there.
pub proof fn lemma_char_index(s: Seq<char>, k: int)
    requires
        0 <= k <= s.len(),
    ensures
        is_boundary(s, byte_pos(s, k) as int),
        char_index(s, byte_pos(s, k) as int) == k,
{
    assert(0 <= k <= s.len() && byte_pos(s, k) == byte_pos(s, k));
    let c = char_index(s, byte_pos(s, k) as int);
    if c < k {
        lemma_byte_pos_mono(s, c, k);
    } else if c > k {
        lemma_byte_pos_mono(s, k, c);
    }
}

/// Slicing between the starts of characters `i` and `j` gives the characters
/// from `i` up to `j`.
pub proof fn lemma_byte_slice_span(s: Seq<char>, i: int, j: int)
    requires
        0 <= i <= j <= s.len(),
    ensures
        byte_slice(s, byte_pos(s, i) as int, byte_pos(s, j) as int) == Some(s.subrange(i, j)),
{
    lemma_char_index(s, i);
    lemma_char_index(s, j);
    lemma_byte_pos_mono(s, i, j);
}

/// The index of the character that starts at byte offset `b`, found by
/// walking the characters.
pub fn find_char_index(s: &Vec<char>, b: usize) -> (k: usize)
    requires
        is_boundary(s@, b as int),
    ensures
        k as int == char_index(s@, b as int),
        0 <= k <= s@.len(),
        byte_pos(s@, k as int) == b,
{
    let ghost target = char_index(s@, b as int);
    proof {
        lemma_char_index(s@, target);
        lemma_byte_pos_zero(s@);
    }
    let mut k: usize = 0;
    let mut pos: usize = 0;
    while pos < b
        invariant
            0 <= k <= target,
            target <= s@.len(),
            s@.len() == s.len(),
            byte_pos(s@, target) == b,
            pos == byte_pos(s@, k as int),
            char_index(s@, b as int) == target,
        decreases target - k,
    {
        proof {
            if k == target {
                assert(false);
            }
            lemma_byte_pos_step(s@, k as int);
            lemma_byte_pos_mono(s@, k as int + 1, target);
        }
        pos = pos + utf8_width(s[k]);
        k = k + 1;
    }
    proof {
        if k < target {
            lemma_byte_pos_mono(s@, k as int, target);
            lemma_byte_pos_step(s@, k as int);
        }
    }
    k
}

/// Whether byte offset `b` falls on a character boundary of `s`.
pub fn boundary(s: &Vec<char>, b: usize) -> (r: bool)
    requires
        s@.len() <= isize::MAX / 4,
    ensures
        r == is_boundary(s@, b as int),
{
    proof {
        lemma_byte_pos_zero(s@);
        lemma_byte_len_bound(s@);
        lemma_byte_pos_full(s@);
    }
    let mut k: usize = 0;
    let mut pos: usize = 0;
    while k < s.len() && pos < b
        invariant
            k <= s@.len(),
            s@.len() <= isize::MAX / 4,
            pos == byte_pos(s@, k as int),
            byte_pos(s@, s@.len() as int) <= 4 * s@.len(),
            forall|j: int| 0 <= j < k ==> #[trigger] byte_pos(s@, j) < b,
        decreases s@.len() - k,
    {
        proof {
            lemma_byte_pos_step(s@, k as int);
            lemma_byte_pos_mono(s@, k as int + 1, s@.len() as int);
        }
        pos = pos + utf8_width(s[k]);
        k = k + 1;
    }
    if pos == b {
        return true;
    }
    proof {
        assert forall|j: int| 0 <= j <= s@.len() implies byte_pos(s@, j) != b by {
            if j < k {
            } else if j > k {
                lemma_byte_pos_mono(s@, k as int, j);
            }
        }
    }
    false
}

/// The characters between two byte boundaries of `s`.
pub fn slice_chars(s: &Vec<char>, start: usize, end: usize) -> (r: Vec<char>)
    requires
        byte_slice(s@, start as int, end as int) is Some,
    ensures
        r@ == byte_slice(s@, start as int, end as int).unwrap(),
{
    let i = find_char_index(s, start);
    let j = find_char_index(s, end);
    proof {
        if j < i {
            lemma_byte_pos_mono(s@, j as int, i as int);
        }
    }
    let mut r: Vec<char> = Vec::new();
    let mut k: usize = i;
    while k < j
        invariant
            i <= k <= j <= s@.len(),
            r@ == s@.subrange(i as int, k as int),
        decreases j - k,
    {
        r.push(s[k]);
        k = k + 1;
        assert(r@ == s@.subrange(i as int, k as int));
    }
    r
}

/// The decimal digits of `n`.
pub open spec fn decimal(n: nat) -> Seq<char>
    decreases n,
{
    if n < 10 {
        seq![digit_char(n)]
    } else {
        decimal(n / 10).push(digit_char(n % 10))
    }
}

/// The ASCII digit for `d` (below ten).
pub open spec fn digit_char(d: nat) -> char {
    if d == 0 { '0' } else if d == 1 { '1' } else if d == 2 { '2' } else if d == 3 { '3' }
    else if d == 4 { '4' } else if d == 5 { '5' } else if d == 6 { '6' } else if d == 7 { '7' }
    else if d == 8 { '8' } else { '9' }
}

fn digit(d: usize) -> (c: char)
    requires
        d < 10,
    ensures
        c == digit_char(d as nat),
{
    if d == 0 { '0' } else if d == 1 { '1' } else if d == 2 { '2' } else if d == 3 { '3' }
    else if d == 4 { '4' } else if d == 5 { '5' } else if d == 6 { '6' } else if d == 7 { '7' }
    else if d == 8 { '8' } else { '9' }
}

/// Appends the decimal digits of `n` to `out`.
pub fn push_decimal(out: &mut Vec<char>, n: usize)
    ensures
        final(out)@ == old(out)@ + decimal(n as nat),
    decreases n,
{
    if n < 10 {
        out.push(digit(n));
        assert(decimal(n as nat) == seq![digit_char(n as nat)]);
    } else {
        push_decimal(out, n / 10);
        out.push(digit(n % 10));
    }
}

} // verus!
