//! Text building and scanning.
//!
//! A text is modelled as the sequence of its characters (`Seq<char>`), a list
//! of texts as a sequence of such sequences.
use vstd::prelude::*;
use vstd::string::*;

verus! {

// ---------------------------------------------------------------------------
// Standard-library functions used on strings.
// ---------------------------------------------------------------------------
/// `String::push` appends one character.
pub assume_specification[ String::push ](s: &mut String, c: char)
    ensures
        final(s)@ == old(s)@.push(c),
;

/// `String::pop` removes and returns the last character, if there is one.
pub assume_specification[ String::pop ](s: &mut String) -> (c: Option<char>)
    ensures
        old(s)@.len() == 0 ==> c is None && final(s)@ == old(s)@,
        old(s)@.len() > 0 ==> c == Some(old(s)@.last()) && final(s)@ == old(s)@.drop_last(),
;

/// What `String::from_utf8_lossy` makes of `bytes`.
pub uninterp spec fn lossy_text(bytes: Seq<u8>) -> Seq<char>;

/// Calls `String::from_utf8_lossy`: well-formed UTF-8 is decoded as it is, and
/// what takes the place of ill-formed sequences depends on the bytes alone.
#[verifier::external_body]
pub(crate) fn lossy(bytes: &[u8]) -> (s: String)
    ensures
        s@ == lossy_text(bytes@),
        vstd::utf8::valid_utf8(bytes@) ==> s@ == vstd::utf8::decode_utf8(bytes@),
{
    String::from_utf8_lossy(bytes).into_owned()
}

/// Calls `String::from_utf8`: `Some` of the decoded text exactly if the bytes
/// are well-formed UTF-8.
#[verifier::external_body]
pub(crate) fn utf8(bytes: Vec<u8>) -> (s: Option<String>)
    ensures
        s is Some <==> vstd::utf8::valid_utf8(bytes@),
        s is Some ==> s->0@ == vstd::utf8::decode_utf8(bytes@),
{
    String::from_utf8(bytes).ok()
}

// ---------------------------------------------------------------------------
// Models.
// ---------------------------------------------------------------------------
/// The contents of a list of strings.
pub open spec fn texts(list: Seq<String>) -> Seq<Seq<char>> {
    list.map_values(|s: String| s@)
}

/// The contents of an optional string.
pub open spec fn opt_text(s: Option<String>) -> Option<Seq<char>> {
    match s {
        Some(s) => Some(s@),
        None => None,
    }
}

/// The decimal digit `d` (0 to 9) as a character.
pub open spec fn digit_char(d: nat) -> char {
    (48 + d) as char
}

/// The decimal representation of `n`, without leading zeros.
pub open spec fn decimal_text(n: nat) -> Seq<char>
    decreases n,
{
    if n < 10 {
        seq![digit_char(n)]
    } else {
        decimal_text(n / 10).push(digit_char(n % 10))
    }
}

/// The decimal representation of `n`, padded with a zero to two digits.
pub open spec fn two_digit_text(n: nat) -> Seq<char> {
    if n < 10 {
        seq!['0', digit_char(n)]
    } else {
        decimal_text(n)
    }
}

/// The digit `d` (0 to 15) in upper-case hexadecimal.
pub open spec fn hex_digit_upper(d: nat) -> char {
    if d < 10 {
        (48 + d) as char
    } else {
        (55 + d) as char
    }
}

/// The digit `d` (0 to 15) in lower-case hexadecimal.
pub open spec fn hex_digit_lower(d: nat) -> char {
    if d < 10 {
        (48 + d) as char
    } else {
        (87 + d) as char
    }
}

/// Two upper-case hexadecimal digits for each byte.
pub open spec fn hex_text(bytes: Seq<u8>) -> Seq<char>
    decreases bytes.len(),
{
    if bytes.len() == 0 {
        Seq::empty()
    } else {
        hex_text(bytes.drop_last()).push(hex_digit_upper(bytes.last() as nat / 16)).push(
            hex_digit_upper(bytes.last() as nat % 16),
        )
    }
}

/// `n` in lower-case hexadecimal, without leading zeros.
pub open spec fn lower_hex_text(n: nat) -> Seq<char>
    decreases n,
{
    if n < 16 {
        seq![hex_digit_lower(n)]
    } else {
        lower_hex_text(n / 16).push(hex_digit_lower(n % 16))
    }
}

/// Whether `c` has the Unicode `White_Space` property.
pub open spec fn is_space(c: char) -> bool {
    ||| '\u{9}' <= c <= '\u{d}'
    ||| c == '\u{20}'
    ||| c == '\u{85}'
    ||| c == '\u{a0}'
    ||| c == '\u{1680}'
    ||| '\u{2000}' <= c <= '\u{200a}'
    ||| c == '\u{2028}'
    ||| c == '\u{2029}'
    ||| c == '\u{202f}'
    ||| c == '\u{205f}'
    ||| c == '\u{3000}'
}

/// Whether `c` is one of `0` to `9`.
pub open spec fn is_digit(c: char) -> bool {
    '0' <= c <= '9'
}

/// `s` without its leading white space.
pub open spec fn trim_start_text(s: Seq<char>) -> Seq<char>
    decreases s.len(),
{
    if s.len() > 0 && is_space(s[0]) {
        trim_start_text(s.skip(1))
    } else {
        s
    }
}

/// `s` without its trailing white space.
pub open spec fn trim_end_text(s: Seq<char>) -> Seq<char>
    decreases s.len(),
{
    if s.len() > 0 && is_space(s.last()) {
        trim_end_text(s.drop_last())
    } else {
        s
    }
}

/// `s` without its leading and trailing white space.
pub open spec fn trim_text(s: Seq<char>) -> Seq<char> {
    trim_end_text(trim_start_text(s))
}

/// The number of characters of `s` before the first white space.
pub open spec fn word_len(s: Seq<char>) -> nat
    decreases s.len(),
{
    if s.len() > 0 && !is_space(s[0]) {
        1 + word_len(s.skip(1))
    } else {
        0
    }
}

/// The maximal runs of non-white-space characters of `s`, in order.
pub open spec fn words_of(s: Seq<char>) -> Seq<Seq<char>>
    decreases s.len(),
{
    if s.len() == 0 {
        Seq::empty()
    } else if is_space(s[0]) {
        words_of(s.skip(1))
    } else {
        let n = word_len(s);
        if 0 < n <= s.len() {
            seq![s.take(n as int)] + words_of(s.skip(n as int))
        } else {
            Seq::empty()
        }
    }
}

/// The position of the first `c` in `s`, or the length of `s`.
pub open spec fn find_char(s: Seq<char>, c: char) -> nat
    decreases s.len(),
{
    if s.len() == 0 || s[0] == c {
        0
    } else {
        1 + find_char(s.skip(1), c)
    }
}

/// A line without the carriage return before its line feed.
pub open spec fn strip_cr(line: Seq<char>) -> Seq<char> {
    if line.len() > 0 && line.last() == '\r' {
        line.drop_last()
    } else {
        line
    }
}

/// The lines of `s`: each ends at a line feed (with the carriage return before
/// it, if any) or at the end of the text; a final line ending starts no line.
pub open spec fn lines_of(s: Seq<char>) -> Seq<Seq<char>>
    decreases s.len(),
{
    if s.len() == 0 {
        Seq::empty()
    } else {
        let n = find_char(s, '\n');
        if n >= s.len() {
            seq![s]
        } else {
            seq![strip_cr(s.take(n as int))] + lines_of(s.skip((n + 1) as int))
        }
    }
}

/// Whether `needle` occurs in `hay`.
pub open spec fn has_text(hay: Seq<char>, needle: Seq<char>) -> bool {
    exists|i: int| occurs_at(hay, needle, i)
}

/// Whether `needle` occurs in `hay` at position `i`.
pub open spec fn occurs_at(hay: Seq<char>, needle: Seq<char>, i: int) -> bool {
    0 <= i && i + needle.len() <= hay.len() && hay.subrange(i, i + needle.len()) == needle
}

/// The texts of `parts` with `sep` between them.
pub open spec fn join_texts(parts: Seq<Seq<char>>, sep: Seq<char>) -> Seq<char>
    decreases parts.len(),
{
    if parts.len() == 0 {
        Seq::empty()
    } else if parts.len() == 1 {
        parts[0]
    } else {
        join_texts(parts.drop_last(), sep) + sep + parts.last()
    }
}

/// The number written by the digits `s`.
pub open spec fn digits_value(s: Seq<char>) -> nat
    decreases s.len(),
{
    if s.len() == 0 {
        0
    } else {
        digits_value(s.drop_last()) * 10 + (s.last() as nat - 48) as nat
    }
}

/// `s` without one leading plus sign.
pub open spec fn strip_plus(s: Seq<char>) -> Seq<char> {
    if s.len() > 0 && s[0] == '+' {
        s.skip(1)
    } else {
        s
    }
}

/// The number that `s` writes: an optional plus sign, then one or more digits.
pub open spec fn number_of(s: Seq<char>) -> Option<nat> {
    let digits = strip_plus(s);
    if digits.len() > 0 && (forall|i: int| 0 <= i < digits.len() ==> is_digit(#[trigger] digits[i])) {
        Some(digits_value(digits))
    } else {
        None
    }
}

/// The number that `s` writes, if it fits in 32 bits.
pub open spec fn u32_of(s: Seq<char>) -> Option<u32> {
    match number_of(s) {
        Some(n) => if n <= u32::MAX {
            Some(n as u32)
        } else {
            None
        },
        None => None,
    }
}

/// The path of `name` inside the directory `dir`.
pub open spec fn path_text(dir: Seq<char>, name: Seq<char>) -> Seq<char> {
    if name.len() > 0 && name[0] == '/' {
        name
    } else if dir.len() == 0 || dir.last() == '/' {
        dir + name
    } else {
        dir.push('/') + name
    }
}

// ---------------------------------------------------------------------------
// Characters and numbers.
// ---------------------------------------------------------------------------
fn digit(d: u128) -> (c: char)
    requires
        d < 10,
    ensures
        c == digit_char(d as nat),
{
    (48 + d as u8) as char
}

/// `n` in decimal.
pub fn decimal(n: u128) -> (s: String)
    ensures
        s@ == decimal_text(n as nat),
    decreases n,
{
    if n < 10 {
        let mut s = String::new();
        s.push(digit(n));
        assert(s@ == seq![digit_char(n as nat)]);
        s
    } else {
        let mut s = decimal(n / 10);
        s.push(digit(n % 10));
        s
    }
}

/// `n` in decimal, padded with a zero to two digits.
pub fn two_digits(n: u64) -> (s: String)
    ensures
        s@ == two_digit_text(n as nat),
{
    if n < 10 {
        let mut s = String::new();
        s.push('0');
        s.push(digit(n as u128));
        assert(s@ == seq!['0', digit_char(n as nat)]);
        s
    } else {
        decimal(n as u128)
    }
}


/// The hexadecimal digit `d` in upper case.
fn hex_upper(d: u8) -> (c: char)
    requires
        d < 16,
    ensures
        c == hex_digit_upper(d as nat),
{
    if d < 10 {
        (48 + d) as char
    } else {
        (55 + d) as char
    }
}

/// The hexadecimal digit `d` in lower case.
fn hex_lower(d: u16) -> (c: char)
    requires
        d < 16,
    ensures
        c == hex_digit_lower(d as nat),
{
    if d < 10 {
        (48 + d as u8) as char
    } else {
        (87 + d as u8) as char
    }
}

/// Two upper-case hexadecimal digits for each byte.
pub fn hex(bytes: &[u8]) -> (s: String)
    ensures
        s@ == hex_text(bytes@),
{
    let mut s = String::new();
    let mut i: usize = 0;
    while i < bytes.len()
        invariant
            i <= bytes@.len(),
            s@ == hex_text(bytes@.take(i as int)),
        decreases bytes@.len() - i,
    {
        s.push(hex_upper(bytes[i] / 16));
        s.push(hex_upper(bytes[i] % 16));
        proof {
            assert(bytes@.take(i + 1).drop_last() == bytes@.take(i as int));
        }
        i = i + 1;
    }
    assert(bytes@.take(bytes@.len() as int) == bytes@);
    s
}

/// `n` in lower-case hexadecimal, without leading zeros.
pub fn lower_hex(n: u16) -> (s: String)
    ensures
        s@ == lower_hex_text(n as nat),
    decreases n,
{
    if n < 16 {
        let mut s = String::new();
        s.push(hex_lower(n));
        assert(s@ == seq![hex_digit_lower(n as nat)]);
        s
    } else {
        let mut s = lower_hex(n / 16);
        s.push(hex_lower(n % 16));
        s
    }
}

/// Whether `c` is white space.
pub fn space(c: char) -> (b: bool)
    ensures
        b == is_space(c),
{
    ('\u{9}' <= c && c <= '\u{d}') || c == '\u{20}' || c == '\u{85}' || c == '\u{a0}' || c
        == '\u{1680}' || ('\u{2000}' <= c && c <= '\u{200a}') || c == '\u{2028}' || c == '\u{2029}'
        || c == '\u{202f}' || c == '\u{205f}' || c == '\u{3000}'
}

// ---------------------------------------------------------------------------
// Whole texts.
// ---------------------------------------------------------------------------
/// Whether two texts are equal.
pub fn same(a: &str, b: &str) -> (r: bool)
    ensures
        r == (a@ == b@),
{
    a.to_owned() == b.to_owned()
}

/// The characters of `s`.
pub fn chars_of(s: &str) -> (v: Vec<char>)
    ensures
        v@ == s@,
{
    let mut v: Vec<char> = Vec::new();
    for c in it: s.chars()
        invariant
            v@ == it.seq().take(it.index() as int),
    {
        v.push(c);
    }
    v
}

/// The text of the characters `from` to `to` (exclusive) of `v`.
pub fn slice_text(v: &Vec<char>, from: usize, to: usize) -> (s: String)
    requires
        from <= to <= v@.len(),
    ensures
        s@ == v@.subrange(from as int, to as int),
{
    let mut s = String::new();
    let mut i: usize = from;
    while i < to
        invariant
            from <= i <= to <= v@.len(),
            s@ == v@.subrange(from as int, i as int),
        decreases to - i,
    {
        s.push(v[i]);
        proof {
            assert(v@.subrange(from as int, i + 1) == v@.subrange(from as int, i as int).push(
                v@[i as int],
            ));
        }
        i = i + 1;
    }
    s
}

// ---------------------------------------------------------------------------
// Searching.
// ---------------------------------------------------------------------------
/// Whether the characters `needle` stand in `hay` at position `at`.
fn matches_at(hay: &Vec<char>, needle: &Vec<char>, at: usize) -> (r: bool)
    requires
        at + needle@.len() <= hay@.len(),
    ensures
        r == occurs_at(hay@, needle@, at as int),
{
    let total: usize = hay.len();
    let mut i: usize = 0;
    while i < needle.len()
        invariant
            i <= needle@.len(),
            total == hay@.len(),
            at + needle@.len() <= total,
            forall|j: int| 0 <= j < i ==> #[trigger] needle@[j] == hay@[at + j],
        decreases needle@.len() - i,
    {
        if hay[at + i] != needle[i] {
            proof {
                let sub = hay@.subrange(at as int, at + needle@.len());
                assert(sub[i as int] != needle@[i as int]);
            }
            return false;
        }
        i = i + 1;
    }
    assert(hay@.subrange(at as int, at + needle@.len()) == needle@);
    true
}

/// Whether `needle` occurs in `hay`.
pub fn contains(hay: &str, needle: &str) -> (r: bool)
    ensures
        r == has_text(hay@, needle@),
{
    let h = chars_of(hay);
    let n = chars_of(needle);
    if n.len() > h.len() {
        return false;
    }
    let last: usize = h.len() - n.len();
    let mut i: usize = 0;
    while i <= last
        invariant
            h@ == hay@,
            n@ == needle@,
            last == h@.len() - n@.len(),
            i <= last + 1,
            forall|j: int| 0 <= j < i ==> !#[trigger] occurs_at(hay@, needle@, j),
        decreases last + 1 - i,
    {
        if matches_at(&h, &n, i) {
            return true;
        }
        if i == last {
            assert forall|j: int| !occurs_at(hay@, needle@, j) by {
                if j > i {
                    assert(j + n@.len() > h@.len());
                }
            }
            return false;
        }
        i = i + 1;
    }
    false
}

/// Where a text occurs in what is left of another behind its first `k`
/// characters.
proof fn occurs_behind(hay: Seq<char>, needle: Seq<char>, k: int, i: int)
    requires
        0 <= k <= hay.len(),
        0 <= i,
    ensures
        occurs_at(hay.skip(k), needle, i) == occurs_at(hay, needle, i + k),
{
    if i + k + needle.len() <= hay.len() {
        assert(hay.skip(k).subrange(i, i + needle.len()) == hay.subrange(
            i + k,
            i + k + needle.len(),
        ));
    }
}

/// A text that occurs in the last part of another occurs in it.
pub proof fn suffix_text_is_found(front: Seq<char>, back: Seq<char>, needle: Seq<char>)
    requires
        has_text(back, needle),
    ensures
        has_text(front + back, needle),
{
    let i = choose|i: int| occurs_at(back, needle, i);
    let all = front + back;
    assert(all.skip(front.len() as int) == back);
    occurs_behind(all, needle, front.len() as int, i);
    assert(occurs_at(all, needle, i + front.len()));
}

proof fn trim_start_keeps(s: Seq<char>, needle: Seq<char>)
    requires
        needle.len() > 0,
        !is_space(needle[0]),
    ensures
        has_text(s, needle) == has_text(trim_start_text(s), needle),
    decreases s.len(),
{
    if s.len() > 0 && is_space(s[0]) {
        let rest = s.skip(1);
        trim_start_keeps(rest, needle);
        if has_text(s, needle) {
            let i = choose|i: int| occurs_at(s, needle, i);
            assert(s.subrange(i, i + needle.len())[0] == s[i]);
            occurs_behind(s, needle, 1, i - 1);
            assert(occurs_at(rest, needle, i - 1));
        }
        if has_text(rest, needle) {
            let i = choose|i: int| occurs_at(rest, needle, i);
            occurs_behind(s, needle, 1, i);
            assert(occurs_at(s, needle, i + 1));
        }
    }
}

proof fn trim_end_keeps(s: Seq<char>, needle: Seq<char>)
    requires
        needle.len() > 0,
        !is_space(needle.last()),
    ensures
        has_text(s, needle) == has_text(trim_end_text(s), needle),
    decreases s.len(),
{
    if s.len() > 0 && is_space(s.last()) {
        let less = s.drop_last();
        trim_end_keeps(less, needle);
        if has_text(s, needle) {
            let i = choose|i: int| occurs_at(s, needle, i);
            let found = s.subrange(i, i + needle.len());
            assert(found.last() == s[i + needle.len() - 1]);
            assert(less.subrange(i, i + needle.len()) == found);
            assert(occurs_at(less, needle, i));
        }
        if has_text(less, needle) {
            let i = choose|i: int| occurs_at(less, needle, i);
            assert(s.subrange(i, i + needle.len()) == less.subrange(i, i + needle.len()));
            assert(occurs_at(s, needle, i));
        }
    }
}

/// A text that neither begins nor ends with white space occurs in another
/// exactly if it occurs in that one trimmed.
pub proof fn trimming_keeps_text(s: Seq<char>, needle: Seq<char>)
    requires
        needle.len() > 0,
        !is_space(needle[0]),
        !is_space(needle.last()),
    ensures
        has_text(s, needle) == has_text(trim_text(s), needle),
{
    trim_start_keeps(s, needle);
    trim_end_keeps(trim_start_text(s), needle);
}

/// Whether `s` begins with `prefix`.
pub fn starts_with(s: &str, prefix: &str) -> (r: bool)
    ensures
        r == prefix@.is_prefix_of(s@),
{
    let h = chars_of(s);
    let n = chars_of(prefix);
    if n.len() > h.len() {
        return false;
    }
    let r = matches_at(&h, &n, 0);
    assert(h@.subrange(0, n@.len() as int) == h@.take(n@.len() as int));
    r
}

/// The position of the first `c` at or after `from`, or the length of `v`.
fn find_from(v: &Vec<char>, c: char, from: usize) -> (n: usize)
    requires
        from <= v@.len(),
    ensures
        from <= n <= v@.len(),
        n - from == find_char(v@.skip(from as int), c),
{
    let mut i: usize = from;
    while i < v.len() && v[i] != c
        invariant
            from <= i <= v@.len(),
            find_char(v@.skip(from as int), c) == i - from + find_char(v@.skip(i as int), c),
        decreases v@.len() - i,
    {
        assert(v@.skip(i as int).skip(1) == v@.skip(i + 1));
        i = i + 1;
    }
    i
}

/// The first `c` in `s` lies inside `s` exactly if `s` has a `c`; nothing
/// before it is a `c`.
pub proof fn find_char_is_first(s: Seq<char>, c: char)
    ensures
        find_char(s, c) <= s.len(),
        find_char(s, c) < s.len() ==> s[find_char(s, c) as int] == c,
        forall|i: int| 0 <= i < find_char(s, c) ==> #[trigger] s[i] != c,
    decreases s.len(),
{
    if s.len() > 0 && s[0] != c {
        find_char_is_first(s.skip(1), c);
        assert forall|i: int| 0 <= i < find_char(s, c) implies #[trigger] s[i] != c by {
            if i > 0 {
                assert(s[i] == s.skip(1)[i - 1]);
            }
        }
    }
}

/// Splits `s` at its first `c`, which neither part keeps.
pub fn split_once(s: &str, c: char) -> (r: Option<(String, String)>)
    ensures
        match r {
            Some((a, b)) => {
                let n = find_char(s@, c);
                n < s@.len() && a@ == s@.take(n as int) && b@ == s@.skip((n + 1) as int)
            },
            None => find_char(s@, c) == s@.len(),
        },
{
    let v = chars_of(s);
    let n: usize = find_from(&v, c, 0);
    assert(v@.skip(0) == v@);
    if n == v.len() {
        None
    } else {
        let a = slice_text(&v, 0, n);
        let b = slice_text(&v, n + 1, v.len());
        Some((a, b))
    }
}

// ---------------------------------------------------------------------------
// White space, words and lines.
// ---------------------------------------------------------------------------
/// `s` without its leading and trailing white space.
pub fn trim(s: &str) -> (r: String)
    ensures
        r@ == trim_text(s@),
{
    let v = chars_of(s);
    let mut from: usize = 0;
    assert(v@.skip(0) == v@);
    while from < v.len() && space(v[from])
        invariant
            from <= v@.len(),
            trim_start_text(v@) == trim_start_text(v@.skip(from as int)),
        decreases v@.len() - from,
    {
        assert(v@.skip(from as int).skip(1) == v@.skip(from + 1));
        from = from + 1;
    }
    let mut to: usize = v.len();
    assert(v@.subrange(from as int, to as int) == v@.skip(from as int));
    while from < to && space(v[to - 1])
        invariant
            from <= to <= v@.len(),
            trim_end_text(trim_start_text(v@)) == trim_end_text(v@.subrange(from as int, to as int)),
        decreases to,
    {
        assert(v@.subrange(from as int, to as int).drop_last() == v@.subrange(
            from as int,
            to - 1,
        ));
        to = to - 1;
    }
    slice_text(&v, from, to)
}

/// The end of the word that starts at `from`.
fn word_end(v: &Vec<char>, from: usize) -> (n: usize)
    requires
        from <= v@.len(),
    ensures
        from <= n <= v@.len(),
        n - from == word_len(v@.skip(from as int)),
{
    let mut i: usize = from;
    while i < v.len() && !space(v[i])
        invariant
            from <= i <= v@.len(),
            word_len(v@.skip(from as int)) == i - from + word_len(v@.skip(i as int)),
        decreases v@.len() - i,
    {
        assert(v@.skip(i as int).skip(1) == v@.skip(i + 1));
        i = i + 1;
    }
    i
}

/// The white-space separated words of `s`.
pub fn words(s: &str) -> (list: Vec<String>)
    ensures
        texts(list@) == words_of(s@),
{
    let v = chars_of(s);
    let mut list: Vec<String> = Vec::new();
    let mut i: usize = 0;
    assert(v@.skip(0) == v@);
    assert(texts(list@) + words_of(v@) == words_of(v@));
    while i < v.len()
        invariant
            i <= v@.len(),
            texts(list@) + words_of(v@.skip(i as int)) == words_of(v@),
        decreases v@.len() - i,
    {
        let ghost rest = v@.skip(i as int);
        let ghost before = list@;
        if space(v[i]) {
            assert(rest.skip(1) == v@.skip(i + 1));
            i = i + 1;
        } else {
            let end: usize = word_end(&v, i);
            let w = slice_text(&v, i, end);
            list.push(w);
            proof {
                assert(word_len(rest) > 0);
                assert(w@ == rest.take(end - i));
                assert(rest.skip(end - i) == v@.skip(end as int));
                assert(texts(list@) == texts(before).push(w@));
                assert(texts(list@) + words_of(v@.skip(end as int)) == texts(before) + (seq![w@]
                    + words_of(v@.skip(end as int))));
            }
            i = end;
        }
    }
    assert(v@.skip(i as int) == Seq::<char>::empty());
    assert(texts(list@) + words_of(Seq::<char>::empty()) == texts(list@));
    list
}

/// The lines of `s`.
pub fn lines(s: &str) -> (list: Vec<String>)
    ensures
        texts(list@) == lines_of(s@),
{
    let v = chars_of(s);
    let mut list: Vec<String> = Vec::new();
    let mut i: usize = 0;
    assert(v@.skip(0) == v@);
    assert(texts(list@) + lines_of(v@) == lines_of(v@));
    while i < v.len()
        invariant
            i <= v@.len(),
            texts(list@) + lines_of(v@.skip(i as int)) == lines_of(v@),
        decreases v@.len() - i,
    {
        let ghost rest = v@.skip(i as int);
        let ghost before = list@;
        let end: usize = find_from(&v, '\n', i);
        if end == v.len() {
            let w = slice_text(&v, i, end);
            list.push(w);
            proof {
                assert(w@ == rest);
                assert(texts(list@) == texts(before).push(w@));
                assert(texts(list@) == texts(before) + seq![rest]);
                assert(v@.skip(end as int) == Seq::<char>::empty());
                assert(texts(list@) + lines_of(Seq::<char>::empty()) == texts(list@));
            }
            i = end;
        } else {
            let cut: usize = if end > i && v[end - 1] == '\r' {
                end - 1
            } else {
                end
            };
            let w = slice_text(&v, i, cut);
            list.push(w);
            proof {
                assert(w@ == strip_cr(rest.take(end - i)));
                assert(rest.skip(end - i + 1) == v@.skip(end + 1));
                assert(texts(list@) == texts(before).push(w@));
                assert(texts(list@) + lines_of(v@.skip(end + 1)) == texts(before) + (seq![w@]
                    + lines_of(v@.skip(end + 1))));
            }
            i = end + 1;
        }
    }
    assert(v@.skip(i as int) == Seq::<char>::empty());
    assert(texts(list@) + lines_of(Seq::<char>::empty()) == texts(list@));
    list
}

/// The texts of `parts` with `sep` between them.
pub fn join(parts: &Vec<String>, sep: &str) -> (s: String)
    ensures
        s@ == join_texts(texts(parts@), sep@),
{
    let mut s = String::new();
    let mut i: usize = 0;
    while i < parts.len()
        invariant
            i <= parts@.len(),
            s@ == join_texts(texts(parts@).take(i as int), sep@),
        decreases parts@.len() - i,
    {
        if i > 0 {
            s.append(sep);
        }
        s.append(parts[i].as_str());
        proof {
            let all = texts(parts@);
            assert(all.take(i + 1).drop_last() == all.take(i as int));
            if i == 0 {
                assert(s@ == all[0]);
            }
        }
        i = i + 1;
    }
    assert(texts(parts@).take(parts@.len() as int) == texts(parts@));
    s
}

// ---------------------------------------------------------------------------
// Numbers in texts.
// ---------------------------------------------------------------------------
proof fn digits_value_grows(s: Seq<char>, n: int)
    requires
        0 <= n <= s.len(),
    ensures
        digits_value(s.take(n)) <= digits_value(s),
    decreases s.len() - n,
{
    if n < s.len() {
        digits_value_grows(s, n + 1);
        assert(s.take(n + 1).drop_last() == s.take(n));
    } else {
        assert(s.take(n) == s);
    }
}

/// Reads a 32-bit number: an optional plus sign, then one or more digits.
pub fn parse_u32(s: &str) -> (r: Option<u32>)
    ensures
        r == u32_of(s@),
{
    let v = chars_of(s);
    let from: usize = if v.len() > 0 && v[0] == '+' {
        1
    } else {
        0
    };
    let ghost digits = strip_plus(s@);
    assert(digits == v@.skip(from as int));
    if from == v.len() {
        return None;
    }
    let mut acc: u64 = 0;
    let mut i: usize = from;
    while i < v.len()
        invariant
            from <= i <= v@.len(),
            v@ == s@,
            digits == strip_plus(s@),
            digits == v@.skip(from as int),
            digits.len() > 0,
            acc <= u32::MAX,
            acc == digits_value(digits.take(i - from)),
            forall|j: int| 0 <= j < i - from ==> is_digit(#[trigger] digits[j]),
        decreases v@.len() - i,
    {
        let c = v[i];
        assert(c == digits[i - from]);
        if !('0' <= c && c <= '9') {
            return None;
        }
        acc = acc * 10 + (c as u64 - 48);
        proof {
            assert(digits.take(i + 1 - from).drop_last() == digits.take(i - from));
        }
        if acc > u32::MAX as u64 {
            proof {
                digits_value_grows(digits, i + 1 - from);
            }
            return None;
        }
        i = i + 1;
    }
    assert(digits.take(digits.len() as int) == digits);
    Some(acc as u32)
}

// ---------------------------------------------------------------------------
// Paths.
// ---------------------------------------------------------------------------
/// The path of `name` inside the directory `dir`.
pub fn path_join(dir: &str, name: &str) -> (s: String)
    ensures
        s@ == path_text(dir@, name@),
{
    let d = chars_of(dir);
    let n = chars_of(name);
    if n.len() > 0 && n[0] == '/' {
        return name.to_owned();
    }
    let mut s = dir.to_owned();
    if d.len() > 0 && d[d.len() - 1] != '/' {
        s.push('/');
    }
    s.append(name);
    s
}

} // verus!
