//! Numbers and texts, as they are read back.
use crate::text;
use vstd::prelude::*;

verus! {

// ---------------------------------------------------------------------------
// Numbers.
// ---------------------------------------------------------------------------
/// The number that a row of decimal digits stands for.
pub open spec fn decimal_value(s: Seq<char>) -> int
    decreases s.len(),
{
    if s.len() == 0 {
        0
    } else {
        10 * decimal_value(s.drop_last()) + (s.last() as int - '0' as int)
    }
}

/// Whether a text is made of decimal digits only.
pub open spec fn all_digits(s: Seq<char>) -> bool {
    forall|i: int| 0 <= i < s.len() ==> '0' <= #[trigger] s[i] <= '9'
}

/// Whether a text is the usual way to write a number: decimal digits, the
/// first of which is not zero unless it is the only one.
pub open spec fn writes(s: Seq<char>, n: int) -> bool {
    &&& s.len() > 0
    &&& all_digits(s)
    &&& decimal_value(s) == n
    &&& s.len() > 1 ==> s[0] != '0'
}

/// Every number is written in the usual way.
pub proof fn decimals_read_back(n: nat)
    ensures
        writes(text::decimal_text(n), n as int),
    decreases n,
{
    let s = text::decimal_text(n);
    if n < 10 {
        assert(s.drop_last() == Seq::<char>::empty());
        assert(decimal_value(s.drop_last()) == 0);
        assert(s.last() as int == 48 + n);
    } else {
        decimals_read_back(n / 10);
        let front = text::decimal_text(n / 10);
        assert(s.drop_last() == front);
        assert(s.last() as int == 48 + n % 10);
        assert(s[0] == front[0]);
        if front.len() == 1 {
            assert(front.drop_last() == Seq::<char>::empty());
            assert(decimal_value(front.drop_last()) == 0);
            assert(front[0] as int - 48 == n / 10);
        }
        assert forall|i: int| 0 <= i < s.len() implies '0' <= #[trigger] s[i] <= '9' by {
            if i < front.len() {
                assert(s[i] == front[i]);
            }
        }
    }
}

/// Different numbers are written differently.
pub proof fn decimals_differ(a: nat, b: nat)
    requires
        text::decimal_text(a) == text::decimal_text(b),
    ensures
        a == b,
{
    decimals_read_back(a);
    decimals_read_back(b);
}

/// A number padded to two digits has at least two, and still is that number.
pub proof fn two_digits_read_back(n: nat)
    ensures
        text::two_digit_text(n).len() >= 2,
        text::two_digit_text(n).len() > 2 ==> text::two_digit_text(n)[0] != '0',
        all_digits(text::two_digit_text(n)),
        decimal_value(text::two_digit_text(n)) == n,
{
    let s = text::two_digit_text(n);
    decimals_read_back(n);
    if n < 10 {
        assert(s.drop_last().drop_last() == Seq::<char>::empty());
        assert(s.drop_last().last() == '0');
        assert(s.last() as int == 48 + n);
        assert(decimal_value(s.drop_last().drop_last()) == 0);
        assert(decimal_value(s.drop_last()) == 0);
    } else if text::decimal_text(n).len() == 1 {
        assert(s.drop_last() == Seq::<char>::empty());
        assert(decimal_value(s.drop_last()) == 0);
    }
}

proof fn values_agree(s: Seq<char>)
    requires
        all_digits(s),
    ensures
        text::digits_value(s) == decimal_value(s),
    decreases s.len(),
{
    if s.len() > 0 {
        let front = s.drop_last();
        assert forall|i: int| 0 <= i < front.len() implies '0' <= #[trigger] front[i] <= '9' by {
            assert(front[i] == s[i]);
        }
        values_agree(front);
        assert('0' <= s[s.len() - 1] <= '9');
    }
}

/// A 32-bit number is read from a text exactly if the text is that number in
/// decimal digits, perhaps behind a plus sign and leading zeros.
pub proof fn numbers_are_read(s: Seq<char>)
    ensures
        ({
            let digits = if s.len() > 0 && s[0] == '+' {
                s.skip(1)
            } else {
                s
            };
            text::u32_of(s) == if digits.len() > 0 && all_digits(digits) && decimal_value(digits)
                < 0x1_0000_0000 {
                Some(decimal_value(digits) as u32)
            } else {
                None
            }
        }),
{
    let digits = if s.len() > 0 && s[0] == '+' {
        s.skip(1)
    } else {
        s
    };
    assert(digits == text::strip_plus(s));
    if all_digits(digits) {
        values_agree(digits);
    } else {
        let i = choose|i: int| 0 <= i < digits.len() && !('0' <= #[trigger] digits[i] <= '9');
        assert(!text::is_digit(digits[i]));
    }
}

/// A 32-bit number that is written is read again.
pub proof fn written_numbers_are_read(n: u32)
    ensures
        text::u32_of(text::decimal_text(n as nat)) == Some(n),
{
    let s = text::decimal_text(n as nat);
    decimals_read_back(n as nat);
    numbers_are_read(s);
    assert('0' <= s[0] <= '9');
}

/// The value of a hexadecimal digit.
pub open spec fn hex_value(c: char) -> int {
    if '0' <= c <= '9' {
        c as int - '0' as int
    } else if 'A' <= c <= 'F' {
        c as int - 'A' as int + 10
    } else if 'a' <= c <= 'f' {
        c as int - 'a' as int + 10
    } else {
        -1
    }
}

/// The hexadecimal text of bytes has two digits for each byte, none of them in
/// lower case, that give the byte back.
pub proof fn hex_reads_back(bytes: Seq<u8>, i: int)
    requires
        0 <= i < bytes.len(),
    ensures
        text::hex_text(bytes).len() == 2 * bytes.len(),
        16 * hex_value(text::hex_text(bytes)[2 * i]) + hex_value(text::hex_text(bytes)[2 * i + 1])
            == bytes[i],
        !('a' <= text::hex_text(bytes)[2 * i] <= 'f'),
        !('a' <= text::hex_text(bytes)[2 * i + 1] <= 'f'),
        0 <= hex_value(text::hex_text(bytes)[2 * i + 1]) < 16,
    decreases bytes.len(),
{
    let front = bytes.drop_last();
    let all = text::hex_text(bytes);
    if front.len() > 0 {
        hex_reads_back(
            front,
            if i < front.len() {
                i
            } else {
                0
            },
        );
    }
    assert(text::hex_text(front).len() == 2 * front.len());
    if i < front.len() {
        assert(all[2 * i] == text::hex_text(front)[2 * i]);
        assert(all[2 * i + 1] == text::hex_text(front)[2 * i + 1]);
        assert(front[i] == bytes[i]);
    } else {
        let b = bytes.last() as nat;
        assert(all[2 * i] == text::hex_digit_upper(b / 16));
        assert(all[2 * i + 1] == text::hex_digit_upper(b % 16));
    }
}

/// The number that a row of hexadecimal digits stands for.
pub open spec fn hex_number(s: Seq<char>) -> int
    decreases s.len(),
{
    if s.len() == 0 {
        0
    } else {
        16 * hex_number(s.drop_last()) + hex_value(s.last())
    }
}

/// Whether a text is a number in hexadecimal: digits, with letters in lower case,
/// the first of which is not zero unless it is the only one.
pub open spec fn writes_hex(s: Seq<char>, n: int) -> bool {
    &&& s.len() > 0
    &&& forall|i: int|
        0 <= i < s.len() ==> ('0' <= #[trigger] s[i] <= '9' || 'a' <= s[i] <= 'f')
    &&& hex_number(s) == n
    &&& s.len() > 1 ==> s[0] != '0'
}

/// Every number is written in hexadecimal as usual.
pub proof fn lower_hex_reads_back(n: nat)
    ensures
        writes_hex(text::lower_hex_text(n), n as int),
    decreases n,
{
    let s = text::lower_hex_text(n);
    if n < 16 {
        assert(s.drop_last() == Seq::<char>::empty());
        assert(hex_number(s.drop_last()) == 0);
        assert(s.last() == text::hex_digit_lower(n));
    } else {
        lower_hex_reads_back(n / 16);
        let front = text::lower_hex_text(n / 16);
        assert(s.drop_last() == front);
        assert(s.last() == text::hex_digit_lower(n % 16));
        assert(s[0] == front[0]);
        if front.len() == 1 {
            assert(front.drop_last() == Seq::<char>::empty());
            assert(hex_number(front.drop_last()) == 0);
            assert(hex_value(front[0]) == n / 16);
        }
        assert forall|i: int| 0 <= i < s.len() implies ('0' <= #[trigger] s[i] <= '9' || 'a' <= s[i]
            <= 'f') by {
            if i < front.len() {
                assert(s[i] == front[i]);
            }
        }
    }
}

/// The hexadecimal text of no bytes is empty.
pub proof fn hex_of_nothing(bytes: Seq<u8>)
    requires
        bytes.len() == 0,
    ensures
        text::hex_text(bytes).len() == 0,
{
}

// ---------------------------------------------------------------------------
// White space, words and lines.
// ---------------------------------------------------------------------------
/// White space: the code points that Unicode lists under `White_Space`.
pub open spec fn is_white(c: char) -> bool {
    let n = c as int;
    9 <= n <= 13 || n == 32 || n == 133 || n == 160 || n == 5760 || 8192 <= n <= 8202 || n == 8232
        || n == 8233 || n == 8239 || n == 8287 || n == 12288
}

/// White space is what Unicode lists.
pub proof fn white_space_is_unicode(c: char)
    ensures
        text::is_space(c) == is_white(c),
{
}

/// Whether a text is all white space.
pub open spec fn all_white(s: Seq<char>) -> bool {
    forall|i: int| 0 <= i < s.len() ==> is_white(#[trigger] s[i])
}

proof fn trim_start_splits(s: Seq<char>) -> (front: Seq<char>)
    ensures
        all_white(front),
        s == front + text::trim_start_text(s),
        text::trim_start_text(s).len() > 0 ==> !is_white(text::trim_start_text(s)[0]),
    decreases s.len(),
{
    if s.len() > 0 && text::is_space(s[0]) {
        let rest = trim_start_splits(s.skip(1));
        let front = seq![s[0]] + rest;
        assert forall|i: int| 0 <= i < front.len() implies is_white(#[trigger] front[i]) by {
            if i > 0 {
                assert(front[i] == rest[i - 1]);
            }
        }
        assert(s == front + text::trim_start_text(s)) by {
            assert(s == seq![s[0]] + s.skip(1));
            assert(front + text::trim_start_text(s) == seq![s[0]] + (rest + text::trim_start_text(
                s.skip(1),
            )));
        }
        front
    } else {
        assert(s == Seq::<char>::empty() + s);
        Seq::empty()
    }
}

proof fn trim_end_splits(s: Seq<char>) -> (back: Seq<char>)
    ensures
        all_white(back),
        s == text::trim_end_text(s) + back,
        text::trim_end_text(s).len() > 0 ==> !is_white(text::trim_end_text(s).last())
            && text::trim_end_text(s)[0] == s[0],
    decreases s.len(),
{
    if s.len() > 0 && text::is_space(s.last()) {
        let rest = trim_end_splits(s.drop_last());
        let back = rest.push(s.last());
        assert forall|i: int| 0 <= i < back.len() implies is_white(#[trigger] back[i]) by {
            if i < rest.len() {
                assert(back[i] == rest[i]);
            }
        }
        assert(s == text::trim_end_text(s) + back) by {
            assert(s == s.drop_last().push(s.last()));
        }
        if text::trim_end_text(s).len() > 0 {
            assert(s.drop_last()[0] == s[0]);
        }
        back
    } else {
        assert(s == s + Seq::<char>::empty());
        Seq::empty()
    }
}

/// A trimmed text is the text without white space in front and behind, and has
/// none there itself.
pub proof fn trimming_takes_white_space(s: Seq<char>)
    ensures
        exists|front: Seq<char>, back: Seq<char>|
            all_white(front) && all_white(back) && s == #[trigger] (front + text::trim_text(s)
                + back),
        text::trim_text(s).len() > 0 ==> !is_white(text::trim_text(s)[0]) && !is_white(
            text::trim_text(s).last(),
        ),
{
    let front = trim_start_splits(s);
    let back = trim_end_splits(text::trim_start_text(s));
    assert(s == front + text::trim_text(s) + back);
}

/// Trimming leaves nothing exactly of a text that is all white space.
pub proof fn trimming_empties_white(s: Seq<char>)
    ensures
        text::trim_text(s).len() == 0 <==> all_white(s),
{
    trimming_takes_white_space(s);
    let t = text::trim_text(s);
    let (front, back) = choose|front: Seq<char>, back: Seq<char>|
        all_white(front) && all_white(back) && s == #[trigger] (front + t + back);
    if t.len() == 0 {
        assert forall|i: int| 0 <= i < s.len() implies is_white(#[trigger] s[i]) by {
            if i < front.len() {
                assert(s[i] == front[i]);
            } else {
                assert(s[i] == back[i - front.len()]);
            }
        }
    } else {
        assert(s[front.len() as int] == t[0]);
    }
}

/// A text that neither begins nor ends with white space is trimmed to itself.
pub proof fn trimming_keeps_plain(s: Seq<char>)
    requires
        s.len() > 0,
        !is_white(s[0]),
        !is_white(s.last()),
    ensures
        text::trim_text(s) == s,
{
}

/// White space behind a text is trimmed away.
pub proof fn trimming_drops_tail(s: Seq<char>, c: char)
    requires
        s.len() > 0,
        !is_white(s[0]),
        !is_white(s.last()),
        is_white(c),
    ensures
        text::trim_text(s.push(c)) == s,
{
    assert(s.push(c)[0] == s[0]);
    assert(s.push(c).drop_last() == s);
    assert(text::trim_start_text(s.push(c)) == s.push(c));
    assert(text::trim_end_text(s.push(c)) == text::trim_end_text(s));
}

/// A 32-bit number is read from its digits and a line feed.
pub proof fn number_lines_are_read(n: u32)
    ensures
        text::u32_of(text::trim_text(text::decimal_text(n as nat))) == Some(n),
        text::u32_of(text::trim_text(text::decimal_text(n as nat).push('\n'))) == Some(n),
{
    let s = text::decimal_text(n as nat);
    decimals_read_back(n as nat);
    written_numbers_are_read(n);
    assert('0' <= s[0] <= '9');
    assert('0' <= s[s.len() - 1] <= '9');
    trimming_keeps_plain(s);
    trimming_drops_tail(s, '\n');
}

/// Whether a text is one word: not empty, and without white space.
pub open spec fn is_word(s: Seq<char>) -> bool {
    s.len() > 0 && forall|i: int| 0 <= i < s.len() ==> !is_white(#[trigger] s[i])
}

/// Words, each with a space behind it.
pub open spec fn spaced(words: Seq<Seq<char>>) -> Seq<char>
    decreases words.len(),
{
    if words.len() == 0 {
        seq![]
    } else {
        spaced(words.drop_last()) + words.last() + seq![' ']
    }
}

/// Whether each of a list is one word.
pub open spec fn all_words(words: Seq<Seq<char>>) -> bool {
    forall|i: int| 0 <= i < words.len() ==> is_word(#[trigger] words[i])
}

proof fn word_len_is(s: Seq<char>, n: nat)
    requires
        n <= s.len(),
        forall|i: int| 0 <= i < n ==> !is_white(#[trigger] s[i]),
        n < s.len() ==> is_white(s[n as int]),
    ensures
        text::word_len(s) == n,
    decreases n,
{
    if n > 0 {
        let rest = s.skip(1);
        assert forall|i: int| 0 <= i < n - 1 implies !is_white(#[trigger] rest[i]) by {
            assert(rest[i] == s[i + 1]);
        }
        word_len_is(rest, (n - 1) as nat);
    }
}

/// A word in front of white space is the first of the words.
pub proof fn first_word(w: Seq<char>, c: char, rest: Seq<char>)
    requires
        is_word(w),
        is_white(c),
    ensures
        text::words_of(w + seq![c] + rest) == seq![w] + text::words_of(rest),
{
    let s = w + seq![c] + rest;
    assert(s[w.len() as int] == c);
    assert forall|i: int| 0 <= i < w.len() implies !is_white(#[trigger] s[i]) by {
        assert(s[i] == w[i]);
    }
    word_len_is(s, w.len());
    assert(s.take(w.len() as int) == w);
    let after = s.skip(w.len() as int);
    assert(after[0] == c);
    assert(after.skip(1) == rest);
    assert(!is_white(s[0]));
    assert(text::words_of(after) == text::words_of(rest));
}

/// A word at the end of a text is the last of the words.
pub proof fn last_word(w: Seq<char>)
    requires
        is_word(w),
    ensures
        text::words_of(w) == seq![w],
{
    word_len_is(w, w.len());
    assert(w.take(w.len() as int) == w);
    assert(w.skip(w.len() as int) == Seq::<char>::empty());
    assert(!is_white(w[0]));
    assert(text::words_of(Seq::<char>::empty()) == Seq::<Seq<char>>::empty());
    assert(seq![w] + Seq::<Seq<char>>::empty() == seq![w]);
}

/// There are no words in nothing.
pub proof fn no_words(s: Seq<char>)
    requires
        s.len() == 0,
    ensures
        text::words_of(s).len() == 0,
{
}

/// A text holds another exactly if it is that text with something in front and
/// behind.
pub proof fn held_texts_are_parts(hay: Seq<char>, needle: Seq<char>)
    ensures
        text::has_text(hay, needle) <==> exists|front: Seq<char>, back: Seq<char>|
            hay == #[trigger] (front + needle + back),
{
    if text::has_text(hay, needle) {
        let i = choose|i: int| text::occurs_at(hay, needle, i);
        let front = hay.take(i);
        let back = hay.skip(i + needle.len());
        assert(hay =~= front + needle + back);
    }
    if exists|front: Seq<char>, back: Seq<char>| hay == #[trigger] (front + needle + back) {
        let (front, back) = choose|front: Seq<char>, back: Seq<char>|
            hay == #[trigger] (front + needle + back);
        assert(hay.subrange(front.len() as int, (front.len() + needle.len()) as int) =~= needle);
        assert(text::occurs_at(hay, needle, front.len() as int));
    }
}

/// White space in front of a text makes no word.
pub proof fn leading_white(c: char, rest: Seq<char>)
    requires
        is_white(c),
    ensures
        text::words_of(seq![c] + rest) == text::words_of(rest),
{
    let s = seq![c] + rest;
    assert(s.skip(1) == rest);
}

/// Words with spaces behind them are the words in front of those of the rest.
pub proof fn spaced_words(words: Seq<Seq<char>>, rest: Seq<char>)
    requires
        all_words(words),
    ensures
        text::words_of(spaced(words) + rest) == words + text::words_of(rest),
    decreases words.len(),
{
    if words.len() == 0 {
        assert(spaced(words) + rest == rest);
        assert(words + text::words_of(rest) == text::words_of(rest));
    } else {
        let front = words.drop_last();
        let w = words.last();
        assert forall|i: int| 0 <= i < front.len() implies is_word(#[trigger] front[i]) by {
            assert(front[i] == words[i]);
        }
        assert(is_word(words[words.len() - 1]));
        let more = w + seq![' '] + rest;
        assert(spaced(words) + rest == spaced(front) + more);
        spaced_words(front, more);
        first_word(w, ' ', rest);
        assert(front + (seq![w] + text::words_of(rest)) == words + text::words_of(rest));
    }
}

/// Whether a text can be a line: it holds no line feed and does not end in a
/// carriage return.
pub open spec fn is_line(s: Seq<char>) -> bool {
    &&& forall|i: int| 0 <= i < s.len() ==> #[trigger] s[i] != '\n'
    &&& s.len() > 0 ==> s.last() != '\r'
}

proof fn find_feed(s: Seq<char>, n: nat)
    requires
        n < s.len(),
        s[n as int] == '\n',
        forall|i: int| 0 <= i < n ==> #[trigger] s[i] != '\n',
    ensures
        text::find_char(s, '\n') == n,
    decreases n,
{
    if n > 0 {
        let rest = s.skip(1);
        assert forall|i: int| 0 <= i < n - 1 implies #[trigger] rest[i] != '\n' by {
            assert(rest[i] == s[i + 1]);
        }
        find_feed(rest, (n - 1) as nat);
    }
}

/// A line in front of a line feed is the first of the lines.
pub proof fn first_line(line: Seq<char>, rest: Seq<char>)
    requires
        is_line(line),
    ensures
        text::lines_of(line + seq!['\n'] + rest) == seq![line] + text::lines_of(rest),
{
    let s = line + seq!['\n'] + rest;
    assert forall|i: int| 0 <= i < line.len() implies #[trigger] s[i] != '\n' by {
        assert(s[i] == line[i]);
    }
    assert(s[line.len() as int] == '\n');
    find_feed(s, line.len());
    assert(s.take(line.len() as int) == line);
    assert(s.skip((line.len() + 1) as int) == rest);
}

/// A carriage return in front of a line feed belongs to the line's end.
pub proof fn first_line_with_return(line: Seq<char>, rest: Seq<char>)
    requires
        forall|i: int| 0 <= i < line.len() ==> #[trigger] line[i] != '\n',
    ensures
        text::lines_of(line + seq!['\r', '\n'] + rest) == seq![line] + text::lines_of(rest),
{
    let s = line + seq!['\r', '\n'] + rest;
    let n = line.len() + 1;
    assert forall|i: int| 0 <= i < n implies #[trigger] s[i] != '\n' by {
        if i < line.len() {
            assert(s[i] == line[i]);
        }
    }
    assert(s[n as int] == '\n');
    find_feed(s, n);
    assert(s.take(n as int) == line.push('\r'));
    assert(line.push('\r').drop_last() == line);
    assert(s.skip((n + 1) as int) == rest);
}

/// Whatever stands behind the last line feed is a line too, unless it is nothing.
pub proof fn last_line(line: Seq<char>)
    requires
        forall|i: int| 0 <= i < line.len() ==> #[trigger] line[i] != '\n',
    ensures
        text::lines_of(line) == if line.len() == 0 {
            seq![]
        } else {
            seq![line]
        },
{
    text::find_char_is_first(line, '\n');
}

/// Lines, each with a line feed behind it.
pub open spec fn lined(lines: Seq<Seq<char>>) -> Seq<char>
    decreases lines.len(),
{
    if lines.len() == 0 {
        seq![]
    } else {
        lines[0] + seq!['\n'] + lined(lines.drop_first())
    }
}

/// Whether each of a list can be a line.
pub open spec fn all_lines(lines: Seq<Seq<char>>) -> bool {
    forall|i: int| 0 <= i < lines.len() ==> is_line(#[trigger] lines[i])
}

/// Lines that are written are read again.
pub proof fn lines_read_back(lines: Seq<Seq<char>>)
    requires
        all_lines(lines),
    ensures
        text::lines_of(lined(lines)) == lines,
    decreases lines.len(),
{
    if lines.len() == 0 {
        assert(lines == Seq::<Seq<char>>::empty());
    } else {
        let rest = lines.drop_first();
        assert forall|i: int| 0 <= i < rest.len() implies is_line(#[trigger] rest[i]) by {
            assert(rest[i] == lines[i + 1]);
        }
        assert(is_line(lines[0]));
        lines_read_back(rest);
        first_line(lines[0], lined(rest));
        assert(seq![lines[0]] + rest == lines);
    }
}

/// Lines in a row are written one behind the other.
pub proof fn lined_joins(a: Seq<Seq<char>>, b: Seq<Seq<char>>)
    ensures
        lined(a + b) == lined(a) + lined(b),
    decreases a.len(),
{
    if a.len() == 0 {
        assert(a + b =~= b);
        assert(lined(a) + lined(b) =~= lined(b));
    } else {
        lined_joins(a.drop_first(), b);
        assert((a + b).drop_first() =~= a.drop_first() + b);
        assert((a + b)[0] == a[0]);
        assert(lined(a + b) =~= lined(a) + lined(b));
    }
}

/// One line is written with a line feed behind it.
pub proof fn one_line(line: Seq<char>)
    ensures
        lined(seq![line]) == line + seq!['\n'],
{
    assert(seq![line].drop_first() =~= Seq::<Seq<char>>::empty());
    assert(lined(Seq::<Seq<char>>::empty()) =~= Seq::<char>::empty());
    assert(lined(seq![line]) =~= line + seq!['\n']);
}

/// Lines behind lines are lines.
pub proof fn all_lines_join(a: Seq<Seq<char>>, b: Seq<Seq<char>>)
    requires
        all_lines(a),
        all_lines(b),
    ensures
        all_lines(a + b),
{
    assert forall|i: int| 0 <= i < (a + b).len() implies is_line(#[trigger] (a + b)[i]) by {
        if i < a.len() {
            assert((a + b)[i] == a[i]);
        } else {
            assert((a + b)[i] == b[i - a.len()]);
        }
    }
}

/// A line more is written behind the others.
pub proof fn next_line(before: Seq<char>, lines: Seq<Seq<char>>, label: Seq<char>, v: Seq<char>)
    requires
        before + seq!['\n'] == lined(lines),
    ensures
        before + (seq!['\n'] + label) + v + seq!['\n'] == lined(lines.push(label + v)),
{
    lined_joins(lines, seq![label + v]);
    one_line(label + v);
    assert(lines + seq![label + v] =~= lines.push(label + v));
    assert(before + (seq!['\n'] + label) + v + seq!['\n'] =~= (before + seq!['\n']) + ((label + v)
        + seq!['\n']));
}

/// Whether a text begins with another.
pub open spec fn begins_with(s: Seq<char>, prefix: Seq<char>) -> bool {
    s.len() >= prefix.len() && s.take(prefix.len() as int) == prefix
}

/// Whether a text ends with another.
pub open spec fn ends_with(s: Seq<char>, suffix: Seq<char>) -> bool {
    s.len() >= suffix.len() && s.skip(s.len() - suffix.len()) == suffix
}

/// What stands between two texts that a text begins and ends with.
pub open spec fn between(s: Seq<char>, prefix: Seq<char>, suffix: Seq<char>) -> Option<
    Seq<char>,
> {
    if s.len() >= prefix.len() + suffix.len() && begins_with(s, prefix) && ends_with(s, suffix) {
        Some(s.subrange(prefix.len() as int, s.len() - suffix.len()))
    } else {
        None
    }
}

/// What was put between two texts is found there.
pub proof fn between_is_found(prefix: Seq<char>, v: Seq<char>, suffix: Seq<char>)
    ensures
        between(prefix + v + suffix, prefix, suffix) == Some(v),
{
    let s = prefix + v + suffix;
    assert(s.take(prefix.len() as int) =~= prefix);
    assert(s.skip(s.len() - suffix.len()) =~= suffix);
    assert(s.subrange(prefix.len() as int, s.len() - suffix.len()) =~= v);
}

/// What was put behind a text is found there.
pub proof fn behind_is_found(prefix: Seq<char>, v: Seq<char>)
    ensures
        begins_with(prefix + v, prefix),
        (prefix + v).skip(prefix.len() as int) == v,
{
    assert((prefix + v).take(prefix.len() as int) =~= prefix);
    assert((prefix + v).skip(prefix.len() as int) =~= v);
}

/// What stands behind a label, on the first line that begins with it.
pub open spec fn field(lines: Seq<Seq<char>>, label: Seq<char>) -> Option<Seq<char>>
    decreases lines.len(),
{
    if lines.len() == 0 {
        None
    } else if begins_with(lines[0], label) {
        Some(lines[0].skip(label.len() as int))
    } else {
        field(lines.drop_first(), label)
    }
}

/// A field is found behind its label, if no line before begins with the label.
pub proof fn field_is_found(lines: Seq<Seq<char>>, j: int, label: Seq<char>, v: Seq<char>)
    requires
        0 <= j < lines.len(),
        lines[j] == label + v,
        forall|i: int| 0 <= i < j ==> !begins_with(#[trigger] lines[i], label),
    ensures
        field(lines, label) == Some(v),
    decreases j,
{
    if j == 0 {
        assert((label + v).take(label.len() as int) =~= label);
        assert((label + v).skip(label.len() as int) =~= v);
    } else {
        assert(!begins_with(lines[0], label));
        let rest = lines.drop_first();
        assert forall|i: int| 0 <= i < j - 1 implies !begins_with(#[trigger] rest[i], label) by {
            assert(rest[i] == lines[i + 1]);
        }
        field_is_found(rest, j - 1, label, v);
    }
}

/// Texts that begin differently do not begin with the same label.
pub proof fn begins_otherwise(s: Seq<char>, label: Seq<char>, i: int)
    requires
        0 <= i < label.len(),
        i < s.len() ==> s[i] != label[i],
    ensures
        !begins_with(s, label),
{
    if begins_with(s, label) {
        assert(s.take(label.len() as int)[i] == s[i]);
    }
}

/// A line behind a line is a line.
pub proof fn lines_join(a: Seq<char>, b: Seq<char>)
    requires
        is_line(a),
        is_line(b),
    ensures
        is_line(a + b),
{
    let s = a + b;
    assert forall|i: int| 0 <= i < s.len() implies #[trigger] s[i] != '\n' by {
        if i < a.len() {
            assert(s[i] == a[i]);
        } else {
            assert(s[i] == b[i - a.len()]);
        }
    }
    if b.len() > 0 {
        assert(s.last() == b.last());
    } else {
        assert(s =~= a);
    }
}

/// A number is written on one line.
pub proof fn writing_is_line(s: Seq<char>, n: int)
    requires
        writes(s, n),
    ensures
        is_line(s),
{
    assert forall|i: int| 0 <= i < s.len() implies #[trigger] s[i] != '\n' by {
        assert('0' <= s[i] <= '9');
    }
    assert('0' <= s[s.len() - 1] <= '9');
}

/// Texts are joined from the front as from the back: the first, the separator,
/// and the others joined.
pub proof fn joining_goes_on(parts: Seq<Seq<char>>, sep: Seq<char>)
    requires
        parts.len() > 1,
    ensures
        text::join_texts(parts, sep) == parts[0] + sep + text::join_texts(parts.drop_first(), sep),
    decreases parts.len(),
{
    let front = parts.drop_last();
    let rest = parts.drop_first();
    if parts.len() == 2 {
        assert(front.len() == 1 && front[0] == parts[0]);
        assert(rest.len() == 1 && rest[0] == parts[1]);
        assert(text::join_texts(front, sep) == parts[0]);
        assert(text::join_texts(rest, sep) == parts[1]);
    } else {
        joining_goes_on(front, sep);
        assert(front.drop_first() == rest.drop_last());
        assert(front[0] == parts[0]);
        assert(rest.last() == parts.last());
        assert(parts[0] + sep + text::join_texts(rest.drop_last(), sep) + sep + parts.last()
            == parts[0] + sep + (text::join_texts(rest.drop_last(), sep) + sep + rest.last()));
    }
}

/// One text is joined to itself, and none to nothing.
pub proof fn joining_begins(parts: Seq<Seq<char>>, sep: Seq<char>)
    ensures
        parts.len() == 0 ==> text::join_texts(parts, sep).len() == 0,
        parts.len() == 1 ==> text::join_texts(parts, sep) == parts[0],
{
}

/// The path of a file inside a directory is the directory, a slash and the
/// file; a directory that ends in a slash needs no other.
pub proof fn paths_have_one_slash(dir: Seq<char>, name: Seq<char>)
    requires
        dir.len() > 0,
        name.len() > 0,
        name[0] != '/',
    ensures
        ({
            let path = text::path_text(dir, name);
            let stem = if dir.last() == '/' {
                dir.drop_last()
            } else {
                dir
            };
            &&& path.len() == stem.len() + 1 + name.len()
            &&& path.take(stem.len() as int) == stem
            &&& path[stem.len() as int] == '/'
            &&& path.skip(stem.len() as int + 1) == name
        }),
{
    let path = text::path_text(dir, name);
    let stem = if dir.last() == '/' {
        dir.drop_last()
    } else {
        dir
    };
    assert(path == stem.push('/') + name);
    assert(path.take(stem.len() as int) == stem);
    assert(path.skip(stem.len() as int + 1) == name);
}

/// An absolute path stands alone, and nothing is in front of a path without a
/// directory.
pub proof fn some_paths_stand_alone(dir: Seq<char>, name: Seq<char>)
    requires
        name.len() > 0,
        name[0] == '/' || dir.len() == 0,
    ensures
        text::path_text(dir, name) == name,
{
    assert(Seq::<char>::empty() + name == name);
    if dir.len() == 0 {
        assert(dir + name =~= name);
    }
}

/// A list of texts is taken text by text, in order; so is one that may be missing.
pub proof fn lists_are_taken_in_order(list: Seq<String>, s: Option<String>)
    ensures
        text::texts(list).len() == list.len(),
        forall|i: int| 0 <= i < list.len() ==> #[trigger] text::texts(list)[i] == list[i]@,
        match s {
            Some(t) => text::opt_text(s) == Some(t@),
            None => text::opt_text(s) is None,
        },
{
}

} // verus!
