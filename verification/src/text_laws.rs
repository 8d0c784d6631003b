//! What the pieces of text are, said of the numbers, bytes and characters they are made from.
use crate::text::{
    decimal, hex_digit, indented, joined, lower_hex, short_hex, skip_zeros, texts, trim_end,
    trim_start, trimmed, trimmed_properties, upper_hex_byte, upper_hex_items, upper_hex_list,
    white_space,
};
use vstd::prelude::*;

verus! {

/// The number that a digit stands for, in either case.
pub open spec fn digit_value(c: char) -> int {
    if '0' <= c <= '9' {
        c as int - '0' as int
    } else if 'a' <= c <= 'f' {
        c as int - 'a' as int + 10
    } else {
        c as int - 'A' as int + 10
    }
}

/// A digit up to nine, or a lower-case letter up to `f`.
pub open spec fn lower_digit(c: char) -> bool {
    '0' <= c <= '9' || 'a' <= c <= 'f'
}

/// A digit up to nine, or an upper-case letter up to `F`.
pub open spec fn upper_digit(c: char) -> bool {
    '0' <= c <= '9' || 'A' <= c <= 'F'
}

/// The number that digits stand for, the most significant first.
pub open spec fn digits_value(s: Seq<char>, base: int) -> int
    decreases s.len(),
{
    if s.len() == 0 {
        0
    } else {
        digits_value(s.drop_last(), base) * base + digit_value(s.last())
    }
}

/// The number that bytes stand for, the most significant first.
pub open spec fn bytes_value(bytes: Seq<u8>) -> int
    decreases bytes.len(),
{
    if bytes.len() == 0 {
        0
    } else {
        bytes_value(bytes.drop_last()) * 256 + bytes.last()
    }
}

/// Read back, a number in decimal is the number. It has no leading zero but for zero itself.
pub proof fn decimal_reads_back(n: nat)
    ensures
        digits_value(decimal(n), 10) == n,
        forall|i: int| 0 <= i < decimal(n).len() ==> '0' <= #[trigger] decimal(n)[i] <= '9',
        decimal(n).len() >= 1,
        n > 0 ==> decimal(n)[0] != '0',
        n == 0 ==> decimal(n) == seq!['0'],
    decreases n,
{
    reveal_with_fuel(digits_value, 2);
    let s = decimal(n);
    if n < 10 {
        assert(s.drop_last() =~= Seq::empty());
    } else {
        decimal_reads_back(n / 10);
        assert(s.drop_last() =~= decimal(n / 10));
        assert(s[0] == decimal(n / 10)[0]);
    }
}

/// Each byte has two lower-case digits, which stand for it, in the order of the bytes.
pub proof fn lower_hex_reads_back(bytes: Seq<u8>, i: int)
    requires
        0 <= i < bytes.len(),
    ensures
        lower_hex(bytes).len() == 2 * bytes.len(),
        lower_digit(lower_hex(bytes)[2 * i]),
        lower_digit(lower_hex(bytes)[2 * i + 1]),
        digit_value(lower_hex(bytes)[2 * i]) * 16 + digit_value(lower_hex(bytes)[2 * i + 1])
            == bytes[i],
    decreases bytes.len(),
{
    let t = bytes.drop_last();
    let n = bytes.len() - 1;
    if n > 0 {
        lower_hex_reads_back(t, if i < n { i } else { 0 });
    } else {
        assert(lower_hex(t).len() == 0);
    }
    if i == n {
        assert(lower_hex(bytes)[2 * i] == hex_digit(bytes.last() as int / 16));
        assert(lower_hex(bytes)[2 * i + 1] == hex_digit(bytes.last() as int % 16));
    }
}

proof fn lower_hex_value(bytes: Seq<u8>)
    ensures
        digits_value(lower_hex(bytes), 16) == bytes_value(bytes),
        forall|i: int| 0 <= i < lower_hex(bytes).len() ==> lower_digit(#[trigger] lower_hex(bytes)[i]),
    decreases bytes.len(),
{
    if bytes.len() > 0 {
        let t = bytes.drop_last();
        lower_hex_value(t);
        let s = lower_hex(bytes);
        let b = bytes.last() as int;
        let v = digits_value(lower_hex(t), 16);
        assert(s.drop_last().drop_last() =~= lower_hex(t));
        assert(s.last() == hex_digit(b % 16));
        assert(s.drop_last().last() == hex_digit(b / 16));
        reveal_with_fuel(digits_value, 3);
        assert(digits_value(s, 16) == (v * 16 + b / 16) * 16 + b % 16);
        assert((v * 16 + b / 16) * 16 + b % 16 == v * 256 + b);
    }
}

proof fn leading_zero_counts_nothing(s: Seq<char>, base: int)
    requires
        s.len() > 0,
        s[0] == '0',
    ensures
        digits_value(s.skip(1), base) == digits_value(s, base),
    decreases s.len(),
{
    reveal_with_fuel(digits_value, 2);
    if s.len() == 1 {
        assert(s.drop_last() =~= Seq::empty());
        assert(0 * base == 0);
    } else {
        leading_zero_counts_nothing(s.drop_last(), base);
        assert(s.skip(1).drop_last() =~= s.drop_last().skip(1));
    }
}

proof fn skipped_zeros_count_nothing(s: Seq<char>, base: int)
    ensures
        digits_value(skip_zeros(s), base) == digits_value(s, base),
        skip_zeros(s).len() > 0 ==> skip_zeros(s)[0] != '0',
        forall|i: int|
            0 <= i < skip_zeros(s).len() ==> #[trigger] skip_zeros(s)[i] == s[i + s.len()
                - skip_zeros(s).len()],
        skip_zeros(s).len() <= s.len(),
    decreases s.len(),
{
    if s.len() > 0 && s[0] == '0' {
        leading_zero_counts_nothing(s, base);
        skipped_zeros_count_nothing(s.skip(1), base);
    }
}

/// Read back, the short form of an address is the number that the address is. It is in lower case
/// and has no leading zero but for zero itself.
pub proof fn short_hex_reads_back(bytes: Seq<u8>)
    ensures
        digits_value(short_hex(bytes), 16) == bytes_value(bytes),
        forall|i: int| 0 <= i < short_hex(bytes).len() ==> lower_digit(#[trigger] short_hex(bytes)[i]),
        short_hex(bytes).len() >= 1,
        short_hex(bytes)[0] == '0' ==> short_hex(bytes) == seq!['0'],
{
    lower_hex_value(bytes);
    let s = lower_hex(bytes);
    skipped_zeros_count_nothing(s, 16);
    reveal_with_fuel(digits_value, 2);
    if skip_zeros(s).len() == 0 {
        assert(seq!['0'].drop_last() =~= Seq::<char>::empty());
    } else {
        assert forall|i: int| 0 <= i < short_hex(bytes).len() implies lower_digit(
            #[trigger] short_hex(bytes)[i],
        ) by {
            assert(lower_digit(s[i + s.len() - skip_zeros(s).len()]));
        }
    }
}

/// A list of one byte is its upper-case digits between brackets, without a leading zero but for
/// zero itself; read back, the digits are the byte. A list of none is the brackets.
pub proof fn one_byte_reads_back(b: u8)
    ensures
        upper_hex_list(Seq::empty()) == seq!['[', ']'],
        ({
            let s = upper_hex_list(seq![b]);
            let digits = s.subrange(1, s.len() - 1);
            &&& s.len() >= 3
            &&& s[0] == '['
            &&& s.last() == ']'
            &&& digits_value(digits, 16) == b
            &&& forall|i: int| 0 <= i < digits.len() ==> upper_digit(#[trigger] digits[i])
            &&& digits.len() == if b < 16 {
                1nat
            } else {
                2nat
            }
        }),
{
    reveal_with_fuel(upper_hex_items, 2);
    reveal_with_fuel(digits_value, 3);
    assert(upper_hex_list(Seq::empty()) =~= seq!['[', ']']);
    let s = upper_hex_list(seq![b]);
    let digits = s.subrange(1, s.len() - 1);
    assert(digits =~= upper_hex_byte(b));
    if b < 16 {
        assert(digits.drop_last() =~= Seq::empty());
    } else {
        assert(digits.drop_last().drop_last() =~= Seq::empty());
    }
}

proof fn byte_items_are_listed_in_turn(a: Seq<u8>, b: Seq<u8>)
    requires
        a.len() > 0,
        b.len() > 0,
    ensures
        upper_hex_items(a + b) == upper_hex_items(a) + seq![',', ' '] + upper_hex_items(b),
    decreases b.len(),
{
    let sep = seq![',', ' '];
    assert((a + b).drop_last() =~= a + b.drop_last());
    assert((a + b).last() == b.last());
    if b.len() == 1 {
        assert(b.drop_last() =~= Seq::empty());
        assert(a + b.drop_last() =~= a);
    } else {
        byte_items_are_listed_in_turn(a, b.drop_last());
        assert(upper_hex_items(a + b) =~= upper_hex_items(a) + sep + upper_hex_items(b));
    }
}

/// The list of some bytes and then others is the two lists with a comma and a space in place of
/// the brackets between them.
pub proof fn byte_lists_are_written_in_turn(a: Seq<u8>, b: Seq<u8>)
    requires
        a.len() > 0,
        b.len() > 0,
    ensures
        upper_hex_list(a + b) == upper_hex_list(a).drop_last() + seq![',', ' '] + upper_hex_list(
            b,
        ).skip(1),
{
    byte_items_are_listed_in_turn(a, b);
    assert(upper_hex_list(a + b) =~= upper_hex_list(a).drop_last() + seq![',', ' ']
        + upper_hex_list(b).skip(1));
}

/// Texts are indented one after the other.
pub proof fn texts_are_indented_in_turn(a: Seq<char>, b: Seq<char>)
    ensures
        indented(a + b) == indented(a) + indented(b),
    decreases b.len(),
{
    if b.len() == 0 {
        assert(a + b =~= a);
        assert(indented(a) + indented(b) =~= indented(a));
    } else {
        assert((a + b).drop_last() =~= a + b.drop_last());
        assert((a + b).last() == b.last());
        texts_are_indented_in_turn(a, b.drop_last());
        assert(indented(a + b) =~= indented(a) + indented(b));
    }
}

/// A line break gets a tab, any other character stays as it is, and nothing stays nothing.
pub proof fn one_character_is_indented(c: char)
    ensures
        indented(Seq::empty()) == Seq::<char>::empty(),
        indented(seq!['\n']) == seq!['\n', '\t'],
        c != '\n' ==> indented(seq![c]) == seq![c],
{
    reveal_with_fuel(indented, 2);
    assert(seq!['\n'].drop_last() =~= Seq::empty());
    assert(seq![c].drop_last() =~= Seq::empty());
    assert(indented(seq!['\n']) =~= seq!['\n', '\t']);
    if c != '\n' {
        assert(indented(seq![c]) =~= seq![c]);
    }
}

/// A text without line breaks is not changed by indenting it.
pub proof fn single_lines_are_not_indented(s: Seq<char>)
    requires
        forall|i: int| 0 <= i < s.len() ==> #[trigger] s[i] != '\n',
    ensures
        indented(s) == s,
    decreases s.len(),
{
    if s.len() > 0 {
        let t = s.drop_last();
        assert(s[s.len() - 1] != '\n');
        assert forall|i: int| 0 <= i < t.len() implies #[trigger] t[i] != '\n' by {
            assert(t[i] == s[i]);
        }
        single_lines_are_not_indented(t);
        assert(indented(s) =~= s);
    }
}

/// Joining some items and then others joins the two results once more; one item alone is itself.
pub proof fn items_are_joined_in_turn(a: Seq<Seq<char>>, b: Seq<Seq<char>>, sep: Seq<char>)
    requires
        a.len() > 0,
        b.len() > 0,
    ensures
        joined(a + b, sep) == joined(a, sep) + sep + joined(b, sep),
        joined(seq![a[0]], sep) == a[0],
        joined(Seq::empty(), sep) == Seq::<char>::empty(),
    decreases b.len(),
{
    assert((a + b).drop_last() =~= a + b.drop_last());
    assert((a + b).last() == b.last());
    if b.len() == 1 {
        assert(a + b.drop_last() =~= a);
    } else {
        items_are_joined_in_turn(a, b.drop_last(), sep);
        assert(joined(a + b, sep) =~= joined(a, sep) + sep + joined(b, sep));
    }
}

/// The texts of strings are their characters, string by string.
pub proof fn texts_are_the_strings(items: Seq<String>, i: int)
    requires
        0 <= i < items.len(),
    ensures
        texts(items).len() == items.len(),
        texts(items)[i] == items[i]@,
{
}

proof fn trim_start_skips(s: Seq<char>) -> (n: int)
    ensures
        0 <= n <= s.len(),
        trim_start(s) == s.skip(n),
        forall|i: int| 0 <= i < n ==> white_space(#[trigger] s[i]),
    decreases s.len(),
{
    if s.len() > 0 && white_space(s[0]) {
        let t = s.skip(1);
        let n = trim_start_skips(t);
        assert(t.skip(n) =~= s.skip(n + 1));
        assert forall|i: int| 0 <= i < n + 1 implies white_space(#[trigger] s[i]) by {
            if i > 0 {
                assert(t[i - 1] == s[i]);
            }
        }
        n + 1
    } else {
        assert(s.skip(0) =~= s);
        0
    }
}

proof fn trim_end_takes(s: Seq<char>) -> (n: int)
    ensures
        0 <= n <= s.len(),
        trim_end(s) == s.take(n),
        forall|i: int| n <= i < s.len() ==> white_space(#[trigger] s[i]),
    decreases s.len(),
{
    if s.len() > 0 && white_space(s.last()) {
        let t = s.drop_last();
        let n = trim_end_takes(t);
        assert(t.take(n) =~= s.take(n));
        assert forall|i: int| n <= i < s.len() implies white_space(#[trigger] s[i]) by {
            if i < t.len() {
                assert(t[i] == s[i]);
            }
        }
        n
    } else {
        assert(s.take(s.len() as int) =~= s);
        s.len() as int
    }
}

/// A text is its trimmed form with nothing but white space before and after it.
pub proof fn trimming_removes_only_white_space(s: Seq<char>) -> (parts: (Seq<char>, Seq<char>))
    ensures
        s == parts.0 + trimmed(s) + parts.1,
        forall|i: int| 0 <= i < parts.0.len() ==> white_space(#[trigger] parts.0[i]),
        forall|i: int| 0 <= i < parts.1.len() ==> white_space(#[trigger] parts.1[i]),
        trimmed(s).len() > 0 ==> !white_space(trimmed(s)[0]) && !white_space(trimmed(s).last()),
{
    trimmed_properties(s);
    let n = trim_start_skips(s);
    let t = s.skip(n);
    let m = trim_end_takes(t);
    let before = s.take(n);
    let after = t.skip(m);
    assert(s =~= before + trimmed(s) + after);
    assert forall|i: int| 0 <= i < after.len() implies white_space(#[trigger] after[i]) by {
        assert(after[i] == t[m + i]);
    }
    (before, after)
}

/// A text with no white space at either end stays as it is, and nothing is left of white space.
pub proof fn trimmed_text_is_not_trimmed_again(s: Seq<char>)
    ensures
        s.len() > 0 && !white_space(s[0]) && !white_space(s.last()) ==> trimmed(s) == s,
        trimmed(trimmed(s)) == trimmed(s),
{
    trimmed_properties(s);
}

/// Blank, tab, line feed and carriage return are white space; letters, digits and signs of ASCII
/// are not, nor are other control characters.
pub proof fn ascii_white_space(c: char)
    requires
        (c as u32) < 128,
    ensures
        white_space(c) <==> c == ' ' || c == '\t' || c == '\n' || c == '\r' || c as u32 == 11
            || c as u32 == 12,
{
}

} // verus!
