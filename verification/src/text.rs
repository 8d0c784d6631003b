//! The small pieces of text that file names, directories and reports are made of.
use vstd::prelude::*;
use vstd::utf8::{decode_utf8, encode_utf8, encode_utf8_decode_utf8};

verus! {

/// The text of each string of a sequence.
pub open spec fn texts(items: Seq<String>) -> Seq<Seq<char>> {
    items.map_values(|s: String| s@)
}

/// One string more is one text more.
pub proof fn texts_push(items: Seq<String>, item: String)
    ensures
        texts(items.push(item)) == texts(items).push(item@),
{
    assert(texts(items.push(item)) =~= texts(items).push(item@));
}

/// Whether two strings hold the same characters.
pub fn same_text(a: &str, b: &str) -> (r: bool)
    ensures
        r == (a@ == b@),
{
    let x = a.as_bytes();
    let y = b.as_bytes();
    if x.len() != y.len() {
        return false;
    }
    let mut i: usize = 0;
    while i < x.len()
        invariant
            i <= x.len(),
            x@.len() == y@.len(),
            x@ == encode_utf8(a@),
            y@ == encode_utf8(b@),
            forall|j: int| 0 <= j < i ==> x@[j] == y@[j],
        decreases x.len() - i,
    {
        if x[i] != y[i] {
            return false;
        }
        i += 1;
    }
    proof {
        assert(x@ =~= y@);
        encode_utf8_decode_utf8(a@);
        encode_utf8_decode_utf8(b@);
        assert(decode_utf8(x@) == a@ && decode_utf8(y@) == b@);
    }
    true
}

/// The lower-case hexadecimal digit of a number below sixteen.
pub open spec fn hex_digit(d: int) -> char {
    if d == 0 { '0' }
    else if d == 1 { '1' }
    else if d == 2 { '2' }
    else if d == 3 { '3' }
    else if d == 4 { '4' }
    else if d == 5 { '5' }
    else if d == 6 { '6' }
    else if d == 7 { '7' }
    else if d == 8 { '8' }
    else if d == 9 { '9' }
    else if d == 10 { 'a' }
    else if d == 11 { 'b' }
    else if d == 12 { 'c' }
    else if d == 13 { 'd' }
    else if d == 14 { 'e' }
    else { 'f' }
}

/// The upper-case hexadecimal digit of a number below sixteen.
pub open spec fn upper_hex_digit(d: int) -> char {
    if d == 10 { 'A' }
    else if d == 11 { 'B' }
    else if d == 12 { 'C' }
    else if d == 13 { 'D' }
    else if d == 14 { 'E' }
    else if d == 15 { 'F' }
    else { hex_digit(d) }
}

fn hex_digit_char(d: u8) -> (c: char)
    requires
        d < 16,
    ensures
        c == hex_digit(d as int),
{
    match d {
        0 => '0',
        1 => '1',
        2 => '2',
        3 => '3',
        4 => '4',
        5 => '5',
        6 => '6',
        7 => '7',
        8 => '8',
        9 => '9',
        10 => 'a',
        11 => 'b',
        12 => 'c',
        13 => 'd',
        14 => 'e',
        _ => 'f',
    }
}

fn upper_hex_digit_char(d: u8) -> (c: char)
    requires
        d < 16,
    ensures
        c == upper_hex_digit(d as int),
{
    match d {
        10 => 'A',
        11 => 'B',
        12 => 'C',
        13 => 'D',
        14 => 'E',
        15 => 'F',
        _ => hex_digit_char(d),
    }
}

/// A number in decimal, without leading zeros.
pub open spec fn decimal(n: nat) -> Seq<char>
    decreases n,
{
    if n < 10 {
        seq![hex_digit(n as int)]
    } else {
        decimal(n / 10).push(hex_digit((n % 10) as int))
    }
}

/// Writes a number in decimal.
pub fn decimal_text(n: u64) -> (r: String)
    ensures
        r@ == decimal(n as nat),
    decreases n,
{
    if n < 10 {
        let mut r = String::new();
        r.push(hex_digit_char(n as u8));
        assert(r@ =~= decimal(n as nat));
        r
    } else {
        let mut r = decimal_text(n / 10);
        r.push(hex_digit_char((n % 10) as u8));
        r
    }
}

/// Different numbers are written differently.
pub proof fn decimal_injective(a: nat, b: nat)
    requires
        decimal(a) == decimal(b),
    ensures
        a == b,
    decreases a,
{
    let x = decimal(a);
    let y = decimal(b);
    decimal_last(a);
    decimal_last(b);
    hex_digit_injective((a % 10) as int, (b % 10) as int);
    if a >= 10 {
        decimal_last(a / 10);
    }
    if b >= 10 {
        decimal_last(b / 10);
    }
    if a >= 10 {
        assert(x.len() >= 2);
        assert(b >= 10);
        assert(x.drop_last() =~= decimal(a / 10));
        assert(y.drop_last() =~= decimal(b / 10));
        decimal_injective(a / 10, b / 10);
    } else {
        assert(x.len() == 1);
        assert(b < 10);
    }
}

/// Different digits are different characters.
proof fn hex_digit_injective(a: int, b: int)
    requires
        0 <= a < 16,
        0 <= b < 16,
    ensures
        hex_digit(a) == hex_digit(b) <==> a == b,
{
}

proof fn decimal_last(n: nat)
    ensures
        decimal(n).len() >= 1,
        decimal(n).last() == hex_digit((n % 10) as int),
{
}

/// Bytes in lower-case hexadecimal, two digits for each.
pub open spec fn lower_hex(bytes: Seq<u8>) -> Seq<char>
    decreases bytes.len(),
{
    if bytes.len() == 0 {
        Seq::empty()
    } else {
        lower_hex(bytes.drop_last()) + seq![
            hex_digit(bytes.last() as int / 16),
            hex_digit(bytes.last() as int % 16),
        ]
    }
}

/// Writes bytes in lower-case hexadecimal.
pub fn lower_hex_text(bytes: &[u8]) -> (r: String)
    ensures
        r@ == lower_hex(bytes@),
{
    let mut r = String::new();
    let mut i: usize = 0;
    while i < bytes.len()
        invariant
            i <= bytes@.len(),
            r@ == lower_hex(bytes@.take(i as int)),
        decreases bytes.len() - i,
    {
        let b: u8 = bytes[i];
        r.push(hex_digit_char(b / 16));
        r.push(hex_digit_char(b % 16));
        proof {
            let t = bytes@.take(i as int + 1);
            assert(t.drop_last() =~= bytes@.take(i as int));
            assert(r@ =~= lower_hex(t));
        }
        i += 1;
    }
    assert(bytes@.take(i as int) =~= bytes@);
    r
}

/// The hexadecimal form has two digits for each byte.
proof fn lower_hex_len(bytes: Seq<u8>)
    ensures
        lower_hex(bytes).len() == 2 * bytes.len(),
    decreases bytes.len(),
{
    if bytes.len() > 0 {
        lower_hex_len(bytes.drop_last());
    }
}

/// Different byte sequences have different hexadecimal forms.
pub proof fn lower_hex_injective(a: Seq<u8>, b: Seq<u8>)
    requires
        lower_hex(a) == lower_hex(b),
    ensures
        a == b,
    decreases a.len(),
{
    lower_hex_len(a);
    lower_hex_len(b);
    if a.len() > 0 {
        let x = lower_hex(a);
        let y = lower_hex(b);
        lower_hex_len(a.drop_last());
        lower_hex_len(b.drop_last());
        assert(x.take(x.len() - 2) =~= lower_hex(a.drop_last()));
        assert(y.take(y.len() - 2) =~= lower_hex(b.drop_last()));
        lower_hex_injective(a.drop_last(), b.drop_last());
        let n = x.len() as int;
        assert(x[n - 1] == hex_digit(a.last() as int % 16));
        assert(y[n - 1] == hex_digit(b.last() as int % 16));
        assert(x[n - 2] == hex_digit(a.last() as int / 16));
        assert(y[n - 2] == hex_digit(b.last() as int / 16));
        hex_digit_injective(a.last() as int % 16, b.last() as int % 16);
        hex_digit_injective(a.last() as int / 16, b.last() as int / 16);
        assert(a.last() == b.last());
        assert(a =~= a.drop_last().push(a.last()));
        assert(b =~= b.drop_last().push(b.last()));
    } else {
        assert(a =~= b);
    }
}

/// A text without the zeros it starts with.
pub open spec fn skip_zeros(s: Seq<char>) -> Seq<char>
    decreases s.len(),
{
    if s.len() > 0 && s[0] == '0' {
        skip_zeros(s.skip(1))
    } else {
        s
    }
}

/// The short hexadecimal form of an address: no leading zeros, and `0` for the zero address.
pub open spec fn short_hex(bytes: Seq<u8>) -> Seq<char> {
    let digits = skip_zeros(lower_hex(bytes));
    if digits.len() == 0 {
        seq!['0']
    } else {
        digits
    }
}

proof fn skip_zeros_push(s: Seq<char>, c: char)
    ensures
        skip_zeros(s.push(c)) == if skip_zeros(s).len() == 0 && c == '0' {
            Seq::<char>::empty()
        } else {
            skip_zeros(s).push(c)
        },
    decreases s.len(),
{
    let t = s.push(c);
    if s.len() == 0 {
        assert(t.skip(1) =~= Seq::<char>::empty());
        assert(t =~= seq![c]);
        reveal_with_fuel(skip_zeros, 2);
        assert(skip_zeros(s) =~= Seq::<char>::empty());
        assert(skip_zeros(s).push(c) =~= t);
    } else {
        assert(t[0] == s[0]);
        if s[0] == '0' {
            assert(t.skip(1) =~= s.skip(1).push(c));
            skip_zeros_push(s.skip(1), c);
        }
    }
}

/// Writes the short hexadecimal form of an address.
pub fn short_hex_text(bytes: &[u8]) -> (r: String)
    ensures
        r@ == short_hex(bytes@),
{
    let digits = lower_hex_text(bytes);
    let mut r = String::new();
    let mut started: bool = false;
    for c in it: digits.as_str().chars()
        invariant
            it.seq() == digits@,
            r@ == skip_zeros(digits@.take(it.index())),
            started == (r@.len() > 0),
    {
        proof {
            let i = it.index();
            assert(digits@.take(i + 1) =~= digits@.take(i).push(c));
            skip_zeros_push(digits@.take(i), c);
        }
        if started || c != '0' {
            r.push(c);
            started = true;
        }
    }
    assert(digits@.take(digits@.len() as int) =~= digits@);
    if started {
        r
    } else {
        let mut zero = String::new();
        zero.push('0');
        assert(zero@ =~= seq!['0']);
        zero
    }
}

proof fn skip_zeros_properties(s: Seq<char>)
    ensures
        skip_zeros(s).len() <= s.len(),
        skip_zeros(s).len() > 0 ==> skip_zeros(s)[0] != '0',
        skip_zeros(s) == s.skip(s.len() - skip_zeros(s).len()),
        forall|i: int| 0 <= i < s.len() - skip_zeros(s).len() ==> s[i] == '0',
    decreases s.len(),
{
    if s.len() > 0 && s[0] == '0' {
        let t = s.skip(1);
        skip_zeros_properties(t);
        let k = t.len() - skip_zeros(t).len();
        assert(t.skip(k) =~= s.skip(k + 1));
        assert forall|i: int| 0 <= i < s.len() - skip_zeros(s).len() implies s[i] == '0' by {
            if i > 0 {
                assert(t[i - 1] == s[i]);
            }
        }
    } else {
        assert(s.skip(0) =~= s);
    }
}

/// The short form loses nothing: two addresses of one length with the same short form are equal.
pub proof fn short_hex_lossless(a: Seq<u8>, b: Seq<u8>)
    requires
        a.len() == b.len(),
        short_hex(a) == short_hex(b),
    ensures
        a == b,
{
    let x = lower_hex(a);
    let y = lower_hex(b);
    lower_hex_len(a);
    lower_hex_len(b);
    skip_zeros_properties(x);
    skip_zeros_properties(y);
    let p = skip_zeros(x);
    let q = skip_zeros(y);
    if p.len() == 0 && q.len() > 0 {
        assert(q[0] == seq!['0'][0]);
    }
    if q.len() == 0 && p.len() > 0 {
        assert(p[0] == seq!['0'][0]);
    }
    assert(p =~= q);
    assert forall|i: int| 0 <= i < x.len() implies x[i] == y[i] by {
        let k = x.len() - p.len();
        if i >= k {
            assert(x.skip(k)[i - k] == x[i]);
            assert(y.skip(k)[i - k] == y[i]);
        }
    }
    assert(x =~= y);
    lower_hex_injective(a, b);
}

/// A byte in upper-case hexadecimal, without a leading zero.
pub open spec fn upper_hex_byte(b: u8) -> Seq<char> {
    if b < 16 {
        seq![upper_hex_digit(b as int)]
    } else {
        seq![upper_hex_digit(b as int / 16), upper_hex_digit(b as int % 16)]
    }
}

/// The bytes of a list, each in upper-case hexadecimal and with a comma before all but the first.
pub open spec fn upper_hex_items(bytes: Seq<u8>) -> Seq<char>
    decreases bytes.len(),
{
    if bytes.len() == 0 {
        Seq::empty()
    } else if bytes.len() == 1 {
        upper_hex_byte(bytes[0])
    } else {
        upper_hex_items(bytes.drop_last()) + seq![',', ' '] + upper_hex_byte(bytes.last())
    }
}

/// A list of bytes in upper-case hexadecimal, between square brackets.
pub open spec fn upper_hex_list(bytes: Seq<u8>) -> Seq<char> {
    seq!['['] + upper_hex_items(bytes) + seq![']']
}

/// Writes a list of bytes as `[1, AB, FF]`.
pub fn upper_hex_list_text(bytes: &[u8]) -> (r: String)
    ensures
        r@ == upper_hex_list(bytes@),
{
    let mut r = String::new();
    r.push('[');
    let mut i: usize = 0;
    assert(r@ =~= seq!['['] + upper_hex_items(bytes@.take(0)));
    while i < bytes.len()
        invariant
            i <= bytes@.len(),
            r@ == seq!['['] + upper_hex_items(bytes@.take(i as int)),
        decreases bytes.len() - i,
    {
        let b: u8 = bytes[i];
        let ghost before = r@;
        if i > 0 {
            r.push(',');
            r.push(' ');
        }
        if b >= 16 {
            r.push(upper_hex_digit_char(b / 16));
            r.push(upper_hex_digit_char(b % 16));
        } else {
            r.push(upper_hex_digit_char(b));
        }
        proof {
            let t = bytes@.take(i as int + 1);
            assert(t.drop_last() =~= bytes@.take(i as int));
            assert(t.last() == b);
            if i > 0 {
                assert(r@ =~= before + seq![',', ' '] + upper_hex_byte(b));
            } else {
                assert(before =~= seq!['[']);
                assert(r@ =~= before + upper_hex_byte(b));
            }
            assert(r@ =~= seq!['['] + upper_hex_items(t));
        }
        i += 1;
    }
    r.push(']');
    assert(bytes@.take(i as int) =~= bytes@);
    assert(r@ =~= upper_hex_list(bytes@));
    r
}

/// A text with a tab after each line break.
pub open spec fn indented(s: Seq<char>) -> Seq<char>
    decreases s.len(),
{
    if s.len() == 0 {
        Seq::empty()
    } else if s.last() == '\n' {
        indented(s.drop_last()) + seq!['\n', '\t']
    } else {
        indented(s.drop_last()).push(s.last())
    }
}

/// In an indented text a tab follows every line break.
pub proof fn indented_lines_start_with_tabs(s: Seq<char>)
    ensures
        forall|i: int|
            0 <= i < indented(s).len() && #[trigger] indented(s)[i] == '\n' ==> i + 1 < indented(
                s,
            ).len() && indented(s)[i + 1] == '\t',
    decreases s.len(),
{
    if s.len() > 0 {
        let t = indented(s.drop_last());
        indented_lines_start_with_tabs(s.drop_last());
        assert forall|i: int|
            0 <= i < indented(s).len() && #[trigger] indented(s)[i] == '\n' implies i + 1
            < indented(s).len() && indented(s)[i + 1] == '\t' by {
            if i < t.len() {
                assert(t[i] == indented(s)[i]);
            }
        }
    }
}

/// Writes a text with a tab after each line break.
pub fn indented_text(s: &str) -> (r: String)
    ensures
        r@ == indented(s@),
{
    let mut r = String::new();
    for c in it: s.chars()
        invariant
            it.seq() == s@,
            r@ == indented(s@.take(it.index())),
    {
        let ghost before = r@;
        r.push(c);
        if c == '\n' {
            r.push('\t');
        }
        proof {
            let t = s@.take(it.index() + 1);
            assert(t.drop_last() =~= s@.take(it.index()));
            assert(t.last() == c);
            assert(c == '\n' ==> r@ =~= before + seq!['\n', '\t']);
            assert(r@ =~= indented(t));
        }
    }
    assert(s@.take(s@.len() as int) =~= s@);
    r
}

/// The items one after the other, with a separator between any two.
pub open spec fn joined(items: Seq<Seq<char>>, sep: Seq<char>) -> Seq<char>
    decreases items.len(),
{
    if items.len() == 0 {
        Seq::empty()
    } else if items.len() == 1 {
        items[0]
    } else {
        joined(items.drop_last(), sep) + sep + items.last()
    }
}

/// A character with the Unicode property `White_Space`.
pub open spec fn white_space(c: char) -> bool {
    let n = c as u32;
    ||| 0x9 <= n <= 0xd
    ||| n == 0x20
    ||| n == 0x85
    ||| n == 0xa0
    ||| n == 0x1680
    ||| 0x2000 <= n <= 0x200a
    ||| n == 0x2028
    ||| n == 0x2029
    ||| n == 0x202f
    ||| n == 0x205f
    ||| n == 0x3000
}

/// Whether a character is white space.
pub fn is_white_space(c: char) -> (r: bool)
    ensures
        r == white_space(c),
{
    let n: u32 = c as u32;
    (0x9 <= n && n <= 0xd) || n == 0x20 || n == 0x85 || n == 0xa0 || n == 0x1680 || (0x2000 <= n
        && n <= 0x200a) || n == 0x2028 || n == 0x2029 || n == 0x202f || n == 0x205f || n == 0x3000
}

/// A text without the white space it starts with.
pub open spec fn trim_start(s: Seq<char>) -> Seq<char>
    decreases s.len(),
{
    if s.len() > 0 && white_space(s[0]) {
        trim_start(s.skip(1))
    } else {
        s
    }
}

/// A text without the white space it ends with.
pub open spec fn trim_end(s: Seq<char>) -> Seq<char>
    decreases s.len(),
{
    if s.len() > 0 && white_space(s.last()) {
        trim_end(s.drop_last())
    } else {
        s
    }
}

/// A text without the white space around it.
pub open spec fn trimmed(s: Seq<char>) -> Seq<char> {
    trim_end(trim_start(s))
}

proof fn trim_start_is_suffix(s: Seq<char>, n: int)
    requires
        0 <= n <= s.len(),
        forall|i: int| 0 <= i < n ==> white_space(#[trigger] s[i]),
        n < s.len() ==> !white_space(s[n]),
    ensures
        trim_start(s) == s.skip(n),
    decreases s.len(),
{
    if n > 0 {
        let t = s.skip(1);
        assert(white_space(s[0]));
        assert forall|i: int| 0 <= i < n - 1 implies white_space(#[trigger] t[i]) by {
            assert(t[i] == s[i + 1]);
        }
        trim_start_is_suffix(t, n - 1);
        assert(t.skip(n - 1) =~= s.skip(n));
    } else {
        assert(s.skip(0) =~= s);
    }
}

proof fn trim_end_is_prefix(s: Seq<char>, n: int)
    requires
        0 <= n <= s.len(),
        forall|i: int| n <= i < s.len() ==> white_space(#[trigger] s[i]),
        n > 0 ==> !white_space(s[n - 1]),
    ensures
        trim_end(s) == s.take(n),
    decreases s.len(),
{
    if n < s.len() {
        let t = s.drop_last();
        assert(white_space(s[s.len() - 1]));
        assert forall|i: int| n <= i < t.len() implies white_space(#[trigger] t[i]) by {
            assert(t[i] == s[i]);
        }
        trim_end_is_prefix(t, n);
        assert(t.take(n) =~= s.take(n));
    } else {
        assert(s.take(n) =~= s);
    }
}

proof fn trim_start_properties(s: Seq<char>)
    ensures
        trim_start(s).len() > 0 ==> !white_space(trim_start(s)[0]),
        trim_start(s).len() == 0 <==> forall|i: int|
            0 <= i < s.len() ==> white_space(#[trigger] s[i]),
    decreases s.len(),
{
    if s.len() > 0 && white_space(s[0]) {
        let t = s.skip(1);
        trim_start_properties(t);
        assert(forall|i: int| 0 <= i < t.len() ==> #[trigger] t[i] == s[i + 1]);
        if trim_start(s).len() == 0 {
            assert forall|i: int| 0 <= i < s.len() implies white_space(#[trigger] s[i]) by {
                if i > 0 {
                    assert(t[i - 1] == s[i]);
                }
            }
        }
        if forall|i: int| 0 <= i < s.len() ==> white_space(#[trigger] s[i]) {
            assert forall|i: int| 0 <= i < t.len() implies white_space(#[trigger] t[i]) by {
                assert(white_space(s[i + 1]));
            }
        }
    } else if s.len() > 0 {
        assert(!white_space(s[0]));
    }
}

proof fn trim_end_properties(s: Seq<char>)
    ensures
        trim_end(s).len() <= s.len(),
        forall|i: int| 0 <= i < trim_end(s).len() ==> #[trigger] trim_end(s)[i] == s[i],
        trim_end(s).len() > 0 ==> !white_space(trim_end(s).last()),
        s.len() > 0 && !white_space(s[0]) ==> trim_end(s).len() > 0,
    decreases s.len(),
{
    if s.len() > 0 && white_space(s.last()) {
        trim_end_properties(s.drop_last());
    }
}

/// A trimmed text neither starts nor ends with white space, and is empty exactly where there was
/// nothing else.
pub proof fn trimmed_properties(s: Seq<char>)
    ensures
        trimmed(s).len() > 0 ==> !white_space(trimmed(s)[0]) && !white_space(trimmed(s).last()),
        trimmed(s).len() == 0 <==> forall|i: int|
            0 <= i < s.len() ==> white_space(#[trigger] s[i]),
{
    trim_start_properties(s);
    trim_end_properties(trim_start(s));
}

/// Writes a text without the white space around it.
pub fn trimmed_text(s: &str) -> (r: String)
    ensures
        r@ == trimmed(s@),
{
    let mut chars: Vec<char> = Vec::new();
    for c in it: s.chars()
        invariant
            it.seq() == s@,
            chars@ =~= s@.take(it.index()),
    {
        chars.push(c);
    }
    assert(chars@ =~= s@);
    let mut start: usize = 0;
    while start < chars.len() && is_white_space(chars[start])
        invariant
            start <= chars@.len(),
            forall|i: int| 0 <= i < start ==> white_space(#[trigger] chars@[i]),
        decreases chars.len() - start,
    {
        start += 1;
    }
    let mut end: usize = chars.len();
    while end > start && is_white_space(chars[end - 1])
        invariant
            start <= end <= chars@.len(),
            forall|i: int| end <= i < chars@.len() ==> white_space(#[trigger] chars@[i]),
        decreases end,
    {
        end -= 1;
    }
    let mut r = String::new();
    let mut i: usize = start;
    while i < end
        invariant
            start <= i <= end <= chars@.len(),
            r@ =~= chars@.subrange(start as int, i as int),
        decreases end - i,
    {
        r.push(chars[i]);
        i += 1;
    }
    proof {
        trim_start_is_suffix(s@, start as int);
        let t = s@.skip(start as int);
        trim_end_is_prefix(t, end - start);
        assert(t.take(end - start) =~= chars@.subrange(start as int, end as int));
    }
    r
}

} // verus!
