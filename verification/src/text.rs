//! Text handling on sequences of characters: trimming, ASCII case folding,
//! keyword comparison, decimal numbers and substring search.
//!
//! Every function here works on the characters of a string (`Seq<char>` in
//! contracts, `Vec<char>` at run time), so that all of it is verified. Two
//! questions are left to the standard library and only named here: whether a
//! character is white space, and what the Unicode lower-case form of a text is.

use vstd::prelude::*;
use vstd::string::*;

verus! {

/// Whether `char::is_whitespace` holds of `c` (the Unicode property `White_Space`).
pub uninterp spec fn is_white_space(c: char) -> bool;

/// The text that `str::to_lowercase` returns for `s` (Unicode lower-casing).
pub uninterp spec fn unicode_lowercase(s: Seq<char>) -> Seq<char>;

/// Asks the standard library (`char::is_whitespace`) whether `c` is white space.
/// Trusted: the answer is the one that [`is_white_space`] names.
#[verifier::external_body]
fn char_is_whitespace(c: char) -> (b: bool)
    ensures
        b == is_white_space(c),
{
    c.is_whitespace()
}

/// Lower-cases `s` with the standard library (`str::to_lowercase`).
/// Trusted: the result is the one that [`unicode_lowercase`] names.
#[verifier::external_body]
fn str_to_lowercase(s: &str) -> (r: String)
    ensures
        r@ == unicode_lowercase(s@),
{
    s.to_lowercase()
}

/// The characters of `s`, in order.
pub fn chars_of(s: &str) -> (v: Vec<char>)
    ensures
        v@ == s@,
{
    broadcast use vstd::string::axiom_spec_iter;

    let mut v: Vec<char> = Vec::new();
    for c in it: s.chars()
        invariant
            it.seq() == s@,
            v@ == it.seq().take(it.index()),
    {
        v.push(c);
    }
    v
}

/// The characters of the Unicode lower-case form of `s`.
pub fn lowercase_chars(s: &str) -> (v: Vec<char>)
    ensures
        v@ == unicode_lowercase(s@),
{
    let lowered = str_to_lowercase(s);
    chars_of(lowered.as_str())
}

/// `s` without its leading white space.
pub open spec fn trim_start(s: Seq<char>) -> Seq<char>
    decreases s.len(),
{
    if s.len() > 0 && is_white_space(s.first()) {
        trim_start(s.drop_first())
    } else {
        s
    }
}

/// `s` without its trailing white space.
pub open spec fn trim_end(s: Seq<char>) -> Seq<char>
    decreases s.len(),
{
    if s.len() > 0 && is_white_space(s.last()) {
        trim_end(s.drop_last())
    } else {
        s
    }
}

/// `s` without leading and trailing white space.
pub open spec fn trimmed(s: Seq<char>) -> Seq<char> {
    trim_end(trim_start(s))
}

/// The bounds of the trimmed part of `chars`: `trimmed(chars@)` is the
/// subrange from the first to the second bound.
pub fn trim_bounds(chars: &Vec<char>) -> (r: (usize, usize))
    ensures
        r.0 <= r.1 <= chars.len(),
        chars@.subrange(r.0 as int, r.1 as int) == trimmed(chars@),
{
    let n = chars.len();
    let mut start: usize = 0;
    assert(chars@.skip(0) =~= chars@);
    while start < n && char_is_whitespace(chars[start])
        invariant
            start <= n,
            n == chars.len(),
            trim_start(chars@) == trim_start(chars@.skip(start as int)),
        decreases n - start,
    {
        assert(chars@.skip(start as int).drop_first() =~= chars@.skip(start as int + 1));
        start = start + 1;
    }
    assert(trim_start(chars@) == chars@.skip(start as int));
    let mut end: usize = n;
    assert(chars@.skip(start as int) =~= chars@.subrange(start as int, end as int));
    while end > start && char_is_whitespace(chars[end - 1])
        invariant
            start <= end <= n,
            n == chars.len(),
            trimmed(chars@) == trim_end(chars@.subrange(start as int, end as int)),
        decreases end,
    {
        assert(chars@.subrange(start as int, end as int).drop_last() =~= chars@.subrange(
            start as int,
            end as int - 1,
        ));
        end = end - 1;
    }
    (start, end)
}

/// The lower-case form of an ASCII capital letter; any other character unchanged.
pub open spec fn ascii_lower_char(c: char) -> char {
    if 'A' <= c && c <= 'Z' {
        ((c as u8) + 32) as u8 as char
    } else {
        c
    }
}

/// `s` with each ASCII capital letter replaced by its lower-case form.
pub open spec fn ascii_lower(s: Seq<char>) -> Seq<char> {
    s.map_values(|c: char| ascii_lower_char(c))
}

/// Lower-cases one character as [`ascii_lower_char`] says.
pub fn to_ascii_lower_char(c: char) -> (r: char)
    ensures
        r == ascii_lower_char(c),
{
    if 'A' <= c && c <= 'Z' {
        ((c as u8) + 32u8) as char
    } else {
        c
    }
}

/// The ASCII lower-case form of the characters of `chars` from `from` up to `to`.
pub fn ascii_lower_range(chars: &Vec<char>, from: usize, to: usize) -> (v: Vec<char>)
    requires
        from <= to <= chars.len(),
    ensures
        v@ == ascii_lower(chars@.subrange(from as int, to as int)),
{
    let mut v: Vec<char> = Vec::new();
    let mut i: usize = from;
    while i < to
        invariant
            from <= i <= to <= chars.len(),
            v@ == ascii_lower(chars@.subrange(from as int, i as int)),
        decreases to - i,
    {
        v.push(to_ascii_lower_char(chars[i]));
        i = i + 1;
        assert(v@ =~= ascii_lower(chars@.subrange(from as int, i as int)));
    }
    v
}

/// Whether `word` spells exactly `keyword`.
pub fn spells(word: &Vec<char>, keyword: &str) -> (b: bool)
    ensures
        b == (word@ == keyword@),
{
    let other = chars_of(keyword);
    if word.len() != other.len() {
        return false;
    }
    let mut i: usize = 0;
    while i < word.len()
        invariant
            i <= word.len(),
            word.len() == other.len(),
            other@ == keyword@,
            word@.take(i as int) == other@.take(i as int),
        decreases word.len() - i,
    {
        if word[i] != other[i] {
            assert(word@[i as int] != other@[i as int]);
            return false;
        }
        i = i + 1;
        assert(word@.take(i as int) =~= word@.take(i as int - 1).push(word@[i as int - 1]));
        assert(other@.take(i as int) =~= other@.take(i as int - 1).push(other@[i as int - 1]));
    }
    assert(word@ =~= word@.take(i as int));
    assert(other@ =~= other@.take(i as int));
    true
}

/// Whether `needle` occurs in `hay` as a run of consecutive characters.
pub open spec fn occurs_in(needle: Seq<char>, hay: Seq<char>) -> bool {
    exists|k: int|
        0 <= k && k + needle.len() <= hay.len() && #[trigger] hay.subrange(k, k + needle.len())
            == needle
}

/// Whether `needle` stands in `hay` at offset `at`.
fn occurs_at(needle: &Vec<char>, hay: &Vec<char>, at: usize) -> (b: bool)
    requires
        at + needle.len() <= hay.len(),
    ensures
        b == (hay@.subrange(at as int, at + needle.len()) == needle@),
{
    let mut j: usize = 0;
    while j < needle.len()
        invariant
            j <= needle.len(),
            at + needle.len() <= hay.len(),
            hay@.subrange(at as int, at + j) == needle@.take(j as int),
        decreases needle.len() - j,
    {
        if hay[at + j] != needle[j] {
            assert(hay@.subrange(at as int, at + needle.len())[j as int] != needle@[j as int]);
            return false;
        }
        j = j + 1;
        assert(hay@.subrange(at as int, at + j) =~= hay@.subrange(at as int, at + j - 1).push(
            hay@[at + j - 1],
        ));
        assert(needle@.take(j as int) =~= needle@.take(j as int - 1).push(needle@[j as int - 1]));
    }
    assert(needle@ =~= needle@.take(j as int));
    true
}

/// Substring search: whether `needle` occurs in `hay`.
pub fn contains_chars(hay: &Vec<char>, needle: &Vec<char>) -> (b: bool)
    ensures
        b == occurs_in(needle@, hay@),
{
    if needle.len() > hay.len() {
        return false;
    }
    let last = hay.len() - needle.len();
    let mut k: usize = 0;
    loop
        invariant
            k <= last,
            last == hay.len() - needle.len(),
            forall|i: int|
                0 <= i < k ==> #[trigger] hay@.subrange(i, i + needle.len()) != needle@,
        decreases last - k,
    {
        if occurs_at(needle, hay, k) {
            return true;
        }
        if k == last {
            return false;
        }
        k = k + 1;
    }
}

/// Whether `c` is a decimal digit.
pub open spec fn is_digit(c: char) -> bool {
    '0' <= c && c <= '9'
}

/// The value of the decimal digit `c`.
pub open spec fn digit_value(c: char) -> int {
    (c as u32) as int - 48
}

/// Whether `s` holds decimal digits only.
pub open spec fn all_digits(s: Seq<char>) -> bool {
    forall|i: int| 0 <= i < s.len() ==> is_digit(#[trigger] s[i])
}

/// The number that the digits of `s` spell in base ten.
pub open spec fn digits_value(s: Seq<char>) -> int
    decreases s.len(),
{
    if s.len() == 0 {
        0
    } else {
        digits_value(s.drop_last()) * 10 + digit_value(s.last())
    }
}

/// The integer that `s` spells: an optional sign (`+`, or `-` where
/// `allow_minus` holds), then one or more decimal digits and nothing else.
pub open spec fn decimal_value(s: Seq<char>, allow_minus: bool) -> Option<int> {
    let minus = s.len() > 0 && s[0] == '-' && allow_minus;
    let plus = s.len() > 0 && s[0] == '+';
    let digits = if minus || plus {
        s.drop_first()
    } else {
        s
    };
    if digits.len() == 0 || !all_digits(digits) {
        None
    } else if minus {
        Some(-digits_value(digits))
    } else {
        Some(digits_value(digits))
    }
}

/// What parsing `s` as an `i32` gives: the integer it spells, where that fits.
pub open spec fn decimal_i32(s: Seq<char>) -> Option<i32> {
    match decimal_value(s, true) {
        Some(v) => if i32::MIN <= v <= i32::MAX {
            Some(v as i32)
        } else {
            None
        },
        None => None,
    }
}

/// What parsing `s` as a `u32` gives: the integer it spells, where that fits.
pub open spec fn decimal_u32(s: Seq<char>) -> Option<u32> {
    match decimal_value(s, false) {
        Some(v) => if v <= u32::MAX {
            Some(v as u32)
        } else {
            None
        },
        None => None,
    }
}

/// A prefix of a run of digits spells no more than the whole run.
pub proof fn lemma_digits_value_prefix(s: Seq<char>, k: int)
    requires
        all_digits(s),
        0 <= k <= s.len(),
    ensures
        0 <= digits_value(s.take(k)) <= digits_value(s),
    decreases s.len() - k,
{
    lemma_digits_value_nonnegative(s.take(k));
    if k < s.len() {
        lemma_digits_value_prefix(s, k + 1);
        assert(s.take(k + 1).drop_last() =~= s.take(k));
    } else {
        assert(s.take(k) =~= s);
    }
}

/// A run of digits spells a number that is not negative.
pub proof fn lemma_digits_value_nonnegative(s: Seq<char>)
    requires
        all_digits(s),
    ensures
        0 <= digits_value(s),
    decreases s.len(),
{
    if s.len() > 0 {
        lemma_digits_value_nonnegative(s.drop_last());
    }
}

/// The magnitude that the digits of `chars` from `from` up to `to` spell, as
/// long as it is at most `limit`; `None` where the range is empty, holds
/// something other than a digit, or spells more than `limit`.
fn parse_digits(chars: &Vec<char>, from: usize, to: usize, limit: u64) -> (r: Option<u64>)
    requires
        from <= to <= chars.len(),
        limit <= 0xffff_ffff,
    ensures
        ({
            let digits = chars@.subrange(from as int, to as int);
            let valid = digits.len() > 0 && all_digits(digits) && digits_value(digits) <= limit;
            match r {
                Some(v) => valid && v == digits_value(digits),
                None => !valid,
            }
        }),
{
    let ghost digits = chars@.subrange(from as int, to as int);
    if from == to {
        return None;
    }
    let mut acc: u64 = 0;
    let mut i: usize = from;
    while i < to
        invariant
            from <= i <= to <= chars.len(),
            limit <= 0xffff_ffff,
            digits == chars@.subrange(from as int, to as int),
            all_digits(digits.take(i - from)),
            acc == digits_value(digits.take(i - from)),
            acc <= limit,
        decreases to - i,
    {
        let c = chars[i];
        if !('0' <= c && c <= '9') {
            assert(!is_digit(digits[i - from]));
            return None;
        }
        let d: u64 = ((c as u32) - 48u32) as u64;
        let next: u64 = acc * 10 + d;
        assert(digits.take(i - from + 1).drop_last() =~= digits.take(i - from));
        assert(digits.take(i - from + 1).last() == c);
        assert(next == digits_value(digits.take(i - from + 1)));
        assert(all_digits(digits.take(i - from + 1))) by {
            assert forall|j: int| 0 <= j < i - from + 1 implies is_digit(
                #[trigger] digits.take(i - from + 1)[j],
            ) by {
                if j < i - from {
                    assert(digits.take(i - from + 1)[j] == digits.take(i - from)[j]);
                }
            }
        }
        if next > limit {
            proof {
                if all_digits(digits) {
                    lemma_digits_value_prefix(digits, i - from + 1);
                }
            }
            return None;
        }
        acc = next;
        i = i + 1;
    }
    assert(digits.take(to - from) =~= digits);
    Some(acc)
}

/// Parses the characters of `chars` from `from` up to `to` as an `i32`.
pub fn parse_i32(chars: &Vec<char>, from: usize, to: usize) -> (r: Option<i32>)
    requires
        from <= to <= chars.len(),
    ensures
        r == decimal_i32(chars@.subrange(from as int, to as int)),
{
    let ghost s = chars@.subrange(from as int, to as int);
    if from == to {
        return None;
    }
    let first = chars[from];
    assert(s[0] == first);
    if first == '-' {
        assert(s.drop_first() =~= chars@.subrange(from + 1, to as int));
        match parse_digits(chars, from + 1, to, 0x8000_0000) {
            Some(v) => {
                if v == 0x8000_0000 {
                    Some(i32::MIN)
                } else {
                    Some(-(v as i32))
                }
            },
            None => None,
        }
    } else if first == '+' {
        assert(s.drop_first() =~= chars@.subrange(from + 1, to as int));
        match parse_digits(chars, from + 1, to, 0x7fff_ffff) {
            Some(v) => Some(v as i32),
            None => None,
        }
    } else {
        match parse_digits(chars, from, to, 0x7fff_ffff) {
            Some(v) => Some(v as i32),
            None => {
                proof {
                    if all_digits(s) {
                        lemma_digits_value_nonnegative(s);
                    }
                }
                None
            },
        }
    }
}

/// Parses the characters of `chars` from `from` up to `to` as a `u32`.
pub fn parse_u32(chars: &Vec<char>, from: usize, to: usize) -> (r: Option<u32>)
    requires
        from <= to <= chars.len(),
    ensures
        r == decimal_u32(chars@.subrange(from as int, to as int)),
{
    let ghost s = chars@.subrange(from as int, to as int);
    if from == to {
        return None;
    }
    let first = chars[from];
    assert(s[0] == first);
    if first == '+' {
        assert(s.drop_first() =~= chars@.subrange(from + 1, to as int));
        match parse_digits(chars, from + 1, to, 0xffff_ffff) {
            Some(v) => Some(v as u32),
            None => None,
        }
    } else {
        match parse_digits(chars, from, to, 0xffff_ffff) {
            Some(v) => Some(v as u32),
            None => None,
        }
    }
}

/// The offset of the first `c` in `s`, or the length of `s` where it holds none.
pub open spec fn first_offset_of(s: Seq<char>, c: char) -> int
    decreases s.len(),
{
    if s.len() == 0 || s.first() == c {
        0
    } else {
        1 + first_offset_of(s.drop_first(), c)
    }
}

/// [`first_offset_of`] is the one offset with no `c` before it that either
/// holds `c` or is the end.
pub proof fn lemma_first_offset_of(s: Seq<char>, c: char, at: int)
    requires
        0 <= at <= s.len(),
        forall|i: int| 0 <= i < at ==> s[i] != c,
        at < s.len() ==> s[at] == c,
    ensures
        first_offset_of(s, c) == at,
    decreases s.len(),
{
    if at > 0 {
        assert(s.first() != c);
        lemma_first_offset_of(s.drop_first(), c, at - 1);
    }
}

/// The offset of the first `c` in `chars`, or their number where there is none.
pub fn find_char(chars: &Vec<char>, c: char) -> (at: usize)
    ensures
        at == first_offset_of(chars@, c),
        at <= chars.len(),
{
    let mut at: usize = 0;
    while at < chars.len() && chars[at] != c
        invariant
            at <= chars.len(),
            forall|i: int| 0 <= i < at ==> chars@[i] != c,
        decreases chars.len() - at,
    {
        at = at + 1;
    }
    proof {
        lemma_first_offset_of(chars@, c, at as int);
    }
    at
}

/// `s` with blanks behind it up to `width` characters; `s` itself where it
/// is that long already.
pub open spec fn padded(s: Seq<char>, width: nat) -> Seq<char> {
    if s.len() >= width {
        s
    } else {
        s + Seq::new((width - s.len()) as nat, |i: int| ' ')
    }
}

/// A description fitted to a column of `max_width` characters: padded with
/// blanks where it is short enough, else cut so that three dots behind it
/// fill the column.
pub open spec fn fitted(desc: Seq<char>, max_width: nat) -> Seq<char> {
    if desc.len() <= max_width {
        padded(desc, max_width)
    } else if max_width >= 3 {
        padded(desc.take(max_width - 3) + "..."@, max_width)
    } else {
        "..."@
    }
}

/// Appends blanks to `out` until it holds `width` characters.
pub fn pad_to_width(out: &mut String, width: usize)
    ensures
        final(out)@ == padded(old(out)@, width as nat),
{
    let mut len = out.as_str().unicode_len();
    proof {
        reveal_strlit(" ");
    }
    if len >= width {
        return ;
    }
    let ghost start = len;
    while len < width
        invariant
            start <= len <= width,
            start == old(out)@.len(),
            out@ == old(out)@ + Seq::new((len - start) as nat, |i: int| ' '),
            " "@.len() == 1,
            " "@[0] == ' ',
        decreases width - len,
    {
        out.append(" ");
        len = len + 1;
        assert(out@ =~= old(out)@ + Seq::new((len - start) as nat, |i: int| ' '));
    }
}

/// Fits a description to a column of `max_width` characters: a short one is
/// padded with blanks, a long one is cut and ends in three dots. No
/// character is ever cut in two.
pub fn truncate_desc(desc: &str, max_width: usize) -> (r: String)
    ensures
        r@ == fitted(desc@, max_width as nat),
{
    let len = desc.unicode_len();
    if len <= max_width {
        let mut out = String::from_str(desc);
        pad_to_width(&mut out, max_width);
        return out;
    }
    let visible = if max_width >= 3 {
        max_width - 3
    } else {
        0
    };
    let mut out = String::from_str(desc.substring_char(0, visible));
    out.append("...");
    proof {
        reveal_strlit("...");
        assert(desc@.subrange(0, visible as int) =~= desc@.take(visible as int));
        if max_width < 3 {
            assert(desc@.take(0) + "..."@ =~= "..."@);
        }
    }
    pad_to_width(&mut out, max_width);
    out
}

/// The decimal digit for `d`.
pub open spec fn digit_char(d: int) -> char {
    ((d + 48) as u8) as char
}

/// The digits of `n` in base ten, without leading zeros (`"0"` for zero).
pub open spec fn decimal_text(n: nat) -> Seq<char>
    decreases n,
{
    if n < 10 {
        seq![digit_char(n as int)]
    } else {
        decimal_text(n / 10).push(digit_char((n % 10) as int))
    }
}

/// The one-character text of the digit `d`.
pub fn digit_text(d: u64) -> (r: &'static str)
    requires
        d < 10,
    ensures
        r@ == seq![digit_char(d as int)],
{
    proof {
        reveal_strlit("0");
        reveal_strlit("1");
        reveal_strlit("2");
        reveal_strlit("3");
        reveal_strlit("4");
        reveal_strlit("5");
        reveal_strlit("6");
        reveal_strlit("7");
        reveal_strlit("8");
        reveal_strlit("9");
    }
    let r = if d == 0 {
        "0"
    } else if d == 1 {
        "1"
    } else if d == 2 {
        "2"
    } else if d == 3 {
        "3"
    } else if d == 4 {
        "4"
    } else if d == 5 {
        "5"
    } else if d == 6 {
        "6"
    } else if d == 7 {
        "7"
    } else if d == 8 {
        "8"
    } else {
        "9"
    };
    assert(r@ =~= seq![digit_char(d as int)]);
    r
}

/// Appends the decimal digits of `n` to `out`.
pub fn push_decimal(out: &mut String, n: u64)
    ensures
        final(out)@ == old(out)@ + decimal_text(n as nat),
    decreases n,
{
    if n >= 10 {
        push_decimal(out, n / 10);
    }
    out.append(digit_text(n % 10));
    assert(final(out)@ =~= old(out)@ + decimal_text(n as nat));
}

} // verus!
