//! Verified helpers over string slices.

use vstd::prelude::*;
use vstd::string::StringSliceAdditionalSpecFns;
use vstd::string::StringExecFns;
use vstd::utf8::*;

verus! {

/// Whether two string slices spell the same characters.
pub fn same_text(a: &str, b: &str) -> (same: bool)
    ensures
        same == (a@ == b@),
{
    let left = a.to_owned();
    let right = b.to_owned();
    left == right
}

/// Whether any character of `text` is a control character.
pub fn has_control(text: &str) -> (found: bool)
    ensures
        found == exists|i: int| 0 <= i < text@.len() && is_control_char(#[trigger] text@[i]),
{
    let mut found = false;
    for c in it: text.chars()
        invariant
            it.seq() == text@,
            found == exists|i: int| 0 <= i < it.index() && is_control_char(#[trigger] text@[i]),
    {
        if is_control(c) {
            found = true;
        }
    }
    found
}

/// Unicode general category Cc: the C0 and C1 control ranges and DEL.
pub open spec fn is_control_char(c: char) -> bool {
    (c as u32) < 0x20 || (0x7f <= (c as u32) && (c as u32) < 0xa0)
}

/// Executable form of [`is_control_char`].
pub fn is_control(c: char) -> (r: bool)
    ensures
        r == is_control_char(c),
{
    let code = c as u32;
    code < 0x20 || (0x7f <= code && code < 0xa0)
}

/// Whether every byte is a seven-bit ASCII code.
pub open spec fn all_ascii(bytes: Seq<u8>) -> bool {
    forall|i: int| 0 <= i < bytes.len() ==> bytes[i] < 0x80
}

/// ASCII bytes are a well-formed UTF-8 encoding.
pub proof fn lemma_ascii_is_utf8(bytes: Seq<u8>)
    requires
        all_ascii(bytes),
    ensures
        valid_utf8(bytes),
    decreases bytes.len(),
{
    if bytes.len() != 0 {
        let b = bytes[0];
        assert(b < 0x80);
        assert(b & 0x7f == b) by (bit_vector)
            requires
                b < 0x80,
        ;
        assert(is_leading_byte_width_1(b));
        assert(valid_first_scalar(bytes));
        assert(pop_first_scalar(bytes) =~= bytes.drop_first());
        lemma_ascii_is_utf8(bytes.drop_first());
    }
}

/// Reads bytes as text. This is `std::str::from_utf8`, whose documentation
/// says it succeeds exactly when the bytes are valid UTF-8 and then borrows
/// them unchanged.
#[verifier::external_body]
pub(crate) fn utf8_text(bytes: &[u8]) -> (text: Option<&str>)
    ensures
        text matches Some(t) ==> t.spec_bytes() == bytes@,
        valid_utf8(bytes@) ==> text is Some,
{
    std::str::from_utf8(bytes).ok()
}

/// The character of one decimal digit.
pub open spec fn digit_char(digit: int) -> char {
    (48 + digit) as char
}

/// The decimal spelling of `n`, without sign or leading zeros.
pub open spec fn decimal(n: nat) -> Seq<char>
    decreases n,
{
    if n < 10 {
        seq![digit_char(n as int)]
    } else {
        decimal(n / 10) + seq![digit_char((n % 10) as int)]
    }
}

fn digit_text(digit: u64) -> (text: &'static str)
    requires
        digit < 10,
    ensures
        text@ == seq![digit_char(digit as int)],
{
    proof {
        reveal_strlit("0");
        reveal_strlit("1");
        reveal_strlit("2");
        reveal_strlit("3");
        reveal_strlit("4");
        reveal_strlit("5");
        reveal_strlit("6");
        reveal_strlit("7");
        reveal_strlit("8");
        reveal_strlit("9");
    }
    if digit == 0 {
        "0"
    } else if digit == 1 {
        "1"
    } else if digit == 2 {
        "2"
    } else if digit == 3 {
        "3"
    } else if digit == 4 {
        "4"
    } else if digit == 5 {
        "5"
    } else if digit == 6 {
        "6"
    } else if digit == 7 {
        "7"
    } else if digit == 8 {
        "8"
    } else {
        "9"
    }
}

/// The decimal spelling of `n`.
pub fn decimal_text(n: u64) -> (text: String)
    ensures
        text@ == decimal(n as nat),
    decreases n,
{
    if n < 10 {
        digit_text(n).to_owned()
    } else {
        let mut text = decimal_text(n / 10);
        text.append(digit_text(n % 10));
        text
    }
}

/// `text` followed by `more`.
pub fn joined(text: String, more: &str) -> (out: String)
    ensures
        out@ == text@ + more@,
{
    let mut out = text;
    out.append(more);
    out
}

/// Whether `c` has the Unicode White_Space property.
pub open spec fn is_white_space(c: char) -> bool {
    let v = c as u32;
    (0x09 <= v <= 0x0d) || v == 0x20 || v == 0x85 || v == 0xa0 || v == 0x1680 || (0x2000 <= v
        <= 0x200a) || v == 0x2028 || v == 0x2029 || v == 0x202f || v == 0x205f || v == 0x3000
}

/// `s` without its leading White_Space characters.
pub open spec fn trim_start(s: Seq<char>) -> Seq<char>
    decreases s.len(),
{
    if s.len() > 0 && is_white_space(s[0]) {
        trim_start(s.drop_first())
    } else {
        s
    }
}

/// `s` without its trailing White_Space characters.
pub open spec fn trim_end(s: Seq<char>) -> Seq<char>
    decreases s.len(),
{
    if s.len() > 0 && is_white_space(s.last()) {
        trim_end(s.drop_last())
    } else {
        s
    }
}

/// `s` without leading or trailing White_Space characters.
pub open spec fn trimmed(s: Seq<char>) -> Seq<char> {
    trim_end(trim_start(s))
}

/// `str::trim`, whose documentation says it removes leading and trailing
/// whitespace as the Unicode White_Space property defines it.
#[verifier::external_body]
pub(crate) fn trim_text(text: &str) -> (out: &str)
    ensures
        out@ == trimmed(text@),
{
    text.trim()
}

/// An ASCII upper-case letter made lower case; every other character unchanged.
pub open spec fn ascii_lower(c: char) -> char {
    if 'A' <= c && c <= 'Z' {
        ((c as u32) + 32) as char
    } else {
        c
    }
}

/// `s` with its ASCII letters made lower case.
pub open spec fn ascii_lowercase(s: Seq<char>) -> Seq<char> {
    Seq::new(s.len(), |i: int| ascii_lower(s[i]))
}

fn lower_char(c: char) -> (lowered: char)
    ensures
        lowered == ascii_lower(c),
{
    if 'A' <= c && c <= 'Z' {
        let code: u8 = (c as u32) as u8;
        proof {
            assert(code as u32 == c as u32);
        }
        (code + 32) as char
    } else {
        c
    }
}

/// The characters of `text`, in order.
pub fn chars_of(text: &str) -> (chars: Vec<char>)
    ensures
        chars@ == text@,
{
    let mut chars: Vec<char> = Vec::new();
    for c in it: text.chars()
        invariant
            it.seq() == text@,
            chars@ == text@.take(it.index() as int),
    {
        chars.push(c);
        assert(text@.take(it.index() as int + 1) =~= text@.take(it.index() as int).push(c));
    }
    assert(text@.take(text@.len() as int) =~= text@);
    chars
}

/// Whether `text`, with its ASCII letters made lower case, spells `word`.
pub fn folds_to(text: &str, word: &str) -> (same: bool)
    ensures
        same == (ascii_lowercase(text@) == word@),
{
    let left = chars_of(text);
    let right = chars_of(word);
    if left.len() != right.len() {
        assert(ascii_lowercase(text@).len() != word@.len());
        return false;
    }
    let mut i: usize = 0;
    while i < left.len()
        invariant
            left@ == text@,
            right@ == word@,
            left@.len() == right@.len(),
            0 <= i <= left@.len(),
            forall|j: int| 0 <= j < i ==> ascii_lower(left@[j]) == right@[j],
        decreases left@.len() - i,
    {
        if lower_char(left[i]) != right[i] {
            assert(ascii_lowercase(text@)[i as int] != word@[i as int]);
            return false;
        }
        i = i + 1;
    }
    assert(ascii_lowercase(text@) =~= word@);
    true
}

/// Whether `a` and `b` spell the same text once their ASCII letters are made
/// lower case.
pub fn same_ignoring_ascii_case(a: &str, b: &str) -> (same: bool)
    ensures
        same == (ascii_lowercase(a@) == ascii_lowercase(b@)),
{
    let left = chars_of(a);
    let right = chars_of(b);
    if left.len() != right.len() {
        assert(ascii_lowercase(a@).len() != ascii_lowercase(b@).len());
        return false;
    }
    let mut i: usize = 0;
    while i < left.len()
        invariant
            left@ == a@,
            right@ == b@,
            left@.len() == right@.len(),
            0 <= i <= left@.len(),
            forall|j: int| 0 <= j < i ==> ascii_lower(left@[j]) == ascii_lower(right@[j]),
        decreases left@.len() - i,
    {
        if lower_char(left[i]) != lower_char(right[i]) {
            assert(ascii_lowercase(a@)[i as int] != ascii_lowercase(b@)[i as int]);
            return false;
        }
        i = i + 1;
    }
    assert(ascii_lowercase(a@) =~= ascii_lowercase(b@));
    true
}

} // verus!
