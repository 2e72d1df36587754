//! Character classes and UTF-8 decoding used to recognise text in memory.
use vstd::prelude::*;
use vstd::utf8::{valid_utf8, decode_utf8, pop_first_scalar, length_of_first_scalar};
use crate::disasm::tokens::hex_digits;

verus! {

/// Unicode `Alphabetic` property of a character (a table lookup in std).
pub uninterp spec fn unicode_alphabetic(c: char) -> bool;

/// Unicode numeric property of a character: general category `Nd`, `Nl` or
/// `No` (a table lookup in std).
pub uninterp spec fn unicode_numeric(c: char) -> bool;

/// `char::is_alphabetic`: whether the character has the Unicode `Alphabetic`
/// property.  Its result is named, as it depends on the character alone.
#[verifier::external_body]
pub fn char_is_alphabetic(c: char) -> (r: bool)
    ensures
        r == unicode_alphabetic(c),
{
    c.is_alphabetic()
}

/// `char::is_numeric`: whether the character is in general category `Nd`,
/// `Nl` or `No`.  Its result is named, as it depends on the character alone.
#[verifier::external_body]
pub fn char_is_numeric(c: char) -> (r: bool)
    ensures
        r == unicode_numeric(c),
{
    c.is_numeric()
}

/// `std::str::from_utf8`: the text that `bytes` encode when they are valid
/// UTF-8, as the std documentation states; `None` when they are not.
#[verifier::external_body]
pub fn str_from_utf8(bytes: &[u8]) -> (r: Option<&str>)
    ensures
        r is Some <==> valid_utf8(bytes@),
        r matches Some(s) ==> s@ == decode_utf8(bytes@),
{
    std::str::from_utf8(bytes).ok()
}

/// What `char::escape_default` gives for `c`: tab, carriage return, line
/// feed, quotes and backslash as backslash escapes, the printable ASCII range
/// `' '..='~'` as it is, and every other character as `\u{..}` with the
/// shortest lowercase hexadecimal form of its value.
pub open spec fn escape_char(c: char) -> Seq<char> {
    if c == '\t' {
        seq!['\\', 't']
    } else if c == '\r' {
        seq!['\\', 'r']
    } else if c == '\n' {
        seq!['\\', 'n']
    } else if c == '\'' || c == '"' || c == '\\' {
        seq!['\\', c]
    } else if ' ' <= c && c <= '~' {
        seq![c]
    } else {
        seq!['\\', 'u', '{'] + hex_digits(c as nat) + seq!['}']
    }
}

/// What `str::escape_default` gives for `s`: each character escaped by
/// `char::escape_default`, in order.
pub open spec fn escaped(s: Seq<char>) -> Seq<char>
    decreases s.len(),
{
    if s.len() == 0 {
        Seq::empty()
    } else {
        escaped(s.drop_last()) + escape_char(s.last())
    }
}

/// `str::escape_default`, collected into a `String`: the std documentation
/// gives the rule for each character, which `escape_char` states.
#[verifier::external_body]
pub(crate) fn escape_default_text(s: &String) -> (r: String)
    ensures
        r@ == escaped(s@),
{
    s.escape_default().to_string()
}

/// A printable ASCII character other than space (`'!'..='~'`).
pub open spec fn spec_ascii_graphic(c: char) -> bool {
    '!' <= c && c <= '~'
}

/// ASCII whitespace: space, tab, line feed, form feed, carriage return.
pub open spec fn spec_ascii_whitespace(c: char) -> bool {
    c == ' ' || c == '\t' || c == '\n' || c == '\x0C' || c == '\r'
}

/// A character that counts as readable text.
pub open spec fn spec_printable(c: char) -> bool {
    spec_ascii_graphic(c) || spec_ascii_whitespace(c) || unicode_alphabetic(c) || unicode_numeric(c)
}

/// Check if a character counts as readable text: ASCII printable, ASCII
/// whitespace, alphabetic or numeric.
pub fn is_printable_char(c: char) -> (r: bool)
    ensures
        r == spec_printable(c),
{
    ('!' <= c && c <= '~') || c == ' ' || c == '\t' || c == '\n' || c == '\x0C' || c == '\r'
        || char_is_alphabetic(c) || char_is_numeric(c)
}

/// Number of readable characters in `s`.
pub open spec fn count_printable(s: Seq<char>) -> nat
    decreases s.len(),
{
    if s.len() == 0 {
        0
    } else {
        count_printable(s.drop_last()) + if spec_printable(s.last()) { 1nat } else { 0nat }
    }
}

proof fn lemma_count_printable_bound(s: Seq<char>)
    ensures
        count_printable(s) <= s.len(),
    decreases s.len(),
{
    if s.len() > 0 {
        lemma_count_printable_bound(s.drop_last());
    }
}

/// At least 70% of the characters of a non-empty text are readable.
pub open spec fn spec_readable(s: Seq<char>) -> bool {
    s.len() > 0 && (count_printable(s) * 100) / s.len() >= 70
}

/// Check if a string looks like readable text
pub fn is_readable_string(s: &str) -> (r: bool)
    requires
        s@.len() * 100 <= usize::MAX,
    ensures
        r == spec_readable(s@),
{
    let mut printable: usize = 0;
    let mut total: usize = 0;
    for c in it: s.chars()
        invariant
            it.seq() == s@,
            total == it.index(),
            printable == count_printable(s@.subrange(0, total as int)),
            total <= s@.len(),
            s@.len() * 100 <= usize::MAX,
    {
        proof {
            lemma_count_printable_bound(s@.subrange(0, total as int));
            assert(s@.subrange(0, total + 1).drop_last() =~= s@.subrange(0, total as int));
        }
        if is_printable_char(c) {
            printable += 1;
        }
        total += 1;
    }
    proof {
        assert(s@.subrange(0, total as int) =~= s@);
        lemma_count_printable_bound(s@);
    }
    if total == 0 {
        return false;
    }
    printable * 100 / total >= 70
}


/// Valid UTF-8 never decodes to more characters than it has bytes.
pub proof fn lemma_decode_utf8_len(bytes: Seq<u8>)
    requires
        valid_utf8(bytes),
    ensures
        decode_utf8(bytes).len() <= bytes.len(),
    decreases bytes.len(),
{
    if bytes.len() > 0 {
        let rest = pop_first_scalar(bytes);
        assert(length_of_first_scalar(bytes) >= 1);
        assert(length_of_first_scalar(bytes) <= bytes.len() as int);
        assert(rest.len() == bytes.len() - length_of_first_scalar(bytes));
        lemma_decode_utf8_len(rest);
    }
}

/// The text stored at `offset..offset + len` of `memory`, when it is in range,
/// valid UTF-8 and readable.
pub open spec fn spec_string_at(memory: Seq<u8>, offset: int, len: int) -> Option<Seq<char>> {
    if offset + len > memory.len() {
        None
    } else {
        let bytes = memory.subrange(offset, offset + len);
        if valid_utf8(bytes) && spec_readable(decode_utf8(bytes)) {
            Some(decode_utf8(bytes))
        } else {
            None
        }
    }
}

/// Get a readable string from memory at the given offset and length
pub fn get_string_from_memory(memory: &[u8], offset: usize, len: usize) -> (r: Option<String>)
    requires
        offset + len <= usize::MAX,
        offset + len <= memory@.len() ==> len * 100 <= usize::MAX,
    ensures
        match r {
            Some(s) => spec_string_at(memory@, offset as int, len as int) == Some(s@),
            None => spec_string_at(memory@, offset as int, len as int) is None,
        },
{
    if offset + len > memory.len() {
        return None;
    }
    let mut bytes: Vec<u8> = Vec::new();
    let end = offset + len;
    let mut i: usize = offset;
    while i < end
        invariant
            end == offset + len,
            offset <= i <= end,
            end <= memory@.len(),
            bytes@ == memory@.subrange(offset as int, i as int),
        decreases end - i,
    {
        bytes.push(memory[i]);
        i += 1;
        assert(bytes@ =~= memory@.subrange(offset as int, i as int));
    }
    match str_from_utf8(bytes.as_slice()) {
        Some(s) => {
            proof {
                lemma_decode_utf8_len(bytes@);
            }
            if is_readable_string(s) {
                Some(s.to_owned())
            } else {
                None
            }
        },
        None => None,
    }
}

} // verus!
