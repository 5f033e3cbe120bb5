//! Text and byte helpers shared by the other modules.
use vstd::prelude::*;
use vstd::utf8::{decode_utf8, decode_utf8_split, encode_utf8, encode_utf8_decode_utf8};
use vstd::utf8::{encode_utf8_valid_utf8, is_char_boundary_iff_not_is_continuation_byte};
use vstd::utf8::{valid_utf8, valid_utf8_split};

verus! {

broadcast use vstd::string::group_string_axioms;

/// `String::push`: appends one character at the end.
pub assume_specification[ String::push ](text: &mut String, ch: char)
    ensures
        final(text)@ == old(text)@.push(ch),
;

/// The text that `String::from_utf8_lossy` reads from bytes.
pub uninterp spec fn utf8_lossy(bytes: Seq<u8>) -> Seq<char>;

/// `String::from_utf8_lossy`: the text that the bytes encode. What is not
/// UTF-8 in them is replaced; bytes that are UTF-8 come out as they are.
#[verifier::external_body]
pub(crate) fn text_of_bytes(bytes: &[u8]) -> (text: String)
    ensures
        text@ == utf8_lossy(bytes@),
        valid_utf8(bytes@) ==> text@ == decode_utf8(bytes@),
{
    String::from_utf8_lossy(bytes).into_owned()
}

/// The text that bytes are shown as: the one that they encode, and where they are
/// not UTF-8, what `String::from_utf8_lossy` makes of them.
pub open spec fn lossy_text(bytes: Seq<u8>) -> Seq<char> {
    if valid_utf8(bytes) {
        decode_utf8(bytes)
    } else {
        utf8_lossy(bytes)
    }
}

/// `std::str::from_utf8`: the text that the bytes encode; none, where they are
/// not UTF-8.
#[verifier::external_body]
pub(crate) fn utf8_text(bytes: &[u8]) -> (text: Option<&str>)
    ensures
        match text {
            Some(text) => valid_utf8(bytes@) && text@ == decode_utf8(bytes@),
            None => !valid_utf8(bytes@),
        },
{
    std::str::from_utf8(bytes).ok()
}

/// The text that `str`'s `Debug` shows: quoted, with escapes.
pub uninterp spec fn debug_text(text: Seq<char>) -> Seq<char>;

/// Whether `Debug` shows a character as it is: a printable ASCII character
/// other than the double quote and the backslash.
pub open spec fn shown_plainly(ch: char) -> bool {
    ' ' <= ch <= '~' && ch != '"' && ch != '\\'
}

/// `str`'s `Debug`: the text between double quotes, with escapes where they are
/// needed.
#[verifier::external_body]
pub(crate) fn quoted(text: &str) -> (r: String)
    ensures
        r@ == debug_text(text@),
        (forall|i: int| 0 <= i < text@.len() ==> shown_plainly(#[trigger] text@[i])) ==> r@
            == seq!['"'] + text@ + seq!['"'],
{
    format!("{text:?}")
}

/// What a result with a text on either side holds.
pub open spec fn text_result(r: Result<String, String>) -> Result<Seq<char>, Seq<char>> {
    match r {
        Ok(text) => Ok(text@),
        Err(error) => Err(error@),
    }
}

/// The texts that a sequence of strings holds.
pub open spec fn texts(strings: Seq<String>) -> Seq<Seq<char>> {
    strings.map_values(|s: String| s@)
}

/// The text of an optional string.
pub open spec fn optional_text(value: Option<String>) -> Option<Seq<char>> {
    match value {
        Some(text) => Some(text@),
        None => None,
    }
}

/// The text of an optional string slice.
pub open spec fn optional_str(value: Option<&str>) -> Option<Seq<char>> {
    match value {
        Some(text) => Some(text@),
        None => None,
    }
}

/// A copy of an optional string.
pub fn copy_text(text: &Option<String>) -> (copy: Option<String>)
    ensures
        optional_text(copy) == optional_text(*text),
{
    match text {
        Some(text) => Some(text.clone()),
        None => None,
    }
}

/// A copy of an optional text.
pub fn owned(text: Option<&str>) -> (r: Option<String>)
    ensures
        optional_text(r) == optional_str(text),
{
    match text {
        Some(text) => Some(text.to_owned()),
        None => None,
    }
}

/// Whether two byte strings are the same.
pub fn same_bytes(left: &[u8], right: &[u8]) -> (same: bool)
    ensures
        same == (left@ == right@),
{
    if left.len() != right.len() {
        return false;
    }
    let mut i: usize = 0;
    while i < left.len()
        invariant
            left@.len() == right@.len(),
            i <= left@.len(),
            forall|j: int| 0 <= j < i ==> left@[j] == right@[j],
        decreases left@.len() - i,
    {
        if left[i] != right[i] {
            return false;
        }
        i = i + 1;
    }
    assert(left@ =~= right@);
    true
}

/// Whether two texts are the same.
pub fn same_text(left: &str, right: &str) -> (same: bool)
    ensures
        same == (left@ == right@),
{
    proof {
        encode_utf8_decode_utf8(left@);
        encode_utf8_decode_utf8(right@);
    }
    same_bytes(left.as_bytes(), right.as_bytes())
}

/// Whether an optional text is there and is `expected`.
pub fn is_text(value: Option<&str>, expected: &str) -> (r: bool)
    ensures
        r == (optional_str(value) == Some(expected@)),
{
    match value {
        Some(text) => same_text(text, expected),
        None => false,
    }
}

/// Whether one byte string comes strictly before another, byte by byte, a
/// proper prefix coming first.
pub open spec fn bytes_before(left: Seq<u8>, right: Seq<u8>) -> bool
    decreases left.len(),
{
    if right.len() == 0 {
        false
    } else if left.len() == 0 {
        true
    } else if left[0] != right[0] {
        left[0] < right[0]
    } else {
        bytes_before(left.skip(1), right.skip(1))
    }
}

/// Whether one text comes strictly before another: texts are ordered by the
/// bytes of their UTF-8 encoding.
pub open spec fn text_before(left: Seq<char>, right: Seq<char>) -> bool {
    bytes_before(encode_utf8(left), encode_utf8(right))
}

proof fn lemma_bytes_before_total(left: Seq<u8>, right: Seq<u8>)
    ensures
        left == right ==> !bytes_before(left, right),
        left != right ==> bytes_before(left, right) || bytes_before(right, left),
    decreases left.len(),
{
    if left.len() > 0 && right.len() > 0 && left[0] == right[0] {
        lemma_bytes_before_total(left.skip(1), right.skip(1));
        if left != right && left.skip(1) == right.skip(1) {
            assert(left =~= seq![left[0]] + left.skip(1));
            assert(right =~= seq![right[0]] + right.skip(1));
        }
    } else if left.len() == 0 && right.len() == 0 {
        assert(left =~= right);
    }
}

proof fn lemma_bytes_before_transitive(a: Seq<u8>, b: Seq<u8>, c: Seq<u8>)
    requires
        bytes_before(a, b),
        bytes_before(b, c),
    ensures
        bytes_before(a, c),
    decreases a.len(),
{
    if a.len() > 0 && b.len() > 0 && c.len() > 0 && a[0] == b[0] && b[0] == c[0] {
        lemma_bytes_before_transitive(a.skip(1), b.skip(1), c.skip(1));
    }
}

/// The order of texts is total: of two different texts one comes first, and no
/// text comes before itself.
pub proof fn lemma_text_before_total(left: Seq<char>, right: Seq<char>)
    ensures
        !text_before(left, left),
        left != right ==> text_before(left, right) || text_before(right, left),
{
    lemma_bytes_before_total(encode_utf8(left), encode_utf8(left));
    lemma_bytes_before_total(encode_utf8(left), encode_utf8(right));
    encode_utf8_decode_utf8(left);
    encode_utf8_decode_utf8(right);
}

/// The order of texts is transitive.
pub proof fn lemma_text_before_transitive(a: Seq<char>, b: Seq<char>, c: Seq<char>)
    requires
        text_before(a, b),
        text_before(b, c),
    ensures
        text_before(a, c),
{
    lemma_bytes_before_transitive(encode_utf8(a), encode_utf8(b), encode_utf8(c));
}

/// One text behind the other is encoded as their encodings, one behind the other.
pub proof fn lemma_encoded_sum(left: Seq<char>, right: Seq<char>)
    ensures
        encode_utf8(left + right) == encode_utf8(left) + encode_utf8(right),
    decreases left.len(),
{
    if left.len() == 0 {
        assert(left + right =~= right);
    } else {
        lemma_encoded_sum(left.drop_first(), right);
        assert((left + right).drop_first() =~= left.drop_first() + right);
        assert(encode_utf8(left + right) =~= encode_utf8(left) + encode_utf8(right));
    }
}

/// A byte that is ASCII stands in the encoding of a text only where the character
/// stands in the text.
pub proof fn lemma_ascii_byte_is_a_character(text: Seq<char>, at: int)
    requires
        0 <= at < encode_utf8(text).len(),
        encode_utf8(text)[at] < 0x80,
    ensures
        text.contains(encode_utf8(text)[at] as char),
{
    let bytes = encode_utf8(text);
    let byte = bytes[at];
    encode_utf8_valid_utf8(text);
    encode_utf8_decode_utf8(text);
    is_char_boundary_iff_not_is_continuation_byte(bytes, at);
    valid_utf8_split(bytes, at);
    decode_utf8_split(bytes, at);
    let behind = bytes.subrange(at, bytes.len() as int);
    let before = decode_utf8(bytes.subrange(0, at));
    assert(behind[0] == byte);
    assert(byte & 0x7f == byte) by (bit_vector)
        requires
            byte < 0x80,
    ;
    assert(decode_utf8(behind)[0] == byte as char);
    assert(text[before.len() as int] == decode_utf8(behind)[0]);
}

/// Whether `left` comes strictly before `right`.
pub fn comes_before(left: &str, right: &str) -> (before: bool)
    ensures
        before == text_before(left@, right@),
{
    let a = left.as_bytes();
    let b = right.as_bytes();
    let mut i: usize = 0;
    proof {
        assert(a@.skip(0) =~= a@);
        assert(b@.skip(0) =~= b@);
    }
    while i < a.len() && i < b.len()
        invariant
            a@ == encode_utf8(left@),
            b@ == encode_utf8(right@),
            i <= a@.len(),
            i <= b@.len(),
            bytes_before(a@, b@) == bytes_before(a@.skip(i as int), b@.skip(i as int)),
        decreases a@.len() - i,
    {
        if a[i] != b[i] {
            return a[i] < b[i];
        }
        proof {
            assert(a@.skip(i as int).skip(1) =~= a@.skip(i + 1));
            assert(b@.skip(i as int).skip(1) =~= b@.skip(i + 1));
        }
        i = i + 1;
    }
    i < b.len()
}

/// Whether `prefix` is a prefix of `whole`.
pub open spec fn is_prefix<T>(prefix: Seq<T>, whole: Seq<T>) -> bool {
    prefix.len() <= whole.len() && whole.subrange(0, prefix.len() as int) == prefix
}

/// Whether `text` starts with `prefix`.
pub fn starts_with(text: &str, prefix: &str) -> (r: bool)
    ensures
        r == is_prefix(prefix@, text@),
{
    let length = prefix.unicode_len();
    if text.unicode_len() < length {
        return false;
    }
    same_text(text.substring_char(0, length), prefix)
}

/// Whether `text` holds the character `wanted`.
pub fn contains_char(text: &str, wanted: char) -> (r: bool)
    ensures
        r == text@.contains(wanted),
{
    match find_char(text, wanted) {
        Some(_) => true,
        None => false,
    }
}

/// The position of the first `wanted` in `text`, counted in characters.
pub fn find_char(text: &str, wanted: char) -> (r: Option<usize>)
    ensures
        match r {
            Some(at) => at < text@.len() && text@[at as int] == wanted && forall|j: int|
                0 <= j < at ==> text@[j] != wanted,
            None => !text@.contains(wanted),
        },
{
    let length = text.unicode_len();
    let mut i: usize = 0;
    for ch in it: text.chars()
        invariant
            i == it.index(),
            it.seq() == text@,
            length == text@.len(),
            forall|j: int| 0 <= j < i ==> text@[j] != wanted,
    {
        if ch == wanted {
            return Some(i);
        }
        i = i + 1;
    }
    None
}

/// The parts written one after the other, with `separator` between them.
pub open spec fn joined(parts: Seq<Seq<char>>, separator: Seq<char>) -> Seq<char>
    decreases parts.len(),
{
    if parts.len() == 0 {
        Seq::empty()
    } else if parts.len() == 1 {
        parts[0]
    } else {
        joined(parts.drop_last(), separator) + separator + parts.last()
    }
}

/// Writes the parts one after the other, with `separator` between them.
pub fn join(parts: &Vec<String>, separator: &str) -> (r: String)
    ensures
        r@ == joined(texts(parts@), separator@),
{
    let mut out = String::new();
    let mut i: usize = 0;
    while i < parts.len()
        invariant
            i <= parts@.len(),
            out@ == joined(texts(parts@).subrange(0, i as int), separator@),
        decreases parts@.len() - i,
    {
        let ghost before = texts(parts@).subrange(0, i as int);
        let ghost after = texts(parts@).subrange(0, i + 1);
        assert(after.drop_last() =~= before);
        assert(after.last() == parts@[i as int]@);
        if i > 0 {
            out.append(separator);
        }
        out.append(parts[i].as_str());
        assert(out@ =~= joined(after, separator@));
        i = i + 1;
    }
    assert(texts(parts@).subrange(0, parts@.len() as int) =~= texts(parts@));
    out
}

/// `left` followed by `right`.
pub fn concat(left: &str, right: &str) -> (r: String)
    ensures
        r@ == left@ + right@,
{
    let mut out = left.to_owned();
    out.append(right);
    out
}

/// `a` followed by `b` and then `c`.
pub fn concat3(a: &str, b: &str, c: &str) -> (r: String)
    ensures
        r@ == a@ + b@ + c@,
{
    let mut out = a.to_owned();
    out.append(b);
    out.append(c);
    out
}

/// The character of a decimal digit.
pub open spec fn digit_char(digit: nat) -> char {
    (('0' as nat) + digit) as char
}

/// A number in decimal notation, without leading zeros.
pub open spec fn decimal(n: nat) -> Seq<char>
    decreases n,
{
    if n < 10 {
        seq![digit_char(n)]
    } else {
        decimal(n / 10).push(digit_char(n % 10))
    }
}

/// Writes a number in decimal notation.
pub fn decimal_text(n: u128) -> (r: String)
    ensures
        r@ == decimal(n as nat),
    decreases n,
{
    let digit = digit_of((n % 10) as u8);
    if n < 10 {
        let mut out = String::new();
        out.push(digit);
        assert(out@ =~= seq![digit]);
        out
    } else {
        let mut out = decimal_text(n / 10);
        out.push(digit);
        out
    }
}

fn digit_of(digit: u8) -> (r: char)
    requires
        digit < 10,
    ensures
        r == digit_char(digit as nat),
{
    (48u8 + digit) as char
}

} // verus!
