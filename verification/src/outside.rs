//! The calls out of the library that Verus takes on trust: one search in
//! `aho_corasick`, and three conversions of the standard library.
use aho_corasick::{AcAutomaton, Automaton};
use vstd::prelude::*;
use vstd::utf8::{decode_utf8, encode_utf8, valid_utf8};

verus! {

/// `needle` stands somewhere in `text`, in one piece.
pub open spec fn occurs_in(needle: Seq<u8>, text: Seq<u8>) -> bool {
    exists|at: int|
        0 <= at && at + needle.len() <= text.len() && #[trigger] text.subrange(
            at,
            at + needle.len(),
        ) == needle
}

/// The text that `String::from_utf8_lossy` makes of a byte string.
pub uninterp spec fn utf8_lossy(bytes: Seq<u8>) -> Seq<char>;

/// The path that `PathBuf::set_extension` makes of a path and an extension,
/// by the path rules of Unix.
pub uninterp spec fn extension_set(path: Seq<char>, extension: Seq<char>) -> Seq<char>;

/// A path that is a single file name, by the path rules of Unix: it is not empty,
/// not one of the two directory shorthands, and holds no slash.
pub open spec fn is_plain_file_name(path: Seq<char>) -> bool {
    &&& path.len() > 0
    &&& path != seq!['.']
    &&& path != seq!['.', '.']
    &&& !path.contains('/')
}

/// A plain file name without an extension: it holds no dot, save perhaps for its
/// first character.
pub open spec fn lacks_extension(name: Seq<char>) -> bool {
    is_plain_file_name(name) && forall|i: int| 0 < i < name.len() ==> #[trigger] name[i] != '.'
}

/// The number that a run of decimal digits stands for.
pub open spec fn decimal_value(digits: Seq<char>) -> nat
    decreases digits.len(),
{
    if digits.len() == 0 {
        0
    } else {
        decimal_value(digits.drop_last()) * 10 + (digits.last() as nat - '0' as nat) as nat
    }
}

/// At least one character, and nothing but decimal digits.
pub open spec fn is_decimal(digits: Seq<char>) -> bool {
    &&& digits.len() > 0
    &&& forall|i: int| 0 <= i < digits.len() ==> '0' <= #[trigger] digits[i] <= '9'
}

/// A number without the plus sign that may stand in front of it.
pub open spec fn without_plus(text: Seq<char>) -> Seq<char> {
    if text.len() > 0 && text[0] == '+' {
        text.drop_first()
    } else {
        text
    }
}

/// A decimal number, with or without a plus sign, that fits in a `usize`.
pub open spec fn reads_as_usize(text: Seq<char>) -> bool {
    is_decimal(without_plus(text)) && decimal_value(without_plus(text)) <= usize::MAX
}

/// The error of a number that could not be read.
#[verifier::external_type_specification]
#[verifier::external_body]
pub struct ExParseIntError(std::num::ParseIntError);

/// Calls `aho_corasick::AcAutomaton::new` on one pattern and then
/// `Automaton::find` on the text: there is a match exactly where the pattern
/// occurs. The automaton leaves an empty pattern out, so the pattern may not be
/// empty.
#[verifier::external_body]
pub(crate) fn automaton_finds(pattern: &str, text: &[u8]) -> (found: bool)
    requires
        pattern@.len() > 0,
    ensures
        found == occurs_in(encode_utf8(pattern@), text@),
{
    AcAutomaton::new(vec![pattern]).find(text).next().is_some()
}

/// Calls `String::from_utf8_lossy`: the text depends on the bytes alone, and
/// bytes that are valid UTF-8 are taken as they are. Which replacement
/// characters stand for invalid bytes is left unsaid.
#[verifier::external_body]
pub(crate) fn from_utf8_lossy(bytes: &[u8]) -> (text: String)
    ensures
        text@ == utf8_lossy(bytes@),
        valid_utf8(bytes@) ==> text@ == decode_utf8(bytes@),
{
    String::from_utf8_lossy(bytes).into_owned()
}

/// Calls `std::path::PathBuf::set_extension`: the new path depends on the path
/// and the extension alone. Of a path that is one plain file name, the part
/// before the last dot is kept and the extension takes the place of what stood
/// behind that dot; without a dot, or with one that is the first character and no
/// other, the extension is put behind the name. What becomes of a path with
/// directories is left unsaid.
#[verifier::external_body]
pub(crate) fn set_extension(path: &str, extension: &str) -> (result: String)
    requires
        extension@.len() > 0,
        !extension@.contains('/'),
        !extension@.contains('\\'),
    ensures
        result@ == extension_set(path@, extension@),
        lacks_extension(path@) ==> result@ == path@ + seq!['.'] + extension@,
        forall|dot: int|
            is_plain_file_name(path@) && 0 < dot < path@.len() && path@[dot] == '.'
                && !#[trigger] path@.skip(dot + 1).contains('.') ==> result@ == path@.take(dot)
                + seq!['.'] + extension@,
{
    let mut buffer = std::path::PathBuf::from(path);
    buffer.set_extension(extension);
    buffer.to_string_lossy().into_owned()
}

/// Calls `usize::from_str_radix` with radix ten: it reads an optional plus sign
/// followed by decimal digits alone, as long as the number fits in a `usize`.
/// Which error stands for a text that it does not read is left unsaid.
#[verifier::external_body]
pub(crate) fn usize_from_decimal(text: &str) -> (number: Result<usize, std::num::ParseIntError>)
    ensures
        number is Ok <==> reads_as_usize(text@),
        number matches Ok(value) ==> value == decimal_value(without_plus(text@)),
{
    usize::from_str_radix(text, 10)
}

} // verus!
