//! Small operations on byte strings and on text.
use crate::io_setup::optional_bytes;
use vstd::prelude::*;
use vstd::string::{StrSliceExecFns, StringExecFns};
use vstd::utf8::encode_utf8;

verus! {

/// `bytes` ends in the UTF-8 encoding of `suffix`.
pub open spec fn has_suffix(bytes: Seq<u8>, suffix: Seq<char>) -> bool {
    let tail = encode_utf8(suffix);
    tail.len() <= bytes.len() && bytes.skip(bytes.len() - tail.len()) == tail
}

/// The decimal digits of a number, without leading zeros.
pub open spec fn decimal_text(number: nat) -> Seq<char>
    decreases number,
{
    if number < 10 {
        seq![digit_char(number)]
    } else {
        decimal_text(number / 10).push(digit_char(number % 10))
    }
}

/// The character of a decimal digit.
pub open spec fn digit_char(digit: nat) -> char {
    ('0' as nat + digit) as char
}

/// What stands before the first dot of a text, or all of a text without one.
pub open spec fn before_first_dot(text: Seq<char>) -> Seq<char>
    decreases text.len(),
{
    if text.len() == 0 || text[0] == '.' {
        Seq::empty()
    } else {
        seq![text[0]] + before_first_dot(text.drop_first())
    }
}

/// The path that names `name` as seen from the directory `base`, by the path
/// rules of Unix: an absolute name stands for itself, and otherwise one slash
/// separates the two, unless `base` is empty or ends in one.
pub open spec fn joined_path(base: Seq<u8>, name: Seq<u8>) -> Seq<u8> {
    if name.len() > 0 && name[0] == SLASH {
        name
    } else if base.len() == 0 || base.last() == SLASH {
        base + name
    } else {
        base.push(SLASH) + name
    }
}

/// The byte that separates the components of a path.
pub const SLASH: u8 = 47;

/// The byte that, as a whole component of a path, names the directory itself.
pub const DOT: u8 = 46;

/// Where the components of a path begin: behind the root, or behind a dot that
/// is the first component.
pub open spec fn body_start(path: Seq<u8>) -> int {
    if path.len() > 0 && (path[0] == SLASH || (path[0] == DOT && (path.len() == 1 || path[1]
        == SLASH))) {
        1
    } else {
        0
    }
}

/// What stands before `end` counts for nothing at the end of a path: it is a
/// slash, or a dot that is a whole component.
pub open spec fn is_idle_before(path: Seq<u8>, end: int) -> bool {
    path[end - 1] == SLASH || (path[end - 1] == DOT && end >= 2 && path[end - 2] == SLASH)
}

/// The end of a path up to `end`, without what counts for nothing.
pub open spec fn idle_start(path: Seq<u8>, end: int) -> int
    decreases end,
{
    if end <= body_start(path) || !is_idle_before(path, end) {
        end
    } else {
        idle_start(path, end - 1)
    }
}

/// Where the component begins that ends at `end`.
pub open spec fn component_start(path: Seq<u8>, end: int) -> int
    decreases end,
{
    if end <= body_start(path) || path[end - 1] == SLASH {
        end
    } else {
        component_start(path, end - 1)
    }
}

/// The name of the file that a path names, by the path rules of Unix: the last
/// component, unless that is the root, a dot, or the two dots that name the
/// directory above.
pub open spec fn file_name_of(path: Seq<u8>) -> Option<Seq<u8>> {
    let end = idle_start(path, path.len() as int);
    let name = path.subrange(component_start(path, end), end);
    if end <= body_start(path) || name == seq![DOT, DOT] {
        None
    } else {
        Some(name)
    }
}

/// The path without its last component, by the path rules of Unix. The root and
/// the empty path have none; and a sole dot leaves nothing.
pub open spec fn parent_of(path: Seq<u8>) -> Option<Seq<u8>> {
    let end = idle_start(path, path.len() as int);
    if end > body_start(path) {
        Some(path.take(idle_start(path, component_start(path, end))))
    } else if path.len() > 0 && path[0] == DOT {
        Some(Seq::empty())
    } else {
        None
    }
}

pub(crate) fn bytes_equal(a: &[u8], b: &[u8]) -> (same: bool)
    ensures
        same == (a@ == b@),
{
    if a.len() != b.len() {
        return false;
    }
    let mut i: usize = 0;
    while i < a.len()
        invariant
            a@.len() == b@.len(),
            i <= a@.len(),
            forall|j: int| 0 <= j < i ==> a@[j] == b@[j],
        decreases a@.len() - i,
    {
        if a[i] != b[i] {
            return false;
        }
        i = i + 1;
    }
    assert(a@ =~= b@);
    true
}

pub(crate) fn ends_with(bytes: &[u8], suffix: &str) -> (found: bool)
    ensures
        found == has_suffix(bytes@, suffix@),
{
    let tail = suffix.as_bytes();
    if tail.len() > bytes.len() {
        return false;
    }
    let start: usize = bytes.len() - tail.len();
    bytes_equal(vstd::slice::slice_subrange(bytes, start, bytes.len()), tail)
}

pub(crate) fn copy_bytes(bytes: &[u8]) -> (copy: Vec<u8>)
    ensures
        copy@ == bytes@,
{
    vstd::slice::slice_to_vec(bytes)
}

pub(crate) fn append_bytes(target: &mut Vec<u8>, bytes: &[u8])
    ensures
        final(target)@ == old(target)@ + bytes@,
{
    let mut i: usize = 0;
    while i < bytes.len()
        invariant
            i <= bytes@.len(),
            target@ == old(target)@ + bytes@.take(i as int),
        decreases bytes@.len() - i,
    {
        target.push(bytes[i]);
        assert(bytes@.take(i + 1) =~= bytes@.take(i as int).push(bytes@[i as int]));
        i = i + 1;
    }
    assert(bytes@.take(i as int) =~= bytes@);
}

pub(crate) fn append_text(target: &mut Vec<u8>, text: &str)
    ensures
        final(target)@ == old(target)@ + encode_utf8(text@),
{
    append_bytes(target, text.as_bytes());
}

pub(crate) fn text_of(text: &str) -> (result: String)
    ensures
        result@ == text@,
{
    String::from_str(text)
}

pub(crate) fn concat(first: &str, second: &str) -> (result: String)
    ensures
        result@ == first@ + second@,
{
    String::from_str(first).concat(second)
}

pub(crate) fn concat3(first: &str, second: &str, third: &str) -> (result: String)
    ensures
        result@ == first@ + second@ + third@,
{
    String::from_str(first).concat(second).concat(third)
}

/// Writes a number in decimal.
pub(crate) fn decimal(number: usize) -> (text: String)
    ensures
        text@ == decimal_text(number as nat),
    decreases number,
{
    if number < 10 {
        let mut text = String::new();
        append_digit(&mut text, number as u8);
        assert(text@ =~= seq![digit_char(number as nat)]);
        text
    } else {
        let mut text = decimal(number / 10);
        append_digit(&mut text, (number % 10) as u8);
        text
    }
}

fn append_digit(text: &mut String, digit: u8)
    requires
        digit < 10,
    ensures
        final(text)@ == old(text)@.push(digit_char(digit as nat)),
{
    proof {
        reveal_strlit("0");
        reveal_strlit("1");
        reveal_strlit("2");
        reveal_strlit("3");
        reveal_strlit("4");
        reveal_strlit("5");
        reveal_strlit("6");
        reveal_strlit("7");
        reveal_strlit("8");
        reveal_strlit("9");
    }
    let character = match digit {
        0 => "0",
        1 => "1",
        2 => "2",
        3 => "3",
        4 => "4",
        5 => "5",
        6 => "6",
        7 => "7",
        8 => "8",
        _ => "9",
    };
    text.append(character);
    assert(character@ =~= seq![digit_char(digit as nat)]);
}

/// Cuts a text at its first dot.
pub(crate) fn cut_at_dot(text: &str) -> (stem: String)
    ensures
        stem@ == before_first_dot(text@),
{
    let length: usize = text.unicode_len();
    let mut at: usize = 0;
    assert(text@.skip(0) =~= text@);
    assert(text@.take(0) + before_first_dot(text@) =~= before_first_dot(text@));
    while at < length && text.get_char(at) != '.'
        invariant
            at <= length,
            length == text@.len(),
            before_first_dot(text@) == text@.take(at as int) + before_first_dot(
                text@.skip(at as int),
            ),
        decreases length - at,
    {
        proof {
            let rest = text@.skip(at as int);
            assert(rest.drop_first() =~= text@.skip(at + 1));
            assert(text@.take(at + 1) =~= text@.take(at as int) + seq![rest[0]]);
        }
        at = at + 1;
    }
    assert(text@.take(at as int) + Seq::<char>::empty() =~= text@.take(at as int));
    String::from_str(text.substring_char(0, at))
}

/// Joins a directory and a name into one path.
pub(crate) fn join_path(base: &[u8], name: &[u8]) -> (path: Vec<u8>)
    ensures
        path@ == joined_path(base@, name@),
{
    if name.len() > 0 && name[0] == SLASH {
        return copy_bytes(name);
    }
    let mut path: Vec<u8> = copy_bytes(base);
    if base.len() > 0 && base[base.len() - 1] != SLASH {
        path.push(SLASH);
    }
    append_bytes(&mut path, name);
    path
}

/// Finds where the components of a path begin.
fn find_body(path: &[u8]) -> (start: usize)
    ensures
        start == body_start(path@),
        start <= path@.len(),
{
    if path.len() > 0 && (path[0] == SLASH || (path[0] == DOT && (path.len() == 1 || path[1]
        == SLASH))) {
        1
    } else {
        0
    }
}

/// Finds the end of a path up to `end`, without what counts for nothing.
fn find_idle(path: &[u8], end: usize) -> (idle: usize)
    requires
        end <= path@.len(),
    ensures
        idle == idle_start(path@, end as int),
        idle <= end,
{
    let start: usize = find_body(path);
    let mut idle: usize = end;
    while idle > start && (path[idle - 1] == SLASH || (path[idle - 1] == DOT && idle >= 2
        && path[idle - 2] == SLASH))
        invariant
            start == body_start(path@),
            idle <= end <= path@.len(),
            idle_start(path@, end as int) == idle_start(path@, idle as int),
        decreases idle,
    {
        idle = idle - 1;
    }
    idle
}

/// Finds where the component begins that ends at `end`.
fn find_component(path: &[u8], end: usize) -> (at: usize)
    requires
        end <= path@.len(),
    ensures
        at == component_start(path@, end as int),
        at <= end,
{
    let start: usize = find_body(path);
    let mut at: usize = end;
    while at > start && path[at - 1] != SLASH
        invariant
            start == body_start(path@),
            at <= end <= path@.len(),
            component_start(path@, end as int) == component_start(path@, at as int),
        decreases at,
    {
        at = at - 1;
    }
    at
}

/// Finds the file name of a path.
pub(crate) fn file_name(path: &[u8]) -> (name: Option<Vec<u8>>)
    ensures
        optional_bytes(name) == file_name_of(path@),
{
    let end: usize = find_idle(path, path.len());
    if end <= find_body(path) {
        return None;
    }
    let at: usize = find_component(path, end);
    let name = copy_bytes(vstd::slice::slice_subrange(path, at, end));
    if name.len() == 2 && name[0] == DOT && name[1] == DOT {
        assert(name@ =~= seq![DOT, DOT]);
        None
    } else {
        Some(name)
    }
}

/// Finds the path without its last component.
pub(crate) fn parent(path: &[u8]) -> (parent: Option<Vec<u8>>)
    ensures
        optional_bytes(parent) == parent_of(path@),
{
    let end: usize = find_idle(path, path.len());
    if end > find_body(path) {
        let kept: usize = find_idle(path, find_component(path, end));
        let parent = copy_bytes(vstd::slice::slice_subrange(path, 0, kept));
        assert(parent@ =~= path@.take(kept as int));
        Some(parent)
    } else if path.len() > 0 && path[0] == DOT {
        let nothing: Vec<u8> = Vec::new();
        assert(nothing@ =~= Seq::<u8>::empty());
        Some(nothing)
    } else {
        None
    }
}

} // verus!
