//! What holds of texts and of paths, said of their characters and bytes.
use crate::digest::hex_text;
use crate::outside::decimal_value;
use crate::text::{
    before_first_dot, body_start, component_start, decimal_text, digit_char, file_name_of,
    has_suffix, idle_start, is_idle_before, joined_path, parent_of, DOT, SLASH,
};
use vstd::prelude::*;
use vstd::utf8::{encode_utf8, is_ascii_chars, is_ascii_chars_encode_utf8};

verus! {

/// A name that begins with a slash stands for itself. Any other name, whatever
/// slashes are further in, keeps its place in the directory: the path begins
/// with the directory and ends in the whole name, and there is one slash between
/// them, save that the directory may end in one; and the empty directory adds
/// nothing.
pub proof fn law_joined_path_keeps_both(directory: Seq<u8>, name: Seq<u8>)
    ensures
        name.len() > 0 && name[0] == 47u8 ==> joined_path(directory, name) == name,
        !(name.len() > 0 && name[0] == 47u8) ==> {
            let path = joined_path(directory, name);
            &&& directory.is_prefix_of(path)
            &&& name.is_suffix_of(path)
            &&& directory.len() == 0 ==> path == name
            &&& directory.len() > 0 && directory.last() == 47u8 ==> path.len() == directory.len()
                + name.len()
            &&& directory.len() > 0 && directory.last() != 47u8 ==> path.len() == directory.len()
                + 1 + name.len() && path[directory.len() as int] == 47u8
        },
{
    let path = joined_path(directory, name);
    if !(name.len() > 0 && name[0] == 47u8) {
        assert(directory =~= path.subrange(0, directory.len() as int));
        assert(name =~= path.subrange(path.len() - name.len(), path.len() as int));
    }
}

/// Two names that do not begin with a slash have different paths in the same
/// directory.
pub proof fn law_paths_in_a_directory_differ(directory: Seq<u8>, first: Seq<u8>, second: Seq<u8>)
    requires
        !(first.len() > 0 && first[0] == 47u8),
        !(second.len() > 0 && second[0] == 47u8),
        joined_path(directory, first) == joined_path(directory, second),
    ensures
        first == second,
{
    law_joined_path_keeps_both(directory, first);
    law_joined_path_keeps_both(directory, second);
    let path = joined_path(directory, first);
    assert(first =~= path.subrange(path.len() - first.len(), path.len() as int));
    assert(second =~= path.subrange(path.len() - second.len(), path.len() as int));
}

/// A suffix is what the bytes end in.
pub proof fn law_suffix_is_the_end(bytes: Seq<u8>, suffix: Seq<char>)
    ensures
        has_suffix(bytes, suffix) <==> encode_utf8(suffix).is_suffix_of(bytes),
{
    let tail = encode_utf8(suffix);
    if tail.len() <= bytes.len() {
        assert(bytes.skip(bytes.len() - tail.len()) =~= bytes.subrange(
            bytes.len() - tail.len(),
            bytes.len() as int,
        ));
    }
}

/// The stem of a text begins it, holds no dot, and is followed by one or is all
/// of it.
pub proof fn law_stem_ends_at_the_first_dot(text: Seq<char>)
    ensures
        before_first_dot(text).is_prefix_of(text),
        !before_first_dot(text).contains('.'),
        before_first_dot(text) == text || (before_first_dot(text).len() < text.len()
            && text[before_first_dot(text).len() as int] == '.'),
    decreases text.len(),
{
    let stem = before_first_dot(text);
    if text.len() > 0 && text[0] != '.' {
        let rest = text.drop_first();
        let tail = before_first_dot(rest);
        law_stem_ends_at_the_first_dot(rest);
        assert(tail =~= rest.subrange(0, tail.len() as int));
        assert forall|i: int| 0 <= i < stem.len() implies #[trigger] stem[i] == text[i] && stem[i]
            != '.' by {
            if i > 0 {
                assert(stem[i] == tail[i - 1]);
                assert(tail[i - 1] == rest.subrange(0, tail.len() as int)[i - 1]);
                assert(tail.contains(tail[i - 1]));
            }
        }
        if tail == rest {
            assert(stem =~= text);
        } else {
            assert(text[stem.len() as int] == rest[tail.len() as int]);
        }
    }
    assert(stem =~= text.subrange(0, stem.len() as int));
    if text.len() == 0 {
        assert(stem =~= text);
    }
}

/// A number reads back from its decimal text, which is made of digits alone and
/// has no leading zero, save for the number zero.
pub proof fn law_decimal_text_reads_back(number: nat)
    ensures
        decimal_value(decimal_text(number)) == number,
        decimal_text(number).len() > 0,
        forall|i: int|
            0 <= i < decimal_text(number).len() ==> '0' <= #[trigger] decimal_text(number)[i]
                <= '9',
        number > 0 ==> decimal_text(number)[0] != '0',
    decreases number,
{
    let text = decimal_text(number);
    if number < 10 {
        assert(text.drop_last() =~= Seq::<char>::empty());
        assert(decimal_value(text.drop_last()) == 0);
    } else {
        law_decimal_text_reads_back(number / 10);
        assert(text.drop_last() =~= decimal_text(number / 10));
        assert(text[0] == decimal_text(number / 10)[0]);
        assert forall|i: int| 0 <= i < text.len() implies '0' <= #[trigger] text[i] <= '9' by {
            if i < text.len() - 1 {
                assert(text[i] == decimal_text(number / 10)[i]);
            } else {
                assert(text[i] == digit_char(number % 10));
            }
        }
    }
}

/// A further digit makes ten of what was one, and adds its own value.
pub proof fn law_decimal_value_of_one_more_digit(digits: Seq<char>, digit: char)
    requires
        '0' <= digit <= '9',
    ensures
        decimal_value(Seq::empty()) == 0,
        decimal_value(digits.push(digit)) == decimal_value(digits) * 10 + (digit as nat
            - '0' as nat),
{
    assert(digits.push(digit).drop_last() =~= digits);
}

/// Each byte has two hexadecimal digits, the higher one first.
pub proof fn law_hex_text_shows_each_byte(bytes: Seq<u8>)
    ensures
        hex_text(bytes).len() == 2 * bytes.len(),
        forall|i: int|
            0 <= i < bytes.len() ==> hex_text(bytes)[2 * i] == "0123456789abcdef"@[(
            #[trigger] bytes[i]) as int / 16] && hex_text(bytes)[2 * i + 1]
                == "0123456789abcdef"@[bytes[i] as int % 16],
    decreases bytes.len(),
{
    if bytes.len() > 0 {
        let rest = bytes.drop_last();
        law_hex_text_shows_each_byte(rest);
        assert forall|i: int| 0 <= i < bytes.len() implies hex_text(bytes)[2 * i]
            == "0123456789abcdef"@[(#[trigger] bytes[i]) as int / 16] && hex_text(bytes)[2 * i + 1]
            == "0123456789abcdef"@[bytes[i] as int % 16] by {
            if i < rest.len() {
                assert(rest[i] == bytes[i]);
                assert(hex_text(bytes)[2 * i] == hex_text(rest)[2 * i]);
                assert(hex_text(bytes)[2 * i + 1] == hex_text(rest)[2 * i + 1]);
            }
        }
    }
}

/// A name that can be that of a file: it is not empty, holds no slash, and is
/// neither a dot nor two dots.
pub open spec fn is_file_component(name: Seq<u8>) -> bool {
    &&& name.len() > 0
    &&& !name.contains(47u8)
    &&& name != seq![46u8]
    &&& name != seq![46u8, 46u8]
}

proof fn lemma_component_start(path: Seq<u8>, at: int, end: int)
    requires
        body_start(path) <= at <= end <= path.len(),
        at == body_start(path) || path[at - 1] == SLASH,
        forall|i: int| at <= i < end ==> #[trigger] path[i] != SLASH,
    ensures
        component_start(path, end) == at,
    decreases end - at,
{
    if end > at {
        assert(path[end - 1] != SLASH);
        lemma_component_start(path, at, end - 1);
    }
}

/// The last component of a path that ends in a plain name.
proof fn lemma_last_component(path: Seq<u8>, name: Seq<u8>)
    requires
        is_file_component(name) || name == seq![46u8, 46u8],
        name.is_suffix_of(path),
        path.len() == name.len() || path[path.len() - name.len() - 1] == SLASH,
    ensures
        body_start(path) <= path.len() - name.len(),
        idle_start(path, path.len() as int) == path.len(),
        component_start(path, path.len() as int) == path.len() - name.len(),
        path.subrange(path.len() - name.len(), path.len() as int) == name,
{
    let at = path.len() - name.len();
    assert forall|i: int| at <= i < path.len() implies #[trigger] path[i] != SLASH by {
        assert(path[i] == path.subrange(at, path.len() as int)[i - at]);
        assert(path[i] == name[i - at]);
        assert(name.contains(name[i - at]));
    }
    assert(path[path.len() - 1] == path.subrange(at, path.len() as int)[name.len() - 1]);
    if name.len() == 1 {
        assert(name[0] != DOT) by {
            if name[0] == DOT {
                assert(name =~= seq![46u8]);
            }
        }
    } else {
        assert(path[path.len() - 2] == path.subrange(at, path.len() as int)[name.len() - 2]);
    }
    assert(path[at] == path.subrange(at, path.len() as int)[0]);
    if at == 0 && name.len() > 1 {
        assert(path[1] == path.subrange(at, path.len() as int)[1]);
    }
    lemma_component_start(path, at, path.len() as int);
}

/// A plain name is its own file name, in the current directory.
pub proof fn law_plain_name_is_its_own_file_name(name: Seq<u8>)
    requires
        is_file_component(name),
    ensures
        file_name_of(name) == Some(name),
        parent_of(name) == Some(Seq::<u8>::empty()),
{
    assert(name.is_suffix_of(name)) by {
        assert(name =~= name.subrange(0, name.len() as int));
    }
    lemma_last_component(name, name);
    assert(name.take(0) =~= Seq::<u8>::empty());
}

/// Whatever stands before the last slash, a plain name behind it is the file
/// name; and what stands before it is the directory, unless that is empty or
/// ends in a slash or in a dot that is a whole component.
pub proof fn law_file_name_stands_behind_the_last_slash(directory: Seq<u8>, name: Seq<u8>)
    requires
        is_file_component(name),
    ensures
        file_name_of(directory.push(47u8) + name) == Some(name),
        directory.len() == 0 ==> parent_of(directory.push(47u8) + name) == Some(seq![47u8]),
        directory.len() > 0 && directory.last() != 47u8 && !(directory.len() > 1
            && directory.last() == 46u8 && directory[directory.len() - 2] == 47u8) ==> parent_of(
            directory.push(47u8) + name,
        ) == Some(directory),
{
    let path = directory.push(47u8) + name;
    assert(name =~= path.subrange(path.len() - name.len(), path.len() as int));
    lemma_last_component(path, name);
    let at = directory.len() as int + 1;
    if directory.len() == 0 {
        assert(path.take(1) =~= seq![47u8]);
    } else if directory.last() != 47u8 && !(directory.len() > 1 && directory.last() == 46u8
        && directory[directory.len() - 2] == 47u8) {
        assert(path[directory.len() - 1] == directory.last());
        assert(path[0] == directory[0]);
        if directory.len() > 1 {
            assert(path[directory.len() - 2] == directory[directory.len() - 2]);
        }
        assert(is_idle_before(path, at));
        assert(idle_start(path, at) == idle_start(path, directory.len() as int));
        assert(idle_start(path, directory.len() as int) == directory.len());
        assert(path.take(directory.len() as int) =~= directory);
    }
}

/// A path that ends in two dots has no file name.
pub proof fn law_two_dots_are_no_file_name(directory: Seq<u8>)
    ensures
        file_name_of(seq![46u8, 46u8]) is None,
        file_name_of(directory.push(47u8) + seq![46u8, 46u8]) is None,
{
    let dots = seq![46u8, 46u8];
    let path = directory.push(47u8) + dots;
    assert(dots =~= path.subrange(path.len() - 2, path.len() as int));
    lemma_last_component(path, dots);
    assert(dots =~= dots.subrange(0, 2));
    lemma_last_component(dots, dots);
}

proof fn lemma_same_before(first: Seq<u8>, second: Seq<u8>, end: int)
    requires
        0 <= end <= first.len(),
        first.is_prefix_of(second),
        body_start(first) == body_start(second),
    ensures
        idle_start(first, end) == idle_start(second, end),
        component_start(first, end) == component_start(second, end),
        0 <= idle_start(first, end) <= end,
        0 <= component_start(first, end) <= end,
    decreases end,
{
    assert(forall|i: int|
        0 <= i < first.len() ==> #[trigger] first[i] == second.subrange(0, first.len() as int)[i]);
    if end > 0 {
        assert(first[end - 1] == second[end - 1]);
        if end > 1 {
            assert(first[end - 2] == second[end - 2]);
        }
        lemma_same_before(first, second, end - 1);
    }
}

/// A slash at the end of a path, and a slash with a dot, make no difference.
pub proof fn law_idle_ends_make_no_difference(path: Seq<u8>)
    requires
        path.len() > 0,
    ensures
        file_name_of(path.push(47u8)) == file_name_of(path),
        parent_of(path.push(47u8)) == parent_of(path),
        file_name_of(path.push(47u8).push(46u8)) == file_name_of(path),
        parent_of(path.push(47u8).push(46u8)) == parent_of(path),
{
    let slash = path.push(47u8);
    let dot = slash.push(46u8);
    let end = path.len() as int;
    assert(path =~= slash.subrange(0, end));
    assert(path =~= dot.subrange(0, end));
    lemma_same_before(path, slash, end);
    lemma_same_before(path, dot, end);
    let kept = idle_start(path, end);
    lemma_same_before(path, slash, kept);
    lemma_same_before(path, dot, kept);
    let at = component_start(path, kept);
    lemma_same_before(path, slash, at);
    lemma_same_before(path, dot, at);
    assert(idle_start(slash, end + 1) == idle_start(slash, end));
    assert(idle_start(dot, end + 2) == idle_start(dot, end + 1));
    assert(idle_start(dot, end + 1) == idle_start(dot, end));
    assert(slash.subrange(at, kept) =~= path.subrange(at, kept));
    assert(dot.subrange(at, kept) =~= path.subrange(at, kept));
    let held = idle_start(path, at);
    assert(slash.take(held) =~= path.take(held));
    assert(dot.take(held) =~= path.take(held));
}

proof fn lemma_idle_reaches_the_root(path: Seq<u8>, end: int)
    requires
        0 <= end <= path.len(),
        forall|i: int| 0 <= i < path.len() ==> #[trigger] path[i] == SLASH,
    ensures
        idle_start(path, end) <= body_start(path),
    decreases end,
{
    if end > body_start(path) {
        assert(path[end - 1] == SLASH);
        lemma_idle_reaches_the_root(path, end - 1);
    }
}

/// The root, however many slashes it is written with, has no file name and is in
/// no directory; and neither has the empty path, or is.
pub proof fn law_root_is_no_file(path: Seq<u8>)
    requires
        forall|i: int| 0 <= i < path.len() ==> #[trigger] path[i] == 47u8,
    ensures
        file_name_of(path) is None,
        parent_of(path) is None,
{
    lemma_idle_reaches_the_root(path, path.len() as int);
}

/// Another slash, or a dot that is a whole component, makes no difference before
/// the file name either.
pub proof fn law_idle_middles_make_no_difference(directory: Seq<u8>, name: Seq<u8>)
    requires
        directory.len() > 0,
        is_file_component(name),
    ensures
        parent_of(directory.push(47u8).push(47u8) + name) == parent_of(
            directory.push(47u8) + name,
        ),
        parent_of(directory.push(47u8).push(46u8).push(47u8) + name) == parent_of(
            directory.push(47u8) + name,
        ),
{
    let front = directory.push(47u8);
    let end = front.len() as int;
    let once = front + name;
    let twice = directory.push(47u8).push(47u8) + name;
    let dotted = directory.push(47u8).push(46u8).push(47u8) + name;
    assert(front =~= once.subrange(0, end));
    assert(front =~= twice.subrange(0, end));
    assert(front =~= dotted.subrange(0, end));
    assert(name =~= once.subrange(once.len() - name.len(), once.len() as int));
    assert(name =~= twice.subrange(twice.len() - name.len(), twice.len() as int));
    assert(name =~= dotted.subrange(dotted.len() - name.len(), dotted.len() as int));
    lemma_last_component(once, name);
    lemma_last_component(twice, name);
    lemma_last_component(dotted, name);
    assert(once[0] == front[0] && twice[0] == front[0] && dotted[0] == front[0]);
    assert(once[1] == front[1] && twice[1] == front[1] && dotted[1] == front[1]);
    lemma_same_before(front, once, end);
    lemma_same_before(front, twice, end);
    lemma_same_before(front, dotted, end);
    assert(is_idle_before(twice, end + 1));
    assert(is_idle_before(dotted, end + 2));
    assert(is_idle_before(dotted, end + 1));
    assert(idle_start(twice, end + 1) == idle_start(twice, end));
    assert(idle_start(dotted, end + 2) == idle_start(dotted, end + 1));
    assert(idle_start(dotted, end + 1) == idle_start(dotted, end));
    let kept = idle_start(front, end);
    assert(once.take(kept) =~= twice.take(kept));
    assert(once.take(kept) =~= dotted.take(kept));
}

/// A suffix of characters that are one byte each.
pub proof fn lemma_ascii_suffix(bytes: Seq<u8>, suffix: Seq<char>, tail: Seq<u8>)
    requires
        is_ascii_chars(suffix),
        suffix.len() == tail.len(),
        forall|i: int| 0 <= i < suffix.len() ==> #[trigger] suffix[i] as u8 == tail[i],
    ensures
        encode_utf8(suffix) == tail,
        has_suffix(bytes, suffix) <==> tail.is_suffix_of(bytes),
{
    is_ascii_chars_encode_utf8(suffix);
    assert(encode_utf8(suffix) =~= tail);
    law_suffix_is_the_end(bytes, suffix);
}

} // verus!
