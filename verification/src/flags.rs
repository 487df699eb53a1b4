//! Telling arguments apart: compilers, output flags, options that change the
//! configuration.

use vstd::prelude::*;
use vstd::string::*;

use crate::bytes::{
    contains_byte, contents, lowered, ref_contents, same, starts_with, to_ascii_lowercase, AT,
    BACKSLASH, COLON, DASH, LOWER_A, LOWER_Z, SLASH, UPPER_A, UPPER_Z,
};
use crate::parse::{lemma_contains_push, separator};
use crate::paths::{extension, extension_of};
use crate::text::{text_of, to_string_lossy};

verus! {

/// Whether a file name extension, in any case, is one of a C, C++ or
/// Objective-C source or header.
pub open spec fn source_extension(ext: Seq<u8>) -> bool {
    let e = lowered(ext);
    ||| e == "c".spec_bytes()
    ||| e == "cc".spec_bytes()
    ||| e == "cpp".spec_bytes()
    ||| e == "cxx".spec_bytes()
    ||| e == "c++".spec_bytes()
    ||| e == "h".spec_bytes()
    ||| e == "hh".spec_bytes()
    ||| e == "hpp".spec_bytes()
    ||| e == "hxx".spec_bytes()
    ||| e == "h++".spec_bytes()
    ||| e == "m".spec_bytes()
    ||| e == "mm".spec_bytes()
}

/// Whether a text begins with a drive letter and a colon.
pub open spec fn drive_prefix(text: Seq<u8>) -> bool {
    &&& text.len() >= 2
    &&& (UPPER_A <= text[0] <= UPPER_Z || LOWER_A <= text[0] <= LOWER_Z)
    &&& text[1] == COLON
}

/// Whether the first argument behind a separator names a compiler. Flags and
/// response files do not, nor do source files. A path with a backslash or a
/// drive letter does. What begins with `/` does if another `/` follows, as it
/// is a flag otherwise. Any other name does.
pub open spec fn likely_compiler(text: Seq<u8>) -> bool {
    &&& !(text.len() > 0 && (text[0] == DASH || text[0] == AT))
    &&& !(extension_of(text) matches Some(ext) && source_extension(ext))
    &&& {
        ||| text.contains(BACKSLASH)
        ||| drive_prefix(text)
        ||| !(text.len() > 0 && text[0] == SLASH)
        ||| text.skip(1).contains(SLASH)
    }
}

/// Whether the value of an option changes what `--dump-config` prints.
pub open spec fn config_option(text: Seq<u8>) -> bool {
    ||| "--checks".spec_bytes().is_prefix_of(text)
    ||| "-checks".spec_bytes().is_prefix_of(text)
    ||| "--config".spec_bytes().is_prefix_of(text)
    ||| "-config".spec_bytes().is_prefix_of(text)
    ||| "--extra-arg".spec_bytes().is_prefix_of(text)
    ||| "-extra-arg".spec_bytes().is_prefix_of(text)
}

/// Whether a flag names an output file within itself: `-o<file>`, `/Fo`,
/// `/Fe`, `/Fi`, `/Fd`.
pub open spec fn output_flag(text: Seq<u8>) -> bool {
    ||| "-o".spec_bytes().is_prefix_of(text) && text.len() > 2
    ||| "/Fo".spec_bytes().is_prefix_of(text)
    ||| "/Fe".spec_bytes().is_prefix_of(text)
    ||| "/Fi".spec_bytes().is_prefix_of(text)
    ||| "/Fd".spec_bytes().is_prefix_of(text)
}

/// Whether the first argument behind `--` looks like a compiler rather than a
/// flag.
///
/// In `clang-tidy file.cpp -- [compiler] [flags...]` the compiler is optional.
/// When present it is a path like `C:\MSVC\cl.exe` or `/usr/bin/g++`. When
/// absent, the first thing behind `--` is a flag like `-std=c++17` or `/W4`,
/// or a second source file like `b.cpp`.
pub fn is_likely_compiler_path(arg: &str) -> (r: bool)
    ensures
        r == likely_compiler(arg.spec_bytes()),
{
    let text: &[u8] = arg.as_bytes();
    if text.len() > 0 && (text[0] == DASH || text[0] == AT) {
        return false;
    }
    if let Some(ext) = extension(text) {
        let lower: Vec<u8> = to_ascii_lowercase(ext);
        let e: &[u8] = lower.as_slice();
        if same(e, "c".as_bytes()) || same(e, "cc".as_bytes()) || same(e, "cpp".as_bytes()) || same(
            e,
            "cxx".as_bytes(),
        ) || same(e, "c++".as_bytes()) || same(e, "h".as_bytes()) || same(e, "hh".as_bytes())
            || same(e, "hpp".as_bytes()) || same(e, "hxx".as_bytes()) || same(e, "h++".as_bytes())
            || same(e, "m".as_bytes()) || same(e, "mm".as_bytes()) {
            return false;
        }
    }
    if contains_byte(text, BACKSLASH) {
        return true;
    }
    if text.len() >= 2 && ((UPPER_A <= text[0] && text[0] <= UPPER_Z) || (LOWER_A <= text[0] && text[0] <= LOWER_Z))
        && text[1] == COLON {
        return true;
    }
    if text.len() > 0 && text[0] == SLASH {
        let rest: &[u8] = vstd::slice::slice_subrange(text, 1, text.len());
        assert(rest@ == text@.skip(1));
        return contains_byte(rest, SLASH);
    }
    true
}

/// Whether a `clang-tidy` option changes what `--dump-config` prints. The
/// short prefixes take in the long forms: `--config` covers `--config-file`,
/// `--extra-arg` covers `--extra-arg-before`.
pub fn affects_dump_config(arg: &str) -> (r: bool)
    ensures
        r == config_option(arg.spec_bytes()),
{
    let text: &[u8] = arg.as_bytes();
    starts_with(text, "--checks".as_bytes()) || starts_with(text, "-checks".as_bytes())
        || starts_with(text, "--config".as_bytes()) || starts_with(text, "-config".as_bytes())
        || starts_with(text, "--extra-arg".as_bytes()) || starts_with(text, "-extra-arg".as_bytes())
}

/// Whether a flag names an output file within itself. The form `-o <file>` is
/// not meant: there the next argument has to go as well.
pub fn is_concatenated_output_flag(s: &str) -> (r: bool)
    ensures
        r == output_flag(s.spec_bytes()),
{
    let text: &[u8] = s.as_bytes();
    (starts_with(text, "-o".as_bytes()) && text.len() > 2) || starts_with(text, "/Fo".as_bytes())
        || starts_with(text, "/Fe".as_bytes()) || starts_with(text, "/Fi".as_bytes())
        || starts_with(text, "/Fd".as_bytes())
}

/// The arguments before the first separator.
pub open spec fn before_separator(args: Seq<Seq<u8>>) -> Seq<Seq<u8>>
    decreases args.len(),
{
    if args.contains(separator()) {
        before_separator(args.drop_last())
    } else {
        args
    }
}

/// The position of the first separator, or the length of the list where
/// there is none.
pub open spec fn first_separator(args: Seq<Seq<u8>>) -> int {
    before_separator(args).len() as int
}

/// Whether a separator stands in a list and the argument right behind the
/// first one names the compiler: it is no separator itself and looks like a
/// compiler.
pub open spec fn names_compiler(args: Seq<Seq<u8>>) -> bool {
    let first = first_separator(args) + 1;
    &&& first < args.len()
    &&& args[first] != separator()
    &&& likely_compiler(text_of(args[first]))
}

/// The compiler: the argument right behind the first separator, if it names
/// one.
pub open spec fn named_compiler(args: Seq<Seq<u8>>) -> Option<Seq<u8>> {
    if names_compiler(args) {
        Some(args[first_separator(args) + 1])
    } else {
        None
    }
}

/// Arguments without the separators among them.
pub open spec fn without_separators(args: Seq<Seq<u8>>) -> Seq<Seq<u8>> {
    args.filter(|arg: Seq<u8>| arg != separator())
}

/// The arguments behind the first separator, in order, without further
/// separators and without the compiler.
pub open spec fn flags_behind(args: Seq<Seq<u8>>) -> Seq<Seq<u8>> {
    if !args.contains(separator()) {
        Seq::empty()
    } else if names_compiler(args) {
        without_separators(args.skip(first_separator(args) + 2))
    } else {
        without_separators(args.skip(first_separator(args) + 1))
    }
}

/// What stands before the first separator is the front of the list and holds
/// no separator; the separator follows it, if there is one.
pub proof fn lemma_before_separator(args: Seq<Seq<u8>>)
    ensures
        before_separator(args).is_prefix_of(args),
        !before_separator(args).contains(separator()),
        args.contains(separator()) ==> before_separator(args).len() < args.len() && args[
            before_separator(args).len() as int
        ] == separator(),
        !args.contains(separator()) ==> before_separator(args) == args,
    decreases args.len(),
{
    if args.contains(separator()) {
        let shorter = args.drop_last();
        lemma_before_separator(shorter);
        lemma_contains_push(shorter, args.last());
        assert(shorter.push(args.last()) == args);
        assert(before_separator(args) == before_separator(shorter));
        assert(before_separator(args) =~= args.take(before_separator(args).len() as int));
    } else {
        assert(args.take(args.len() as int) == args);
    }
}

/// A list that is cut at a separator, with none before it, has the cut as its
/// first separator.
pub proof fn lemma_cut_at_separator(tidy: Seq<Seq<u8>>, behind: Seq<Seq<u8>>)
    requires
        !tidy.contains(separator()),
    ensures
        (tidy.push(separator()) + behind).contains(separator()),
        before_separator(tidy.push(separator()) + behind) == tidy,
    decreases behind.len(),
{
    let all = tidy.push(separator()) + behind;
    assert(all[tidy.len() as int] == separator());
    if behind.len() == 0 {
        assert(all.drop_last() =~= tidy);
        assert(before_separator(tidy) == tidy);
    } else {
        lemma_cut_at_separator(tidy, behind.drop_last());
        assert(all.drop_last() =~= tidy.push(separator()) + behind.drop_last());
    }
}

/// The model of an optional borrowed byte string.
pub open spec fn optional_ref(bytes: Option<&Vec<u8>>) -> Option<Seq<u8>> {
    match bytes {
        Some(b) => Some(b@),
        None => None,
    }
}

/// Splits arguments at the `--` separator.
///
/// Gives the arguments before the first `--`, the compiler if the first
/// argument behind it looks like one, and the other arguments behind it.
pub fn split_at_double_dash(common_args: &[Vec<u8>]) -> (r: (
    Vec<&Vec<u8>>,
    Option<&Vec<u8>>,
    Vec<&Vec<u8>>,
))
    ensures
        ref_contents(r.0@) == before_separator(contents(common_args@)),
        optional_ref(r.1) == named_compiler(contents(common_args@)),
        ref_contents(r.2@) == flags_behind(contents(common_args@)),
{
    let mut tidy: Vec<&Vec<u8>> = Vec::new();
    let mut compiler_exe: Option<&Vec<u8>> = None;
    let mut flags: Vec<&Vec<u8>> = Vec::new();
    let ghost args = contents(common_args@);

    let mut i: usize = 0;
    while i < common_args.len() && !same(common_args[i].as_slice(), "--".as_bytes())
        invariant
            i <= common_args@.len(),
            args == contents(common_args@),
            ref_contents(tidy@) == args.take(i as int),
            !args.take(i as int).contains(separator()),
        decreases common_args@.len() - i,
    {
        proof {
            assert(args.take(i + 1) == args.take(i as int).push(args[i as int]));
            lemma_contains_push(args.take(i as int), args[i as int]);
        }
        tidy.push(&common_args[i]);
        assert(ref_contents(tidy@) =~= args.take(i + 1));
        i += 1;
    }
    if i == common_args.len() {
        proof {
            assert(args.take(i as int) == args);
            assert(ref_contents(flags@) =~= flags_behind(args));
        }
        return (tidy, None, flags);
    }
    proof {
        assert(args =~= args.take(i as int).push(separator()) + args.skip(i + 1));
        lemma_cut_at_separator(args.take(i as int), args.skip(i + 1));
    }
    let mut start: usize = i + 1;
    if start < common_args.len() && !same(common_args[start].as_slice(), "--".as_bytes()) {
        let lossy: String = to_string_lossy(common_args[start].as_slice());
        if is_likely_compiler_path(lossy.as_str()) {
            compiler_exe = Some(&common_args[start]);
            start += 1;
        }
    }
    assert(ref_contents(flags@) =~= without_separators(
        args.subrange(start as int, start as int),
    )) by {
        reveal(Seq::filter);
    }
    let mut j: usize = start;
    while j < common_args.len()
        invariant
            start <= j <= common_args@.len(),
            args == contents(common_args@),
            ref_contents(flags@) == without_separators(args.subrange(start as int, j as int)),
        decreases common_args@.len() - j,
    {
        let ghost now = args.subrange(start as int, j + 1);
        if !same(common_args[j].as_slice(), "--".as_bytes()) {
            flags.push(&common_args[j]);
        }
        proof {
            reveal(Seq::filter);
            assert(now.drop_last() == args.subrange(start as int, j as int));
            assert(now.last() == args[j as int]);
            assert(ref_contents(flags@) =~= without_separators(now));
        }
        j += 1;
    }
    assert(args.subrange(start as int, j as int) == args.skip(start as int));
    (tidy, compiler_exe, flags)
}

} // verus!
