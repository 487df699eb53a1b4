//! What becomes of each argument of a command line.

use vstd::prelude::*;
use vstd::string::*;
use vstd::utf8::*;

use crate::args::{argument_of, Argument};
use crate::bytes::EQUALS;
use crate::command_laws::{law_separator, option_given};
use crate::commands::dump_config_arguments;
use crate::laws::{first_positional, law_config_after_parse, law_config_prefixes, law_handled};
use crate::option_laws::{
    gives, law_flag, law_known, law_value_given, law_value_missing, law_written,
    lemma_name_and_rest, names, takes_none, takes_value,
};
use crate::parse::{
    common_args, compile_flags, first_refused, fixes_file, hash_files, lemma_contains_push,
    lemma_separator_unknown, lemma_source_file_push, output_files, parse_outcome, refused,
    separator, source_file, source_language, tidy_args,
};
use crate::parsed::{ColorMode, CompilerArgumentsView, ParsedView};
use crate::paths::joined;
use crate::text::{lemma_text_of_str, lemma_text_of_valid, lossy_text, text_of};

verus! {

/// Whether an argument is a known option.
pub open spec fn known(arg: Seq<u8>) -> bool {
    argument_of(arg).data() is Some
}

/// A known option stands under one of its names, with a value or without.
#[verifier::spinoff_prover]
proof fn lemma_named(arg: Seq<u8>) -> (value: Seq<u8>)
    requires
        known(arg),
        !takes_none(text_of(arg)),
    ensures
        gives(arg, "--checks", value) || names(arg, "--checks")
        || gives(arg, "-checks", value) || names(arg, "-checks")
        || gives(arg, "--config", value) || names(arg, "--config")
        || gives(arg, "-config", value) || names(arg, "-config")
        || gives(arg, "--config-file", value) || names(arg, "--config-file")
        || gives(arg, "-config-file", value) || names(arg, "-config-file")
        || gives(arg, "--export-fixes", value) || names(arg, "--export-fixes")
        || gives(arg, "-export-fixes", value) || names(arg, "-export-fixes")
        || gives(arg, "--extra-arg", value) || names(arg, "--extra-arg")
        || gives(arg, "-extra-arg", value) || names(arg, "-extra-arg")
        || gives(arg, "--extra-arg-before", value) || names(arg, "--extra-arg-before")
        || gives(arg, "-extra-arg-before", value) || names(arg, "-extra-arg-before")
        || gives(arg, "--header-filter", value) || names(arg, "--header-filter")
        || gives(arg, "-header-filter", value) || names(arg, "-header-filter")
        || gives(arg, "--line-filter", value) || names(arg, "--line-filter")
        || gives(arg, "-line-filter", value) || names(arg, "-line-filter")
        || gives(arg, "--load", value) || names(arg, "--load")
        || gives(arg, "-load", value) || names(arg, "-load")
        || gives(arg, "--system-headers", value) || names(arg, "--system-headers")
        || gives(arg, "-system-headers", value) || names(arg, "-system-headers")
        || gives(arg, "-p", value) || names(arg, "-p"),
{
    let (name, rest) = lemma_name_and_rest(text_of(arg));
    law_known(arg, name, rest);
    if rest.len() == 0 {
        assert(text_of(arg) =~= name);
        rest
    } else {
        let value = rest.skip(1);
        assert(text_of(arg) =~= name.push(EQUALS) + value);
        value
    }
}

/// Caching is ruled out exactly by `fix` and `fix-errors` behind one dash or
/// two, with nothing more, and by `-p`, alone or with `=` and anything.
#[verifier::spinoff_prover]
pub proof fn law_refused(arg: Seq<u8>)
    ensures
        refused(arg) <==> asks_for_fixes(arg) || names(arg, "-p") || exists|value: Seq<u8>|
            gives(arg, "-p", value),
{
    law_flag(arg);
    law_value_missing(arg);
    if exists|value: Seq<u8>| gives(arg, "-p", value) {
        let value = choose|value: Seq<u8>| gives(arg, "-p", value);
        law_value_given(arg, value);
    }
    if refused(arg) && !takes_none(text_of(arg)) {
        let value = lemma_named(arg);
        law_value_given(arg, value);
    }
}

/// Whether an argument has source files changed in place.
pub open spec fn asks_for_fixes(arg: Seq<u8>) -> bool {
    names(arg, "--fix") || names(arg, "-fix") || names(arg, "--fix-errors") || names(
        arg,
        "-fix-errors",
    )
}

proof fn lemma_first_refused(front: Seq<Seq<u8>>, arg: Seq<u8>, rest: Seq<Seq<u8>>)
    requires
        forall|i: int| 0 <= i < front.len() ==> !refused(#[trigger] front[i]),
        refused(arg),
    ensures
        first_refused(front + (seq![arg] + rest)) == Some(arg),
    decreases front.len(),
{
    let all = front + (seq![arg] + rest);
    if front.len() == 0 {
        assert(all[0] == arg);
    } else {
        let shorter = front.drop_first();
        assert forall|i: int| 0 <= i < shorter.len() implies !refused(#[trigger] shorter[i]) by {
            assert(shorter[i] == front[i + 1]);
        }
        lemma_first_refused(shorter, arg, rest);
        assert(all[0] == front[0]);
        assert(all.drop_first() =~= shorter + (seq![arg] + rest));
    }
}

/// The first argument that rules caching out decides what is answered,
/// whatever comes before and behind it.
#[verifier::spinoff_prover]
pub proof fn law_refusal(front: Seq<Seq<u8>>, arg: Seq<u8>, rest: Seq<Seq<u8>>, cwd: Seq<u8>)
    requires
        forall|i: int| 0 <= i < front.len() ==> !refused(#[trigger] front[i]),
    ensures
        asks_for_fixes(arg) ==> parse_outcome(front + (seq![arg] + rest), cwd)
            == CompilerArgumentsView::<ParsedView>::CannotCache(
            "-fix"@,
            Some("clang-tidy -fix modifies source files"@),
        ),
        names(arg, "-p") || (exists|value: Seq<u8>| gives(arg, "-p", value)) ==> parse_outcome(
            front + (seq![arg] + rest),
            cwd,
        ) == CompilerArgumentsView::<ParsedView>::CannotCache(
            "-p"@,
            Some("compile_commands.json not supported in POC"@),
        ),
{
    law_refused(arg);
    law_flag(arg);
    law_value_missing(arg);
    if refused(arg) {
        lemma_first_refused(front, arg, rest);
    }
    if exists|value: Seq<u8>| gives(arg, "-p", value) {
        let value = choose|value: Seq<u8>| gives(arg, "-p", value);
        law_value_given(arg, value);
    }
}

/// Where nothing rules caching out and no positional argument stands before
/// the separator, the answer is that there is no source file.
pub proof fn law_no_source(args: Seq<Seq<u8>>, cwd: Seq<u8>)
    requires
        forall|i: int| 0 <= i < args.len() ==> !refused(#[trigger] args[i]),
        forall|i: int| !#[trigger] first_positional(args, i),
    ensures
        parse_outcome(args, cwd) == CompilerArgumentsView::<ParsedView>::CannotCache(
            "no source file"@,
            Some("No source file specified"@),
        ),
{
    law_handled(args, cwd);
    lemma_none_refused(args);
}

proof fn lemma_none_refused(args: Seq<Seq<u8>>)
    requires
        forall|i: int| 0 <= i < args.len() ==> !refused(#[trigger] args[i]),
    ensures
        first_refused(args) is None,
    decreases args.len(),
{
    if args.len() > 0 {
        let rest = args.drop_first();
        assert forall|i: int| 0 <= i < rest.len() implies !refused(#[trigger] rest[i]) by {
            assert(rest[i] == args[i + 1]);
        }
        lemma_none_refused(rest);
        assert(!refused(args[0]));
    }
}

/// An argument behind a separator that is no known option is a compile flag,
/// behind those before it, and changes nothing else; so it is with every
/// `-std=`, `-D` and `-I`. A known option is an argument of `clang-tidy`
/// wherever it stands. A separator is neither.
#[verifier::spinoff_prover]
pub proof fn law_side(args: Seq<Seq<u8>>, arg: Seq<u8>)
    ensures
        args.contains(separator()) && arg != separator() && !known(arg) ==> compile_flags(
            args.push(arg),
        ) == compile_flags(args).push(arg) && tidy_args(args.push(arg)) == tidy_args(args),
        known(arg) ==> tidy_args(args.push(arg)) == tidy_args(args).push(
            argument_of(arg).written(),
        ) && compile_flags(args.push(arg)) == compile_flags(args),
        arg == separator() ==> tidy_args(args.push(arg)) == tidy_args(args) && compile_flags(
            args.push(arg),
        ) == compile_flags(args),
{
    let all = args.push(arg);
    lemma_separator_unknown();
    lemma_contains_push(args, arg);
    assert(all.drop_last() =~= args);
    assert(all.last() == arg);
}

/// Before a separator, an argument that is no known option is an argument of
/// `clang-tidy`, except for the first positional one, which is the source
/// file.
#[verifier::spinoff_prover]
proof fn lemma_side_front(args: Seq<Seq<u8>>, arg: Seq<u8>)
    requires
        !args.contains(separator()),
        arg != separator(),
    ensures
        !args.push(arg).contains(separator()),
        compile_flags(args.push(arg)) == compile_flags(args),
        argument_of(arg) is Raw && source_file(args) is None ==> tidy_args(args.push(arg))
            == tidy_args(args) && source_file(args.push(arg)) == Some(arg),
        !(argument_of(arg) is Raw && source_file(args) is None) ==> tidy_args(args.push(arg))
            == tidy_args(args).push(argument_of(arg).written()) && source_file(args.push(arg))
            == source_file(args),
{
    let all = args.push(arg);
    lemma_contains_push(args, arg);
    lemma_source_file_push(args, arg);
    assert(all.drop_last() =~= args);
    assert(all.last() == arg);
}

/// Arguments as they are written out again.
pub open spec fn written_out(args: Seq<Seq<u8>>) -> Seq<Seq<u8>> {
    args.map_values(|arg: Seq<u8>| argument_of(arg).written())
}

/// Whether no argument of a list is a separator or positional.
pub open spec fn options_only(args: Seq<Seq<u8>>) -> bool {
    forall|i: int|
        0 <= i < args.len() ==> #[trigger] args[i] != separator() && !(argument_of(
            args[i],
        ) is Raw)
}

proof fn lemma_options_only(args: Seq<Seq<u8>>)
    requires
        options_only(args),
    ensures
        !args.contains(separator()),
        source_file(args) is None,
        tidy_args(args) == written_out(args),
        compile_flags(args) == Seq::<Seq<u8>>::empty(),
    decreases args.len(),
{
    if args.len() > 0 {
        let earlier = args.drop_last();
        let arg = args.last();
        assert(arg == args[args.len() - 1]);
        assert forall|i: int| 0 <= i < earlier.len() implies #[trigger] earlier[i] != separator()
            && !(argument_of(earlier[i]) is Raw) by {
            assert(earlier[i] == args[i]);
        }
        lemma_options_only(earlier);
        lemma_side_front(earlier, arg);
        assert(args =~= earlier.push(arg));
        assert(written_out(args) =~= written_out(earlier).push(argument_of(arg).written()));
    } else {
        assert(written_out(args) =~= Seq::<Seq<u8>>::empty());
    }
}

/// A command line without a separator: the options in front of the source
/// file and everything behind it are the arguments of `clang-tidy`, in order.
#[verifier::spinoff_prover]
pub proof fn law_front(options: Seq<Seq<u8>>, source: Seq<u8>, others: Seq<Seq<u8>>)
    requires
        options_only(options),
        argument_of(source) is Raw,
        !others.contains(separator()),
    ensures
        !(options.push(source) + others).contains(separator()),
        source_file(options.push(source) + others) == Some(source),
        tidy_args(options.push(source) + others) == written_out(options) + written_out(others),
        compile_flags(options.push(source) + others) == Seq::<Seq<u8>>::empty(),
    decreases others.len(),
{
    let all = options.push(source) + others;
    lemma_separator_unknown();
    if others.len() == 0 {
        assert(all =~= options.push(source));
        lemma_options_only(options);
        lemma_side_front(options, source);
        assert(written_out(options) + written_out(others) =~= written_out(options));
    } else {
        let earlier = others.drop_last();
        let arg = others.last();
        assert(others =~= earlier.push(arg));
        lemma_contains_push(earlier, arg);
        law_front(options, source, earlier);
        lemma_side_front(options.push(source) + earlier, arg);
        assert(all =~= (options.push(source) + earlier).push(arg));
        assert(written_out(options) + written_out(others) =~= (written_out(options) + written_out(
            earlier,
        )).push(argument_of(arg).written()));
    }
}

/// The known options of a list, written out.
pub open spec fn options_of(args: Seq<Seq<u8>>) -> Seq<Seq<u8>> {
    written_out(args.filter(|arg: Seq<u8>| known(arg)))
}

/// What else a list holds, without separators.
pub open spec fn flags_of(args: Seq<Seq<u8>>) -> Seq<Seq<u8>> {
    args.filter(|arg: Seq<u8>| !known(arg) && arg != separator())
}

/// A separator and what follows it add the known options among that to the
/// arguments of `clang-tidy`; all else among it, separators aside, becomes
/// compile flags, in order and byte for byte. The source file stays.
pub proof fn law_back(front: Seq<Seq<u8>>, behind: Seq<Seq<u8>>)
    requires
        !front.contains(separator()),
    ensures
        (front.push(separator()) + behind).contains(separator()),
        source_file(front.push(separator()) + behind) == source_file(front),
        tidy_args(front.push(separator()) + behind) == tidy_args(front) + options_of(behind),
        compile_flags(front.push(separator()) + behind) == compile_flags(front) + flags_of(behind),
    decreases behind.len(),
{
    reveal(Seq::filter);
    let all = front.push(separator()) + behind;
    lemma_separator_unknown();
    if behind.len() == 0 {
        assert(all =~= front.push(separator()));
        law_side(front, separator());
        lemma_contains_push(front, separator());
        lemma_source_file_push(front, separator());
        assert(options_of(behind) =~= Seq::<Seq<u8>>::empty());
        assert(tidy_args(front) + options_of(behind) =~= tidy_args(front));
        assert(compile_flags(front) + flags_of(behind) =~= compile_flags(front));
    } else {
        let earlier = behind.drop_last();
        let arg = behind.last();
        let shorter = front.push(separator()) + earlier;
        law_back(front, earlier);
        law_side(shorter, arg);
        lemma_contains_push(shorter, arg);
        lemma_source_file_push(shorter, arg);
        assert(all =~= shorter.push(arg));
        let is_known = |arg: Seq<u8>| known(arg);
        if known(arg) {
            assert(behind.filter(is_known) =~= earlier.filter(is_known).push(arg));
            assert(options_of(behind) =~= options_of(earlier).push(argument_of(arg).written()));
            assert(tidy_args(front) + options_of(behind) =~= (tidy_args(front) + options_of(
                earlier,
            )).push(argument_of(arg).written()));
        } else {
            assert(behind.filter(is_known) =~= earlier.filter(is_known));
            if arg != separator() {
                assert(flags_of(behind) =~= flags_of(earlier).push(arg));
                assert(compile_flags(front) + flags_of(behind) =~= (compile_flags(front)
                    + flags_of(earlier)).push(arg));
            }
        }
    }
}

/// An argument behind the separator whose name is none of the options is a
/// compile flag where it stood among the others, and is not among the
/// arguments of `clang-tidy`. So it is with every `-std=`, `-D` and `-I`.
#[verifier::spinoff_prover]
pub proof fn law_compile_flag_kept(
    front: Seq<Seq<u8>>,
    before: Seq<Seq<u8>>,
    arg: Seq<u8>,
    after: Seq<Seq<u8>>,
    name: Seq<u8>,
    rest: Seq<u8>,
)
    requires
        !front.contains(separator()),
        arg != separator(),
        text_of(arg) == name + rest,
        !name.contains(EQUALS),
        rest.len() > 0 ==> rest[0] == EQUALS,
        !takes_value(name),
        !takes_none(text_of(arg)),
    ensures
        compile_flags(front.push(separator()) + (before + seq![arg] + after)) == compile_flags(
            front,
        ) + flags_of(before) + seq![arg] + flags_of(after),
        tidy_args(front.push(separator()) + (before + seq![arg] + after)) == tidy_args(front)
            + options_of(before) + options_of(after),
{
    let behind = before + seq![arg] + after;
    let is_known = |arg: Seq<u8>| known(arg);
    let is_flag = |arg: Seq<u8>| !known(arg) && arg != separator();
    law_known(arg, name, rest);
    law_back(front, behind);
    Seq::filter_distributes_over_add(before + seq![arg], after, is_known);
    Seq::filter_distributes_over_add(before, seq![arg], is_known);
    Seq::filter_distributes_over_add(before + seq![arg], after, is_flag);
    Seq::filter_distributes_over_add(before, seq![arg], is_flag);
    let one = seq![arg];
    assert(one.filter(is_known) =~= Seq::<Seq<u8>>::empty() && one.filter(is_flag) =~= one) by {
        reveal_with_fuel(Seq::filter, 2);
        assert(one.drop_last() =~= Seq::<Seq<u8>>::empty());
        assert(one.last() == arg);
        assert(Seq::<Seq<u8>>::empty().push(arg) =~= one);
    }
    assert(options_of(behind) =~= options_of(before) + options_of(after));
    assert(tidy_args(front) + options_of(behind) =~= tidy_args(front) + options_of(before)
        + options_of(after));
    assert(compile_flags(front) + flags_of(behind) =~= compile_flags(front) + flags_of(before)
        + seq![arg] + flags_of(after));
}

/// What is kept of a command line: the arguments of `clang-tidy`, then, if
/// there are compile flags, one separator and the flags.
#[verifier::spinoff_prover]
pub proof fn law_kept(
    options: Seq<Seq<u8>>,
    source: Seq<u8>,
    others: Seq<Seq<u8>>,
    behind: Seq<Seq<u8>>,
)
    requires
        options_only(options),
        argument_of(source) is Raw,
        !others.contains(separator()),
    ensures
        common_args(options.push(source) + others) == written_out(options) + written_out(others),
        flags_of(behind).len() == 0 ==> common_args(
            (options.push(source) + others).push(separator()) + behind,
        ) == written_out(options) + written_out(others) + options_of(behind),
        flags_of(behind).len() > 0 ==> common_args(
            (options.push(source) + others).push(separator()) + behind,
        ) == written_out(options) + written_out(others) + options_of(behind) + seq![seq![45u8, 45]]
            + flags_of(behind),
{
    let front = options.push(source) + others;
    law_front(options, source, others);
    law_back(front, behind);
    law_separator();
    assert(Seq::<Seq<u8>>::empty() + flags_of(behind) =~= flags_of(behind));
    let tidy = written_out(options) + written_out(others) + options_of(behind);
    assert(tidy.push(separator()) =~= tidy + seq![seq![45u8, 45]]);
}

/// The record of a command line that is handled: its source file, the
/// language of that file, what is kept, the files to hash, the files written,
/// and nothing else. It says that the preprocessor cache is not for it.
pub proof fn law_record(args: Seq<Seq<u8>>, cwd: Seq<u8>)
    ensures
        parse_outcome(args, cwd) matches CompilerArgumentsView::Parsed(p) ==> {
            &&& source_file(args) == Some(p.input)
            &&& p.language == source_language(p.input)
            &&& p.common_args == common_args(args)
            &&& p.extra_hash_files == hash_files(args, cwd)
            &&& p.outputs == output_files(args)
            &&& !p.double_dash_input
            &&& p.compilation_flag.len() == 0
            &&& p.depfile is None
            &&& p.dependency_args.len() == 0
            &&& p.preprocessor_args.len() == 0
            &&& p.arch_args.len() == 0
            &&& p.unhashed_args.len() == 0
            &&& p.extra_dist_files.len() == 0
            &&& !p.msvc_show_includes
            &&& !p.profile_generate
            &&& p.color_mode == ColorMode::Auto
            &&& p.suppress_rewrite_includes_only
            &&& p.too_hard_for_preprocessor_cache_mode == Some("clang-tidy".spec_bytes())
        },
{
}

/// A command line that nothing rules out is handled, from its arguments to
/// its record: the options in front, the source file, the other arguments
/// and, behind a separator, options and compile flags.
#[verifier::spinoff_prover]
pub proof fn law_command_line(
    options: Seq<Seq<u8>>,
    source: Seq<u8>,
    others: Seq<Seq<u8>>,
    behind: Seq<Seq<u8>>,
    cwd: Seq<u8>,
)
    requires
        options_only(options),
        argument_of(source) is Raw,
        !others.contains(separator()),
        flags_of(behind).len() > 0,
        forall|i: int| 0 <= i < options.len() ==> !refused(#[trigger] options[i]),
        forall|i: int| 0 <= i < others.len() ==> !refused(#[trigger] others[i]),
        forall|i: int| 0 <= i < behind.len() ==> !refused(#[trigger] behind[i]),
    ensures
        parse_outcome((options.push(source) + others).push(separator()) + behind, cwd)
            matches CompilerArgumentsView::Parsed(p) && p.input == source && p.common_args
            == written_out(options) + written_out(others) + options_of(behind) + seq![
            seq![45u8, 45],
        ] + flags_of(behind),
{
    let front = options.push(source) + others;
    let args = front.push(separator()) + behind;
    law_kept(options, source, others, behind);
    law_front(options, source, others);
    law_back(front, behind);
    lemma_separator_unknown();
    assert forall|i: int| 0 <= i < args.len() implies !refused(#[trigger] args[i]) by {
        if i < options.len() {
            assert(args[i] == options[i]);
        } else if i == options.len() {
            assert(args[i] == source);
        } else if i < front.len() {
            assert(args[i] == others[i - options.len() - 1]);
        } else if i == front.len() {
            assert(args[i] == separator());
        } else {
            assert(args[i] == behind[i - front.len() - 1]);
        }
    }
    lemma_none_refused(args);
}

/// Every plugin and every configuration file that an option names is hashed,
/// behind those named before it, as seen from the working directory; no other
/// argument adds a file.
#[verifier::spinoff_prover]
pub proof fn law_hash_files(args: Seq<Seq<u8>>, arg: Seq<u8>, path: Seq<u8>, cwd: Seq<u8>)
    ensures
        hash_files(Seq::empty(), cwd).len() == 0,
        gives(arg, "--load", path) || gives(arg, "-load", path) || gives(arg, "--config-file", path)
            || gives(arg, "-config-file", path) ==> hash_files(args.push(arg), cwd) == hash_files(
            args,
            cwd,
        ).push(joined(cwd, path)),
        names(arg, "--load") || names(arg, "-load") || names(arg, "--config-file") || names(
            arg,
            "-config-file",
        ) ==> hash_files(args.push(arg), cwd) == hash_files(args, cwd).push(
            joined(cwd, Seq::empty()),
        ),
        !option_given(arg, "--load", "-load") && !option_given(
            arg,
            "--config-file",
            "-config-file",
        ) ==> hash_files(args.push(arg), cwd) == hash_files(args, cwd),
{
    assert(args.push(arg).drop_last() =~= args);
    assert(args.push(arg).last() == arg);
    law_value_given(arg, path);
    law_value_missing(arg);
    law_flag(arg);
    if known(arg) && !takes_none(text_of(arg)) {
        let value = lemma_named(arg);
        law_value_given(arg, value);
    }
}

/// Fixes are exported to the file that the last such option names; no other
/// argument has a part in it.
#[verifier::spinoff_prover]
pub proof fn law_fixes_file(args: Seq<Seq<u8>>, arg: Seq<u8>, path: Seq<u8>)
    ensures
        fixes_file(Seq::empty()) is None,
        gives(arg, "--export-fixes", path) || gives(arg, "-export-fixes", path) ==> fixes_file(
            args.push(arg),
        ) == Some(path),
        names(arg, "--export-fixes") || names(arg, "-export-fixes") ==> fixes_file(args.push(arg))
            == Some(Seq::<u8>::empty()),
        !option_given(arg, "--export-fixes", "-export-fixes") ==> fixes_file(args.push(arg))
            == fixes_file(args),
{
    assert(args.push(arg).drop_last() =~= args);
    assert(args.push(arg).last() == arg);
    law_value_given(arg, path);
    law_value_missing(arg);
    law_flag(arg);
    if known(arg) && !takes_none(text_of(arg)) {
        let value = lemma_named(arg);
        law_value_given(arg, value);
    }
}

/// The one file that a run may write is that of the exported fixes. It may be
/// missing.
pub proof fn law_output_files(args: Seq<Seq<u8>>, role: Seq<char>)
    ensures
        output_files(args).contains_key(role) <==> fixes_file(args) is Some && role == "fixes"@,
        fixes_file(args) matches Some(path) ==> output_files(args)["fixes"@].path == path
            && output_files(args)["fixes"@].optional,
{
}

/// Every option that says which checks are made, how they are configured or
/// which compile flags come on top, in either spelling and with any value,
/// wherever it stands, is handed to the run that prints the configuration.
#[verifier::spinoff_prover]
pub proof fn law_config_reaches_dump(args: Seq<Seq<u8>>, i: int, input: Seq<u8>)
    requires
        0 <= i < args.len(),
        option_given(args[i], "--checks", "-checks")
            || option_given(args[i], "--config", "-config")
            || option_given(args[i], "--config-file", "-config-file")
            || option_given(args[i], "--extra-arg", "-extra-arg")
            || option_given(args[i], "--extra-arg-before", "-extra-arg-before"),
    ensures
        dump_config_arguments(common_args(args), input).contains(argument_of(args[i]).written()),
{
    let arg = args[i];
    let w = argument_of(arg).written();
    law_config_after_parse(args, input);
    law_value_missing(arg);
    if exists|value: Seq<u8>| gives(arg, "--checks", value) {
        let value = choose|value: Seq<u8>| gives(arg, "--checks", value);
        law_value_given(arg, value);
    }
    if exists|value: Seq<u8>| gives(arg, "-checks", value) {
        let value = choose|value: Seq<u8>| gives(arg, "-checks", value);
        law_value_given(arg, value);
    }
    if exists|value: Seq<u8>| gives(arg, "--config", value) {
        let value = choose|value: Seq<u8>| gives(arg, "--config", value);
        law_value_given(arg, value);
    }
    if exists|value: Seq<u8>| gives(arg, "-config", value) {
        let value = choose|value: Seq<u8>| gives(arg, "-config", value);
        law_value_given(arg, value);
    }
    if exists|value: Seq<u8>| gives(arg, "--config-file", value) {
        let value = choose|value: Seq<u8>| gives(arg, "--config-file", value);
        law_value_given(arg, value);
    }
    if exists|value: Seq<u8>| gives(arg, "-config-file", value) {
        let value = choose|value: Seq<u8>| gives(arg, "-config-file", value);
        law_value_given(arg, value);
    }
    if exists|value: Seq<u8>| gives(arg, "--extra-arg", value) {
        let value = choose|value: Seq<u8>| gives(arg, "--extra-arg", value);
        law_value_given(arg, value);
    }
    if exists|value: Seq<u8>| gives(arg, "-extra-arg", value) {
        let value = choose|value: Seq<u8>| gives(arg, "-extra-arg", value);
        law_value_given(arg, value);
    }
    if exists|value: Seq<u8>| gives(arg, "--extra-arg-before", value) {
        let value = choose|value: Seq<u8>| gives(arg, "--extra-arg-before", value);
        law_value_given(arg, value);
    }
    if exists|value: Seq<u8>| gives(arg, "-extra-arg-before", value) {
        let value = choose|value: Seq<u8>| gives(arg, "-extra-arg-before", value);
        law_value_given(arg, value);
    }
    assert(known(arg));
    law_written(arg);
    encode_utf8_valid_utf8(lossy_text(arg));
    lemma_text_of_valid(text_of(arg));
    lemma_written_name(argument_of(arg), text_of(arg), "--checks");
    lemma_written_name(argument_of(arg), text_of(arg), "-checks");
    lemma_written_name(argument_of(arg), text_of(arg), "--config");
    lemma_written_name(argument_of(arg), text_of(arg), "-config");
    lemma_written_name(argument_of(arg), text_of(arg), "--config-file");
    lemma_written_name(argument_of(arg), text_of(arg), "-config-file");
    lemma_written_name(argument_of(arg), text_of(arg), "--extra-arg");
    lemma_written_name(argument_of(arg), text_of(arg), "-extra-arg");
    lemma_written_name(argument_of(arg), text_of(arg), "--extra-arg-before");
    lemma_written_name(argument_of(arg), text_of(arg), "-extra-arg-before");
    law_config_prefixes(text_of(w));
}

/// A known option with a value is written out with its name in front.
proof fn lemma_written_name(argument: Argument<Seq<u8>>, text: Seq<u8>, name: &str)
    requires
        text_of(text) == text,
    ensures
        argument is WithValue && argument->WithValue_0 == name.spec_bytes() && (argument.written()
            == text || argument.written() == name.spec_bytes())
            ==> name.spec_bytes().is_prefix_of(text_of(argument.written())),
{
    lemma_text_of_str(name);
    let n = name.spec_bytes();
    if argument is WithValue && argument->WithValue_0 == n {
        assert(n =~= argument.written().subrange(0, n.len() as int));
    }
}

} // verus!
