//! What holds of the library as a whole.

use vstd::prelude::*;
use vstd::string::*;
use vstd::utf8::*;

use crate::bytes::{
    last_index, lemma_last_index_bounds, lower, lowered, AT, BACKSLASH, DASH, DOT, EQUALS, LOWER_A,
    LOWER_Z, SLASH, UPPER_A, UPPER_Z,
};
use crate::args::{
    argument_of, lemma_option_names, name_len, option_name, option_value, value_option, Argument,
};
use crate::commands::{
    compile_only, dump_config_arguments, from_separator, output_operand, preprocess_flags,
    without_outputs,
};
use crate::compile::tidy_run_arguments;
use crate::flags::{
    before_separator, config_option, flags_behind, lemma_before_separator, lemma_cut_at_separator,
    likely_compiler, named_compiler, names_compiler, output_flag, source_extension,
    without_separators,
};
use crate::parse::{
    common_args, compile_flags, first_refused, fixes_file, hash_files, hashed_file, lemma_contains_push,
    lemma_separator_no_option, lemma_separator_unknown, lemma_source_file_push, parse_outcome, refused, separator, source_file, tidy_args,
};
use crate::paths::{extension_of, last_component};
use crate::run::{hashed_text, merged, OutputView};
use crate::text::{lemma_text_of_valid, lossy_text, text_of};

verus! {

/// Moving the error output behind the standard output loses nothing of
/// either, leaves no error output and keeps the status; doing it again
/// changes nothing.
pub proof fn law_merge(output: OutputView)
    ensures
        merged(output).status == output.status,
        merged(output).stderr.len() == 0,
        output.stdout.is_prefix_of(merged(output).stdout),
        output.stderr.is_suffix_of(merged(output).stdout),
        merged(merged(output)) == merged(output),
{
    let m = merged(output);
    assert(output.stdout =~= m.stdout.take(output.stdout.len() as int));
    assert(output.stderr =~= m.stdout.skip(m.stdout.len() - output.stderr.len()));
}

/// Of the configuration, the preprocessed source and the error output of the
/// preprocessor, each alone makes a difference to what is hashed. A source
/// that stops compiling is therefore told apart from one that compiles to the
/// same text, and two different errors are told apart.
pub proof fn law_hashed_text_distinct(
    config1: Seq<u8>,
    config2: Seq<u8>,
    source1: Seq<u8>,
    source2: Seq<u8>,
    errors1: Seq<u8>,
    errors2: Seq<u8>,
)
    ensures
        config1 != config2 ==> hashed_text(config1, source1, errors1) != hashed_text(
            config2,
            source1,
            errors1,
        ),
        source1 != source2 ==> hashed_text(config1, source1, errors1) != hashed_text(
            config1,
            source2,
            errors1,
        ),
        errors1 != errors2 ==> hashed_text(config1, source1, errors1) != hashed_text(
            config1,
            source1,
            errors2,
        ),
{
    let mark = "\n---PREPROCESSED---\n".spec_bytes();
    let stderr_mark = "\n---PREPROCESSOR-STDERR---\n".spec_bytes();
    let tail = if errors1.len() == 0 {
        Seq::empty()
    } else {
        stderr_mark + errors1
    };
    assert(hashed_text(config1, source1, errors1) =~= config1 + (mark + source1 + tail));
    assert(hashed_text(config2, source1, errors1) =~= config2 + (mark + source1 + tail));
    lemma_append_distinct(config1, config2, mark + source1 + tail);
    assert(hashed_text(config1, source1, errors1) =~= (config1 + mark) + source1 + tail);
    assert(hashed_text(config1, source2, errors1) =~= (config1 + mark) + source2 + tail);
    lemma_append_distinct(
        (config1 + mark) + source1,
        (config1 + mark) + source2,
        tail,
    );
    lemma_prepend_distinct(config1 + mark, source1, source2);
    let text = config1 + mark + source1;
    if errors1.len() > 0 && errors2.len() > 0 {
        lemma_prepend_distinct(text + stderr_mark, errors1, errors2);
    } else if errors1.len() > 0 {
        assert(hashed_text(config1, source1, errors1).len() > text.len());
        assert(hashed_text(config1, source1, errors2) == text);
    } else if errors2.len() > 0 {
        assert(hashed_text(config1, source1, errors2).len() > text.len());
        assert(hashed_text(config1, source1, errors1) == text);
    } else {
        assert(errors1 =~= errors2);
    }
}

proof fn lemma_append_distinct(a: Seq<u8>, b: Seq<u8>, tail: Seq<u8>)
    ensures
        a != b ==> a + tail != b + tail,
{
    if a + tail == b + tail {
        assert((a + tail).len() == (b + tail).len());
        assert(a =~= (a + tail).take(a.len() as int));
        assert(b =~= (b + tail).take(b.len() as int));
    }
}

proof fn lemma_prepend_distinct(head: Seq<u8>, a: Seq<u8>, b: Seq<u8>)
    ensures
        a != b ==> head + a != head + b,
{
    if head + a == head + b {
        assert((head + a).len() == (head + b).len());
        assert(a =~= (head + a).skip(head.len() as int));
        assert(b =~= (head + b).skip(head.len() as int));
    }
}

/// The short prefixes take in the long forms: whatever begins with
/// `--config-file` or `--extra-arg-before`, in either spelling, bears on the
/// configuration.
pub proof fn law_config_prefixes(text: Seq<u8>)
    ensures
        "--config-file".spec_bytes().is_prefix_of(text) ==> config_option(text),
        "-config-file".spec_bytes().is_prefix_of(text) ==> config_option(text),
        "--extra-arg-before".spec_bytes().is_prefix_of(text) ==> config_option(text),
        "-extra-arg-before".spec_bytes().is_prefix_of(text) ==> config_option(text),
{
    reveal_strlit("--config-file");
    reveal_strlit("--config");
    lemma_shorter_prefix("--config", "--config-file", text);
    reveal_strlit("-config-file");
    reveal_strlit("-config");
    lemma_shorter_prefix("-config", "-config-file", text);
    reveal_strlit("--extra-arg-before");
    reveal_strlit("--extra-arg");
    lemma_shorter_prefix("--extra-arg", "--extra-arg-before", text);
    reveal_strlit("-extra-arg-before");
    reveal_strlit("-extra-arg");
    lemma_shorter_prefix("-extra-arg", "-extra-arg-before", text);
}

proof fn lemma_shorter_prefix(short: &str, long: &str, text: Seq<u8>)
    requires
        is_ascii(short),
        is_ascii(long),
        short@.is_prefix_of(long@),
    ensures
        long.spec_bytes().is_prefix_of(text) ==> short.spec_bytes().is_prefix_of(text),
{
    if long.spec_bytes().is_prefix_of(text) {
        assert forall|i: int| 0 <= i < short@.len() implies short.spec_bytes()[i] == text[i] by {
            assert(short@[i] == long@[i]);
            assert(long.spec_bytes()[i] == text[i]);
        }
        assert(short.spec_bytes() =~= text.subrange(0, short.spec_bytes().len() as int));
    }
}

/// A source or header file behind the separator is never taken for the
/// compiler, nor is a flag or a response file.
pub proof fn law_no_compiler(text: Seq<u8>)
    ensures
        extension_of(text) matches Some(ext) && source_extension(ext) ==> !likely_compiler(text),
        text.len() > 0 && (text[0] == DASH || text[0] == AT) ==> !likely_compiler(text),
{
}

/// Whether an argument names an output file, within itself or in the argument
/// behind it.
pub open spec fn names_output(arg: Seq<u8>) -> bool {
    arg == "-o".spec_bytes() || output_flag(text_of(arg))
}

/// Whether none of some arguments names an output file.
pub open spec fn no_outputs(args: Seq<Seq<u8>>) -> bool {
    forall|i: int| 0 <= i < args.len() ==> !names_output(#[trigger] args[i])
}

/// Dropping the output flags leaves none; doing it again changes nothing, nor
/// does it change flags that name no output file.
pub proof fn law_outputs_dropped(flags: Seq<Seq<u8>>)
    ensures
        no_outputs(without_outputs(flags)),
        without_outputs(without_outputs(flags)) == without_outputs(flags),
        no_outputs(flags) ==> without_outputs(flags) == flags,
{
    lemma_none_left(flags);
    lemma_nothing_to_drop(without_outputs(flags));
    lemma_nothing_to_drop(flags);
}

proof fn lemma_none_left(flags: Seq<Seq<u8>>)
    ensures
        no_outputs(without_outputs(flags)),
    decreases flags.len(),
{
    if flags.len() > 0 {
        lemma_none_left(flags.drop_last());
    }
}

proof fn lemma_nothing_to_drop(flags: Seq<Seq<u8>>)
    ensures
        no_outputs(flags) ==> without_outputs(flags) == flags,
    decreases flags.len(),
{
    if no_outputs(flags) && flags.len() > 0 {
        let earlier = flags.drop_last();
        assert forall|i: int| 0 <= i < earlier.len() implies !names_output(
            #[trigger] earlier[i],
        ) by {
            assert(earlier[i] == flags[i]);
        }
        lemma_nothing_to_drop(earlier);
        if flags.len() > 1 {
            assert(!names_output(flags[flags.len() - 2]));
        }
        assert(!names_output(flags.last()));
        assert(without_outputs(flags) =~= flags);
    }
}

/// The `clang-tidy` run is given the source file, then the options before the
/// separator as they are; behind the separator it is given no output flag.
pub proof fn law_tidy_run(common: Seq<Seq<u8>>, input: Seq<u8>)
    ensures
        tidy_run_arguments(common, input)[0] == input,
        before_separator(common) == tidy_run_arguments(common, input).subrange(
            1,
            1 + before_separator(common).len() as int,
        ),
        no_outputs(
            tidy_run_arguments(common, input).skip(1 + before_separator(common).len() as int),
        ),
{
    let run = tidy_run_arguments(common, input);
    let n = before_separator(common).len() as int;
    assert(run.subrange(1, 1 + n) =~= before_separator(common));
    assert(run.skip(1 + n) =~= without_outputs(from_separator(common)));
    law_outputs_dropped(from_separator(common));
}

/// The preprocessing run is given no compile flag that names an output file
/// or asks to compile without linking.
pub proof fn law_preprocess_flags(flags: Seq<Seq<u8>>)
    ensures
        no_outputs(preprocess_flags(flags)),
        forall|i: int|
            0 <= i < preprocess_flags(flags).len() ==> !compile_only(
                #[trigger] preprocess_flags(flags)[i],
            ),
{
    broadcast use vstd::seq_lib::group_filter_ensures;

    let kept = without_outputs(flags);
    let keep = |arg: Seq<u8>| !compile_only(arg);
    let left = preprocess_flags(flags);
    law_outputs_dropped(flags);
    assert forall|i: int| 0 <= i < left.len() implies !compile_only(#[trigger] left[i])
        && !names_output(left[i]) by {
        assert(keep(left[i]));
        assert(left.contains(left[i]));
        kept.lemma_filter_contains_rev(keep, left[i]);
    }
}

/// Every option before the separator that bears on the configuration is
/// handed to the run that prints it, and so is everything from the separator
/// on; no other option is.
pub proof fn law_config_forwarded(common: Seq<Seq<u8>>, input: Seq<u8>)
    ensures
        from_separator(common).is_suffix_of(dump_config_arguments(common, input)),
        forall|i: int|
            0 <= i < before_separator(common).len() && config_option(
                text_of(#[trigger] before_separator(common)[i]),
            ) ==> dump_config_arguments(common, input).contains(before_separator(common)[i]),
        forall|i: int|
            1 <= i < dump_config_arguments(common, input).len() - from_separator(common).len() - 1
                ==> config_option(text_of(#[trigger] dump_config_arguments(common, input)[i])),
{
    let tidy = before_separator(common);
    let keep = |arg: Seq<u8>| config_option(text_of(arg));
    let kept = tidy.filter(keep);
    let all = dump_config_arguments(common, input);
    let behind = from_separator(common);
    assert(behind =~= all.subrange(all.len() - behind.len(), all.len() as int));
    broadcast use vstd::seq_lib::group_filter_ensures;
    assert forall|i: int| 0 <= i < tidy.len() && config_option(
        text_of(#[trigger] tidy[i]),
    ) implies all.contains(tidy[i]) by {
        assert(keep(tidy[i]));
        assert(kept.contains(tidy[i]));
        let k = choose|k: int| 0 <= k < kept.len() && kept[k] == tidy[i];
        assert(all[1 + k] == tidy[i]);
    }
    assert forall|i: int| 1 <= i < all.len() - behind.len() - 1 implies config_option(
        text_of(#[trigger] all[i]),
    ) by {
        assert(all[i] == kept[i - 1]);
        assert(keep(kept[i - 1]));
    }
}

/// A command line is handled exactly where no argument, on either side of the
/// separator, rules caching out, and a positional argument stands before the
/// separator. Where it is handled, the source file is the first such
/// argument.
pub proof fn law_handled(args: Seq<Seq<u8>>, cwd: Seq<u8>)
    ensures
        parse_outcome(args, cwd) is Parsed <==> (forall|i: int|
            0 <= i < args.len() ==> !refused(#[trigger] args[i])) && (exists|i: int|
            #[trigger] first_positional(args, i)),
        forall|i: int| #[trigger]
            first_positional(args, i) ==> source_file(args) == Some(args[i]),
        parse_outcome(args, cwd) !is NotCompilation,
{
    lemma_first_refused_none(args);
    lemma_source_file_first(args);
}

/// Whether the argument at `i` is positional, the first one, and no separator
/// comes before it.
pub open spec fn first_positional(args: Seq<Seq<u8>>, i: int) -> bool {
    &&& 0 <= i < args.len()
    &&& argument_of(args[i]) is Raw
    &&& forall|j: int|
        0 <= j < i ==> #[trigger] args[j] != separator() && !(argument_of(args[j]) is Raw)
}

proof fn lemma_first_refused_none(args: Seq<Seq<u8>>)
    ensures
        first_refused(args) is None <==> forall|i: int|
            0 <= i < args.len() ==> !refused(#[trigger] args[i]),
    decreases args.len(),
{
    if args.len() > 0 {
        let rest = args.drop_first();
        lemma_first_refused_none(rest);
        if first_refused(args) is None {
            assert forall|i: int| 0 <= i < args.len() implies !refused(#[trigger] args[i]) by {
                if i > 0 {
                    assert(rest[i - 1] == args[i]);
                }
            }
        } else if !refused(args[0]) {
            let i = choose|i: int| 0 <= i < rest.len() && refused(#[trigger] rest[i]);
            assert(refused(args[i + 1]));
        }
    }
}

proof fn lemma_source_file_first(args: Seq<Seq<u8>>)
    ensures
        source_file(args) is Some <==> exists|i: int| #[trigger] first_positional(args, i),
        forall|i: int| #[trigger]
            first_positional(args, i) ==> source_file(args) == Some(args[i]),
    decreases args.len(),
{
    if args.len() > 0 {
        let rest = args.drop_first();
        lemma_source_file_first(rest);
        lemma_separator_unknown();
        if args[0] != separator() && !(argument_of(args[0]) is Raw) {
            assert forall|i: int| #[trigger] first_positional(args, i) implies first_positional(
                rest,
                i - 1,
            ) by {
                assert(rest[i - 1] == args[i]);
                assert forall|j: int| 0 <= j < i - 1 implies #[trigger] rest[j] != separator()
                    && !(argument_of(rest[j]) is Raw) by {
                    assert(rest[j] == args[j + 1]);
                }
            }
            if source_file(args) is Some {
                let k = choose|k: int| #[trigger] first_positional(rest, k);
                assert(rest[k] == args[k + 1]);
                assert forall|j: int| 0 <= j < k + 1 implies #[trigger] args[j] != separator()
                    && !(argument_of(args[j]) is Raw) by {
                    if j > 0 {
                        assert(args[j] == rest[j - 1]);
                    }
                }
                assert(first_positional(args, k + 1));
            }
        } else if argument_of(args[0]) is Raw {
            assert(first_positional(args, 0));
            assert forall|i: int| #[trigger] first_positional(args, i) implies i == 0 by {
                if i > 0 {
                    assert(argument_of(args[0]) is Raw);
                }
            }
        } else {
            assert forall|i: int| !#[trigger] first_positional(args, i) by {
                if first_positional(args, i) && i > 0 {
                    assert(args[0] == separator());
                }
            }
        }
    }
}

/// The contents of every plugin and configuration file that an option names
/// are part of the cache key, wherever the option stands, and no other file
/// is added.
pub proof fn law_files_hashed(args: Seq<Seq<u8>>, cwd: Seq<u8>)
    ensures
        forall|i: int|
            0 <= i < args.len() ==> (hashed_file(#[trigger] args[i], cwd) matches Some(file)
                ==> hash_files(args, cwd).contains(file)),
        forall|k: int|
            0 <= k < hash_files(args, cwd).len() ==> exists|i: int|
                0 <= i < args.len() && hashed_file(args[i], cwd) == Some(
                    #[trigger] hash_files(args, cwd)[k],
                ),
    decreases args.len(),
{
    if args.len() > 0 {
        let earlier = args.drop_last();
        law_files_hashed(earlier, cwd);
        let old_files = hash_files(earlier, cwd);
        let files = hash_files(args, cwd);
        assert forall|i: int| 0 <= i < args.len() implies (hashed_file(
            #[trigger] args[i],
            cwd,
        ) matches Some(file) ==> files.contains(file)) by {
            if let Some(file) = hashed_file(args[i], cwd) {
                if i < earlier.len() {
                    assert(earlier[i] == args[i]);
                    let k = choose|k: int| 0 <= k < old_files.len() && old_files[k] == file;
                    assert(files[k] == file);
                } else {
                    assert(files[files.len() - 1] == file);
                }
            }
        }
        assert forall|k: int| 0 <= k < files.len() implies exists|i: int|
            0 <= i < args.len() && hashed_file(args[i], cwd) == Some(#[trigger] files[k]) by {
            if k < old_files.len() {
                assert(old_files[k] == files[k]);
                let i = choose|i: int|
                    0 <= i < earlier.len() && hashed_file(earlier[i], cwd) == Some(old_files[k]);
                assert(earlier[i] == args[i]);
                assert(hashed_file(args[i], cwd) == Some(files[k]));
            } else {
                assert(hashed_file(args[args.len() - 1], cwd) == Some(files[k]));
            }
        }
    }
}

/// Leaving separators out changes nothing where there are none.
proof fn lemma_no_separators(args: Seq<Seq<u8>>)
    requires
        !args.contains(separator()),
    ensures
        without_separators(args) == args,
    decreases args.len(),
{
    reveal(Seq::filter);
    if args.len() > 0 {
        let earlier = args.drop_last();
        assert(earlier.push(args.last()) == args);
        lemma_contains_push(earlier, args.last());
        lemma_no_separators(earlier);
    }
}

/// How the arguments behind the only separator are taken apart.
proof fn lemma_split_parts(tidy: Seq<Seq<u8>>, flags: Seq<Seq<u8>>)
    requires
        !tidy.contains(separator()),
        !flags.contains(separator()),
    ensures
        (tidy.push(separator()) + flags).contains(separator()),
        before_separator(tidy.push(separator()) + flags) == tidy,
        flags.len() > 0 && likely_compiler(text_of(flags[0])) ==> named_compiler(
            tidy.push(separator()) + flags,
        ) == Some(flags[0]) && flags_behind(tidy.push(separator()) + flags) == flags.skip(1),
        !(flags.len() > 0 && likely_compiler(text_of(flags[0]))) ==> named_compiler(
            tidy.push(separator()) + flags,
        ) is None && flags_behind(tidy.push(separator()) + flags) == flags,
{
    let all = tidy.push(separator()) + flags;
    lemma_cut_at_separator(tidy, flags);
    assert(all.skip(tidy.len() as int + 1) =~= flags);
    lemma_no_separators(flags);
    if flags.len() > 0 {
        let rest = flags.skip(1);
        assert(all[tidy.len() as int + 1] == flags[0]);
        assert(all.skip(tidy.len() as int + 2) =~= rest);
        assert(!rest.contains(separator())) by {
            if rest.contains(separator()) {
                let k = choose|k: int| 0 <= k < rest.len() && rest[k] == separator();
                assert(flags[k + 1] == separator());
            }
        }
        lemma_no_separators(rest);
    }
}

/// Splitting a list loses nothing but the separators and changes no order:
/// what comes before the first separator, the compiler and the flags put
/// together again are the list without its separators.
pub proof fn law_split_loses_nothing(args: Seq<Seq<u8>>)
    ensures
        without_separators(args) == before_separator(args) + (match named_compiler(args) {
            Some(compiler) => seq![compiler],
            None => Seq::empty(),
        }) + flags_behind(args),
{
    let keep = |arg: Seq<u8>| arg != separator();
    let tidy = before_separator(args);
    let n = tidy.len() as int;
    lemma_before_separator(args);
    lemma_no_separators(tidy);
    if args.contains(separator()) {
        let behind = args.skip(n + 1);
        let cut = seq![separator()];
        assert(args =~= tidy + cut + behind);
        Seq::filter_distributes_over_add(tidy + cut, behind, keep);
        Seq::filter_distributes_over_add(tidy, cut, keep);
        assert(cut.filter(keep) =~= Seq::empty()) by {
            reveal_with_fuel(Seq::filter, 2);
            assert(!keep(cut.last()));
            assert(cut.drop_last() =~= Seq::empty());
        }
        assert(without_separators(args) =~= tidy + without_separators(behind));
        if names_compiler(args) {
            let compiler = seq![args[n + 1]];
            let rest = args.skip(n + 2);
            assert(behind =~= compiler + rest);
            Seq::filter_distributes_over_add(compiler, rest, keep);
            assert(compiler.filter(keep) =~= compiler) by {
                reveal(Seq::filter);
                assert(compiler.drop_last() =~= Seq::empty());
            }
        }
    }
}

/// The compiler is the argument right behind the first separator or none; a
/// later separator never brings in another one, and nothing behind the first
/// argument there has a part in the choice.
pub proof fn law_compiler_is_first(
    tidy: Seq<Seq<u8>>,
    first: Seq<u8>,
    rest1: Seq<Seq<u8>>,
    rest2: Seq<Seq<u8>>,
)
    requires
        !tidy.contains(separator()),
    ensures
        named_compiler(tidy.push(separator()) + (seq![first] + rest1)) == named_compiler(
            tidy.push(separator()) + (seq![first] + rest2),
        ),
        named_compiler(tidy.push(separator()) + (seq![first] + rest1)) == (if first != separator()
            && likely_compiler(text_of(first)) {
            Some(first)
        } else {
            None
        }),
{
    lemma_cut_at_separator(tidy, seq![first] + rest1);
    lemma_cut_at_separator(tidy, seq![first] + rest2);
}

/// The name of a known option is not the separator.
proof fn lemma_known_not_separator(arg: Seq<u8>)
    requires
        argument_of(arg).data() is Some,
    ensures
        argument_of(arg).written() != separator(),
{
    lemma_separator_no_option();
    reveal_strlit("--");
    assert(is_ascii("--"));
    match argument_of(arg) {
        Argument::WithValue(name, data) => {
            if data.value().len() > 0 {
                let w = name.push(EQUALS) + data.value();
                assert(w[name.len() as int] == EQUALS);
                if w == separator() {
                    assert(separator()[name.len() as int] == DASH);
                }
            }
        },
        _ => {},
    }
}

proof fn lemma_parts_unseparated(args: Seq<Seq<u8>>)
    ensures
        !tidy_args(args).contains(separator()),
        !compile_flags(args).contains(separator()),
    decreases args.len(),
{
    if args.len() > 0 {
        let earlier = args.drop_last();
        let arg = args.last();
        lemma_parts_unseparated(earlier);
        lemma_contains_push(tidy_args(earlier), argument_of(arg).written());
        lemma_contains_push(tidy_args(earlier), arg);
        lemma_contains_push(compile_flags(earlier), arg);
        assert(earlier.push(arg) == args);
        lemma_contains_push(earlier, arg);
        if argument_of(arg).data() is Some {
            lemma_known_not_separator(arg);
        }
    }
}

/// Splitting the arguments that were kept of a command line gives back its
/// two sides: the arguments of `clang-tidy`, and the compile flags, of which
/// the first is the compiler if it looks like one. There is no other
/// separator among them.
pub proof fn law_split_after_parse(args: Seq<Seq<u8>>)
    ensures
        before_separator(common_args(args)) == tidy_args(args),
        common_args(args).contains(separator()) <==> compile_flags(args).len() > 0,
        forall|i: int|
            0 <= i < common_args(args).len() && #[trigger] common_args(args)[i] == separator()
                ==> i == tidy_args(args).len(),
        compile_flags(args).len() > 0 && likely_compiler(text_of(compile_flags(args)[0])) ==> {
            &&& named_compiler(common_args(args)) == Some(compile_flags(args)[0])
            &&& flags_behind(common_args(args)) == compile_flags(args).skip(1)
        },
        !(compile_flags(args).len() > 0 && likely_compiler(text_of(compile_flags(args)[0]))) ==> {
            &&& named_compiler(common_args(args)) is None
            &&& flags_behind(common_args(args)) == compile_flags(args)
        },
{
    let tidy = tidy_args(args);
    let flags = compile_flags(args);
    let common = common_args(args);
    lemma_parts_unseparated(args);
    if flags.len() > 0 {
        lemma_split_parts(tidy, flags);
        assert forall|i: int|
            0 <= i < common.len() && #[trigger] common[i] == separator() implies i
            == tidy.len() by {
            if i < tidy.len() {
                assert(common[i] == tidy[i]);
            } else if i > tidy.len() {
                assert(common[i] == flags[i - tidy.len() - 1]);
            }
        }
    } else {
        assert(flags =~= Seq::empty());
    }
}

/// The run that a command line leads to: the source file, the arguments of
/// `clang-tidy`, and behind a separator the compile flags without those that
/// name an output file.
pub proof fn law_run_after_parse(args: Seq<Seq<u8>>, input: Seq<u8>)
    ensures
        tidy_run_arguments(common_args(args), input) == seq![input] + tidy_args(args) + (
        if compile_flags(args).len() > 0 {
            seq![separator()] + without_outputs(compile_flags(args))
        } else {
            Seq::empty()
        }),
{
    let tidy = tidy_args(args);
    let flags = compile_flags(args);
    let common = common_args(args);
    law_split_after_parse(args);
    if flags.len() > 0 {
        assert(from_separator(common) =~= seq![separator()] + flags);
        lemma_separator_no_output();
        lemma_without_outputs_behind(separator(), flags);
    } else {
        assert(from_separator(common) =~= Seq::empty());
        assert(without_outputs(from_separator(common)) =~= Seq::empty());
    }
}

proof fn lemma_separator_no_output()
    ensures
        !names_output(separator()),
{
    encode_utf8_valid_utf8("--"@);
    lemma_text_of_valid(separator());
    reveal_strlit("--");
    reveal_strlit("-o");
    reveal_strlit("/Fo");
    reveal_strlit("/Fe");
    reveal_strlit("/Fi");
    reveal_strlit("/Fd");
    assert(is_ascii("--") && is_ascii("-o") && is_ascii("/Fo") && is_ascii("/Fe") && is_ascii("/Fi")
        && is_ascii("/Fd"));
    assert("-o".spec_bytes()[1] == 111);
    assert(separator()[1] == DASH);
    assert(separator().len() == 2);
}

proof fn lemma_operand_behind(first: Seq<u8>, flags: Seq<Seq<u8>>, i: int)
    requires
        first != "-o".spec_bytes(),
        0 <= i <= flags.len(),
    ensures
        output_operand(seq![first] + flags, i + 1) == output_operand(flags, i),
    decreases i,
{
    let all = seq![first] + flags;
    if i == 0 {
        assert(all[0] == first);
    } else {
        lemma_operand_behind(first, flags, i - 1);
        assert(all[i] == flags[i - 1]);
    }
}

proof fn lemma_without_outputs_behind(first: Seq<u8>, flags: Seq<Seq<u8>>)
    requires
        !names_output(first),
    ensures
        without_outputs(seq![first] + flags) == seq![first] + without_outputs(flags),
    decreases flags.len(),
{
    let all = seq![first] + flags;
    if flags.len() == 0 {
        reveal_with_fuel(without_outputs, 2);
        assert(all.drop_last() =~= Seq::empty());
        assert(without_outputs(all) =~= seq![first] + without_outputs(flags));
    } else {
        lemma_without_outputs_behind(first, flags.drop_last());
        lemma_operand_behind(first, flags, flags.len() - 1);
        assert(all.drop_last() =~= seq![first] + flags.drop_last());
        assert(all.last() == flags.last());
        assert(without_outputs(all) =~= seq![first] + without_outputs(flags));
    }
}

/// The name of a known option with a value is ASCII, and the value is what it
/// was given.
proof fn lemma_value_option(name: Seq<u8>, value: Seq<u8>)
    requires
        value_option(name, value) is Some,
    ensures
        valid_utf8(name),
        value_option(name, value)->0.value() == value,
{
    broadcast use encode_utf8_valid_utf8;

}

proof fn lemma_name_len(text: Seq<u8>)
    ensures
        0 <= name_len(text) <= text.len(),
        name_len(text) < text.len() ==> text[name_len(text)] == EQUALS,
        name_len(option_name(text)) == option_name(text).len(),
    decreases text.len(),
{
    if text.len() > 0 && text[0] != 61 {
        let rest = text.drop_first();
        lemma_name_len(rest);
        let name = option_name(text);
        assert(name.drop_first() =~= option_name(rest));
    }
}

/// An argument that is written out again reads as it did.
pub proof fn law_read_back(arg: Seq<u8>)
    ensures
        argument_of(argument_of(arg).written()) == argument_of(arg),
{
    let text = text_of(arg);
    encode_utf8_valid_utf8(lossy_text(arg));
    lemma_text_of_valid(text);
    match argument_of(arg) {
        Argument::WithValue(name, data) => {
            let value = option_value(text);
            lemma_value_option(name, value);
            lemma_name_len(text);
            if value.len() > 0 {
                assert(name.push(EQUALS) + value =~= text);
            } else {
                lemma_text_of_valid(name);
                lemma_option_names(name, value);
                assert(option_name(name) =~= name);
                assert(option_value(name) =~= value);
            }
        },
        _ => {},
    }
}

/// Whether an argument stays as it is when it is read and written out, and is
/// not the separator.
spec fn settled(arg: Seq<u8>) -> bool {
    arg != separator() && argument_of(arg).written() == arg
}

spec fn all_settled(args: Seq<Seq<u8>>) -> bool {
    forall|i: int| 0 <= i < args.len() ==> settled(#[trigger] args[i])
}

spec fn all_unknown(args: Seq<Seq<u8>>) -> bool {
    forall|i: int| 0 <= i < args.len() ==> argument_of(#[trigger] args[i]).data() is None
}

spec fn none_refused(args: Seq<Seq<u8>>) -> bool {
    forall|i: int| 0 <= i < args.len() ==> !refused(#[trigger] args[i])
}

proof fn lemma_drop_last(args: Seq<Seq<u8>>)
    requires
        args.len() > 0,
    ensures
        all_settled(args) ==> all_settled(args.drop_last()) && settled(args.last()),
        all_unknown(args) ==> all_unknown(args.drop_last()) && argument_of(
            args.last(),
        ).data() is None,
        none_refused(args) ==> none_refused(args.drop_last()) && !refused(args.last()),
{
    assert(args.last() == args[args.len() - 1]);
    assert(forall|i: int|
        0 <= i < args.len() - 1 ==> #[trigger] args.drop_last()[i] == args[i]);
}

/// The two sides of a command line are settled, name the same files, and rule
/// caching out only where the command line does.
#[verifier::spinoff_prover]
proof fn lemma_sides(args: Seq<Seq<u8>>, cwd: Seq<u8>)
    ensures
        all_settled(tidy_args(args)),
        all_settled(compile_flags(args)),
        all_unknown(compile_flags(args)),
        hash_files(tidy_args(args), cwd) == hash_files(args, cwd),
        fixes_file(tidy_args(args)) == fixes_file(args),
        none_refused(args) ==> none_refused(tidy_args(args)),
    decreases args.len(),
{
    if args.len() > 0 {
        let earlier = args.drop_last();
        let arg = args.last();
        let w = argument_of(arg).written();
        lemma_sides(earlier, cwd);
        lemma_drop_last(args);
        law_read_back(arg);
        assert(earlier.push(arg) == args);
        lemma_contains_push(earlier, arg);
        if argument_of(arg).data() is Some {
            lemma_known_not_separator(arg);
            assert(settled(w));
            assert(tidy_args(args).drop_last() =~= tidy_args(earlier));
        } else {
            assert(w == arg);
            if tidy_args(args).len() > tidy_args(earlier).len() {
                assert(settled(arg));
                assert(tidy_args(args).drop_last() =~= tidy_args(earlier));
            }
        }
    }
}

/// Reading settled arguments behind a source file gives them back.
#[verifier::spinoff_prover]
proof fn lemma_reread_front(input: Seq<u8>, tidy: Seq<Seq<u8>>, cwd: Seq<u8>)
    requires
        argument_of(input) is Raw,
        all_settled(tidy),
    ensures
        source_file(seq![input] + tidy) == Some(input),
        !(seq![input] + tidy).contains(separator()),
        tidy_args(seq![input] + tidy) == tidy,
        compile_flags(seq![input] + tidy) == Seq::<Seq<u8>>::empty(),
        hash_files(seq![input] + tidy, cwd) == hash_files(tidy, cwd),
        fixes_file(seq![input] + tidy) == fixes_file(tidy),
    decreases tidy.len(),
{
    let all = seq![input] + tidy;
    lemma_separator_unknown();
    assert(argument_of(input).data() is None);
    if tidy.len() == 0 {
        assert(all.drop_last() =~= Seq::<Seq<u8>>::empty());
        assert(all.last() == input);
        assert(!all.contains(separator()));
        reveal_with_fuel(tidy_args, 2);
        reveal_with_fuel(compile_flags, 2);
        reveal_with_fuel(hash_files, 2);
        reveal_with_fuel(fixes_file, 2);
        assert(tidy_args(all) =~= tidy);
        assert(hash_files(all, cwd) =~= hash_files(tidy, cwd));
    } else {
        let earlier = tidy.drop_last();
        let arg = tidy.last();
        lemma_drop_last(tidy);
        lemma_reread_front(input, earlier, cwd);
        assert(all.drop_last() =~= seq![input] + earlier);
        assert(all =~= (seq![input] + earlier).push(arg));
        assert(all.last() == arg);
        lemma_contains_push(seq![input] + earlier, arg);
        lemma_source_file_push(seq![input] + earlier, arg);
        assert(tidy_args(all) =~= tidy);
    }
}

/// An unknown argument behind a separator only adds a compile flag.
#[verifier::spinoff_prover]
proof fn lemma_read_behind(args: Seq<Seq<u8>>, arg: Seq<u8>, cwd: Seq<u8>)
    requires
        args.contains(separator()),
        source_file(args) is Some,
        arg != separator(),
        argument_of(arg).data() is None,
    ensures
        args.push(arg).contains(separator()),
        source_file(args.push(arg)) == source_file(args),
        tidy_args(args.push(arg)) == tidy_args(args),
        compile_flags(args.push(arg)) == compile_flags(args).push(arg),
        hash_files(args.push(arg), cwd) == hash_files(args, cwd),
        fixes_file(args.push(arg)) == fixes_file(args),
{
    let all = args.push(arg);
    assert(all.drop_last() =~= args);
    assert(all.last() == arg);
    lemma_contains_push(args, arg);
    lemma_source_file_push(args, arg);
    assert(hashed_file(arg, cwd) is None);
}

/// A first separator adds nothing.
#[verifier::spinoff_prover]
proof fn lemma_read_separator(args: Seq<Seq<u8>>, cwd: Seq<u8>)
    requires
        !args.contains(separator()),
        source_file(args) is Some,
    ensures
        args.push(separator()).contains(separator()),
        source_file(args.push(separator())) == source_file(args),
        tidy_args(args.push(separator())) == tidy_args(args),
        compile_flags(args.push(separator())) == compile_flags(args),
        hash_files(args.push(separator()), cwd) == hash_files(args, cwd),
        fixes_file(args.push(separator())) == fixes_file(args),
{
    let all = args.push(separator());
    lemma_separator_unknown();
    assert(all.drop_last() =~= args);
    assert(all.last() == separator());
    lemma_contains_push(args, separator());
    lemma_source_file_push(args, separator());
    assert(hashed_file(separator(), cwd) is None);
}

/// Reading unknown arguments behind a separator gives them back.
#[verifier::spinoff_prover]
proof fn lemma_reread_back(front: Seq<Seq<u8>>, flags: Seq<Seq<u8>>, cwd: Seq<u8>)
    requires
        !front.contains(separator()),
        source_file(front) is Some,
        all_settled(flags),
        all_unknown(flags),
    ensures
        (front.push(separator()) + flags).contains(separator()),
        source_file(front.push(separator()) + flags) == source_file(front),
        tidy_args(front.push(separator()) + flags) == tidy_args(front),
        compile_flags(front.push(separator()) + flags) == compile_flags(front) + flags,
        hash_files(front.push(separator()) + flags, cwd) == hash_files(front, cwd),
        fixes_file(front.push(separator()) + flags) == fixes_file(front),
    decreases flags.len(),
{
    let all = front.push(separator()) + flags;
    if flags.len() == 0 {
        assert(all =~= front.push(separator()));
        lemma_read_separator(front, cwd);
        assert(compile_flags(front) + flags =~= compile_flags(front));
    } else {
        let earlier = flags.drop_last();
        let shorter = front.push(separator()) + earlier;
        lemma_drop_last(flags);
        lemma_reread_back(front, earlier, cwd);
        lemma_read_behind(shorter, flags.last(), cwd);
        assert(all =~= shorter.push(flags.last()));
        assert((compile_flags(front) + earlier).push(flags.last()) =~= compile_flags(front) + flags);
    }
}

/// The source file and the arguments kept of a command line that is handled
/// make up a command line that reads as the first one does.
#[verifier::spinoff_prover]
pub proof fn law_reread(args: Seq<Seq<u8>>, cwd: Seq<u8>)
    requires
        parse_outcome(args, cwd) is Parsed,
    ensures
        source_file(args) matches Some(input) && parse_outcome(
            seq![input] + common_args(args),
            cwd,
        ) == parse_outcome(args, cwd),
{
    let input = source_file(args)->0;
    let tidy = tidy_args(args);
    let flags = compile_flags(args);
    let again = seq![input] + common_args(args);
    let front = seq![input] + tidy;
    lemma_first_refused_none(args);
    lemma_source_file_first(args);
    let k = choose|k: int| #[trigger] first_positional(args, k);
    assert(argument_of(input) is Raw);
    lemma_sides(args, cwd);
    lemma_reread_front(input, tidy, cwd);
    if flags.len() > 0 {
        assert(again =~= front.push(separator()) + flags);
        lemma_reread_back(front, flags, cwd);
        assert(Seq::<Seq<u8>>::empty() + flags =~= flags);
    } else {
        assert(again =~= front);
        assert(flags =~= Seq::<Seq<u8>>::empty());
    }
    lemma_first_refused_none(again);
    lemma_separator_unknown();
    assert forall|i: int| 0 <= i < again.len() implies !refused(#[trigger] again[i]) by {
        if i == 0 {
            assert(again[0] == input);
        } else if i <= tidy.len() {
            assert(again[i] == tidy[i - 1]);
        } else if i == tidy.len() + 1 {
            assert(again[i] == separator());
        } else {
            assert(again[i] == flags[i - tidy.len() - 2]);
        }
    }
}

proof fn lemma_known_kept(args: Seq<Seq<u8>>, i: int)
    requires
        0 <= i < args.len(),
        argument_of(args[i]).data() is Some,
    ensures
        tidy_args(args).contains(argument_of(args[i]).written()),
    decreases args.len(),
{
    let earlier = args.drop_last();
    let w = argument_of(args[i]).written();
    let all = tidy_args(args);
    if i < earlier.len() {
        assert(earlier[i] == args[i]);
        lemma_known_kept(earlier, i);
        let k = choose|k: int| 0 <= k < tidy_args(earlier).len() && tidy_args(earlier)[k] == w;
        assert(all[k] == w);
    } else {
        assert(all[all.len() - 1] == w);
    }
}

/// Every known option of a command line that bears on the configuration,
/// wherever it stands, is handed to the run that prints the configuration.
pub proof fn law_config_after_parse(args: Seq<Seq<u8>>, input: Seq<u8>)
    ensures
        forall|i: int|
            0 <= i < args.len() && argument_of(#[trigger] args[i]).data() is Some && config_option(
                text_of(argument_of(args[i]).written()),
            ) ==> dump_config_arguments(common_args(args), input).contains(
                argument_of(args[i]).written(),
            ),
{
    law_split_after_parse(args);
    law_config_forwarded(common_args(args), input);
    let tidy = tidy_args(args);
    assert forall|i: int|
        0 <= i < args.len() && argument_of(#[trigger] args[i]).data() is Some && config_option(
            text_of(argument_of(args[i]).written()),
        ) implies dump_config_arguments(common_args(args), input).contains(
        argument_of(args[i]).written(),
    ) by {
        let w = argument_of(args[i]).written();
        lemma_known_kept(args, i);
        let k = choose|k: int| 0 <= k < tidy.len() && tidy[k] == w;
        assert(before_separator(common_args(args))[k] == w);
    }
}

/// A run that was given no output flag is given the same arguments when it is
/// made up again: dropping the output flags is done once and for all.
pub proof fn law_tidy_run_stable(common: Seq<Seq<u8>>, input: Seq<u8>)
    ensures
        tidy_run_arguments(tidy_run_arguments(common, input).skip(1), input)
            == tidy_run_arguments(common, input),
{
    let tidy = before_separator(common);
    let kept = without_outputs(from_separator(common));
    let again = tidy_run_arguments(common, input).skip(1);
    assert(again =~= tidy + kept);
    lemma_before_separator(common);
    law_outputs_dropped(from_separator(common));
    if common.contains(separator()) {
        let behind = common.skip(tidy.len() as int + 1);
        let left = without_outputs(behind);
        assert(from_separator(common) =~= seq![separator()] + behind);
        lemma_separator_no_output();
        lemma_without_outputs_behind(separator(), behind);
        assert(again =~= tidy.push(separator()) + left);
        lemma_cut_at_separator(tidy, left);
        assert(from_separator(again) =~= kept);
    } else {
        assert(from_separator(common) =~= Seq::empty());
        assert(kept =~= Seq::empty());
        assert(again =~= common);
    }
}

/// Whether a byte is no ASCII letter.
spec fn no_letter(b: u8) -> bool {
    !(UPPER_A <= b <= UPPER_Z) && !(LOWER_A <= b <= LOWER_Z)
}

proof fn lemma_lowered_index(s: Seq<u8>, b: u8)
    requires
        no_letter(b),
    ensures
        last_index(lowered(s), b) == last_index(s, b),
    decreases s.len(),
{
    if s.len() > 0 {
        lemma_lowered_index(s.drop_last(), b);
        assert(lowered(s).drop_last() =~= lowered(s.drop_last()));
        assert(lowered(s).last() == lower(s.last()));
    }
}

proof fn lemma_lowered_is(s: Seq<u8>, t: Seq<u8>)
    requires
        forall|i: int| 0 <= i < t.len() ==> no_letter(#[trigger] t[i]),
    ensures
        (lowered(s) == t) == (s == t),
{
    if lowered(s) == t {
        assert forall|i: int| 0 <= i < s.len() implies s[i] == t[i] by {
            assert(lowered(s)[i] == lower(s[i]));
            assert(no_letter(t[i]));
        }
        assert(s =~= t);
    }
    if s == t {
        assert forall|i: int| 0 <= i < s.len() implies lowered(s)[i] == t[i] by {
            assert(no_letter(t[i]));
        }
        assert(lowered(s) =~= t);
    }
}

proof fn lemma_lowered_contains(s: Seq<u8>, b: u8)
    requires
        no_letter(b),
    ensures
        lowered(s).contains(b) == s.contains(b),
{
    if s.contains(b) {
        let i = choose|i: int| 0 <= i < s.len() && s[i] == b;
        assert(lowered(s)[i] == b);
    }
    if lowered(s).contains(b) {
        let i = choose|i: int| 0 <= i < lowered(s).len() && lowered(s)[i] == b;
        assert(lower(s[i]) == b);
        assert(s[i] == b);
    }
}

proof fn lemma_lowered_component(path: Seq<u8>)
    ensures
        last_component(lowered(path)) == lowered(last_component(path)),
    decreases path.len(),
{
    let slash = last_index(path, SLASH);
    let tail = path.skip(slash + 1);
    lemma_last_index_bounds(path, SLASH);
    lemma_lowered_index(path, SLASH);
    assert(lowered(path).skip(slash + 1) =~= lowered(tail));
    lemma_dots_no_letters();
    lemma_lowered_is(tail, ".".spec_bytes());
    if slash >= 0 && (tail.len() == 0 || tail == ".".spec_bytes()) {
        lemma_lowered_component(path.take(slash));
        assert(lowered(path).take(slash) =~= lowered(path.take(slash)));
    }
}

proof fn lemma_dots_no_letters()
    ensures
        forall|i: int|
            0 <= i < ".".spec_bytes().len() ==> no_letter(#[trigger] ".".spec_bytes()[i]),
        forall|i: int|
            0 <= i < "..".spec_bytes().len() ==> no_letter(#[trigger] "..".spec_bytes()[i]),
{
    reveal_strlit(".");
    reveal_strlit("..");
    assert(is_ascii(".") && is_ascii(".."));
}

proof fn lemma_lowered_extension(path: Seq<u8>)
    ensures
        match extension_of(path) {
            Some(ext) => extension_of(lowered(path)) == Some(lowered(ext)),
            None => extension_of(lowered(path)) is None,
        },
{
    let name = last_component(path);
    lemma_lowered_component(path);
    lemma_dots_no_letters();
    lemma_lowered_is(name, ".".spec_bytes());
    lemma_lowered_is(name, "..".spec_bytes());
    lemma_lowered_index(name, DOT);
    lemma_last_index_bounds(name, DOT);
    let dot = last_index(name, DOT);
    assert(lowered(name).skip(dot + 1) =~= lowered(name.skip(dot + 1)));
}

proof fn lemma_lowered_compiler(text: Seq<u8>)
    ensures
        likely_compiler(lowered(text)) == likely_compiler(text),
{
    lemma_lowered_extension(text);
    if let Some(ext) = extension_of(text) {
        assert(lowered(lowered(ext)) =~= lowered(ext));
    }
    lemma_lowered_contains(text, BACKSLASH);
    if text.len() > 0 {
        assert(lowered(text)[0] == lower(text[0]));
        assert(lowered(text).skip(1) =~= lowered(text.skip(1)));
        lemma_lowered_contains(text.skip(1), SLASH);
    }
    if text.len() > 1 {
        assert(lowered(text)[1] == lower(text[1]));
    }
}

/// Whether an argument looks like a compiler does not depend on the case of
/// its ASCII letters.
pub proof fn law_compiler_ignores_case(text1: Seq<u8>, text2: Seq<u8>)
    requires
        lowered(text1) == lowered(text2),
    ensures
        likely_compiler(text1) == likely_compiler(text2),
{
    lemma_lowered_compiler(text1);
    lemma_lowered_compiler(text2);
}

} // verus!
