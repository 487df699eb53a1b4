//! What reaches the three runs, argument by argument.

use vstd::prelude::*;
use vstd::string::*;
use vstd::utf8::*;

use crate::bytes::{has_infix, lowered};
use crate::commands::{
    cl_driver, compile_only, dump_config_arguments, from_separator, option_values, output_operand,
    preprocess_flags, preprocessor_arguments, without_outputs,
};
use crate::compile::tidy_run_arguments;
use crate::flags::{
    before_separator, config_option, flags_behind, lemma_cut_at_separator, likely_compiler,
    named_compiler, output_flag,
};
use crate::laws::law_config_prefixes;
use crate::option_laws::{gives, names};
use crate::parse::separator;
use crate::path_laws::{cased, lemma_cased};
use crate::text::{lemma_text_of_str, lemma_text_of_valid, text_of};

verus! {

/// What a text begins with can be told byte by byte.
proof fn lemma_prefix(prefix: Seq<u8>, text: Seq<u8>)
    ensures
        prefix.is_prefix_of(text) <==> prefix.len() <= text.len() && forall|i: int|
            0 <= i < prefix.len() ==> prefix[i] == #[trigger] text[i],
{
    if prefix.is_prefix_of(text) {
        assert forall|i: int| 0 <= i < prefix.len() implies prefix[i] == #[trigger] text[i] by {
            assert(text.subrange(0, prefix.len() as int)[i] == text[i]);
        }
    } else if prefix.len() <= text.len() && forall|i: int|
        0 <= i < prefix.len() ==> prefix[i] == #[trigger] text[i] {
        assert(prefix =~= text.subrange(0, prefix.len() as int));
    }
}

/// The separator is two dashes.
pub proof fn law_separator()
    ensures
        separator() == seq![45u8, 45],
{
    reveal_strlit("--");
    assert(is_ascii("--"));
    assert(separator() =~= seq![45u8, 45]);
}

/// A flag names an output file within itself exactly where it begins with
/// `-o` and goes on, or begins with `/F` and one of `o`, `e`, `i`, `d`.
pub proof fn law_output_flag(text: Seq<u8>)
    ensures
        output_flag(text) <==> text.len() > 2 && (text[0] == 45 && text[1] == 111 || text[0] == 47
            && text[1] == 70 && (text[2] == 111 || text[2] == 101 || text[2] == 105 || text[2]
            == 100)),
{
    reveal_strlit("-o");
    reveal_strlit("/Fo");
    reveal_strlit("/Fe");
    reveal_strlit("/Fi");
    reveal_strlit("/Fd");
    assert(is_ascii("-o") && is_ascii("/Fo") && is_ascii("/Fe") && is_ascii("/Fi") && is_ascii(
        "/Fd",
    ));
    lemma_prefix("-o".spec_bytes(), text);
    lemma_prefix("/Fo".spec_bytes(), text);
    lemma_prefix("/Fe".spec_bytes(), text);
    lemma_prefix("/Fi".spec_bytes(), text);
    lemma_prefix("/Fd".spec_bytes(), text);
}

/// Whether a text begins with a dash or two and then with a word.
pub open spec fn dashed(text: Seq<u8>, word: &str) -> bool {
    ||| text.len() > 0 && text[0] == 45 && word.spec_bytes().is_prefix_of(text.skip(1))
    ||| text.len() > 1 && text[0] == 45 && text[1] == 45 && word.spec_bytes().is_prefix_of(
        text.skip(2),
    )
}

proof fn lemma_dashed(text: Seq<u8>, long: &str, short: &str, word: &str)
    requires
        is_ascii(long),
        is_ascii(short),
        is_ascii(word),
        long@ == "--"@ + word@,
        short@ == "-"@ + word@,
    ensures
        dashed(text, word) <==> long.spec_bytes().is_prefix_of(text)
            || short.spec_bytes().is_prefix_of(text),
{
    reveal_strlit("--");
    reveal_strlit("-");
    let w = word.spec_bytes();
    let l = long.spec_bytes();
    let s = short.spec_bytes();
    assert(l.len() == w.len() + 2 && s.len() == w.len() + 1);
    assert(l[0] == 45 && l[1] == 45 && s[0] == 45) by {
        assert(long@[0] == '-' && long@[1] == '-' && short@[0] == '-');
    }
    assert(forall|i: int| 0 <= i < w.len() ==> l[i + 2] == #[trigger] w[i]) by {
        assert(forall|i: int| 0 <= i < w.len() ==> long@[i + 2] == #[trigger] word@[i]);
    }
    assert(forall|i: int| 0 <= i < w.len() ==> s[i + 1] == #[trigger] w[i]) by {
        assert(forall|i: int| 0 <= i < w.len() ==> short@[i + 1] == #[trigger] word@[i]);
    }
    lemma_prefix(l, text);
    lemma_prefix(s, text);
    if text.len() > 0 {
        lemma_prefix(w, text.skip(1));
        if s.is_prefix_of(text) {
            assert forall|i: int| 0 <= i < w.len() implies w[i] == #[trigger] text.skip(1)[i] by {
                assert(s[i + 1] == text[i + 1]);
            }
        }
        if text[0] == 45 && w.is_prefix_of(text.skip(1)) {
            assert forall|i: int| 0 <= i < s.len() implies s[i] == #[trigger] text[i] by {
                if i > 0 {
                    assert(text.skip(1)[i - 1] == text[i]);
                    assert(w[i - 1] == s[i - 1 + 1]);
                }
            }
        }
    }
    if text.len() > 1 {
        lemma_prefix(w, text.skip(2));
        if l.is_prefix_of(text) {
            assert forall|i: int| 0 <= i < w.len() implies w[i] == #[trigger] text.skip(2)[i] by {
                assert(l[i + 2] == text[i + 2]);
            }
        }
        if text[0] == 45 && text[1] == 45 && w.is_prefix_of(text.skip(2)) {
            assert forall|i: int| 0 <= i < l.len() implies l[i] == #[trigger] text[i] by {
                if i > 1 {
                    assert(text.skip(2)[i - 2] == text[i]);
                    assert(w[i - 2] == l[i - 2 + 2]);
                }
            }
        }
    }
}

/// An option bears on the configuration exactly where it begins, behind one
/// dash or two, with `checks`, `config` or `extra-arg`.
#[verifier::spinoff_prover]
pub proof fn law_config_option(text: Seq<u8>)
    ensures
        config_option(text) <==> dashed(text, "checks") || dashed(text, "config") || dashed(
            text,
            "extra-arg",
        ),
{
    reveal_strlit("--");
    reveal_strlit("-");
    reveal_strlit("--checks");
    reveal_strlit("-checks");
    reveal_strlit("checks");
    assert("--checks"@ =~= "--"@ + "checks"@);
    assert("-checks"@ =~= "-"@ + "checks"@);
    lemma_dashed(text, "--checks", "-checks", "checks");
    reveal_strlit("--config");
    reveal_strlit("-config");
    reveal_strlit("config");
    assert("--config"@ =~= "--"@ + "config"@);
    assert("-config"@ =~= "-"@ + "config"@);
    lemma_dashed(text, "--config", "-config", "config");
    reveal_strlit("--extra-arg");
    reveal_strlit("-extra-arg");
    reveal_strlit("extra-arg");
    assert("--extra-arg"@ =~= "--"@ + "extra-arg"@);
    assert("-extra-arg"@ =~= "-"@ + "extra-arg"@);
    lemma_dashed(text, "--extra-arg", "-extra-arg", "extra-arg");
}

/// Whether an argument is an option under one of two names, with any value or
/// none.
pub open spec fn option_given(arg: Seq<u8>, long: &str, short: &str) -> bool {
    ||| names(arg, long)
    ||| names(arg, short)
    ||| exists|value: Seq<u8>| gives(arg, long, value)
    ||| exists|value: Seq<u8>| gives(arg, short, value)
}

proof fn lemma_given_prefix(arg: Seq<u8>, name: &str)
    ensures
        names(arg, name) ==> name.spec_bytes().is_prefix_of(text_of(arg)),
        (exists|value: Seq<u8>| gives(arg, name, value)) ==> name.spec_bytes().is_prefix_of(
            text_of(arg),
        ),
{
    let n = name.spec_bytes();
    if names(arg, name) {
        assert(n =~= text_of(arg).subrange(0, n.len() as int));
    }
    if exists|value: Seq<u8>| gives(arg, name, value) {
        let value = choose|value: Seq<u8>| gives(arg, name, value);
        assert(n =~= text_of(arg).subrange(0, n.len() as int));
    }
}

/// Of the known options, those that say which checks are made, how they are
/// configured and which compile flags come on top bear on the configuration,
/// in either spelling and with any value.
pub proof fn law_config_options_given(arg: Seq<u8>)
    ensures
        option_given(arg, "--checks", "-checks") ==> config_option(text_of(arg)),
        option_given(arg, "--config", "-config") ==> config_option(text_of(arg)),
        option_given(arg, "--config-file", "-config-file") ==> config_option(text_of(arg)),
        option_given(arg, "--extra-arg", "-extra-arg") ==> config_option(text_of(arg)),
        option_given(arg, "--extra-arg-before", "-extra-arg-before") ==> config_option(
            text_of(arg),
        ),
{
    lemma_given_prefix(arg, "--checks");
    lemma_given_prefix(arg, "-checks");
    lemma_given_prefix(arg, "--config");
    lemma_given_prefix(arg, "-config");
    lemma_given_prefix(arg, "--config-file");
    lemma_given_prefix(arg, "-config-file");
    lemma_given_prefix(arg, "--extra-arg");
    lemma_given_prefix(arg, "-extra-arg");
    lemma_given_prefix(arg, "--extra-arg-before");
    lemma_given_prefix(arg, "-extra-arg-before");
    law_config_prefixes(text_of(arg));
}

/// A list is cut at its first separator: what comes before it, and the
/// separator with all that follows. A list without one comes before it whole.
pub proof fn law_cut(tidy: Seq<Seq<u8>>, behind: Seq<Seq<u8>>)
    requires
        !tidy.contains(separator()),
    ensures
        before_separator(tidy) == tidy,
        from_separator(tidy).len() == 0,
        before_separator(tidy.push(separator()) + behind) == tidy,
        from_separator(tidy.push(separator()) + behind) == seq![separator()] + behind,
{
    lemma_cut_at_separator(tidy, behind);
    assert(from_separator(tidy.push(separator()) + behind) =~= seq![separator()] + behind);
}

/// The compiler is the argument right behind the first separator, if it looks
/// like one. Everything else behind it, separators aside, is a flag, in order.
pub proof fn law_behind(tidy: Seq<Seq<u8>>, first: Seq<u8>, rest: Seq<Seq<u8>>)
    requires
        !tidy.contains(separator()),
    ensures
        named_compiler(tidy) is None,
        flags_behind(tidy).len() == 0,
        named_compiler(tidy.push(separator())) is None,
        flags_behind(tidy.push(separator())).len() == 0,
        first != separator() && likely_compiler(text_of(first)) ==> {
            &&& named_compiler(tidy.push(separator()) + (seq![first] + rest)) == Some(first)
            &&& flags_behind(tidy.push(separator()) + (seq![first] + rest)) == rest.filter(
                |arg: Seq<u8>| arg != separator(),
            )
        },
        !(first != separator() && likely_compiler(text_of(first))) ==> {
            &&& named_compiler(tidy.push(separator()) + (seq![first] + rest)) is None
            &&& flags_behind(tidy.push(separator()) + (seq![first] + rest)) == (seq![first]
                + rest).filter(|arg: Seq<u8>| arg != separator())
        },
{
    reveal(Seq::filter);
    let all = tidy.push(separator()) + (seq![first] + rest);
    lemma_cut_at_separator(tidy, seq![first] + rest);
    lemma_cut_at_separator(tidy, Seq::empty());
    assert(tidy.push(separator()) + Seq::<Seq<u8>>::empty() =~= tidy.push(separator()));
    assert(tidy.push(separator()).skip(tidy.len() as int + 1) =~= Seq::<Seq<u8>>::empty());
    assert(all[tidy.len() as int + 1] == first);
    assert(all.skip(tidy.len() as int + 2) =~= rest);
    assert(all.skip(tidy.len() as int + 1) =~= seq![first] + rest);
}

/// Whether a list can be followed by a flag that is taken for itself: its
/// last argument is no separate `-o`.
pub open spec fn closed_list(flags: Seq<Seq<u8>>) -> bool {
    flags.len() == 0 || flags.last() != seq![45u8, 111]
}

proof fn lemma_dash_o()
    ensures
        "-o".spec_bytes() == seq![45u8, 111],
{
    reveal_strlit("-o");
    assert(is_ascii("-o"));
    assert("-o".spec_bytes() =~= seq![45u8, 111]);
}

proof fn lemma_operand_shift(front: Seq<Seq<u8>>, back: Seq<Seq<u8>>, i: int)
    requires
        closed_list(front),
        0 <= i <= back.len(),
    ensures
        output_operand(front + back, front.len() + i) == output_operand(back, i),
    decreases i,
{
    let all = front + back;
    lemma_dash_o();
    if i == 0 {
        if front.len() > 0 {
            assert(all[front.len() - 1] == front.last());
        }
    } else {
        lemma_operand_shift(front, back, i - 1);
        assert(all[front.len() + i - 1] == back[i - 1]);
    }
}

/// Output flags are dropped from two lists put together as from each alone,
/// as long as the first does not end in a separate `-o`.
pub proof fn law_outputs_split(front: Seq<Seq<u8>>, back: Seq<Seq<u8>>)
    requires
        closed_list(front),
    ensures
        without_outputs(front + back) == without_outputs(front) + without_outputs(back),
    decreases back.len(),
{
    let all = front + back;
    if back.len() == 0 {
        assert(all =~= front);
        assert(without_outputs(front) + without_outputs(back) =~= without_outputs(front));
    } else {
        law_outputs_split(front, back.drop_last());
        lemma_operand_shift(front, back, back.len() - 1);
        assert(all.drop_last() =~= front + back.drop_last());
        assert(all.last() == back.last());
        assert(without_outputs(all) =~= without_outputs(front) + without_outputs(back));
    }
}

proof fn lemma_operand_behind_pair(file: Seq<u8>, back: Seq<Seq<u8>>, i: int)
    requires
        0 <= i <= back.len(),
    ensures
        output_operand(seq![seq![45u8, 111], file] + back, i + 2) == output_operand(back, i),
    decreases i,
{
    let all = seq![seq![45u8, 111], file] + back;
    lemma_dash_o();
    if i == 0 {
        reveal_with_fuel(output_operand, 3);
        assert(all[0] == seq![45u8, 111]);
        assert(output_operand(all, 1));
    } else {
        lemma_operand_behind_pair(file, back, i - 1);
        assert(all[i + 1] == back[i - 1]);
    }
}

proof fn lemma_pair_dropped(file: Seq<u8>, back: Seq<Seq<u8>>)
    ensures
        without_outputs(seq![seq![45u8, 111], file] + back) == without_outputs(back),
    decreases back.len(),
{
    let pair = seq![seq![45u8, 111], file];
    let all = pair + back;
    if back.len() == 0 {
        assert(all =~= pair);
        law_outputs_single(file);
        assert(without_outputs(back) =~= Seq::<Seq<u8>>::empty());
    } else {
        lemma_pair_dropped(file, back.drop_last());
        lemma_operand_behind_pair(file, back, back.len() - 1);
        assert(all.drop_last() =~= pair + back.drop_last());
        assert(all.last() == back.last());
        assert(without_outputs(all) =~= without_outputs(back));
    }
}

/// A separate `-o` goes with the argument behind it, whatever that is, be it
/// another `-o`; what comes behind the two is taken as if they were not there.
pub proof fn law_output_pair(front: Seq<Seq<u8>>, file: Seq<u8>, back: Seq<Seq<u8>>)
    requires
        closed_list(front),
    ensures
        without_outputs(front + (seq![seq![45u8, 111], file] + back)) == without_outputs(front)
            + without_outputs(back),
        preprocess_flags(front + (seq![seq![45u8, 111], file] + back)) == preprocess_flags(front)
            + preprocess_flags(back),
{
    lemma_pair_dropped(file, back);
    law_outputs_split(front, seq![seq![45u8, 111], file] + back);
    Seq::filter_distributes_over_add(
        without_outputs(front),
        without_outputs(back),
        |arg: Seq<u8>| !compile_only(arg),
    );
}

/// Whether an argument by itself names an output file: it is `-o`, or reads
/// as `-o` and more, `/Fo`, `/Fe`, `/Fi` or `/Fd`.
pub open spec fn output_named(arg: Seq<u8>) -> bool {
    let text = text_of(arg);
    ||| arg == seq![45u8, 111]
    ||| text.len() > 2 && text[0] == 45 && text[1] == 111
    ||| text.len() > 2 && text[0] == 47 && text[1] == 70 && (text[2] == 111 || text[2] == 101
        || text[2] == 105 || text[2] == 100)
}

/// A single flag is dropped exactly where it names an output file; a separate
/// `-o` takes the argument behind it along, whatever that is.
pub proof fn law_outputs_single(arg: Seq<u8>)
    ensures
        without_outputs(seq![arg]) == (if output_named(arg) {
            Seq::empty()
        } else {
            seq![arg]
        }),
        without_outputs(seq![seq![45u8, 111], arg]) == Seq::<Seq<u8>>::empty(),
{
    reveal_with_fuel(without_outputs, 3);
    reveal_with_fuel(output_operand, 3);
    lemma_dash_o();
    law_output_flag(text_of(arg));
    let one = seq![arg];
    assert(one.drop_last() =~= Seq::<Seq<u8>>::empty());
    assert(Seq::<Seq<u8>>::empty().push(arg) =~= one);
    let two = seq![seq![45u8, 111], arg];
    assert(two.drop_last() =~= seq![seq![45u8, 111]]);
    assert(two.drop_last().drop_last() =~= Seq::<Seq<u8>>::empty());
    assert(two[0] == seq![45u8, 111]);
    assert(output_operand(two, 1));
}

/// A compile flag that names no output file and is not the file of a separate
/// `-o` reaches the `clang-tidy` run, where it stood among the others.
pub proof fn law_flag_reaches_run(
    tidy: Seq<Seq<u8>>,
    front: Seq<Seq<u8>>,
    arg: Seq<u8>,
    back: Seq<Seq<u8>>,
    input: Seq<u8>,
)
    requires
        !tidy.contains(separator()),
        closed_list(front),
        !output_named(arg),
    ensures
        tidy_run_arguments(tidy.push(separator()) + (front + seq![arg] + back), input)
            == seq![input] + tidy + (seq![separator()] + without_outputs(front) + seq![arg]
            + without_outputs(back)),
{
    let flags = front + seq![arg] + back;
    let common = tidy.push(separator()) + flags;
    law_cut(tidy, flags);
    law_separator();
    lemma_text_of_str("--");
    let head = seq![separator()];
    assert(closed_list(head));
    law_outputs_split(head, flags);
    law_outputs_single(separator());
    assert(!output_named(separator()));
    law_outputs_single(arg);
    law_outputs_split(front, seq![arg] + back);
    assert(flags =~= front + (seq![arg] + back));
    law_outputs_split(seq![arg], back);
    assert(tidy_run_arguments(common, input) =~= seq![input] + tidy + (head + without_outputs(front)
        + seq![arg] + without_outputs(back)));
}

/// Without a separator the `clang-tidy` run is given the source file and the
/// arguments; with one, the separator and the flags behind it that are left
/// when output flags are dropped follow.
pub proof fn law_run_arguments(tidy: Seq<Seq<u8>>, flags: Seq<Seq<u8>>, input: Seq<u8>)
    requires
        !tidy.contains(separator()),
    ensures
        tidy_run_arguments(tidy, input) == seq![input] + tidy,
        tidy_run_arguments(tidy.push(separator()) + flags, input) == seq![input] + tidy + (
        seq![separator()] + without_outputs(flags)),
{
    law_cut(tidy, flags);
    law_separator();
    lemma_text_of_str("--");
    law_outputs_split(seq![separator()], flags);
    law_outputs_single(separator());
    assert(from_separator(tidy) =~= Seq::<Seq<u8>>::empty());
    assert(tidy_run_arguments(tidy, input) =~= seq![input] + tidy);
}

/// Whether an argument asks to compile without linking: `-c` or `/c`.
pub open spec fn compiles_only(arg: Seq<u8>) -> bool {
    arg == seq![45u8, 99] || arg == seq![47u8, 99]
}

/// The preprocessing run is given the compile flags one by one, without those
/// that name an output file and without `-c` and `/c`.
pub proof fn law_preprocess_split(front: Seq<Seq<u8>>, arg: Seq<u8>, back: Seq<Seq<u8>>)
    requires
        closed_list(front),
    ensures
        preprocess_flags(front + back) == preprocess_flags(front) + preprocess_flags(back),
        preprocess_flags(seq![arg]) == (if output_named(arg) || compiles_only(arg) {
            Seq::empty()
        } else {
            seq![arg]
        }),
        preprocess_flags(seq![seq![45u8, 111], arg]) == Seq::<Seq<u8>>::empty(),
{
    let keep = |arg: Seq<u8>| !compile_only(arg);
    law_outputs_split(front, back);
    Seq::filter_distributes_over_add(without_outputs(front), without_outputs(back), keep);
    law_outputs_single(arg);
    reveal_with_fuel(Seq::filter, 2);
    reveal_strlit("-c");
    reveal_strlit("/c");
    assert(is_ascii("-c") && is_ascii("/c"));
    assert("-c".spec_bytes() =~= seq![45u8, 99]);
    assert("/c".spec_bytes() =~= seq![47u8, 99]);
    let one = seq![arg];
    assert(one.drop_last() =~= Seq::<Seq<u8>>::empty());
    assert(Seq::<Seq<u8>>::empty().push(arg) =~= one);
    assert(one.last() == arg);
    assert(keep(arg) <==> !compiles_only(arg));
}

/// The values of an option are collected one argument at a time: one that
/// begins with either prefix gives all that follows the prefix, whatever it
/// holds; any other gives nothing.
pub proof fn law_values_push(
    args: Seq<Seq<u8>>,
    arg: Seq<u8>,
    value: Seq<u8>,
    long: &str,
    short: &str,
)
    ensures
        option_values(Seq::empty(), long, short).len() == 0,
        text_of(arg) == long.spec_bytes() + value ==> option_values(args.push(arg), long, short)
            == option_values(args, long, short).push(value),
        text_of(arg) == short.spec_bytes() + value && !long.spec_bytes().is_prefix_of(text_of(arg))
            ==> option_values(args.push(arg), long, short) == option_values(
            args,
            long,
            short,
        ).push(value),
        !long.spec_bytes().is_prefix_of(text_of(arg)) && !short.spec_bytes().is_prefix_of(
            text_of(arg),
        ) ==> option_values(args.push(arg), long, short) == option_values(args, long, short),
{
    let text = text_of(arg);
    assert(args.push(arg).drop_last() =~= args);
    if text == long.spec_bytes() + value {
        assert(long.spec_bytes() =~= text.subrange(0, long.spec_bytes().len() as int));
        assert(text.skip(long.spec_bytes().len() as int) =~= value);
    }
    if text == short.spec_bytes() + value {
        assert(short.spec_bytes() =~= text.subrange(0, short.spec_bytes().len() as int));
        assert(text.skip(short.spec_bytes().len() as int) =~= value);
    }
}

/// The values collected from two lists put together are those of each.
pub proof fn law_values_split(front: Seq<Seq<u8>>, back: Seq<Seq<u8>>, long: &str, short: &str)
    ensures
        option_values(front + back, long, short) == option_values(front, long, short)
            + option_values(back, long, short),
    decreases back.len(),
{
    let all = front + back;
    if back.len() == 0 {
        assert(all =~= front);
        assert(option_values(all, long, short) =~= option_values(front, long, short)
            + option_values(back, long, short));
    } else {
        law_values_split(front, back.drop_last(), long, short);
        assert(all.drop_last() =~= front + back.drop_last());
        assert(all.last() == back.last());
        assert(option_values(all, long, short) =~= option_values(front, long, short)
            + option_values(back, long, short));
    }
}

/// The prefixes of the two options that add compile flags, as far as they
/// tell them apart.
proof fn lemma_extra_prefixes()
    ensures
        "--extra-arg=".spec_bytes().len() == 12,
        "-extra-arg=".spec_bytes().len() == 11,
        "--extra-arg-before=".spec_bytes().len() == 19,
        "-extra-arg-before=".spec_bytes().len() == 18,
        "--extra-arg=".spec_bytes()[1] == 45,
        "-extra-arg=".spec_bytes()[1] == 101,
        "--extra-arg-before=".spec_bytes()[1] == 45,
        "-extra-arg-before=".spec_bytes()[1] == 101,
        "--extra-arg=".spec_bytes()[11] == 61,
        "-extra-arg=".spec_bytes()[10] == 61,
        "--extra-arg-before=".spec_bytes()[11] == 45,
        "-extra-arg-before=".spec_bytes()[10] == 45,
{
    reveal_strlit("--extra-arg=");
    reveal_strlit("-extra-arg=");
    reveal_strlit("--extra-arg-before=");
    reveal_strlit("-extra-arg-before=");
    assert(is_ascii("--extra-arg=") && is_ascii("-extra-arg=") && is_ascii("--extra-arg-before=")
        && is_ascii("-extra-arg-before="));
}

/// The flags that the preprocessing run takes from the arguments of
/// `clang-tidy`: those that come first, and those that come last.
pub open spec fn added_flags(args: Seq<Seq<u8>>) -> (Seq<Seq<u8>>, Seq<Seq<u8>>) {
    (
        option_values(args, "--extra-arg-before=", "-extra-arg-before="),
        option_values(args, "--extra-arg=", "-extra-arg="),
    )
}

/// Whether a text is a prefix with a value behind it.
pub open spec fn followed(arg: Seq<u8>, prefix: &str, value: Seq<u8>) -> bool {
    text_of(arg) == prefix.spec_bytes() + value
}

/// `--extra-arg-before` adds its whole value to the flags that come first and
/// nothing to those that come last; `--extra-arg` the other way round, in
/// either spelling. No other argument adds anything to either.
pub proof fn law_added_flags(args: Seq<Seq<u8>>, arg: Seq<u8>, value: Seq<u8>)
    ensures
        followed(arg, "--extra-arg-before=", value) || followed(arg, "-extra-arg-before=", value)
            ==> added_flags(args.push(arg)) == (added_flags(args).0.push(value), added_flags(
            args,
        ).1),
        followed(arg, "--extra-arg=", value) || followed(arg, "-extra-arg=", value)
            ==> added_flags(args.push(arg)) == (added_flags(args).0, added_flags(args).1.push(
            value,
        )),
        !"--extra-arg-before=".spec_bytes().is_prefix_of(text_of(arg))
            && !"-extra-arg-before=".spec_bytes().is_prefix_of(text_of(arg))
            && !"--extra-arg=".spec_bytes().is_prefix_of(text_of(arg))
            && !"-extra-arg=".spec_bytes().is_prefix_of(text_of(arg)) ==> added_flags(
            args.push(arg),
        ) == added_flags(args),
{
    let text = text_of(arg);
    lemma_extra_prefixes();
    lemma_prefix("--extra-arg-before=".spec_bytes(), text);
    lemma_prefix("-extra-arg-before=".spec_bytes(), text);
    lemma_prefix("--extra-arg=".spec_bytes(), text);
    lemma_prefix("-extra-arg=".spec_bytes(), text);
    law_values_push(args, arg, value, "--extra-arg-before=", "-extra-arg-before=");
    law_values_push(args, arg, value, "--extra-arg=", "-extra-arg=");
    if followed(arg, "--extra-arg-before=", value) {
        assert(text[1] == 45 && text[11] == 45);
    }
    if followed(arg, "-extra-arg-before=", value) {
        assert(text[1] == 101 && text[10] == 45);
    }
    if followed(arg, "--extra-arg=", value) {
        assert(text[1] == 45 && text[11] == 61);
    }
    if followed(arg, "-extra-arg=", value) {
        assert(text[1] == 101 && text[10] == 61);
    }
}

/// Whether the name of a compiler ends in `cl.exe`, in any case.
pub open spec fn named_cl(compiler: Seq<u8>) -> bool {
    let text = text_of(compiler);
    text.len() >= 6 && cased(text.skip(text.len() - 6), "cl.exe")
}

/// Flags are given as `cl` takes them exactly where an argument of
/// `clang-tidy` has `--driver-mode=cl` in it, or the name of the compiler
/// ends in `cl.exe`, in any case.
pub proof fn law_cl_driver(tidy: Seq<Seq<u8>>, compiler: Seq<u8>)
    ensures
        cl_driver(tidy, compiler) <==> named_cl(compiler) || exists|i: int|
            0 <= i < tidy.len() && has_infix(
                text_of(#[trigger] tidy[i]),
                "--driver-mode=cl".spec_bytes(),
            ),
{
    let text = text_of(compiler);
    let cl = "cl.exe".spec_bytes();
    reveal_strlit("cl.exe");
    assert(is_ascii("cl.exe"));
    assert(cl.len() == 6);
    if text.len() >= 6 {
        let tail = text.skip(text.len() - 6);
        lemma_cased(tail, "cl.exe");
        assert(lowered(text).subrange(lowered(text).len() - 6, lowered(text).len() as int)
            =~= lowered(tail));
    }
    if exists|i: int|
        0 <= i < tidy.len() && has_infix(
            text_of(#[trigger] tidy[i]),
            "--driver-mode=cl".spec_bytes(),
        ) {
        let i = choose|i: int|
            0 <= i < tidy.len() && has_infix(
                text_of(#[trigger] tidy[i]),
                "--driver-mode=cl".spec_bytes(),
            );
        assert(has_infix(text_of(tidy[i]), "--driver-mode=cl".spec_bytes()));
    }
}

/// The preprocessing run: the flags that come first, the compile flags in
/// order, the flags that come last, then `/E` or `-E`, then the source file.
pub proof fn law_preprocessor_run(
    tidy: Seq<Seq<u8>>,
    compiler: Seq<u8>,
    flags: Seq<Seq<u8>>,
    input: Seq<u8>,
)
    requires
        !tidy.contains(separator()),
        compiler != separator(),
        likely_compiler(text_of(compiler)),
    ensures
        ({
            let run = preprocessor_arguments(
                tidy.push(separator()) + (seq![compiler] + flags),
                compiler,
                input,
            );
            let kept = preprocess_flags(flags.filter(|arg: Seq<u8>| arg != separator()));
            let (first, last) = added_flags(tidy);
            let n = run.len() as int;
            &&& first.is_prefix_of(run)
            &&& run.skip(first.len() as int).take(kept.len() as int) == kept
            &&& run.skip(first.len() + kept.len() as int).take(last.len() as int) == last
            &&& n == first.len() + kept.len() + last.len() + 2
            &&& run[n - 2] == (if cl_driver(tidy, compiler) {
                seq![47u8, 69]
            } else {
                seq![45u8, 69]
            })
            &&& run[n - 1] == input
        }),
{
    let common = tidy.push(separator()) + (seq![compiler] + flags);
    let run = preprocessor_arguments(common, compiler, input);
    law_behind(tidy, compiler, flags);
    law_cut(tidy, seq![compiler] + flags);
    let kept = preprocess_flags(flags.filter(|arg: Seq<u8>| arg != separator()));
    let (first, last) = added_flags(tidy);
    reveal_strlit("/E");
    reveal_strlit("-E");
    assert(is_ascii("/E") && is_ascii("-E"));
    assert("/E".spec_bytes() =~= seq![47u8, 69]);
    assert("-E".spec_bytes() =~= seq![45u8, 69]);
    assert(first =~= run.subrange(0, first.len() as int));
    assert(run.skip(first.len() as int).take(kept.len() as int) =~= kept);
    assert(run.skip(first.len() + kept.len() as int).take(last.len() as int) =~= last);
}

/// The arguments `prefix` and a value behind it, for every value of a list.
pub open spec fn prefixed(prefix: &str, values: Seq<Seq<u8>>) -> Seq<Seq<u8>> {
    Seq::new(values.len(), |i: int| prefix.spec_bytes() + values[i])
}

proof fn lemma_prefixed(values: Seq<Seq<u8>>)
    requires
        forall|i: int| 0 <= i < values.len() ==> valid_utf8(#[trigger] values[i]),
    ensures
        added_flags(prefixed("--extra-arg-before=", values)) == (
            values,
            Seq::<Seq<u8>>::empty(),
        ),
        added_flags(prefixed("--extra-arg=", values)) == (Seq::<Seq<u8>>::empty(), values),
    decreases values.len(),
{
    let before = prefixed("--extra-arg-before=", values);
    let after = prefixed("--extra-arg=", values);
    if values.len() > 0 {
        let value = values.last();
        let shorter = values.drop_last();
        assert(valid_utf8(value));
        assert forall|i: int| 0 <= i < shorter.len() implies valid_utf8(#[trigger] shorter[i]) by {
            assert(shorter[i] == values[i]);
        }
        lemma_prefixed(shorter);
        encode_utf8_valid_utf8("--extra-arg-before="@);
        valid_utf8_concat("--extra-arg-before=".spec_bytes(), value);
        lemma_text_of_valid("--extra-arg-before=".spec_bytes() + value);
        encode_utf8_valid_utf8("--extra-arg="@);
        valid_utf8_concat("--extra-arg=".spec_bytes(), value);
        lemma_text_of_valid("--extra-arg=".spec_bytes() + value);
        assert(before =~= prefixed("--extra-arg-before=", shorter).push(before.last()));
        assert(after =~= prefixed("--extra-arg=", shorter).push(after.last()));
        law_added_flags(prefixed("--extra-arg-before=", shorter), before.last(), value);
        law_added_flags(prefixed("--extra-arg=", shorter), after.last(), value);
        assert(shorter.push(value) =~= values);
    } else {
        assert(values =~= Seq::<Seq<u8>>::empty());
    }
}

/// Whatever values are given to the two options that add compile flags, the
/// preprocessing run takes all of them over, each whole: those of
/// `--extra-arg-before` in front of the compile flags and those of
/// `--extra-arg` behind them, followed by the preprocessing flag and the
/// source file.
pub proof fn law_values_reach_preprocessor(
    befores: Seq<Seq<u8>>,
    afters: Seq<Seq<u8>>,
    compiler: Seq<u8>,
    flags: Seq<Seq<u8>>,
    input: Seq<u8>,
)
    requires
        forall|i: int| 0 <= i < befores.len() ==> valid_utf8(#[trigger] befores[i]),
        forall|i: int| 0 <= i < afters.len() ==> valid_utf8(#[trigger] afters[i]),
        compiler != separator(),
        likely_compiler(text_of(compiler)),
    ensures
        ({
            let tidy = prefixed("--extra-arg-before=", befores) + prefixed("--extra-arg=", afters);
            let run = preprocessor_arguments(
                tidy.push(separator()) + (seq![compiler] + flags),
                compiler,
                input,
            );
            let kept = preprocess_flags(flags.filter(|arg: Seq<u8>| arg != separator()));
            &&& run.len() == befores.len() + kept.len() + afters.len() + 2
            &&& run.take(run.len() - 2) == befores + kept + afters
            &&& run.last() == input
        }),
{
    let front = prefixed("--extra-arg-before=", befores);
    let back = prefixed("--extra-arg=", afters);
    let tidy = front + back;
    lemma_prefixed(befores);
    lemma_prefixed(afters);
    law_values_split(front, back, "--extra-arg-before=", "-extra-arg-before=");
    law_values_split(front, back, "--extra-arg=", "-extra-arg=");
    assert(befores + Seq::<Seq<u8>>::empty() =~= befores);
    assert(Seq::<Seq<u8>>::empty() + afters =~= afters);
    assert(added_flags(tidy) == (befores, afters));
    law_separator();
    lemma_extra_prefixes();
    assert(!tidy.contains(separator())) by {
        if tidy.contains(separator()) {
            let i = choose|i: int| 0 <= i < tidy.len() && tidy[i] == separator();
            if i < front.len() {
                assert(tidy[i].len() >= 19);
            } else {
                assert(tidy[i].len() >= 12);
            }
        }
    }
    law_preprocessor_run(tidy, compiler, flags, input);
    let run = preprocessor_arguments(
        tidy.push(separator()) + (seq![compiler] + flags),
        compiler,
        input,
    );
    let kept = preprocess_flags(flags.filter(|arg: Seq<u8>| arg != separator()));
    let n = befores.len() as int;
    let m = n + kept.len();
    assert(run.take(run.len() - 2) =~= run.subrange(0, n) + run.skip(n).take(kept.len() as int)
        + run.skip(m).take(afters.len() as int));
}

/// An `--extra-arg` or `--extra-arg-before` anywhere before the separator has
/// its whole value among the arguments of the preprocessing run, whatever
/// bytes the value holds.
pub proof fn law_extra_arg_reaches_preprocessor(
    front: Seq<Seq<u8>>,
    arg: Seq<u8>,
    value: Seq<u8>,
    back: Seq<Seq<u8>>,
    behind: Seq<Seq<u8>>,
    compiler: Seq<u8>,
    input: Seq<u8>,
)
    requires
        !(front.push(arg) + back).contains(separator()),
        followed(arg, "--extra-arg-before=", value) || followed(arg, "-extra-arg-before=", value)
            || followed(arg, "--extra-arg=", value) || followed(arg, "-extra-arg=", value),
    ensures
        preprocessor_arguments(
            (front.push(arg) + back).push(separator()) + behind,
            compiler,
            input,
        ).contains(value),
{
    let tidy = front.push(arg) + back;
    let run = preprocessor_arguments(tidy.push(separator()) + behind, compiler, input);
    law_cut(tidy, behind);
    law_added_flags(front, arg, value);
    law_values_split(front.push(arg), back, "--extra-arg-before=", "-extra-arg-before=");
    law_values_split(front.push(arg), back, "--extra-arg=", "-extra-arg=");
    let (first, last) = added_flags(tidy);
    let kept = preprocess_flags(flags_behind(tidy.push(separator()) + behind));
    if followed(arg, "--extra-arg-before=", value) || followed(arg, "-extra-arg-before=", value) {
        let k = added_flags(front).0.len() as int;
        assert(first[k] == value);
        assert(run[k] == value);
    } else {
        let k = added_flags(front).1.len() as int;
        assert(last[k] == value);
        assert(run[first.len() + kept.len() + k] == value);
    }
}

/// The arguments of the run that prints the configuration.
#[verifier::spinoff_prover]
pub proof fn lemma_dump(tidy: Seq<Seq<u8>>, rest: Seq<Seq<u8>>, input: Seq<u8>)
    requires
        !tidy.contains(separator()),
        rest.len() > 0 ==> rest[0] == separator(),
    ensures
        dump_config_arguments(tidy + rest, input) == seq!["--dump-config".spec_bytes()]
            + tidy.filter(|arg: Seq<u8>| configures(text_of(arg))) + seq![input] + rest,
{
    let keep = |arg: Seq<u8>| configures(text_of(arg));
    let behind = rest.skip(1);
    assert forall|arg: Seq<u8>| configures(text_of(arg)) == #[trigger] config_option(
        text_of(arg),
    ) by {
        law_config_option(text_of(arg));
    }
    assert(keep =~= (|arg: Seq<u8>| config_option(text_of(arg))));
    law_cut(tidy, behind);
    if rest.len() > 0 {
        assert(rest =~= seq![separator()] + behind);
        assert(tidy + rest =~= tidy.push(separator()) + behind);
    } else {
        assert(tidy + rest =~= tidy);
        assert(from_separator(tidy) =~= rest);
    }
    assert(dump_config_arguments(tidy + rest, input) =~= seq!["--dump-config".spec_bytes()]
        + tidy.filter(keep) + seq![input] + rest);
}

/// Whether an option bears on the configuration: behind one dash or two it
/// begins with `checks`, `config` or `extra-arg`.
pub open spec fn configures(text: Seq<u8>) -> bool {
    dashed(text, "checks") || dashed(text, "config") || dashed(text, "extra-arg")
}

/// The run that prints the configuration takes the arguments of `clang-tidy`
/// over one by one: one that bears on the configuration, behind the others
/// and before the source file; any other, not at all. With none of them it is
/// given `--dump-config`, the source file, and all from the separator on.
#[verifier::spinoff_prover]
pub proof fn law_dump_config(
    tidy: Seq<Seq<u8>>,
    arg: Seq<u8>,
    rest: Seq<Seq<u8>>,
    input: Seq<u8>,
)
    requires
        !tidy.contains(separator()),
        arg != separator(),
        rest.len() > 0 ==> rest[0] == separator(),
    ensures
        dump_config_arguments(rest, input) == seq!["--dump-config".spec_bytes(), input] + rest,
        ({
            let without = dump_config_arguments(tidy + rest, input);
            let with = dump_config_arguments(tidy.push(arg) + rest, input);
            if configures(text_of(arg)) {
                with == without.insert(without.len() - rest.len() - 1, arg)
            } else {
                with == without
            }
        }),
{
    let keep = |arg: Seq<u8>| configures(text_of(arg));
    let longer = tidy.push(arg);
    let none = Seq::<Seq<u8>>::empty();
    lemma_push_unseparated(tidy, arg);
    lemma_dump(none, rest, input);
    lemma_dump(tidy, rest, input);
    lemma_dump(longer, rest, input);
    assert(none + rest =~= rest);
    assert(none.filter(keep) =~= none) by {
        reveal(Seq::filter);
    }
    assert(dump_config_arguments(rest, input) =~= seq!["--dump-config".spec_bytes(), input] + rest);
    assert(longer.filter(keep) == (if keep(arg) {
        tidy.filter(keep).push(arg)
    } else {
        tidy.filter(keep)
    })) by {
        reveal(Seq::filter);
        assert(longer.drop_last() =~= tidy);
    }
    let without = dump_config_arguments(tidy + rest, input);
    let with = dump_config_arguments(longer + rest, input);
    if configures(text_of(arg)) {
        assert(with =~= without.insert(without.len() - rest.len() - 1, arg));
    }
}

proof fn lemma_push_unseparated(args: Seq<Seq<u8>>, arg: Seq<u8>)
    requires
        !args.contains(separator()),
        arg != separator(),
    ensures
        !args.push(arg).contains(separator()),
{
    let all = args.push(arg);
    if all.contains(separator()) {
        let i = choose|i: int| 0 <= i < all.len() && all[i] == separator();
        if i < args.len() {
            assert(args[i] == separator());
        }
    }
}

} // verus!
