//! The commands that are run.

use vstd::prelude::*;
use vstd::string::*;

use crate::bytes::{
    contains, contents, copied, ends_with, has_infix, lowered, push_copy, ref_contents, starts_with,
    to_ascii_lowercase,
};
use crate::flags::{
    affects_dump_config, before_separator, config_option, flags_behind,
    is_concatenated_output_flag, lemma_before_separator, named_compiler, output_flag,
    split_at_double_dash,
};
use crate::parsed::ParsedArguments;
use crate::text::{reads_as, text_of, to_string_lossy};

verus! {

/// A command: what is run, with which arguments, in which environment and in
/// which directory. The environment holds these variables and no others.
pub struct SingleCompileCommand {
    pub executable: Vec<u8>,
    pub arguments: Vec<Vec<u8>>,
    pub env_vars: Vec<(Vec<u8>, Vec<u8>)>,
    pub cwd: Vec<u8>,
}

/// The model of a [`SingleCompileCommand`].
#[verifier::ext_equal]
pub struct CommandView {
    pub executable: Seq<u8>,
    pub arguments: Seq<Seq<u8>>,
    pub env_vars: Seq<(Seq<u8>, Seq<u8>)>,
    pub cwd: Seq<u8>,
}

/// The model of a list of environment variables.
pub open spec fn env_contents(vars: Seq<(Vec<u8>, Vec<u8>)>) -> Seq<(Seq<u8>, Seq<u8>)> {
    Seq::new(vars.len(), |i: int| (vars[i].0@, vars[i].1@))
}

impl View for SingleCompileCommand {
    type V = CommandView;

    open spec fn view(&self) -> CommandView {
        CommandView {
            executable: self.executable@,
            arguments: contents(self.arguments@),
            env_vars: env_contents(self.env_vars@),
            cwd: self.cwd@,
        }
    }
}

/// A copy of a list of environment variables.
pub fn copied_env(vars: &[(Vec<u8>, Vec<u8>)]) -> (r: Vec<(Vec<u8>, Vec<u8>)>)
    ensures
        env_contents(r@) == env_contents(vars@),
{
    let mut r: Vec<(Vec<u8>, Vec<u8>)> = Vec::new();
    let mut i: usize = 0;
    while i < vars.len()
        invariant
            i <= vars@.len(),
            r@.len() == i,
            forall|j: int|
                #![trigger r@[j]]
                0 <= j < i ==> r@[j].0@ == vars@[j].0@ && r@[j].1@ == vars@[j].1@,
        decreases vars@.len() - i,
    {
        r.push((copied(vars[i].0.as_slice()), copied(vars[i].1.as_slice())));
        i += 1;
    }
    assert(env_contents(r@) =~= env_contents(vars@));
    r
}

/// A copy of a list of byte strings.
pub fn copied_list(list: &[Vec<u8>]) -> (r: Vec<Vec<u8>>)
    ensures
        contents(r@) == contents(list@),
{
    let mut r: Vec<Vec<u8>> = Vec::new();
    let mut i: usize = 0;
    while i < list.len()
        invariant
            i <= list@.len(),
            r@.len() == i,
            forall|j: int| #![trigger r@[j]] 0 <= j < i ==> r@[j]@ == list@[j]@,
        decreases list@.len() - i,
    {
        r.push(copied(list[i].as_slice()));
        i += 1;
    }
    assert(contents(r@) =~= contents(list@));
    r
}

/// The arguments from the first separator on.
pub open spec fn from_separator(args: Seq<Seq<u8>>) -> Seq<Seq<u8>> {
    args.skip(before_separator(args).len() as int)
}

/// The arguments of the run that prints the effective configuration: the
/// options that bear on it, the source file, and everything from the
/// separator on.
pub open spec fn dump_config_arguments(common: Seq<Seq<u8>>, input: Seq<u8>) -> Seq<Seq<u8>> {
    seq!["--dump-config".spec_bytes()] + before_separator(common).filter(
        |arg: Seq<u8>| config_option(text_of(arg)),
    ).push(input) + from_separator(common)
}

/// The run of `clang-tidy` that prints the effective configuration.
pub fn dump_config_command(
    executable: &[u8],
    parsed_args: &ParsedArguments,
    cwd: &[u8],
    env_vars: &[(Vec<u8>, Vec<u8>)],
) -> (r: SingleCompileCommand)
    ensures
        r@ == (CommandView {
            executable: executable@,
            arguments: dump_config_arguments(parsed_args@.common_args, parsed_args@.input),
            env_vars: env_contents(env_vars@),
            cwd: cwd@,
        }),
{
    let ghost common = parsed_args@.common_args;
    let ghost keep = |arg: Seq<u8>| config_option(text_of(arg));
    let ghost head = seq!["--dump-config".spec_bytes()];
    let mut arguments: Vec<Vec<u8>> = Vec::new();
    push_copy(&mut arguments, "--dump-config".as_bytes());
    let (tidy, _, _) = split_at_double_dash(parsed_args.common_args.as_slice());
    let ghost tidy_view = ref_contents(tidy@);
    assert(contents(arguments@) =~= head + tidy_view.take(0).filter(keep)) by {
        reveal(Seq::filter);
    }
    let mut i: usize = 0;
    while i < tidy.len()
        invariant
            i <= tidy@.len(),
            tidy_view == ref_contents(tidy@),
            keep == (|arg: Seq<u8>| config_option(text_of(arg))),
            contents(arguments@) == head + tidy_view.take(i as int).filter(keep),
        decreases tidy@.len() - i,
    {
        let ghost now = tidy_view.take(i + 1);
        let lossy: String = to_string_lossy(tidy[i].as_slice());
        if affects_dump_config(lossy.as_str()) {
            push_copy(&mut arguments, tidy[i].as_slice());
        }
        proof {
            reveal(Seq::filter);
            assert(now.drop_last() == tidy_view.take(i as int));
            assert(contents(arguments@) =~= head + now.filter(keep));
        }
        i += 1;
    }
    assert(tidy_view.take(i as int) == tidy_view);
    push_copy(&mut arguments, parsed_args.input.as_slice());
    let ghost front = head + tidy_view.filter(keep).push(parsed_args@.input);
    assert(contents(arguments@) =~= front);
    let n: usize = tidy.len();
    proof {
        lemma_before_separator(common);
    }
    let mut j: usize = n;
    while j < parsed_args.common_args.len()
        invariant
            n <= j <= parsed_args.common_args@.len(),
            common == contents(parsed_args.common_args@),
            contents(arguments@) == front + common.subrange(n as int, j as int),
        decreases parsed_args.common_args@.len() - j,
    {
        push_copy(&mut arguments, parsed_args.common_args[j].as_slice());
        assert(contents(arguments@) =~= front + common.subrange(n as int, j + 1));
        j += 1;
    }
    assert(common.subrange(n as int, j as int) == from_separator(common));
    let r = SingleCompileCommand {
        executable: copied(executable),
        arguments,
        env_vars: copied_env(env_vars),
        cwd: copied(cwd),
    };
    assert(r@.arguments =~= dump_config_arguments(common, parsed_args@.input));
    r
}

/// Whether the argument at `i` is the file of a separate `-o`.
pub open spec fn output_operand(flags: Seq<Seq<u8>>, i: int) -> bool
    decreases i,
{
    &&& 0 < i <= flags.len()
    &&& flags[i - 1] == "-o".spec_bytes()
    &&& !output_operand(flags, i - 1)
}

/// Compile flags without those that name an output file, be it within
/// themselves or in the argument behind them.
pub open spec fn without_outputs(flags: Seq<Seq<u8>>) -> Seq<Seq<u8>>
    decreases flags.len(),
{
    if flags.len() == 0 {
        Seq::empty()
    } else {
        let arg = flags.last();
        let earlier = without_outputs(flags.drop_last());
        if output_operand(flags, flags.len() - 1) || arg == "-o".spec_bytes() || output_flag(
            text_of(arg),
        ) {
            earlier
        } else {
            earlier.push(arg)
        }
    }
}

/// Whether an argument asks to compile without linking.
pub open spec fn compile_only(arg: Seq<u8>) -> bool {
    arg == "-c".spec_bytes() || arg == "/c".spec_bytes()
}

proof fn lemma_output_operand_prefix(flags: Seq<Seq<u8>>, front: Seq<Seq<u8>>, i: int)
    requires
        front.is_prefix_of(flags),
        i <= front.len(),
    ensures
        output_operand(front, i) == output_operand(flags, i),
    decreases i,
{
    if i > 0 {
        lemma_output_operand_prefix(flags, front, i - 1);
        assert(front[i - 1] == flags[i - 1]);
    }
}

/// Copies compile flags without those that name an output file.
pub(crate) fn drop_output_flags(flags: &[&Vec<u8>]) -> (r: Vec<Vec<u8>>)
    ensures
        contents(r@) == without_outputs(ref_contents(flags@)),
{
    let ghost all = ref_contents(flags@);
    let mut r: Vec<Vec<u8>> = Vec::new();
    let mut skip_next: bool = false;
    assert(contents(r@) =~= without_outputs(all.take(0)));
    let mut i: usize = 0;
    while i < flags.len()
        invariant
            i <= flags@.len(),
            all == ref_contents(flags@),
            skip_next == output_operand(all, i as int),
            contents(r@) == without_outputs(all.take(i as int)),
        decreases flags@.len() - i,
    {
        let arg: &[u8] = flags[i].as_slice();
        let ghost now = all.take(i + 1);
        proof {
            assert(now.drop_last() == all.take(i as int));
            lemma_output_operand_prefix(all, now, i as int);
            reveal_strlit("-o");
        }
        if skip_next {
            skip_next = false;
        } else if reads_as(arg, "-o") {
            skip_next = true;
        } else {
            let lossy: String = to_string_lossy(arg);
            if !is_concatenated_output_flag(lossy.as_str()) {
                push_copy(&mut r, arg);
            }
        }
        i += 1;
    }
    assert(all.take(i as int) == all);
    r
}

/// The value of an option that is written under one of two prefixes.
pub open spec fn option_suffix(text: Seq<u8>, long: &str, short: &str) -> Option<Seq<u8>> {
    if long.spec_bytes().is_prefix_of(text) {
        Some(text.skip(long.spec_bytes().len() as int))
    } else if short.spec_bytes().is_prefix_of(text) {
        Some(text.skip(short.spec_bytes().len() as int))
    } else {
        None
    }
}

/// The values of all options that are written under one of two prefixes, in
/// order.
pub open spec fn option_values(args: Seq<Seq<u8>>, long: &str, short: &str) -> Seq<Seq<u8>>
    decreases args.len(),
{
    if args.len() == 0 {
        Seq::empty()
    } else {
        let earlier = option_values(args.drop_last(), long, short);
        match option_suffix(text_of(args.last()), long, short) {
            Some(value) => earlier.push(value),
            None => earlier,
        }
    }
}

/// Collects the values of all options that are written under one of two
/// prefixes.
fn collect_values(args: &[&Vec<u8>], long: &str, short: &str) -> (r: Vec<Vec<u8>>)
    ensures
        contents(r@) == option_values(ref_contents(args@), long, short),
{
    let ghost all = ref_contents(args@);
    let mut r: Vec<Vec<u8>> = Vec::new();
    assert(contents(r@) =~= option_values(all.take(0), long, short));
    let mut i: usize = 0;
    while i < args.len()
        invariant
            i <= args@.len(),
            all == ref_contents(args@),
            contents(r@) == option_values(all.take(i as int), long, short),
        decreases args@.len() - i,
    {
        assert(all.take(i + 1).drop_last() == all.take(i as int));
        let lossy: String = to_string_lossy(args[i].as_slice());
        let text: &[u8] = lossy.as_str().as_bytes();
        if starts_with(text, long.as_bytes()) {
            let value: &[u8] = vstd::slice::slice_subrange(
                text,
                long.as_bytes().len(),
                text.len(),
            );
            assert(value@ == text@.skip(long.spec_bytes().len() as int));
            push_copy(&mut r, value);
        } else if starts_with(text, short.as_bytes()) {
            let value: &[u8] = vstd::slice::slice_subrange(
                text,
                short.as_bytes().len(),
                text.len(),
            );
            assert(value@ == text@.skip(short.spec_bytes().len() as int));
            push_copy(&mut r, value);
        }
        i += 1;
    }
    assert(all.take(i as int) == all);
    r
}

/// Whether the compiler takes its flags as `cl` does: an option says so, or
/// the compiler's name ends in `cl.exe`, in any case.
pub open spec fn cl_driver(tidy: Seq<Seq<u8>>, compiler: Seq<u8>) -> bool {
    ||| exists|i: int|
        0 <= i < tidy.len() && has_infix(#[trigger] text_of(tidy[i]), "--driver-mode=cl".spec_bytes())
    ||| "cl.exe".spec_bytes().is_suffix_of(lowered(text_of(compiler)))
}

/// Whether the compiler takes its flags as `cl` does.
fn is_cl_driver(tidy: &[&Vec<u8>], compiler: &[u8]) -> (r: bool)
    ensures
        r == cl_driver(ref_contents(tidy@), compiler@),
{
    let ghost all = ref_contents(tidy@);
    let mut i: usize = 0;
    while i < tidy.len()
        invariant
            i <= tidy@.len(),
            all == ref_contents(tidy@),
            forall|j: int|
                0 <= j < i ==> !has_infix(
                    #[trigger] text_of(all[j]),
                    "--driver-mode=cl".spec_bytes(),
                ),
        decreases tidy@.len() - i,
    {
        let lossy: String = to_string_lossy(tidy[i].as_slice());
        if contains(lossy.as_str().as_bytes(), "--driver-mode=cl".as_bytes()) {
            assert(has_infix(text_of(all[i as int]), "--driver-mode=cl".spec_bytes()));
            return true;
        }
        i += 1;
    }
    let lossy: String = to_string_lossy(compiler);
    let lower: Vec<u8> = to_ascii_lowercase(lossy.as_str().as_bytes());
    ends_with(lower.as_slice(), "cl.exe".as_bytes())
}

/// The compile flags that a preprocessing run is given: those that neither
/// name an output file nor ask to compile without linking.
pub open spec fn preprocess_flags(flags: Seq<Seq<u8>>) -> Seq<Seq<u8>> {
    without_outputs(flags).filter(|arg: Seq<u8>| !compile_only(arg))
}

/// The arguments of the run that preprocesses the source with `compiler`:
/// the `--extra-arg-before` values, the compile flags without output flags
/// and `-c`, the `--extra-arg` values, the preprocessing flag and the source
/// file.
pub open spec fn preprocessor_arguments(
    common: Seq<Seq<u8>>,
    compiler: Seq<u8>,
    input: Seq<u8>,
) -> Seq<Seq<u8>> {
    let tidy = before_separator(common);
    option_values(tidy, "--extra-arg-before=", "-extra-arg-before=") + preprocess_flags(
        flags_behind(common),
    ) + option_values(tidy, "--extra-arg=", "-extra-arg=") + seq![
        if cl_driver(tidy, compiler) {
            "/E".spec_bytes()
        } else {
            "-E".spec_bytes()
        },
        input,
    ]
}

/// No compiler is named behind `--`, so the source cannot be preprocessed.
#[derive(Clone, Copy, Debug, PartialEq, Eq, Structural)]
pub struct MissingCompiler;

impl MissingCompiler {
    /// The error as a message.
    pub fn message(&self) -> (r: String)
        ensures
            r@ == "clang-tidy preprocessing requires a compiler after --"@,
    {
        "clang-tidy preprocessing requires a compiler after --".to_string()
    }
}

/// The run of the underlying compiler that preprocesses the source file.
///
/// `clang-tidy` has no mode that preprocesses, so the compiler named behind
/// `--` is run with the flags that `clang-tidy` would receive.
pub fn preprocessor_command(
    parsed_args: &ParsedArguments,
    cwd: &[u8],
    env_vars: &[(Vec<u8>, Vec<u8>)],
) -> (r: Result<SingleCompileCommand, MissingCompiler>)
    ensures
        match named_compiler(parsed_args@.common_args) {
            Some(compiler) => r matches Ok(command) && command@ == (CommandView {
                executable: compiler,
                arguments: preprocessor_arguments(
                    parsed_args@.common_args,
                    compiler,
                    parsed_args@.input,
                ),
                env_vars: env_contents(env_vars@),
                cwd: cwd@,
            }),
            None => r is Err,
        },
{
    let ghost common = parsed_args@.common_args;
    let (tidy, compiler_exe, flags) = split_at_double_dash(parsed_args.common_args.as_slice());
    let compiler: &Vec<u8> = match compiler_exe {
        Some(exe) => exe,
        None => {
            return Err(MissingCompiler);
        },
    };
    let cl: bool = is_cl_driver(tidy.as_slice(), compiler.as_slice());
    let mut arguments: Vec<Vec<u8>> = collect_values(
        tidy.as_slice(),
        "--extra-arg-before=",
        "-extra-arg-before=",
    );
    let ghost front = contents(arguments@);
    let kept: Vec<Vec<u8>> = drop_output_flags(flags.as_slice());
    let ghost kept_view = contents(kept@);
    let ghost keep = |arg: Seq<u8>| !compile_only(arg);
    assert(contents(arguments@) =~= front + kept_view.take(0).filter(keep)) by {
        reveal(Seq::filter);
    }
    let mut i: usize = 0;
    while i < kept.len()
        invariant
            i <= kept@.len(),
            kept_view == contents(kept@),
            keep == (|arg: Seq<u8>| !compile_only(arg)),
            contents(arguments@) == front + kept_view.take(i as int).filter(keep),
        decreases kept@.len() - i,
    {
        let arg: &[u8] = kept[i].as_slice();
        let ghost now = kept_view.take(i + 1);
        proof {
            reveal_strlit("-c");
            reveal_strlit("/c");
        }
        if !reads_as(arg, "-c") && !reads_as(arg, "/c") {
            push_copy(&mut arguments, arg);
        }
        proof {
            reveal(Seq::filter);
            assert(now.drop_last() == kept_view.take(i as int));
            assert(contents(arguments@) =~= front + now.filter(keep));
        }
        i += 1;
    }
    assert(kept_view.take(i as int) == kept_view);
    let mut after: Vec<Vec<u8>> = collect_values(
        tidy.as_slice(),
        "--extra-arg=",
        "-extra-arg=",
    );
    let ghost middle = contents(arguments@);
    let ghost after_view = contents(after@);
    arguments.append(&mut after);
    assert(contents(arguments@) =~= middle + after_view);
    if cl {
        push_copy(&mut arguments, "/E".as_bytes());
    } else {
        push_copy(&mut arguments, "-E".as_bytes());
    }
    push_copy(&mut arguments, parsed_args.input.as_slice());
    let command = SingleCompileCommand {
        executable: copied(compiler.as_slice()),
        arguments,
        env_vars: copied_env(env_vars),
        cwd: copied(cwd),
    };
    assert(command@.arguments =~= preprocessor_arguments(
        common,
        compiler@,
        parsed_args@.input,
    ));
    Ok(command)
}

} // verus!
