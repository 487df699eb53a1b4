//! Reading a `clang-tidy` command line.

use vstd::hash_map::StringHashMap;
use vstd::prelude::*;
use vstd::string::*;
use vstd::utf8::*;

use crate::args::{
    argument_of, flag_option, lemma_option_names, name_len, option_name, read_argument,
    value_option, ArgData, Argument,
};
use crate::bytes::{contents, copied, same, DASH};
use crate::language::{file_language, Language};
use crate::parsed::{
    optional_bytes, ArtifactDescriptor, ArtifactView, ColorMode, CompilerArguments,
    CompilerArgumentsView, ParsedArguments, ParsedView,
};
use crate::paths::{join, joined};
use crate::text::lemma_text_of_valid;

verus! {

/// The argument that separates the arguments of `clang-tidy` from those of
/// the compiler.
pub open spec fn separator() -> Seq<u8> {
    "--".spec_bytes()
}

/// Whether an argument rules caching out: it has source files changed in
/// place, or points at a compilation database.
pub open spec fn refused(arg: Seq<u8>) -> bool {
    match argument_of(arg).data() {
        Some(ArgData::Fix) => true,
        Some(ArgData::FixErrors) => true,
        Some(ArgData::CompileCommandsDir(_)) => true,
        _ => false,
    }
}

/// The first argument that rules caching out.
pub open spec fn first_refused(args: Seq<Seq<u8>>) -> Option<Seq<u8>>
    decreases args.len(),
{
    if args.len() == 0 {
        None
    } else if refused(args[0]) {
        Some(args[0])
    } else {
        first_refused(args.drop_first())
    }
}

/// The source file: the first positional argument, unless a separator comes
/// before it.
pub open spec fn source_file(args: Seq<Seq<u8>>) -> Option<Seq<u8>>
    decreases args.len(),
{
    if args.len() == 0 || args[0] == separator() {
        None
    } else if argument_of(args[0]) is Raw {
        Some(args[0])
    } else {
        source_file(args.drop_first())
    }
}

/// The arguments that `clang-tidy` itself is given, in order: every known
/// option wherever it stands, and what else stands before the separator,
/// without the source file.
pub open spec fn tidy_args(args: Seq<Seq<u8>>) -> Seq<Seq<u8>>
    decreases args.len(),
{
    if args.len() == 0 {
        Seq::empty()
    } else {
        let earlier = args.drop_last();
        let arg = args.last();
        if argument_of(arg).data() is Some {
            tidy_args(earlier).push(argument_of(arg).written())
        } else if args.contains(separator()) {
            tidy_args(earlier)
        } else if argument_of(arg) is Raw && source_file(earlier) is None {
            tidy_args(earlier)
        } else {
            tidy_args(earlier).push(arg)
        }
    }
}

/// The compile flags, in order: what stands behind the first separator and is
/// no known option, without further separators.
pub open spec fn compile_flags(args: Seq<Seq<u8>>) -> Seq<Seq<u8>>
    decreases args.len(),
{
    if args.len() == 0 {
        Seq::empty()
    } else {
        let earlier = args.drop_last();
        let arg = args.last();
        if earlier.contains(separator()) && arg != separator() && argument_of(arg).data() is None {
            compile_flags(earlier).push(arg)
        } else {
            compile_flags(earlier)
        }
    }
}

/// The file that an option brings into the cache key: a plugin or a
/// configuration file, as seen from `cwd`.
pub open spec fn hashed_file(arg: Seq<u8>, cwd: Seq<u8>) -> Option<Seq<u8>> {
    match argument_of(arg).data() {
        Some(ArgData::LoadPlugin(path)) => Some(joined(cwd, path)),
        Some(ArgData::ConfigFile(path)) => Some(joined(cwd, path)),
        _ => None,
    }
}

/// The files whose contents are part of the cache key, in order.
pub open spec fn hash_files(args: Seq<Seq<u8>>, cwd: Seq<u8>) -> Seq<Seq<u8>>
    decreases args.len(),
{
    if args.len() == 0 {
        Seq::empty()
    } else {
        let earlier = hash_files(args.drop_last(), cwd);
        match hashed_file(args.last(), cwd) {
            Some(file) => earlier.push(file),
            None => earlier,
        }
    }
}

/// The file to which fixes are exported: the value of the last option that
/// names one.
pub open spec fn fixes_file(args: Seq<Seq<u8>>) -> Option<Seq<u8>>
    decreases args.len(),
{
    if args.len() == 0 {
        None
    } else {
        match argument_of(args.last()).data() {
            Some(ArgData::ExportFixes(path)) => Some(path),
            _ => fixes_file(args.drop_last()),
        }
    }
}

/// The arguments kept for later runs: those of `clang-tidy`, and behind a
/// separator the compile flags, if there are any.
pub open spec fn common_args(args: Seq<Seq<u8>>) -> Seq<Seq<u8>> {
    if compile_flags(args).len() == 0 {
        tidy_args(args)
    } else {
        tidy_args(args).push(separator()) + compile_flags(args)
    }
}

/// The output files: the exported fixes, if they are asked for.
pub open spec fn output_files(args: Seq<Seq<u8>>) -> Map<Seq<char>, ArtifactView> {
    match fixes_file(args) {
        Some(path) => Map::empty().insert(
            "fixes"@,
            ArtifactView { path, optional: true },
        ),
        None => Map::empty(),
    }
}

/// The language of a source file; C++ where its name does not tell.
pub open spec fn source_language(input: Seq<u8>) -> Language {
    match file_language(input) {
        Some(language) => language,
        None => Language::Cxx,
    }
}

/// A command line that can be handled, with `input` as its source file.
pub open spec fn parsed_view(args: Seq<Seq<u8>>, cwd: Seq<u8>, input: Seq<u8>) -> ParsedView {
    ParsedView {
        input,
        double_dash_input: false,
        language: source_language(input),
        compilation_flag: Seq::empty(),
        depfile: None,
        outputs: output_files(args),
        dependency_args: Seq::empty(),
        preprocessor_args: Seq::empty(),
        common_args: common_args(args),
        arch_args: Seq::empty(),
        unhashed_args: Seq::empty(),
        extra_dist_files: Seq::empty(),
        extra_hash_files: hash_files(args, cwd),
        msvc_show_includes: false,
        profile_generate: false,
        color_mode: ColorMode::Auto,
        suppress_rewrite_includes_only: true,
        too_hard_for_preprocessor_cache_mode: Some("clang-tidy".spec_bytes()),
    }
}

/// The answer to an argument that rules caching out.
pub open spec fn refusal(arg: Seq<u8>) -> CompilerArgumentsView<ParsedView> {
    if argument_of(arg).data() matches Some(ArgData::CompileCommandsDir(_)) {
        CompilerArgumentsView::CannotCache(
            "-p"@,
            Some("compile_commands.json not supported in POC"@),
        )
    } else {
        CompilerArgumentsView::CannotCache("-fix"@, Some("clang-tidy -fix modifies source files"@))
    }
}

/// What reading a command line gives.
pub open spec fn parse_outcome(
    args: Seq<Seq<u8>>,
    cwd: Seq<u8>,
) -> CompilerArgumentsView<ParsedView> {
    match first_refused(args) {
        Some(arg) => refusal(arg),
        None => match source_file(args) {
            Some(input) => CompilerArgumentsView::Parsed(parsed_view(args, cwd, input)),
            None => CompilerArgumentsView::CannotCache(
                "no source file"@,
                Some("No source file specified"@),
            ),
        },
    }
}

/// The separator is no known option.
pub proof fn lemma_separator_no_option()
    ensures
        forall|value: Seq<u8>| value_option(separator(), value) is None,
        flag_option(separator()) is None,
{
    assert forall|value: Seq<u8>| value_option(separator(), value) is None by {
        lemma_option_names(separator(), value);
    }
    lemma_option_names(separator(), Seq::empty());
}

/// The separator is read as an unknown option.
pub proof fn lemma_separator_unknown()
    ensures
        argument_of(separator()) == Argument::<Seq<u8>>::UnknownFlag(separator()),
{
    let s = separator();
    encode_utf8_valid_utf8("--"@);
    lemma_text_of_valid(s);
    lemma_separator_no_option();
    reveal_strlit("--");
    reveal_strlit("-");
    assert(is_ascii("--") && is_ascii("-"));
    assert(s[0] == DASH && s[1] == DASH);
    assert(name_len(s) == 2) by {
        reveal_with_fuel(name_len, 3);
    }
    assert(option_name(s) == s);
    assert("-".spec_bytes() == s.take(1));
    assert("-".spec_bytes().is_prefix_of(s));
}

/// Appending an argument behind one that rules caching out changes nothing.
proof fn lemma_first_refused_push(args: Seq<Seq<u8>>, arg: Seq<u8>)
    ensures
        first_refused(args.push(arg)) == (match first_refused(args) {
            Some(first) => Some(first),
            None => if refused(arg) {
                Some(arg)
            } else {
                None
            },
        }),
    decreases args.len(),
{
    reveal_with_fuel(first_refused, 2);
    if args.len() > 0 {
        lemma_first_refused_push(args.drop_first(), arg);
        assert(args.push(arg).drop_first() == args.drop_first().push(arg));
    }
}

/// What rules caching out at the front of a command line rules it out.
proof fn lemma_first_refused_front(front: Seq<Seq<u8>>, rest: Seq<Seq<u8>>)
    ensures
        first_refused(front) is Some ==> first_refused(front + rest) == first_refused(front),
    decreases front.len(),
{
    if front.len() > 0 {
        lemma_first_refused_front(front.drop_first(), rest);
        assert((front + rest).drop_first() == front.drop_first() + rest);
    }
}

/// A further argument is the source file only where there is none yet and no
/// separator came.
pub proof fn lemma_source_file_push(args: Seq<Seq<u8>>, arg: Seq<u8>)
    ensures
        source_file(args.push(arg)) == (match source_file(args) {
            Some(input) => Some(input),
            None => if args.contains(separator()) || arg == separator() || !(argument_of(
                arg,
            ) is Raw) {
                None
            } else {
                Some(arg)
            },
        }),
    decreases args.len(),
{
    reveal_with_fuel(source_file, 2);
    if args.len() > 0 {
        let rest = args.drop_first();
        assert(args.push(arg).drop_first() == rest.push(arg));
        lemma_source_file_push(rest, arg);
        if args[0] == separator() {
            assert(args.contains(args[0]));
        } else {
            lemma_contains_drop_first(args);
        }
    }
}

proof fn lemma_contains_drop_first(args: Seq<Seq<u8>>)
    requires
        args.len() > 0,
        args[0] != separator(),
    ensures
        args.contains(separator()) == args.drop_first().contains(separator()),
{
    if args.contains(separator()) {
        let i = choose|i: int| 0 <= i < args.len() && args[i] == separator();
        assert(args.drop_first()[i - 1] == separator());
    }
    if args.drop_first().contains(separator()) {
        let i = choose|i: int|
            0 <= i < args.drop_first().len() && args.drop_first()[i] == separator();
        assert(args[i + 1] == separator());
    }
}

/// A list holds the separator when a shorter one does, or when its last
/// argument is the separator.
pub proof fn lemma_contains_push(args: Seq<Seq<u8>>, arg: Seq<u8>)
    ensures
        args.push(arg).contains(separator()) == (args.contains(separator()) || arg == separator()),
{
    let longer = args.push(arg);
    if args.contains(separator()) {
        let i = choose|i: int| 0 <= i < args.len() && args[i] == separator();
        assert(longer[i] == separator());
    }
    if arg == separator() {
        assert(longer[args.len() as int] == separator());
    }
}

/// Reads a `clang-tidy` command line that is run in the directory `cwd`.
pub fn parse_arguments(arguments: &[Vec<u8>], cwd: &[u8]) -> (r: CompilerArguments<ParsedArguments>)
    ensures
        r@ == parse_outcome(contents(arguments@), cwd@),
{
    let mut common: Vec<Vec<u8>> = Vec::new();
    let mut extra_hash_files: Vec<Vec<u8>> = Vec::new();
    let mut input_file: Option<Vec<u8>> = None;
    let mut export_fixes: Option<Vec<u8>> = None;
    let mut flags: Vec<Vec<u8>> = Vec::new();
    let mut seen_double_dash: bool = false;
    let ghost args = contents(arguments@);

    let mut i: usize = 0;
    while i < arguments.len()
        invariant
            i <= arguments@.len(),
            args == contents(arguments@),
            first_refused(args.take(i as int)) is None,
            optional_bytes(input_file) == source_file(args.take(i as int)),
            optional_bytes(export_fixes) == fixes_file(args.take(i as int)),
            contents(common@) == tidy_args(args.take(i as int)),
            contents(flags@) == compile_flags(args.take(i as int)),
            contents(extra_hash_files@) == hash_files(args.take(i as int), cwd@),
            seen_double_dash == args.take(i as int).contains(separator()),
        decreases arguments@.len() - i,
    {
        let arg: Argument<Vec<u8>> = read_argument(arguments[i].as_slice());
        let ghost done = args.take(i as int);
        let ghost now = args.take(i + 1);
        proof {
            assert(now == done.push(args[i as int]));
            assert(now.drop_last() == done);
            assert(arg@ == argument_of(args[i as int]));
            lemma_first_refused_push(done, args[i as int]);
            lemma_source_file_push(done, args[i as int]);
            lemma_contains_push(done, args[i as int]);
            lemma_separator_unknown();
            lemma_first_refused_front(now, args.skip(i + 1));
            assert(now + args.skip(i + 1) == args);
        }
        match arg.get_data() {
            Some(ArgData::Fix) | Some(ArgData::FixErrors) => {
                return CompilerArguments::CannotCache(
                    "-fix",
                    Some("clang-tidy -fix modifies source files".to_string()),
                );
            },
            Some(ArgData::CompileCommandsDir(_)) => {
                return CompilerArguments::CannotCache(
                    "-p",
                    Some("compile_commands.json not supported in POC".to_string()),
                );
            },
            Some(ArgData::LoadPlugin(path)) | Some(ArgData::ConfigFile(path)) => {
                extra_hash_files.push(join(cwd, path.as_slice()));
                common.push(arg.to_bytes());
            },
            Some(ArgData::ExportFixes(path)) => {
                export_fixes = Some(copied(path.as_slice()));
                common.push(arg.to_bytes());
            },
            Some(_) => {
                common.push(arg.to_bytes());
            },
            None => {
                if same(arguments[i].as_slice(), "--".as_bytes()) {
                    seen_double_dash = true;
                } else if seen_double_dash {
                    flags.push(arg.to_bytes());
                } else {
                    match &arg {
                        Argument::Raw(s) => {
                            if input_file.is_none() {
                                input_file = Some(copied(s.as_slice()));
                            } else {
                                common.push(copied(s.as_slice()));
                            }
                        },
                        _ => {
                            common.push(arg.to_bytes());
                        },
                    }
                }
            },
        }
        proof {
            assert(contents(common@) =~= tidy_args(now));
            assert(contents(flags@) =~= compile_flags(now));
            assert(contents(extra_hash_files@) =~= hash_files(now, cwd@));
        }
        i += 1;
    }
    assert(args.take(i as int) == args);

    let input: Vec<u8> = match input_file {
        Some(f) => f,
        None => {
            return CompilerArguments::CannotCache(
                "no source file",
                Some("No source file specified".to_string()),
            );
        },
    };
    let language: Language = match Language::from_file_name(input.as_slice()) {
        Some(language) => language,
        None => Language::Cxx,
    };
    if flags.len() > 0 {
        common.push(copied("--".as_bytes()));
        common.append(&mut flags);
    }
    assert(contents(common@) =~= common_args(args));

    let mut outputs: StringHashMap<ArtifactDescriptor> = StringHashMap::new();
    if let Some(fixes_path) = export_fixes {
        outputs.insert(
            "fixes".to_string(),
            ArtifactDescriptor { path: fixes_path, optional: true },
        );
    }
    let parsed = ParsedArguments {
        input,
        double_dash_input: false,
        language,
        compilation_flag: Vec::new(),
        depfile: None,
        outputs,
        dependency_args: Vec::new(),
        preprocessor_args: Vec::new(),
        common_args: common,
        arch_args: Vec::new(),
        unhashed_args: Vec::new(),
        extra_dist_files: Vec::new(),
        extra_hash_files,
        msvc_show_includes: false,
        profile_generate: false,
        color_mode: ColorMode::Auto,
        suppress_rewrite_includes_only: true,
        too_hard_for_preprocessor_cache_mode: Some(copied("clang-tidy".as_bytes())),
    };
    assert(parsed@ =~= parsed_view(args, cwd@, parsed@.input));
    CompilerArguments::Parsed(parsed)
}

} // verus!
