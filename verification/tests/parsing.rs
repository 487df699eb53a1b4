use clang_tidy::args::{read_argument, ArgData, Argument};
use clang_tidy::flags::{
    affects_dump_config, is_concatenated_output_flag, is_likely_compiler_path,
    split_at_double_dash,
};
use clang_tidy::language::Language;
use clang_tidy::parse::parse_arguments;
use clang_tidy::parsed::{ColorMode, CompilerArguments, ParsedArguments};

fn bytes(s: &str) -> Vec<u8> {
    s.as_bytes().to_vec()
}

fn list(args: &[&str]) -> Vec<Vec<u8>> {
    args.iter().map(|a| bytes(a)).collect()
}

fn strings(args: &[Vec<u8>]) -> Vec<String> {
    args.iter().map(|a| String::from_utf8_lossy(a).into_owned()).collect()
}

fn ref_strings(args: &[&Vec<u8>]) -> Vec<String> {
    args.iter().map(|a| String::from_utf8_lossy(a).into_owned()).collect()
}

fn parse_args(args: &[&str]) -> CompilerArguments<ParsedArguments> {
    parse_arguments(&list(args), b"/work/dir")
}

fn parsed(args: &[&str]) -> ParsedArguments {
    match parse_args(args) {
        CompilerArguments::Parsed(parsed) => parsed,
        CompilerArguments::CannotCache(reason, detail) => {
            panic!("Expected Parsed, got CannotCache({:?}, {:?})", reason, detail)
        }
        CompilerArguments::NotCompilation => panic!("Expected Parsed, got NotCompilation"),
    }
}

fn refusal(args: &[&str]) -> (&'static str, Option<String>) {
    match parse_args(args) {
        CompilerArguments::CannotCache(reason, detail) => (reason, detail),
        CompilerArguments::Parsed(_) => panic!("Expected CannotCache, got Parsed"),
        CompilerArguments::NotCompilation => panic!("Expected CannotCache, got NotCompilation"),
    }
}

#[test]
fn test_parse_simple() {
    let args = parsed(&["foo.cpp"]);
    assert_eq!(args.input, bytes("foo.cpp"));
    assert_eq!(args.language, Language::Cxx);
}

#[test]
fn test_parse_with_checks() {
    let args = parsed(&["-checks=-*,clang-analyzer-*", "foo.cpp"]);
    assert_eq!(args.input, bytes("foo.cpp"));
    assert!(strings(&args.common_args).iter().any(|a| a.contains("checks")));
}

#[test]
fn test_parse_with_compile_flags() {
    let args = parsed(&["foo.cpp", "--", "-std=c++17", "-I/usr/include"]);
    assert_eq!(args.input, bytes("foo.cpp"));
    // Compile flags should be in common_args after --
    let args_str = strings(&args.common_args);
    assert!(args_str.contains(&"--".to_string()));
    assert!(args_str.contains(&"-std=c++17".to_string()));
}

#[test]
fn test_parse_fix_uncacheable() {
    let (reason, _) = refusal(&["-fix", "foo.cpp"]);
    assert_eq!(reason, "-fix");
}

#[test]
fn test_parse_fix_errors_uncacheable() {
    let (reason, _) = refusal(&["--fix-errors", "foo.cpp"]);
    assert_eq!(reason, "-fix");
}

#[test]
fn test_parse_compile_commands_uncacheable() {
    let (reason, _) = refusal(&["-p=build", "foo.cpp"]);
    assert_eq!(reason, "-p");
}

#[test]
fn test_parse_export_fixes() {
    let args = parsed(&["--export-fixes=fixes.yaml", "foo.cpp"]);
    assert_eq!(args.input, bytes("foo.cpp"));
    assert!(args.outputs.contains_key("fixes"));
    assert_eq!(args.outputs.get("fixes").unwrap().path, bytes("fixes.yaml"));
}

#[test]
fn test_parse_load_plugin() {
    let args = parsed(&["--load=/path/to/plugin.so", "foo.cpp"]);
    assert_eq!(args.input, bytes("foo.cpp"));
    assert!(strings(&args.extra_hash_files).iter().any(|p| p.contains("plugin.so")));
}

#[test]
fn test_parse_no_source_file() {
    let (reason, _) = refusal(&["-checks=-*"]);
    assert_eq!(reason, "no source file");
}

#[test]
fn test_parse_with_msvc_compile_flags() {
    // Simulate a typical Windows clang-tidy invocation with MSVC flags
    let args = parsed(&[
        "--extra-arg-before=--driver-mode=cl",
        "foo.cpp",
        "--",
        "C:\\MSVC\\cl.exe",
        "/nologo",
        "/TP",
        "-DFOO",
        "-IC:\\include",
        "-external:IC:\\ext",
        "/W4",
        "/wd4100",
        "-std:c++20",
        "-MDd",
        "/Zi",
        "/showIncludes",
        "/Fofoo.obj",
        "/Fdfoo.pdb",
        "/FS",
        "-c",
        "foo.cpp",
    ]);
    assert_eq!(args.input, bytes("foo.cpp"));
    // All compile flags should be in common_args after --
    let args_str = strings(&args.common_args);
    assert!(args_str.contains(&"--".to_string()));
    assert!(args_str.contains(&"--extra-arg-before=--driver-mode=cl".to_string()));
    assert!(args_str.contains(&"-DFOO".to_string()));
}

#[test]
fn test_split_at_double_dash_with_compiler() {
    let args = list(&[
        "--checks=-*",
        "--extra-arg=-Wno-error",
        "--",
        "C:\\MSVC\\cl.exe",
        "/W4",
        "-DFOO",
    ]);
    let (tidy_args, compiler, compile_flags) = split_at_double_dash(&args);
    assert_eq!(tidy_args.len(), 2);
    assert_eq!(String::from_utf8_lossy(compiler.unwrap()), "C:\\MSVC\\cl.exe");
    assert_eq!(compile_flags.len(), 2);
}

#[test]
fn test_split_at_double_dash_without_compiler() {
    let args = list(&["--checks=-*", "--", "-std=c++17", "-DFOO"]);
    let (tidy_args, compiler, compile_flags) = split_at_double_dash(&args);
    assert_eq!(tidy_args.len(), 1);
    assert!(compiler.is_none());
    assert_eq!(compile_flags.len(), 2);
}

#[test]
fn test_split_at_double_dash_no_separator() {
    let args = list(&["--checks=-*", "--quiet"]);
    let (tidy_args, compiler, compile_flags) = split_at_double_dash(&args);
    assert_eq!(tidy_args.len(), 2);
    assert!(compiler.is_none());
    assert!(compile_flags.is_empty());
}

#[test]
fn test_affects_dump_config_forwards_extra_arg() {
    // Should affect dump_config
    assert!(affects_dump_config("--extra-arg-before=--driver-mode=g++"));
    assert!(affects_dump_config("-extra-arg-before=--driver-mode=g++"));
    assert!(affects_dump_config("--extra-arg=-Wno-error"));
    assert!(affects_dump_config("-extra-arg=-Wno-error"));
    assert!(affects_dump_config("--checks=-*"));
    assert!(affects_dump_config("-checks=-*"));
    assert!(affects_dump_config("--config-file=.clang-tidy"));
    assert!(affects_dump_config("--config=Checks: '*'"));

    // Should not affect dump_config
    assert!(!affects_dump_config("--quiet"));
    assert!(!affects_dump_config("--header-filter=.*"));
    assert!(!affects_dump_config("-system-headers"));
    assert!(!affects_dump_config("--warnings-as-errors=*"));
}

#[test]
fn test_parse_preserves_extra_arg_before_for_dump_config() {
    let args = parsed(&["--extra-arg-before=--driver-mode=g++", "foo.cpp"]);
    let (tidy_args, _, _) = split_at_double_dash(&args.common_args);
    assert!(ref_strings(&tidy_args)
        .iter()
        .any(|a| affects_dump_config(a) && a.contains("--driver-mode=g++")));
}

#[test]
fn test_post_dash_dash_source_file_not_treated_as_compiler() {
    let args = list(&["a.cpp", "--", "b.cpp", "-DFOO"]);
    let common_args = list(&["--", "b.cpp", "-DFOO"]);
    let (_tidy_args, compiler, compile_flags) = split_at_double_dash(&common_args);
    assert!(compiler.is_none());
    let compile_flag_strs = ref_strings(&compile_flags);
    assert!(compile_flag_strs.contains(&"b.cpp".to_string()));
    assert!(compile_flag_strs.contains(&"-DFOO".to_string()));
    match parse_arguments(&args, b".") {
        CompilerArguments::Parsed(_) => {}
        _ => panic!("Expected Parsed"),
    }
}

#[test]
fn test_is_likely_compiler_path_rejects_source_extensions() {
    // Arguments / sources
    assert!(!is_likely_compiler_path("b.cpp"));
    assert!(!is_likely_compiler_path("foo.cxx"));
    assert!(!is_likely_compiler_path("x.hpp"));
    assert!(!is_likely_compiler_path("X.HPP"));
    assert!(!is_likely_compiler_path("file.c"));
    assert!(!is_likely_compiler_path("Bar.mm"));
    assert!(!is_likely_compiler_path("@responses.rsp"));
    assert!(!is_likely_compiler_path("-std=c++17"));
    assert!(!is_likely_compiler_path("/W4"));

    // Compilers
    assert!(is_likely_compiler_path("gcc"));
    assert!(is_likely_compiler_path("cl"));
    assert!(is_likely_compiler_path("cl.exe"));
    assert!(is_likely_compiler_path("clang++"));
    assert!(is_likely_compiler_path("C:\\MSVC\\cl.exe"));
    assert!(is_likely_compiler_path("/usr/bin/g++"));
}

#[test]
fn compiler_path_edges() {
    assert!(is_likely_compiler_path(""));
    assert!(is_likely_compiler_path("C:/MSVC/cl.exe"));
    assert!(is_likely_compiler_path("a\\b"));
    // A drive letter outweighs nothing that a source extension rules out.
    assert!(!is_likely_compiler_path("C:\\src\\a.CC"));
    // A dot at the front makes no extension, nor does one in a directory.
    assert!(is_likely_compiler_path(".c"));
    assert!(is_likely_compiler_path("dir.c/gcc"));
    // Trailing separators and `.` components do not count.
    assert!(!is_likely_compiler_path("dir/foo.c/"));
    assert!(!is_likely_compiler_path("dir/foo.h/./"));
    assert!(is_likely_compiler_path("foo.c/.."));
    assert!(!is_likely_compiler_path("/"));
    assert!(is_likely_compiler_path("/a/b"));
    assert!(!is_likely_compiler_path("-"));
    assert!(is_likely_compiler_path("1:"));
}

#[test]
fn output_flags() {
    assert!(!is_concatenated_output_flag("-o"));
    assert!(is_concatenated_output_flag("-ofoo"));
    assert!(is_concatenated_output_flag("/Fofoo.obj"));
    assert!(is_concatenated_output_flag("/Fe"));
    assert!(is_concatenated_output_flag("/Fi:x"));
    assert!(is_concatenated_output_flag("/Fdfoo.pdb"));
    assert!(!is_concatenated_output_flag("/FS"));
    assert!(!is_concatenated_output_flag("--output"));
}

#[test]
fn refusals_have_explanations() {
    assert_eq!(
        refusal(&["--fix"]).1.unwrap(),
        "clang-tidy -fix modifies source files"
    );
    assert_eq!(
        refusal(&["a.cpp", "-p"]).1.unwrap(),
        "compile_commands.json not supported in POC"
    );
    assert_eq!(refusal(&[]).1.unwrap(), "No source file specified");
    // The first one decides, and one behind the separator counts as well.
    assert_eq!(refusal(&["-p=x", "-fix", "a.cpp"]).0, "-p");
    assert_eq!(refusal(&["a.cpp", "--", "-fix-errors"]).0, "-fix");
    // A positional argument behind the separator is no source file.
    assert_eq!(refusal(&["--", "a.cpp"]).0, "no source file");
    // Options without a value take none.
    assert_eq!(strings(&parsed(&["--fix=x", "a.cpp"]).common_args), ["--fix=x"]);
}

#[test]
fn parsed_fields() {
    let args = parsed(&["dir/foo.c", "--", "gcc"]);
    assert_eq!(args.input, bytes("dir/foo.c"));
    assert_eq!(args.language, Language::C);
    assert!(!args.double_dash_input);
    assert!(args.compilation_flag.is_empty());
    assert!(args.depfile.is_none());
    assert!(args.outputs.is_empty());
    assert!(args.dependency_args.is_empty());
    assert!(args.preprocessor_args.is_empty());
    assert_eq!(strings(&args.common_args), ["--", "gcc"]);
    assert!(args.arch_args.is_empty());
    assert!(args.unhashed_args.is_empty());
    assert!(args.extra_dist_files.is_empty());
    assert!(args.extra_hash_files.is_empty());
    assert!(!args.msvc_show_includes);
    assert!(!args.profile_generate);
    assert_eq!(args.color_mode, ColorMode::Auto);
    assert!(args.suppress_rewrite_includes_only);
    assert_eq!(args.too_hard_for_preprocessor_cache_mode, Some(bytes("clang-tidy")));
}

#[test]
fn arguments_are_sorted_into_sides() {
    // A second source and unknown options pass; known options move to the
    // front side, and further separators vanish.
    let args = parsed(&[
        "--unknown=1",
        "a.cpp",
        "b.cpp",
        "--warnings-as-errors=*",
        "--",
        "gcc",
        "-quiet",
        "--",
        "-DX",
    ]);
    assert_eq!(args.input, bytes("a.cpp"));
    assert_eq!(
        strings(&args.common_args),
        ["--unknown=1", "b.cpp", "--warnings-as-errors=*", "-quiet", "--", "gcc", "-DX"]
    );
    // Without compile flags there is no separator.
    assert!(parsed(&["a.cpp", "--"]).common_args.is_empty());
}

#[test]
fn files_are_seen_from_the_working_directory() {
    let args = parsed(&[
        "--config-file=cfg/.clang-tidy",
        "-load=/abs/plugin.so",
        "a.cpp",
        "--",
        "--load=late.so",
        "-config-file",
    ]);
    assert_eq!(
        strings(&args.extra_hash_files),
        [
            "/work/dir/cfg/.clang-tidy",
            "/abs/plugin.so",
            "/work/dir/late.so",
            "/work/dir/"
        ]
    );
    match parse_arguments(&list(&["--load=p.so", "a.cpp"]), b"/") {
        CompilerArguments::Parsed(p) => assert_eq!(strings(&p.extra_hash_files), ["/p.so"]),
        _ => panic!("Expected Parsed"),
    }
    match parse_arguments(&list(&["--load=p.so", "a.cpp"]), b"") {
        CompilerArguments::Parsed(p) => assert_eq!(strings(&p.extra_hash_files), ["p.so"]),
        _ => panic!("Expected Parsed"),
    }
}

#[test]
fn last_export_counts() {
    let args = parsed(&["-export-fixes=a.yaml", "a.cpp", "--export-fixes=b.yaml"]);
    let fixes = args.outputs.get("fixes").unwrap();
    assert_eq!(fixes.path, bytes("b.yaml"));
    assert!(fixes.optional);
    assert_eq!(args.outputs.len(), 1);
    assert!(!args.outputs.contains_key("obj"));
}

#[test]
fn options_are_read_by_name() {
    match read_argument(b"--config=Checks: a=b") {
        Argument::WithValue(name, ArgData::Config(value)) => {
            assert_eq!(name, bytes("--config"));
            assert_eq!(value, bytes("Checks: a=b"));
        }
        _ => panic!("Expected --config"),
    }
    match read_argument(b"-extra-arg=") {
        Argument::WithValue(name, ArgData::PassThrough(value)) => {
            assert_eq!(name, bytes("-extra-arg"));
            assert!(value.is_empty());
        }
        _ => panic!("Expected -extra-arg"),
    }
    assert!(matches!(read_argument(b"--quiet"), Argument::Flag(_, ArgData::PassThroughFlag)));
    assert!(matches!(
        read_argument(b"-warnings-as-errors"),
        Argument::Flag(_, ArgData::PassThroughFlag)
    ));
    assert!(matches!(read_argument(b"--fix"), Argument::Flag(_, ArgData::Fix)));
    assert!(matches!(read_argument(b"-fix-errors"), Argument::Flag(_, ArgData::FixErrors)));
    assert!(matches!(read_argument(b"--checks"), Argument::WithValue(_, ArgData::Checks(_))));
    assert!(matches!(read_argument(b"--p=x"), Argument::UnknownFlag(_)));
    assert!(matches!(read_argument(b"--"), Argument::UnknownFlag(_)));
    assert!(matches!(read_argument(b"--checkers=x"), Argument::UnknownFlag(_)));
    assert!(matches!(read_argument(b""), Argument::Raw(_)));
    assert!(matches!(read_argument(b"checks=x"), Argument::Raw(_)));
    for name in ["header-filter", "line-filter", "extra-arg-before", "system-headers"] {
        for dashes in ["-", "--"] {
            let arg = bytes(&format!("{}{}=v", dashes, name));
            match read_argument(&arg) {
                Argument::WithValue(_, ArgData::PassThrough(value)) => {
                    assert_eq!(value, bytes("v"))
                }
                _ => panic!("Expected an option that is handed on"),
            }
        }
    }
}

#[test]
fn written_out_arguments_read_the_same() {
    for arg in ["--checks=-*", "-load=x", "a.cpp", "--", "--unknown", "-quiet"] {
        assert_eq!(read_argument(arg.as_bytes()).to_bytes(), bytes(arg));
    }
    // An empty value takes its `=` with it.
    assert_eq!(read_argument(b"--checks=").to_bytes(), bytes("--checks"));
    assert!(read_argument(b"--checks=").get_data().is_some());
    assert!(read_argument(b"--other=").get_data().is_none());
}

#[test]
fn invalid_bytes() {
    // The value of a known option is its text; an unknown argument keeps its
    // bytes.
    let raw: Vec<Vec<u8>> = vec![
        b"--load=/p\xff.so".to_vec(),
        b"\xfe.cpp".to_vec(),
        b"--".to_vec(),
        b"-D\xff".to_vec(),
    ];
    match parse_arguments(&raw, b"/") {
        CompilerArguments::Parsed(p) => {
            assert_eq!(p.extra_hash_files, vec![bytes("/p\u{FFFD}.so")]);
            assert_eq!(p.input, b"\xfe.cpp".to_vec());
            assert_eq!(p.language, Language::Cxx);
            assert_eq!(
                p.common_args,
                vec![bytes("--load=/p\u{FFFD}.so"), bytes("--"), b"-D\xff".to_vec()]
            );
        }
        _ => panic!("Expected Parsed"),
    }
}

#[test]
fn several_separators() {
    // Only the argument right behind the first separator can be the compiler.
    let args = list(&["--", "gcc", "-DA", "--", "clang"]);
    let (tidy, compiler, flags) = split_at_double_dash(&args);
    assert!(tidy.is_empty());
    assert_eq!(compiler.unwrap(), &bytes("gcc"));
    assert_eq!(ref_strings(&flags), ["-DA", "clang"]);

    let late = list(&["-q", "--", "-DA", "--", "clang", "--", "x"]);
    let (tidy, compiler, flags) = split_at_double_dash(&late);
    assert_eq!(ref_strings(&tidy), ["-q"]);
    assert!(compiler.is_none());
    assert_eq!(ref_strings(&flags), ["-DA", "clang", "x"]);

    let doubled = list(&["a", "--", "--", "gcc"]);
    let (tidy, compiler, flags) = split_at_double_dash(&doubled);
    assert_eq!(ref_strings(&tidy), ["a"]);
    assert!(compiler.is_none());
    assert_eq!(ref_strings(&flags), ["gcc"]);

    let dashes = list(&["a", "--", "--"]);
    let (tidy, compiler, flags) = split_at_double_dash(&dashes);
    assert_eq!(ref_strings(&tidy), ["a"]);
    assert!(compiler.is_none());
    assert!(flags.is_empty());
}

#[test]
fn splitting_loses_only_separators() {
    let args = list(&["-q", "--", "gcc", "-DA", "--", "clang", "--"]);
    let (tidy, compiler, flags) = split_at_double_dash(&args);
    let mut together = ref_strings(&tidy);
    together.push(String::from_utf8_lossy(compiler.unwrap()).into_owned());
    together.extend(ref_strings(&flags));
    assert_eq!(together, ["-q", "gcc", "-DA", "clang"]);
}

#[test]
fn splitting_undoes_parsing() {
    let args = parsed(&["--quiet", "a.cpp", "--", "/usr/bin/g++", "-DX", "b.cpp"]);
    let (tidy, compiler, flags) = split_at_double_dash(&args.common_args);
    assert_eq!(ref_strings(&tidy), ["--quiet"]);
    assert_eq!(compiler.unwrap(), &bytes("/usr/bin/g++"));
    assert_eq!(ref_strings(&flags), ["-DX", "b.cpp"]);
}

#[test]
fn kept_arguments_read_the_same() {
    let first = parsed(&[
        "--checks=",
        "a.cc",
        "b.cc",
        "--",
        "g++",
        "-config-file=c",
        "--export-fixes=f",
        "-O2",
    ]);
    let mut again: Vec<Vec<u8>> = vec![first.input.clone()];
    again.extend(first.common_args.iter().cloned());
    match parse_arguments(&again, b"/work/dir") {
        CompilerArguments::Parsed(second) => {
            assert_eq!(second.input, first.input);
            assert_eq!(second.common_args, first.common_args);
            assert_eq!(second.extra_hash_files, first.extra_hash_files);
            assert_eq!(
                second.outputs.get("fixes").unwrap().path,
                first.outputs.get("fixes").unwrap().path
            );
        }
        _ => panic!("Expected Parsed"),
    }
}

#[test]
fn languages() {
    for (name, language) in [
        ("a.c", Some(Language::C)),
        ("a.h", Some(Language::GenericHeader)),
        ("a.C", Some(Language::Cxx)),
        ("a.cc", Some(Language::Cxx)),
        ("a.cp", Some(Language::Cxx)),
        ("a.cpp", Some(Language::Cxx)),
        ("a.CPP", Some(Language::Cxx)),
        ("a.cxx", Some(Language::Cxx)),
        ("a.c++", Some(Language::Cxx)),
        ("a.H", Some(Language::CxxHeader)),
        ("a.hh", Some(Language::CxxHeader)),
        ("a.hp", Some(Language::CxxHeader)),
        ("a.hpp", Some(Language::CxxHeader)),
        ("a.HPP", Some(Language::CxxHeader)),
        ("a.hxx", Some(Language::CxxHeader)),
        ("a.h++", Some(Language::CxxHeader)),
        ("a.tcc", Some(Language::CxxHeader)),
        ("a.m", Some(Language::ObjectiveC)),
        ("a.M", Some(Language::ObjectiveCxx)),
        ("a.mm", Some(Language::ObjectiveCxx)),
        ("a.cu", Some(Language::Cuda)),
        ("a.ptx", Some(Language::Ptx)),
        ("a.cubin", Some(Language::Cubin)),
        ("a.rs", Some(Language::Rust)),
        ("a.hip", Some(Language::Hip)),
        ("a.txt", None),
        ("a", None),
        (".c", None),
        ("..", None),
        ("x.c/", Some(Language::C)),
    ] {
        assert_eq!(Language::from_file_name(name.as_bytes()), language);
    }
    assert_eq!(parsed(&["a.txt"]).language, Language::Cxx);
}

#[test]
fn case_makes_no_compiler() {
    for arg in ["gcc", "C:\\MSVC\\cl.exe", "a/b.Cpp", "/W4", "/usr/bin/g++", "x.HXX/./", "-c"] {
        let expected = is_likely_compiler_path(arg);
        assert_eq!(is_likely_compiler_path(&arg.to_ascii_lowercase()), expected);
        assert_eq!(is_likely_compiler_path(&arg.to_ascii_uppercase()), expected);
    }
}
