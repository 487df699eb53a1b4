use clang_tidy::clang_tidy::{CCompilerKind, ClangTidy};
use clang_tidy::commands::{dump_config_command, preprocessor_command, MissingCompiler};
use clang_tidy::compile::{generate_compile_commands, Cacheable, ClangTidyCompileCommand};
use clang_tidy::parse::parse_arguments;
use clang_tidy::parsed::{CompilerArguments, ParsedArguments};
use clang_tidy::run::{
    merge_stderr_into_stdout, preprocess, preprocess_step, Output, PreprocessError,
    PreprocessState, PreprocessStep, RunError,
};
use clang_tidy::text::reads_as;

fn bytes(s: &str) -> Vec<u8> {
    s.as_bytes().to_vec()
}

fn list(args: &[&str]) -> Vec<Vec<u8>> {
    args.iter().map(|a| bytes(a)).collect()
}

fn strings(args: &[Vec<u8>]) -> Vec<String> {
    args.iter().map(|a| String::from_utf8_lossy(a).into_owned()).collect()
}

fn with_common(common: &[&str]) -> ParsedArguments {
    match parse_arguments(&list(&["foo.cpp"]), b"/work") {
        CompilerArguments::Parsed(mut parsed) => {
            parsed.common_args = list(common);
            parsed
        }
        _ => panic!("Expected Parsed"),
    }
}

fn env() -> Vec<(Vec<u8>, Vec<u8>)> {
    vec![(bytes("PATH"), bytes("/bin")), (bytes("A"), bytes(""))]
}

fn output(status: i32, stdout: &str, stderr: &str) -> Output {
    Output { status, stdout: bytes(stdout), stderr: bytes(stderr) }
}

type Outcome = Result<Output, RunError<&'static str>>;

/// Makes the two runs with the given outcomes.
fn run_both(
    parsed: &ParsedArguments,
    config: Outcome,
    source: Outcome,
) -> Result<Output, PreprocessError<&'static str>> {
    let (state, _) = preprocess(b"clang-tidy", parsed, b".", &[]);
    match preprocess_step(state, config, parsed, b".", &[]) {
        PreprocessStep::Run(state, _) => match preprocess_step(state, source, parsed, b".", &[]) {
            PreprocessStep::Done(result) => result,
            PreprocessStep::Run(_, _) => panic!("Expected two runs"),
        },
        PreprocessStep::Done(result) => result,
    }
}

#[test]
fn test_preprocess_swallows_preprocessor_process_error() {
    let parsed = with_common(&["--", "/usr/bin/g++", "-DFOO"]);
    // --dump-config succeeds, underlying -E fails.
    let result = run_both(
        &parsed,
        Ok(output(0, "Checks: '*'", "")),
        Err(RunError::Process(output(1, "", "fatal error: oops"))),
    );
    let output = match result {
        Ok(output) => output,
        Err(_) => panic!("preprocess must swallow preprocessor ProcessError"),
    };
    let stdout_str = String::from_utf8_lossy(&output.stdout);
    assert!(stdout_str.contains("Checks: '*'"), "config dump in stdout");
    let stderr_str = String::from_utf8_lossy(&output.stderr);
    assert!(
        stderr_str.contains("fatal error: oops"),
        "preprocessor stderr surfaced to caller, got: {stderr_str}"
    );
}

#[test]
fn combined_output() {
    let parsed = with_common(&["--", "gcc"]);
    let both = run_both(&parsed, Ok(output(7, "cfg", "warn")), Ok(output(0, "src", "")));
    let both = match both {
        Ok(both) => both,
        Err(_) => panic!("Expected an output"),
    };
    assert_eq!(both.status, 7);
    assert_eq!(both.stdout, bytes("cfg\n---PREPROCESSED---\nsrc"));
    assert_eq!(both.stderr, bytes("warn"));

    let broken = run_both(
        &parsed,
        Ok(output(0, "cfg", "warn")),
        Err(RunError::Process(output(256, "src", "error"))),
    );
    let broken = match broken {
        Ok(broken) => broken,
        Err(_) => panic!("Expected an output"),
    };
    assert_eq!(broken.status, 0);
    assert_eq!(
        broken.stdout,
        bytes("cfg\n---PREPROCESSED---\nsrc\n---PREPROCESSOR-STDERR---\nerror")
    );
    assert_eq!(broken.stderr, bytes("warn\nerror"));
    // A broken source is told apart from one that compiles to the same text.
    assert_ne!(both.stdout, broken.stdout);
}

#[test]
fn runs_that_end_the_matter() {
    let parsed = with_common(&["--", "gcc"]);
    let ok = || Ok(output(0, "", ""));
    match run_both(&parsed, Err(RunError::Process(output(3, "a", "b"))), ok()) {
        Err(PreprocessError::Process(o)) => {
            assert_eq!((o.status, o.stdout, o.stderr), (3, bytes("a"), bytes("b")))
        }
        _ => panic!("Expected the failed configuration run"),
    }
    assert!(matches!(
        run_both(&parsed, Err(RunError::Other("spawn")), ok()),
        Err(PreprocessError::Other("spawn"))
    ));
    assert!(matches!(
        run_both(&parsed, ok(), Err(RunError::Other("spawn"))),
        Err(PreprocessError::Other("spawn"))
    ));
    let unnamed = with_common(&["--", "-DFOO"]);
    match run_both(&unnamed, ok(), ok()) {
        Err(PreprocessError::MissingCompiler(missing)) => assert_eq!(
            missing.message(),
            "clang-tidy preprocessing requires a compiler after --"
        ),
        _ => panic!("Expected a missing compiler"),
    }
}

#[test]
fn configuration_run() {
    let parsed = with_common(&[
        "--checks=-*",
        "--quiet",
        "-config-file=x",
        "b.cpp",
        "--extra-arg-before=--driver-mode=g++",
        "--",
        "gcc",
        "-o",
        "x.o",
        "--",
        "-c",
    ]);
    let command = dump_config_command(b"/opt/clang-tidy", &parsed, b"/work", &env());
    assert_eq!(command.executable, bytes("/opt/clang-tidy"));
    assert_eq!(
        strings(&command.arguments),
        [
            "--dump-config",
            "--checks=-*",
            "-config-file=x",
            "--extra-arg-before=--driver-mode=g++",
            "foo.cpp",
            "--",
            "gcc",
            "-o",
            "x.o",
            "--",
            "-c"
        ]
    );
    assert_eq!(command.env_vars, env());
    assert_eq!(command.cwd, bytes("/work"));
    let (state, first) = preprocess(b"/opt/clang-tidy", &parsed, b"/work", &env());
    assert!(matches!(state, PreprocessState::Config));
    assert_eq!(first.arguments, command.arguments);
}

#[test]
fn preprocessor_run() {
    let parsed = with_common(&[
        "--extra-arg=-x",
        "-extra-arg-before=--before",
        "-extra-arg=c++",
        "--extra-arg-before=",
        "--checks=*",
        "--",
        "/usr/bin/g++",
        "-DFOO",
        "-c",
        "-o",
        "-c",
        "-ofoo.o",
        "/c",
        "-O2",
        "/Fdx",
        "-o",
    ]);
    let command = match preprocessor_command(&parsed, b"/work", &env()) {
        Ok(command) => command,
        Err(_) => panic!("Expected a command"),
    };
    assert_eq!(command.executable, bytes("/usr/bin/g++"));
    assert_eq!(
        strings(&command.arguments),
        ["--before", "", "-DFOO", "-O2", "-x", "c++", "-E", "foo.cpp"]
    );
    assert_eq!(command.env_vars, env());
    assert_eq!(command.cwd, bytes("/work"));
    assert!(matches!(
        preprocessor_command(&with_common(&["--checks=*"]), b"/", &[]),
        Err(MissingCompiler)
    ));
}

fn preprocess_flag(common: &[&str]) -> String {
    match preprocessor_command(&with_common(common), b"/", &[]) {
        Ok(command) => {
            let args = strings(&command.arguments);
            args[args.len() - 2].clone()
        }
        Err(_) => panic!("Expected a command"),
    }
}

#[test]
fn cl_takes_another_flag() {
    assert_eq!(preprocess_flag(&["--", "gcc"]), "-E");
    assert_eq!(preprocess_flag(&["--", "C:\\MSVC\\CL.EXE"]), "/E");
    assert_eq!(preprocess_flag(&["--", "clang-cl.exe"]), "/E");
    assert_eq!(preprocess_flag(&["--", "cl"]), "-E");
    assert_eq!(preprocess_flag(&["--extra-arg=--driver-mode=cl", "--", "clang"]), "/E");
    assert_eq!(preprocess_flag(&["--", "clang", "--driver-mode=cl"]), "-E");
}

#[test]
fn invalid_bytes_in_values() {
    let mut parsed = with_common(&["--", "gcc"]);
    parsed.common_args.insert(0, b"--extra-arg=\xff".to_vec());
    match preprocessor_command(&parsed, b"/", &[]) {
        Ok(command) => assert_eq!(strings(&command.arguments), ["\u{FFFD}", "-E", "foo.cpp"]),
        Err(_) => panic!("Expected a command"),
    }
}

#[test]
fn tidy_run() {
    let parsed = with_common(&[
        "-o",
        "--quiet",
        "--",
        "gcc",
        "-c",
        "-o",
        "--",
        "/Fox",
        "-obar",
        "-Wall",
        "--",
        "-o",
        "-o",
        "last",
    ]);
    let (command, dist, cacheable) =
        generate_compile_commands(b"clang-tidy", &parsed, b"/work", &env());
    assert_eq!(command.get_executable(), bytes("clang-tidy"));
    assert_eq!(
        strings(&command.get_arguments()),
        ["foo.cpp", "-o", "--quiet", "--", "gcc", "-c", "-Wall", "--", "last"]
    );
    assert_eq!(command.get_env_vars(), env());
    assert_eq!(command.get_cwd(), bytes("/work"));
    assert!(dist.is_none());
    assert_eq!(cacheable, Cacheable::Yes);
}

#[test]
fn merging_error_output() {
    let merge = |stdout: &str, stderr: &str| {
        let mut o = output(1, stdout, stderr);
        merge_stderr_into_stdout(&mut o);
        assert_eq!(o.status, 1);
        assert!(o.stderr.is_empty());
        let once = o.stdout.clone();
        merge_stderr_into_stdout(&mut o);
        assert_eq!(o.stdout, once);
        String::from_utf8(once).unwrap()
    };
    assert_eq!(merge("", ""), "");
    assert_eq!(merge("out", ""), "out");
    assert_eq!(merge("", "err"), "err");
    assert_eq!(merge("out", "err"), "out\nerr");
    assert_eq!(merge("out\n", "err\n"), "out\nerr\n");
}

#[test]
fn what_is_handed_on() {
    // The error output is seen whether the run succeeded or failed.
    let done: Outcome = ClangTidyCompileCommand::finish(Ok(output(0, "2 warnings", "hint")));
    match done {
        Ok(o) => {
            assert_eq!((o.status, o.stdout, o.stderr), (0, bytes("2 warnings\nhint"), vec![]))
        }
        Err(_) => panic!("Expected success"),
    }
    let silent: Outcome = ClangTidyCompileCommand::finish(Ok(output(0, "", "")));
    match silent {
        Ok(o) => assert_eq!((o.status, o.stdout, o.stderr), (0, vec![], vec![])),
        Err(_) => panic!("Expected success"),
    }
    let failed: Outcome =
        ClangTidyCompileCommand::finish(Err(RunError::Process(output(1, "out", "err"))));
    match failed {
        Err(RunError::Process(o)) => {
            assert_eq!((o.status, o.stdout, o.stderr), (1, bytes("out\nerr"), vec![]))
        }
        _ => panic!("Expected a failed process"),
    }
    let other: Outcome = ClangTidyCompileCommand::finish(Err(RunError::Other("spawn")));
    assert!(matches!(other, Err(RunError::Other("spawn"))));
}

#[test]
fn the_tool() {
    let tool = ClangTidy { version: Some("18.1.0".to_string()) };
    assert_eq!(tool.kind(), CCompilerKind::ClangTidy);
    assert!(!tool.plusplus());
    assert_eq!(tool.version(), Some("18.1.0".to_string()));
    assert_eq!(ClangTidy { version: None }.version(), None);
    let parsed = match tool.parse_arguments(&list(&["--quiet", "a.cpp", "--", "gcc"]), b"/", &env()) {
        CompilerArguments::Parsed(parsed) => parsed,
        _ => panic!("Expected Parsed"),
    };
    let (_, first) = tool.preprocess(b"ct", &parsed, b"/", &[], true, true, true);
    assert_eq!(strings(&first.arguments), ["--dump-config", "a.cpp", "--", "gcc"]);
    let (run, _, _) = tool.generate_compile_commands(b"ct", &parsed, b"/", &[], true);
    assert_eq!(strings(&run.get_arguments()), ["a.cpp", "--quiet", "--", "gcc"]);
}

#[test]
fn configuration_options_reach_the_first_run() {
    let tool = ClangTidy { version: None };
    let args = list(&["a.cpp", "--", "gcc", "--extra-arg=-Wno-error", "-checks=*", "-quiet"]);
    match tool.parse_arguments(&args, b"/", &[]) {
        CompilerArguments::Parsed(parsed) => {
            let (_, first) = tool.preprocess(b"ct", &parsed, b"/", &[], false, false, false);
            assert_eq!(
                strings(&first.arguments),
                ["--dump-config", "--extra-arg=-Wno-error", "-checks=*", "a.cpp", "--", "gcc"]
            );
        }
        _ => panic!("Expected Parsed"),
    }
}

#[test]
fn text_comparison() {
    assert!(reads_as(b"-o", "-o"));
    assert!(!reads_as(b"-o\xff", "-o"));
    assert!(!reads_as(b"\xff", "-o"));
    assert!(reads_as("\u{e9}".as_bytes(), "\u{e9}"));
    assert!(!reads_as(b"", "-o"));
}

#[test]
fn invalid_output_flags_are_dropped() {
    let mut parsed = with_common(&["--", "gcc", "-DX"]);
    parsed.common_args.push(b"-o\xff".to_vec());
    parsed.common_args.push(b"\xff".to_vec());
    let (run, _, _) = generate_compile_commands(b"ct", &parsed, b"/", &[]);
    assert_eq!(
        run.get_arguments(),
        vec![bytes("foo.cpp"), bytes("--"), bytes("gcc"), bytes("-DX"), b"\xff".to_vec()]
    );
}

#[test]
fn dropping_output_flags_once_is_enough() {
    let first = with_common(&["-q", "--", "gcc", "-o", "-o", "x", "--", "/Fox", "-c", "-o"]);
    let (run, _, _) = generate_compile_commands(b"ct", &first, b"/", &[]);
    let arguments = run.get_arguments();
    assert_eq!(strings(&arguments), ["foo.cpp", "-q", "--", "gcc", "x", "--", "-c"]);
    let mut second = with_common(&[]);
    second.common_args = arguments[1..].to_vec();
    let (again, _, _) = generate_compile_commands(b"ct", &second, b"/", &[]);
    assert_eq!(again.get_arguments(), arguments);
}
