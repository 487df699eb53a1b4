//! The options of `clang-tidy` and how one argument is read.

use vstd::prelude::*;
use vstd::string::*;

use crate::bytes::{copied, same, starts_with, DASH, EQUALS};
use crate::text::{text_of, to_string_lossy};

verus! {

/// What a known option means, with its value where it takes one. `S` is the
/// type of a value: owned bytes in running code, a sequence of bytes in
/// contracts.
pub enum ArgData<S> {
    /// An option that is handed on with its value.
    PassThrough(S),
    /// An option without a value that is handed on.
    PassThroughFlag,
    /// `--checks=<globs>`.
    Checks(S),
    /// `--config=<yaml>`.
    Config(S),
    /// `--config-file=<path>`.
    ConfigFile(S),
    /// `--load=<path>`.
    LoadPlugin(S),
    /// `--export-fixes=<path>`.
    ExportFixes(S),
    /// `--fix`.
    Fix,
    /// `--fix-errors`.
    FixErrors,
    /// `-p=<directory>`.
    CompileCommandsDir(S),
}

/// One argument as it was read.
pub enum Argument<S> {
    /// An argument that is no option, such as a source file.
    Raw(S),
    /// An option that is not known here, `--` included.
    UnknownFlag(S),
    /// A known option without a value.
    Flag(S, ArgData<S>),
    /// A known option whose value is joined to it by `=`.
    WithValue(S, ArgData<S>),
}

impl View for ArgData<Vec<u8>> {
    type V = ArgData<Seq<u8>>;

    open spec fn view(&self) -> ArgData<Seq<u8>> {
        match self {
            ArgData::PassThrough(s) => ArgData::PassThrough(s@),
            ArgData::PassThroughFlag => ArgData::PassThroughFlag,
            ArgData::Checks(s) => ArgData::Checks(s@),
            ArgData::Config(s) => ArgData::Config(s@),
            ArgData::ConfigFile(s) => ArgData::ConfigFile(s@),
            ArgData::LoadPlugin(s) => ArgData::LoadPlugin(s@),
            ArgData::ExportFixes(s) => ArgData::ExportFixes(s@),
            ArgData::Fix => ArgData::Fix,
            ArgData::FixErrors => ArgData::FixErrors,
            ArgData::CompileCommandsDir(s) => ArgData::CompileCommandsDir(s@),
        }
    }
}

impl View for Argument<Vec<u8>> {
    type V = Argument<Seq<u8>>;

    open spec fn view(&self) -> Argument<Seq<u8>> {
        match self {
            Argument::Raw(s) => Argument::Raw(s@),
            Argument::UnknownFlag(s) => Argument::UnknownFlag(s@),
            Argument::Flag(s, d) => Argument::Flag(s@, d@),
            Argument::WithValue(s, d) => Argument::WithValue(s@, d@),
        }
    }
}

impl ArgData<Seq<u8>> {
    /// The value of an option; nothing where it takes none.
    pub open spec fn value(self) -> Seq<u8> {
        match self {
            ArgData::PassThrough(s) => s,
            ArgData::Checks(s) => s,
            ArgData::Config(s) => s,
            ArgData::ConfigFile(s) => s,
            ArgData::LoadPlugin(s) => s,
            ArgData::ExportFixes(s) => s,
            ArgData::CompileCommandsDir(s) => s,
            ArgData::PassThroughFlag | ArgData::Fix | ArgData::FixErrors => Seq::empty(),
        }
    }
}

impl Argument<Seq<u8>> {
    /// What the argument means, where it is a known option.
    pub open spec fn data(self) -> Option<ArgData<Seq<u8>>> {
        match self {
            Argument::Raw(_) => None,
            Argument::UnknownFlag(_) => None,
            Argument::Flag(_, d) => Some(d),
            Argument::WithValue(_, d) => Some(d),
        }
    }

    /// The argument as it is written on a command line: a known option by its
    /// name, with `=` and its value unless the value is empty; any other
    /// argument as it came.
    pub open spec fn written(self) -> Seq<u8> {
        match self {
            Argument::Raw(s) => s,
            Argument::UnknownFlag(s) => s,
            Argument::Flag(s, _) => s,
            Argument::WithValue(name, d) => if d.value().len() == 0 {
                name
            } else {
                name.push(EQUALS) + d.value()
            },
        }
    }
}

impl Argument<Vec<u8>> {
    /// What the argument means, where it is a known option.
    pub fn get_data(&self) -> (r: Option<&ArgData<Vec<u8>>>)
        ensures
            match r {
                Some(data) => self@.data() == Some(data@),
                None => self@.data() is None,
            },
    {
        match self {
            Argument::Raw(_) | Argument::UnknownFlag(_) => None,
            Argument::Flag(_, data) => Some(data),
            Argument::WithValue(_, data) => Some(data),
        }
    }

    /// The argument as it is written on a command line.
    pub fn to_bytes(&self) -> (r: Vec<u8>)
        ensures
            r@ == self@.written(),
    {
        match self {
            Argument::Raw(s) => copied(s.as_slice()),
            Argument::UnknownFlag(s) => copied(s.as_slice()),
            Argument::Flag(s, _) => copied(s.as_slice()),
            Argument::WithValue(name, d) => {
                let mut r: Vec<u8> = copied(name.as_slice());
                match d {
                    ArgData::PassThrough(v) | ArgData::Checks(v) | ArgData::Config(v)
                    | ArgData::ConfigFile(v) | ArgData::LoadPlugin(v) | ArgData::ExportFixes(v)
                    | ArgData::CompileCommandsDir(v) => {
                        if v.len() > 0 {
                            r.push(EQUALS);
                            r.extend_from_slice(v.as_slice());
                        }
                    },
                    ArgData::PassThroughFlag | ArgData::Fix | ArgData::FixErrors => {},
                }
                r
            },
        }
    }
}

/// The length of the name of an option: what stands before the first `=`, or
/// all of it.
pub open spec fn name_len(text: Seq<u8>) -> int
    decreases text.len(),
{
    if text.len() == 0 || text[0] == EQUALS {
        0
    } else {
        1 + name_len(text.drop_first())
    }
}

/// The name of an option.
pub open spec fn option_name(text: Seq<u8>) -> Seq<u8> {
    text.take(name_len(text))
}

/// What follows the first `=`, or nothing where there is none.
pub open spec fn option_value(text: Seq<u8>) -> Seq<u8> {
    if name_len(text) < text.len() {
        text.skip(name_len(text) + 1)
    } else {
        Seq::empty()
    }
}

/// Whether an option is written under one of its two names.
pub open spec fn named(name: Seq<u8>, long: &str, short: &str) -> bool {
    name == long.spec_bytes() || name == short.spec_bytes()
}

/// The options that take a value, by name.
pub open spec fn value_option(name: Seq<u8>, value: Seq<u8>) -> Option<ArgData<Seq<u8>>> {
    if named(name, "--checks", "-checks") {
        Some(ArgData::Checks(value))
    } else if named(name, "--config", "-config") {
        Some(ArgData::Config(value))
    } else if named(name, "--config-file", "-config-file") {
        Some(ArgData::ConfigFile(value))
    } else if named(name, "--export-fixes", "-export-fixes") {
        Some(ArgData::ExportFixes(value))
    } else if named(name, "--extra-arg", "-extra-arg") {
        Some(ArgData::PassThrough(value))
    } else if named(name, "--extra-arg-before", "-extra-arg-before") {
        Some(ArgData::PassThrough(value))
    } else if named(name, "--header-filter", "-header-filter") {
        Some(ArgData::PassThrough(value))
    } else if named(name, "--line-filter", "-line-filter") {
        Some(ArgData::PassThrough(value))
    } else if named(name, "--load", "-load") {
        Some(ArgData::LoadPlugin(value))
    } else if name == "-p".spec_bytes() {
        Some(ArgData::CompileCommandsDir(value))
    } else if named(name, "--system-headers", "-system-headers") {
        Some(ArgData::PassThrough(value))
    } else {
        None
    }
}

/// The options that take no value, by their whole text.
pub open spec fn flag_option(text: Seq<u8>) -> Option<ArgData<Seq<u8>>> {
    if named(text, "--fix", "-fix") {
        Some(ArgData::Fix)
    } else if named(text, "--fix-errors", "-fix-errors") {
        Some(ArgData::FixErrors)
    } else if named(text, "--quiet", "-quiet") {
        Some(ArgData::PassThroughFlag)
    } else if named(text, "--warnings-as-errors", "-warnings-as-errors") {
        Some(ArgData::PassThroughFlag)
    } else {
        None
    }
}

/// How an argument is read. Its text decides which option it is and gives the
/// option's value; an argument that is no known option is kept byte for byte.
pub open spec fn argument_of(arg: Seq<u8>) -> Argument<Seq<u8>> {
    let text = text_of(arg);
    match flag_option(text) {
        Some(data) => Argument::Flag(text, data),
        None => match value_option(option_name(text), option_value(text)) {
            Some(data) => Argument::WithValue(option_name(text), data),
            None => if "-".spec_bytes().is_prefix_of(text) {
                Argument::UnknownFlag(arg)
            } else {
                Argument::Raw(arg)
            },
        },
    }
}

/// How a name is spelled, as far as it tells option names apart: its length,
/// the bytes behind its first one as far as it is that long, and no `=`.
pub open spec fn spelled(name: Seq<u8>, len: int, second: u8, third: u8, fourth: u8) -> bool {
    &&& name.len() == len
    &&& name[1] == second
    &&& len > 3 ==> name[2] == third && name[3] == fourth
    &&& !name.contains(EQUALS)
}

/// The bytes of an ASCII string, as far as they tell option names apart.
proof fn lemma_ascii_bytes(s: &str, n: int)
    requires
        is_ascii(s),
        s@.len() == n,
        n > 1,
        forall|i: int| 0 <= i < n ==> s@[i] != '=',
    ensures
        s.spec_bytes().len() == n,
        s.spec_bytes()[1] == s@[1] as u8,
        n > 3 ==> s.spec_bytes()[2] == s@[2] as u8 && s.spec_bytes()[3] == s@[3] as u8,
        !s.spec_bytes().contains(EQUALS),
{
    assert forall|i: int| 0 <= i < n implies s.spec_bytes()[i] != EQUALS by {
        assert(s.spec_bytes()[i] == s@[i] as u8);
    }
}

/// How the names of the options without a value are spelled.
#[verifier::spinoff_prover]
pub proof fn lemma_flag_spellings()
    ensures
        spelled("--fix".spec_bytes(), 5, 45, 102, 105),
        spelled("-fix".spec_bytes(), 4, 102, 105, 120),
        spelled("--fix-errors".spec_bytes(), 12, 45, 102, 105),
        spelled("-fix-errors".spec_bytes(), 11, 102, 105, 120),
        spelled("--quiet".spec_bytes(), 7, 45, 113, 117),
        spelled("-quiet".spec_bytes(), 6, 113, 117, 105),
        spelled("--warnings-as-errors".spec_bytes(), 20, 45, 119, 97),
        spelled("-warnings-as-errors".spec_bytes(), 19, 119, 97, 114),
{
    reveal_strlit("--fix");
    reveal_strlit("-fix");
    reveal_strlit("--fix-errors");
    reveal_strlit("-fix-errors");
    reveal_strlit("--quiet");
    reveal_strlit("-quiet");
    reveal_strlit("--warnings-as-errors");
    reveal_strlit("-warnings-as-errors");
    lemma_ascii_bytes("--fix", 5);
    lemma_ascii_bytes("-fix", 4);
    lemma_ascii_bytes("--fix-errors", 12);
    lemma_ascii_bytes("-fix-errors", 11);
    lemma_ascii_bytes("--quiet", 7);
    lemma_ascii_bytes("-quiet", 6);
    lemma_ascii_bytes("--warnings-as-errors", 20);
    lemma_ascii_bytes("-warnings-as-errors", 19);
}

/// How the names of the options with a value are spelled.
#[verifier::spinoff_prover]
pub proof fn lemma_value_spellings()
    ensures
        spelled("--checks".spec_bytes(), 8, 45, 99, 104),
        spelled("-checks".spec_bytes(), 7, 99, 104, 101),
        spelled("--config".spec_bytes(), 8, 45, 99, 111),
        spelled("-config".spec_bytes(), 7, 99, 111, 110),
        spelled("--config-file".spec_bytes(), 13, 45, 99, 111),
        spelled("-config-file".spec_bytes(), 12, 99, 111, 110),
        spelled("--export-fixes".spec_bytes(), 14, 45, 101, 120),
        spelled("-export-fixes".spec_bytes(), 13, 101, 120, 112),
        spelled("--extra-arg".spec_bytes(), 11, 45, 101, 120),
        spelled("-extra-arg".spec_bytes(), 10, 101, 120, 116),
        spelled("--extra-arg-before".spec_bytes(), 18, 45, 101, 120),
        spelled("-extra-arg-before".spec_bytes(), 17, 101, 120, 116),
        spelled("--header-filter".spec_bytes(), 15, 45, 104, 101),
        spelled("-header-filter".spec_bytes(), 14, 104, 101, 97),
        spelled("--line-filter".spec_bytes(), 13, 45, 108, 105),
        spelled("-line-filter".spec_bytes(), 12, 108, 105, 110),
        spelled("--load".spec_bytes(), 6, 45, 108, 111),
        spelled("-load".spec_bytes(), 5, 108, 111, 97),
        spelled("-p".spec_bytes(), 2, 112, 0, 0),
        spelled("--system-headers".spec_bytes(), 16, 45, 115, 121),
        spelled("-system-headers".spec_bytes(), 15, 115, 121, 115),
{
    reveal_strlit("--checks");
    reveal_strlit("-checks");
    reveal_strlit("--config");
    reveal_strlit("-config");
    reveal_strlit("--config-file");
    reveal_strlit("-config-file");
    reveal_strlit("--export-fixes");
    reveal_strlit("-export-fixes");
    reveal_strlit("--extra-arg");
    reveal_strlit("-extra-arg");
    reveal_strlit("--extra-arg-before");
    reveal_strlit("-extra-arg-before");
    reveal_strlit("--header-filter");
    reveal_strlit("-header-filter");
    reveal_strlit("--line-filter");
    reveal_strlit("-line-filter");
    reveal_strlit("--load");
    reveal_strlit("-load");
    reveal_strlit("-p");
    reveal_strlit("--system-headers");
    reveal_strlit("-system-headers");
    lemma_ascii_bytes("--checks", 8);
    lemma_ascii_bytes("-checks", 7);
    lemma_ascii_bytes("--config", 8);
    lemma_ascii_bytes("-config", 7);
    lemma_ascii_bytes("--config-file", 13);
    lemma_ascii_bytes("-config-file", 12);
    lemma_ascii_bytes("--export-fixes", 14);
    lemma_ascii_bytes("-export-fixes", 13);
    lemma_ascii_bytes("--extra-arg", 11);
    lemma_ascii_bytes("-extra-arg", 10);
    lemma_ascii_bytes("--extra-arg-before", 18);
    lemma_ascii_bytes("-extra-arg-before", 17);
    lemma_ascii_bytes("--header-filter", 15);
    lemma_ascii_bytes("-header-filter", 14);
    lemma_ascii_bytes("--line-filter", 13);
    lemma_ascii_bytes("-line-filter", 12);
    lemma_ascii_bytes("--load", 6);
    lemma_ascii_bytes("-load", 5);
    lemma_ascii_bytes("-p", 2);
    lemma_ascii_bytes("--system-headers", 16);
    lemma_ascii_bytes("-system-headers", 15);
}

/// The length and the second byte that the name of an option without a value
/// has, one line for each name.
spec fn flag_shape(name: Seq<u8>) -> bool {
    ||| name.len() == 5 && name[1] == DASH  // `--fix`
    ||| name.len() == 4 && name[1] == 102  // `-fix`
    ||| name.len() == 12 && name[1] == DASH  // `--fix-errors`
    ||| name.len() == 11 && name[1] == 102  // `-fix-errors`
    ||| name.len() == 7 && name[1] == DASH  // `--quiet`
    ||| name.len() == 6 && name[1] == 113  // `-quiet`
    ||| name.len() == 20 && name[1] == DASH  // `--warnings-as-errors`
    ||| name.len() == 19 && name[1] == 119  // `-warnings-as-errors`
}

proof fn lemma_flag_names(name: Seq<u8>)
    ensures
        flag_option(name) is Some ==> flag_shape(name),
{
    lemma_flag_spellings();
}

#[verifier::spinoff_prover]
proof fn lemma_value_names(name: Seq<u8>, value: Seq<u8>)
    ensures
        value_option(name, value) is Some ==> !flag_shape(name) && name.len() > 1 && !(name.len()
            == 2 && name[1] == DASH),
{
    lemma_value_spellings();
}

/// No name is that of an option with a value and of one without, and none is
/// `--`.
pub proof fn lemma_option_names(name: Seq<u8>, value: Seq<u8>)
    ensures
        value_option(name, value) is Some ==> flag_option(name) is None,
        value_option(name, value) is Some ==> name != "--".spec_bytes(),
        flag_option(name) is Some ==> name != "--".spec_bytes(),
{
    lemma_flag_names(name);
    lemma_value_names(name, value);
    reveal_strlit("--");
    lemma_ascii_bytes("--", 2);
}

/// The length of the name of an option.
fn find_name_len(text: &[u8]) -> (n: usize)
    ensures
        n == name_len(text@),
        n <= text@.len(),
{
    let mut n: usize = 0;
    assert(text@.skip(0) == text@);
    while n < text.len()
        invariant
            n <= text@.len(),
            name_len(text@) == n + name_len(text@.skip(n as int)),
        decreases text@.len() - n,
    {
        if text[n] == EQUALS {
            return n;
        }
        assert(text@.skip(n as int).drop_first() == text@.skip(n + 1));
        n += 1;
    }
    n
}

/// Whether an option is written under one of its two names.
fn is_named(name: &[u8], long: &str, short: &str) -> (r: bool)
    ensures
        r == named(name@, long, short),
{
    same(name, long.as_bytes()) || same(name, short.as_bytes())
}

/// Looks up an option that takes a value.
fn find_value_option(name: &[u8], value: &[u8]) -> (r: Option<ArgData<Vec<u8>>>)
    ensures
        match r {
            Some(data) => value_option(name@, value@) == Some(data@),
            None => value_option(name@, value@) is None,
        },
{
    if is_named(name, "--checks", "-checks") {
        Some(ArgData::Checks(copied(value)))
    } else if is_named(name, "--config", "-config") {
        Some(ArgData::Config(copied(value)))
    } else if is_named(name, "--config-file", "-config-file") {
        Some(ArgData::ConfigFile(copied(value)))
    } else if is_named(name, "--export-fixes", "-export-fixes") {
        Some(ArgData::ExportFixes(copied(value)))
    } else if is_named(name, "--extra-arg", "-extra-arg") || is_named(
        name,
        "--extra-arg-before",
        "-extra-arg-before",
    ) || is_named(name, "--header-filter", "-header-filter") || is_named(
        name,
        "--line-filter",
        "-line-filter",
    ) {
        Some(ArgData::PassThrough(copied(value)))
    } else if is_named(name, "--load", "-load") {
        Some(ArgData::LoadPlugin(copied(value)))
    } else if same(name, "-p".as_bytes()) {
        Some(ArgData::CompileCommandsDir(copied(value)))
    } else if is_named(name, "--system-headers", "-system-headers") {
        Some(ArgData::PassThrough(copied(value)))
    } else {
        None
    }
}

/// Looks up an option that takes no value.
fn find_flag_option(text: &[u8]) -> (r: Option<ArgData<Vec<u8>>>)
    ensures
        match r {
            Some(data) => flag_option(text@) == Some(data@),
            None => flag_option(text@) is None,
        },
{
    if is_named(text, "--fix", "-fix") {
        Some(ArgData::Fix)
    } else if is_named(text, "--fix-errors", "-fix-errors") {
        Some(ArgData::FixErrors)
    } else if is_named(text, "--quiet", "-quiet") || is_named(
        text,
        "--warnings-as-errors",
        "-warnings-as-errors",
    ) {
        Some(ArgData::PassThroughFlag)
    } else {
        None
    }
}

/// Reads one argument.
pub fn read_argument(arg: &[u8]) -> (r: Argument<Vec<u8>>)
    ensures
        r@ == argument_of(arg@),
{
    let lossy: String = to_string_lossy(arg);
    let text: &[u8] = lossy.as_str().as_bytes();
    assert(text@ == text_of(arg@));
    match find_flag_option(text) {
        Some(data) => {
            return Argument::Flag(copied(text), data);
        },
        None => {},
    }
    let n: usize = find_name_len(text);
    let name: &[u8] = vstd::slice::slice_subrange(text, 0, n);
    let value: &[u8] = if n < text.len() {
        vstd::slice::slice_subrange(text, n + 1, text.len())
    } else {
        vstd::slice::slice_subrange(text, n, n)
    };
    assert(name@ == option_name(text@));
    assert(value@ == option_value(text@));
    match find_value_option(name, value) {
        Some(data) => Argument::WithValue(copied(name), data),
        None => if starts_with(text, "-".as_bytes()) {
            Argument::UnknownFlag(copied(arg))
        } else {
            Argument::Raw(copied(arg))
        },
    }
}

} // verus!
