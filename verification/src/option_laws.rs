//! What the arguments of `clang-tidy` mean, name by name.

use vstd::prelude::*;
use vstd::string::*;
use vstd::utf8::*;

use crate::args::{
    argument_of, flag_option, lemma_flag_spellings, lemma_option_names, lemma_value_spellings,
    name_len, option_name, option_value, value_option, ArgData, Argument,
};
use crate::bytes::EQUALS;
use crate::text::{lemma_text_of_valid, replaced_text, text_of};

verus! {

/// An argument that is valid UTF-8 reads as itself; any other reads as the
/// text in which what is invalid has been replaced.
pub proof fn law_text(arg: Seq<u8>)
    ensures
        valid_utf8(arg) ==> text_of(arg) == arg,
        !valid_utf8(arg) ==> text_of(arg) == encode_utf8(replaced_text(arg)),
{
    if valid_utf8(arg) {
        lemma_text_of_valid(arg);
    }
}

/// The model of an argument that was read says what is in it.
pub proof fn law_argument_model(bytes: Vec<u8>, data: ArgData<Vec<u8>>)
    ensures
        Argument::Raw(bytes)@ == Argument::<Seq<u8>>::Raw(bytes@),
        Argument::UnknownFlag(bytes)@ == Argument::<Seq<u8>>::UnknownFlag(bytes@),
        Argument::Flag(bytes, data)@ == Argument::Flag(bytes@, data@),
        Argument::WithValue(bytes, data)@ == Argument::WithValue(bytes@, data@),
        ArgData::PassThrough(bytes)@ == ArgData::PassThrough(bytes@),
        ArgData::<Vec<u8>>::PassThroughFlag@ == ArgData::<Seq<u8>>::PassThroughFlag,
        ArgData::Checks(bytes)@ == ArgData::Checks(bytes@),
        ArgData::Config(bytes)@ == ArgData::Config(bytes@),
        ArgData::ConfigFile(bytes)@ == ArgData::ConfigFile(bytes@),
        ArgData::LoadPlugin(bytes)@ == ArgData::LoadPlugin(bytes@),
        ArgData::ExportFixes(bytes)@ == ArgData::ExportFixes(bytes@),
        ArgData::<Vec<u8>>::Fix@ == ArgData::<Seq<u8>>::Fix,
        ArgData::<Vec<u8>>::FixErrors@ == ArgData::<Seq<u8>>::FixErrors,
        ArgData::CompileCommandsDir(bytes)@ == ArgData::CompileCommandsDir(bytes@),
{
}

/// Whether a name is one of the options that take a value.
pub open spec fn takes_value(name: Seq<u8>) -> bool {
    ||| name == "--checks".spec_bytes()
    ||| name == "-checks".spec_bytes()
    ||| name == "--config".spec_bytes()
    ||| name == "-config".spec_bytes()
    ||| name == "--config-file".spec_bytes()
    ||| name == "-config-file".spec_bytes()
    ||| name == "--export-fixes".spec_bytes()
    ||| name == "-export-fixes".spec_bytes()
    ||| name == "--extra-arg".spec_bytes()
    ||| name == "-extra-arg".spec_bytes()
    ||| name == "--extra-arg-before".spec_bytes()
    ||| name == "-extra-arg-before".spec_bytes()
    ||| name == "--header-filter".spec_bytes()
    ||| name == "-header-filter".spec_bytes()
    ||| name == "--line-filter".spec_bytes()
    ||| name == "-line-filter".spec_bytes()
    ||| name == "--load".spec_bytes()
    ||| name == "-load".spec_bytes()
    ||| name == "--system-headers".spec_bytes()
    ||| name == "-system-headers".spec_bytes()
    ||| name == "-p".spec_bytes()
}

/// Whether a text is one of the options that take no value.
pub open spec fn takes_none(text: Seq<u8>) -> bool {
    ||| text == "--fix".spec_bytes()
    ||| text == "-fix".spec_bytes()
    ||| text == "--fix-errors".spec_bytes()
    ||| text == "-fix-errors".spec_bytes()
    ||| text == "--quiet".spec_bytes()
    ||| text == "-quiet".spec_bytes()
    ||| text == "--warnings-as-errors".spec_bytes()
    ||| text == "-warnings-as-errors".spec_bytes()
}

/// Whether an argument reads as a name, `=` and a value.
pub open spec fn gives(arg: Seq<u8>, name: &str, value: Seq<u8>) -> bool {
    text_of(arg) == name.spec_bytes().push(EQUALS) + value
}

/// Whether an argument reads as a name alone.
pub open spec fn names(arg: Seq<u8>, name: &str) -> bool {
    text_of(arg) == name.spec_bytes()
}

/// A name ends at the first `=`, and what follows that `=` is the value,
/// whatever it holds.
pub proof fn lemma_name_end(name: Seq<u8>, rest: Seq<u8>)
    requires
        !name.contains(EQUALS),
        rest.len() > 0 ==> rest[0] == EQUALS,
    ensures
        name_len(name + rest) == name.len(),
        option_name(name + rest) == name,
        option_value(name + rest) == (if rest.len() == 0 {
            rest
        } else {
            rest.skip(1)
        }),
    decreases name.len(),
{
    let text = name + rest;
    if name.len() == 0 {
        assert(text =~= rest);
    } else {
        let shorter = name.drop_first();
        assert(!shorter.contains(EQUALS)) by {
            if shorter.contains(EQUALS) {
                let i = choose|i: int| 0 <= i < shorter.len() && shorter[i] == EQUALS;
                assert(name[i + 1] == EQUALS);
            }
        }
        assert(name.contains(name[0]));
        lemma_name_end(shorter, rest);
        assert(text.drop_first() =~= shorter + rest);
    }
    assert(option_name(text) =~= name);
    if rest.len() > 0 {
        assert(option_value(text) =~= rest.skip(1));
    } else {
        assert(option_value(text) =~= rest);
    }
}

/// A text with an `=` in it is no option without a value.
proof fn lemma_flags_plain(text: Seq<u8>)
    requires
        text.contains(EQUALS),
    ensures
        flag_option(text) is None,
{
    lemma_flag_spellings();
}

proof fn lemma_gives(arg: Seq<u8>, name: &str, value: Seq<u8>)
    requires
        !name.spec_bytes().contains(EQUALS),
        value_option(name.spec_bytes(), value) is Some,
        gives(arg, name, value),
    ensures
        argument_of(arg) == Argument::WithValue(
            name.spec_bytes(),
            value_option(name.spec_bytes(), value)->0,
        ),
{
    let n = name.spec_bytes();
    let rest = seq![EQUALS] + value;
    assert(text_of(arg) =~= n + rest);
    assert(rest.skip(1) =~= value);
    lemma_name_end(n, rest);
    assert(text_of(arg)[n.len() as int] == EQUALS);
    lemma_flags_plain(text_of(arg));
}

proof fn lemma_names(arg: Seq<u8>, name: &str)
    requires
        !name.spec_bytes().contains(EQUALS),
        value_option(name.spec_bytes(), Seq::empty()) is Some,
        names(arg, name),
    ensures
        argument_of(arg) == Argument::WithValue(
            name.spec_bytes(),
            value_option(name.spec_bytes(), Seq::empty())->0,
        ),
{
    let n = name.spec_bytes();
    assert(text_of(arg) =~= n + Seq::<u8>::empty());
    lemma_name_end(n, Seq::empty());
    lemma_option_names(n, Seq::empty());
}

#[verifier::spinoff_prover]
proof fn lemma_value_kinds(value: Seq<u8>)
    ensures
        value_option("--checks".spec_bytes(), value) == Some(ArgData::Checks(value)),
        value_option("-checks".spec_bytes(), value) == Some(ArgData::Checks(value)),
        value_option("--config".spec_bytes(), value) == Some(ArgData::Config(value)),
        value_option("-config".spec_bytes(), value) == Some(ArgData::Config(value)),
        value_option("--config-file".spec_bytes(), value) == Some(ArgData::ConfigFile(value)),
        value_option("-config-file".spec_bytes(), value) == Some(ArgData::ConfigFile(value)),
        value_option("--export-fixes".spec_bytes(), value) == Some(ArgData::ExportFixes(value)),
        value_option("-export-fixes".spec_bytes(), value) == Some(ArgData::ExportFixes(value)),
        value_option("--extra-arg".spec_bytes(), value) == Some(ArgData::PassThrough(value)),
        value_option("-extra-arg".spec_bytes(), value) == Some(ArgData::PassThrough(value)),
        value_option("--extra-arg-before".spec_bytes(), value) == Some(ArgData::PassThrough(value)),
        value_option("-extra-arg-before".spec_bytes(), value) == Some(ArgData::PassThrough(value)),
        value_option("--header-filter".spec_bytes(), value) == Some(ArgData::PassThrough(value)),
        value_option("-header-filter".spec_bytes(), value) == Some(ArgData::PassThrough(value)),
        value_option("--line-filter".spec_bytes(), value) == Some(ArgData::PassThrough(value)),
        value_option("-line-filter".spec_bytes(), value) == Some(ArgData::PassThrough(value)),
        value_option("--load".spec_bytes(), value) == Some(ArgData::LoadPlugin(value)),
        value_option("-load".spec_bytes(), value) == Some(ArgData::LoadPlugin(value)),
        value_option("--system-headers".spec_bytes(), value) == Some(ArgData::PassThrough(value)),
        value_option("-system-headers".spec_bytes(), value) == Some(ArgData::PassThrough(value)),
        value_option("-p".spec_bytes(), value) == Some(ArgData::CompileCommandsDir(value)),
{
    lemma_value_spellings();
}

/// An option that takes a value, written with `=` and any value, empty or
/// not, with `=` in it or not, is read as that option with all of that value.
#[verifier::spinoff_prover]
pub proof fn law_value_given(arg: Seq<u8>, value: Seq<u8>)
    ensures
        gives(arg, "--checks", value) ==> argument_of(arg) == Argument::WithValue(
            "--checks".spec_bytes(),
            ArgData::Checks(value),
        ),
        gives(arg, "-checks", value) ==> argument_of(arg) == Argument::WithValue(
            "-checks".spec_bytes(),
            ArgData::Checks(value),
        ),
        gives(arg, "--config", value) ==> argument_of(arg) == Argument::WithValue(
            "--config".spec_bytes(),
            ArgData::Config(value),
        ),
        gives(arg, "-config", value) ==> argument_of(arg) == Argument::WithValue(
            "-config".spec_bytes(),
            ArgData::Config(value),
        ),
        gives(arg, "--config-file", value) ==> argument_of(arg) == Argument::WithValue(
            "--config-file".spec_bytes(),
            ArgData::ConfigFile(value),
        ),
        gives(arg, "-config-file", value) ==> argument_of(arg) == Argument::WithValue(
            "-config-file".spec_bytes(),
            ArgData::ConfigFile(value),
        ),
        gives(arg, "--export-fixes", value) ==> argument_of(arg) == Argument::WithValue(
            "--export-fixes".spec_bytes(),
            ArgData::ExportFixes(value),
        ),
        gives(arg, "-export-fixes", value) ==> argument_of(arg) == Argument::WithValue(
            "-export-fixes".spec_bytes(),
            ArgData::ExportFixes(value),
        ),
        gives(arg, "--extra-arg", value) ==> argument_of(arg) == Argument::WithValue(
            "--extra-arg".spec_bytes(),
            ArgData::PassThrough(value),
        ),
        gives(arg, "-extra-arg", value) ==> argument_of(arg) == Argument::WithValue(
            "-extra-arg".spec_bytes(),
            ArgData::PassThrough(value),
        ),
        gives(arg, "--extra-arg-before", value) ==> argument_of(arg) == Argument::WithValue(
            "--extra-arg-before".spec_bytes(),
            ArgData::PassThrough(value),
        ),
        gives(arg, "-extra-arg-before", value) ==> argument_of(arg) == Argument::WithValue(
            "-extra-arg-before".spec_bytes(),
            ArgData::PassThrough(value),
        ),
        gives(arg, "--header-filter", value) ==> argument_of(arg) == Argument::WithValue(
            "--header-filter".spec_bytes(),
            ArgData::PassThrough(value),
        ),
        gives(arg, "-header-filter", value) ==> argument_of(arg) == Argument::WithValue(
            "-header-filter".spec_bytes(),
            ArgData::PassThrough(value),
        ),
        gives(arg, "--line-filter", value) ==> argument_of(arg) == Argument::WithValue(
            "--line-filter".spec_bytes(),
            ArgData::PassThrough(value),
        ),
        gives(arg, "-line-filter", value) ==> argument_of(arg) == Argument::WithValue(
            "-line-filter".spec_bytes(),
            ArgData::PassThrough(value),
        ),
        gives(arg, "--load", value) ==> argument_of(arg) == Argument::WithValue(
            "--load".spec_bytes(),
            ArgData::LoadPlugin(value),
        ),
        gives(arg, "-load", value) ==> argument_of(arg) == Argument::WithValue(
            "-load".spec_bytes(),
            ArgData::LoadPlugin(value),
        ),
        gives(arg, "--system-headers", value) ==> argument_of(arg) == Argument::WithValue(
            "--system-headers".spec_bytes(),
            ArgData::PassThrough(value),
        ),
        gives(arg, "-system-headers", value) ==> argument_of(arg) == Argument::WithValue(
            "-system-headers".spec_bytes(),
            ArgData::PassThrough(value),
        ),
        gives(arg, "-p", value) ==> argument_of(arg) == Argument::WithValue(
            "-p".spec_bytes(),
            ArgData::CompileCommandsDir(value),
        ),
{
    lemma_value_spellings();
    lemma_value_kinds(value);
    if gives(arg, "--checks", value) {
        lemma_gives(arg, "--checks", value);
    }
    if gives(arg, "-checks", value) {
        lemma_gives(arg, "-checks", value);
    }
    if gives(arg, "--config", value) {
        lemma_gives(arg, "--config", value);
    }
    if gives(arg, "-config", value) {
        lemma_gives(arg, "-config", value);
    }
    if gives(arg, "--config-file", value) {
        lemma_gives(arg, "--config-file", value);
    }
    if gives(arg, "-config-file", value) {
        lemma_gives(arg, "-config-file", value);
    }
    if gives(arg, "--export-fixes", value) {
        lemma_gives(arg, "--export-fixes", value);
    }
    if gives(arg, "-export-fixes", value) {
        lemma_gives(arg, "-export-fixes", value);
    }
    if gives(arg, "--extra-arg", value) {
        lemma_gives(arg, "--extra-arg", value);
    }
    if gives(arg, "-extra-arg", value) {
        lemma_gives(arg, "-extra-arg", value);
    }
    if gives(arg, "--extra-arg-before", value) {
        lemma_gives(arg, "--extra-arg-before", value);
    }
    if gives(arg, "-extra-arg-before", value) {
        lemma_gives(arg, "-extra-arg-before", value);
    }
    if gives(arg, "--header-filter", value) {
        lemma_gives(arg, "--header-filter", value);
    }
    if gives(arg, "-header-filter", value) {
        lemma_gives(arg, "-header-filter", value);
    }
    if gives(arg, "--line-filter", value) {
        lemma_gives(arg, "--line-filter", value);
    }
    if gives(arg, "-line-filter", value) {
        lemma_gives(arg, "-line-filter", value);
    }
    if gives(arg, "--load", value) {
        lemma_gives(arg, "--load", value);
    }
    if gives(arg, "-load", value) {
        lemma_gives(arg, "-load", value);
    }
    if gives(arg, "--system-headers", value) {
        lemma_gives(arg, "--system-headers", value);
    }
    if gives(arg, "-system-headers", value) {
        lemma_gives(arg, "-system-headers", value);
    }
    if gives(arg, "-p", value) {
        lemma_gives(arg, "-p", value);
    }
}

/// An option that takes a value, written without one, is read as that option
/// with an empty value.
#[verifier::spinoff_prover]
pub proof fn law_value_missing(arg: Seq<u8>)
    ensures
        names(arg, "--checks") ==> argument_of(arg) == Argument::WithValue(
            "--checks".spec_bytes(),
            ArgData::Checks(Seq::empty()),
        ),
        names(arg, "-checks") ==> argument_of(arg) == Argument::WithValue(
            "-checks".spec_bytes(),
            ArgData::Checks(Seq::empty()),
        ),
        names(arg, "--config") ==> argument_of(arg) == Argument::WithValue(
            "--config".spec_bytes(),
            ArgData::Config(Seq::empty()),
        ),
        names(arg, "-config") ==> argument_of(arg) == Argument::WithValue(
            "-config".spec_bytes(),
            ArgData::Config(Seq::empty()),
        ),
        names(arg, "--config-file") ==> argument_of(arg) == Argument::WithValue(
            "--config-file".spec_bytes(),
            ArgData::ConfigFile(Seq::empty()),
        ),
        names(arg, "-config-file") ==> argument_of(arg) == Argument::WithValue(
            "-config-file".spec_bytes(),
            ArgData::ConfigFile(Seq::empty()),
        ),
        names(arg, "--export-fixes") ==> argument_of(arg) == Argument::WithValue(
            "--export-fixes".spec_bytes(),
            ArgData::ExportFixes(Seq::empty()),
        ),
        names(arg, "-export-fixes") ==> argument_of(arg) == Argument::WithValue(
            "-export-fixes".spec_bytes(),
            ArgData::ExportFixes(Seq::empty()),
        ),
        names(arg, "--extra-arg") ==> argument_of(arg) == Argument::WithValue(
            "--extra-arg".spec_bytes(),
            ArgData::PassThrough(Seq::empty()),
        ),
        names(arg, "-extra-arg") ==> argument_of(arg) == Argument::WithValue(
            "-extra-arg".spec_bytes(),
            ArgData::PassThrough(Seq::empty()),
        ),
        names(arg, "--extra-arg-before") ==> argument_of(arg) == Argument::WithValue(
            "--extra-arg-before".spec_bytes(),
            ArgData::PassThrough(Seq::empty()),
        ),
        names(arg, "-extra-arg-before") ==> argument_of(arg) == Argument::WithValue(
            "-extra-arg-before".spec_bytes(),
            ArgData::PassThrough(Seq::empty()),
        ),
        names(arg, "--header-filter") ==> argument_of(arg) == Argument::WithValue(
            "--header-filter".spec_bytes(),
            ArgData::PassThrough(Seq::empty()),
        ),
        names(arg, "-header-filter") ==> argument_of(arg) == Argument::WithValue(
            "-header-filter".spec_bytes(),
            ArgData::PassThrough(Seq::empty()),
        ),
        names(arg, "--line-filter") ==> argument_of(arg) == Argument::WithValue(
            "--line-filter".spec_bytes(),
            ArgData::PassThrough(Seq::empty()),
        ),
        names(arg, "-line-filter") ==> argument_of(arg) == Argument::WithValue(
            "-line-filter".spec_bytes(),
            ArgData::PassThrough(Seq::empty()),
        ),
        names(arg, "--load") ==> argument_of(arg) == Argument::WithValue(
            "--load".spec_bytes(),
            ArgData::LoadPlugin(Seq::empty()),
        ),
        names(arg, "-load") ==> argument_of(arg) == Argument::WithValue(
            "-load".spec_bytes(),
            ArgData::LoadPlugin(Seq::empty()),
        ),
        names(arg, "--system-headers") ==> argument_of(arg) == Argument::WithValue(
            "--system-headers".spec_bytes(),
            ArgData::PassThrough(Seq::empty()),
        ),
        names(arg, "-system-headers") ==> argument_of(arg) == Argument::WithValue(
            "-system-headers".spec_bytes(),
            ArgData::PassThrough(Seq::empty()),
        ),
        names(arg, "-p") ==> argument_of(arg) == Argument::WithValue(
            "-p".spec_bytes(),
            ArgData::CompileCommandsDir(Seq::empty()),
        ),
{
    lemma_value_spellings();
    lemma_value_kinds(Seq::empty());
    if names(arg, "--checks") {
        lemma_names(arg, "--checks");
    }
    if names(arg, "-checks") {
        lemma_names(arg, "-checks");
    }
    if names(arg, "--config") {
        lemma_names(arg, "--config");
    }
    if names(arg, "-config") {
        lemma_names(arg, "-config");
    }
    if names(arg, "--config-file") {
        lemma_names(arg, "--config-file");
    }
    if names(arg, "-config-file") {
        lemma_names(arg, "-config-file");
    }
    if names(arg, "--export-fixes") {
        lemma_names(arg, "--export-fixes");
    }
    if names(arg, "-export-fixes") {
        lemma_names(arg, "-export-fixes");
    }
    if names(arg, "--extra-arg") {
        lemma_names(arg, "--extra-arg");
    }
    if names(arg, "-extra-arg") {
        lemma_names(arg, "-extra-arg");
    }
    if names(arg, "--extra-arg-before") {
        lemma_names(arg, "--extra-arg-before");
    }
    if names(arg, "-extra-arg-before") {
        lemma_names(arg, "-extra-arg-before");
    }
    if names(arg, "--header-filter") {
        lemma_names(arg, "--header-filter");
    }
    if names(arg, "-header-filter") {
        lemma_names(arg, "-header-filter");
    }
    if names(arg, "--line-filter") {
        lemma_names(arg, "--line-filter");
    }
    if names(arg, "-line-filter") {
        lemma_names(arg, "-line-filter");
    }
    if names(arg, "--load") {
        lemma_names(arg, "--load");
    }
    if names(arg, "-load") {
        lemma_names(arg, "-load");
    }
    if names(arg, "--system-headers") {
        lemma_names(arg, "--system-headers");
    }
    if names(arg, "-system-headers") {
        lemma_names(arg, "-system-headers");
    }
    if names(arg, "-p") {
        lemma_names(arg, "-p");
    }
}

/// An option that takes no value is read as such where it stands alone.
pub proof fn law_flag(arg: Seq<u8>)
    ensures
        names(arg, "--fix") ==> argument_of(arg) == Argument::Flag(
            "--fix".spec_bytes(),
            ArgData::Fix,
        ),
        names(arg, "-fix") ==> argument_of(arg) == Argument::Flag(
            "-fix".spec_bytes(),
            ArgData::Fix,
        ),
        names(arg, "--fix-errors") ==> argument_of(arg) == Argument::Flag(
            "--fix-errors".spec_bytes(),
            ArgData::FixErrors,
        ),
        names(arg, "-fix-errors") ==> argument_of(arg) == Argument::Flag(
            "-fix-errors".spec_bytes(),
            ArgData::FixErrors,
        ),
        names(arg, "--quiet") ==> argument_of(arg) == Argument::Flag(
            "--quiet".spec_bytes(),
            ArgData::PassThroughFlag,
        ),
        names(arg, "-quiet") ==> argument_of(arg) == Argument::Flag(
            "-quiet".spec_bytes(),
            ArgData::PassThroughFlag,
        ),
        names(arg, "--warnings-as-errors") ==> argument_of(arg) == Argument::Flag(
            "--warnings-as-errors".spec_bytes(),
            ArgData::PassThroughFlag,
        ),
        names(arg, "-warnings-as-errors") ==> argument_of(arg) == Argument::Flag(
            "-warnings-as-errors".spec_bytes(),
            ArgData::PassThroughFlag,
        ),
{
    lemma_flag_spellings();
}

/// An argument is a known option exactly where its whole text is that of an
/// option without a value, or what stands before its first `=` is the name of
/// an option with one. Any other argument is kept byte for byte: as an unknown
/// option where it begins with a dash, and as positional where it does not.
pub proof fn law_known(arg: Seq<u8>, name: Seq<u8>, rest: Seq<u8>)
    requires
        text_of(arg) == name + rest,
        !name.contains(EQUALS),
        rest.len() > 0 ==> rest[0] == EQUALS,
    ensures
        argument_of(arg).data() is Some <==> takes_value(name) || takes_none(text_of(arg)),
        argument_of(arg).data() is None ==> argument_of(arg) == (if text_of(arg).len() > 0
            && text_of(arg)[0] == 45 {
            Argument::UnknownFlag(arg)
        } else {
            Argument::Raw(arg)
        }),
{
    lemma_name_end(name, rest);
    let text = text_of(arg);
    lemma_begins_with_dash(text);
}

proof fn lemma_begins_with_dash(text: Seq<u8>)
    ensures
        "-".spec_bytes().is_prefix_of(text) <==> text.len() > 0 && text[0] == 45,
{
    reveal_strlit("-");
    assert(is_ascii("-"));
    assert("-".spec_bytes() =~= seq![45u8]);
    if text.len() > 0 && text[0] == 45 {
        assert(text.subrange(0, 1) =~= seq![45u8]);
    }
    if "-".spec_bytes().is_prefix_of(text) {
        assert(text.subrange(0, 1)[0] == text[0]);
    }
}

/// Every text is a name without `=` and either nothing more or an `=` and
/// what follows it.
pub proof fn lemma_name_and_rest(text: Seq<u8>) -> (parts: (Seq<u8>, Seq<u8>))
    ensures
        text == parts.0 + parts.1,
        !parts.0.contains(EQUALS),
        parts.1.len() > 0 ==> parts.1[0] == EQUALS,
    decreases text.len(),
{
    if text.len() == 0 || text[0] == EQUALS {
        assert(text =~= Seq::<u8>::empty() + text);
        (Seq::empty(), text)
    } else {
        let (name, rest) = lemma_name_and_rest(text.drop_first());
        let longer = seq![text[0]] + name;
        assert(text =~= seq![text[0]] + text.drop_first());
        assert(longer + rest =~= seq![text[0]] + (name + rest));
        assert(!longer.contains(EQUALS)) by {
            if longer.contains(EQUALS) {
                let i = choose|i: int| 0 <= i < longer.len() && longer[i] == EQUALS;
                assert(name[i - 1] == EQUALS);
            }
        }
        (longer, rest)
    }
}

/// The usual flags of a compiler are no options of `clang-tidy`: whatever
/// does not begin with a dash, is a dash alone, has behind its dash a byte
/// with which no option begins, or begins with `-std`. So neither are `-D`,
/// `-I`, `-W`, `-O`, `-o`, `-g`, `-m`, `-i`, `-U` and what may follow them.
#[verifier::spinoff_prover]
pub proof fn law_compiler_flag_unknown(arg: Seq<u8>)
    ensures
        text_of(arg).len() < 2 || text_of(arg)[0] != 45 ==> argument_of(arg).data() is None,
        text_of(arg).len() >= 2 && !usual_initial(text_of(arg)[1]) ==> argument_of(
            arg,
        ).data() is None,
        "-std".spec_bytes().is_prefix_of(text_of(arg)) ==> argument_of(arg).data() is None,
{
    let text = text_of(arg);
    let (name, rest) = lemma_name_and_rest(text);
    law_known(arg, name, rest);
    lemma_spelled_names(name);
    lemma_spelled_flags(text);
    reveal_strlit("-std");
    assert(is_ascii("-std"));
    let std = "-std".spec_bytes();
    assert(std.len() == 4 && std[0] == 45 && std[1] == 115 && std[2] == 116 && std[3] == 100);
    if name.len() >= 2 {
        assert(name[0] == text[0] && name[1] == text[1]);
    }
    if name.len() >= 3 {
        assert(name[2] == text[2]);
    }
    if std.is_prefix_of(text) {
        assert(std[0] == text[0] && std[1] == text[1] && std[2] == text[2]);
    }
}

/// Whether a byte can follow the first dash of an option: another dash, or
/// one of the letters c, e, f, h, l, p, q, s, w.
pub open spec fn usual_initial(b: u8) -> bool {
    b == 45 || b == 99 || b == 101 || b == 102 || b == 104 || b == 108 || b == 112 || b == 113 || b
        == 115 || b == 119
}

#[verifier::spinoff_prover]
proof fn lemma_spelled_names(name: Seq<u8>)
    ensures
        takes_value(name) ==> name.len() >= 2 && name[0] == 45 && usual_initial(name[1]) && (name[1]
            == 115 ==> name.len() > 2 && name[2] == 121),
{
    lemma_value_spellings();
    lemma_value_dashes();
}

#[verifier::spinoff_prover]
proof fn lemma_spelled_flags(text: Seq<u8>)
    ensures
        takes_none(text) ==> text.len() >= 2 && text[0] == 45 && usual_initial(text[1]) && text[1]
            != 115,
{
    lemma_flag_spellings();
    lemma_flag_dashes();
}

proof fn lemma_first_byte(s: &str)
    requires
        is_ascii(s),
        s@.len() > 0,
    ensures
        s.spec_bytes()[0] == s@[0] as u8,
{
}

#[verifier::spinoff_prover]
proof fn lemma_value_dashes()
    ensures
        "--checks".spec_bytes()[0] == 45,
        "-checks".spec_bytes()[0] == 45,
        "--config".spec_bytes()[0] == 45,
        "-config".spec_bytes()[0] == 45,
        "--config-file".spec_bytes()[0] == 45,
        "-config-file".spec_bytes()[0] == 45,
        "--export-fixes".spec_bytes()[0] == 45,
        "-export-fixes".spec_bytes()[0] == 45,
        "--extra-arg".spec_bytes()[0] == 45,
        "-extra-arg".spec_bytes()[0] == 45,
        "--extra-arg-before".spec_bytes()[0] == 45,
        "-extra-arg-before".spec_bytes()[0] == 45,
        "--header-filter".spec_bytes()[0] == 45,
        "-header-filter".spec_bytes()[0] == 45,
        "--line-filter".spec_bytes()[0] == 45,
        "-line-filter".spec_bytes()[0] == 45,
        "--load".spec_bytes()[0] == 45,
        "-load".spec_bytes()[0] == 45,
        "--system-headers".spec_bytes()[0] == 45,
        "-system-headers".spec_bytes()[0] == 45,
        "-p".spec_bytes()[0] == 45,
{
    reveal_strlit("--checks");
    reveal_strlit("-checks");
    reveal_strlit("--config");
    reveal_strlit("-config");
    reveal_strlit("--config-file");
    reveal_strlit("-config-file");
    reveal_strlit("--export-fixes");
    reveal_strlit("-export-fixes");
    reveal_strlit("--extra-arg");
    reveal_strlit("-extra-arg");
    reveal_strlit("--extra-arg-before");
    reveal_strlit("-extra-arg-before");
    reveal_strlit("--header-filter");
    reveal_strlit("-header-filter");
    reveal_strlit("--line-filter");
    reveal_strlit("-line-filter");
    reveal_strlit("--load");
    reveal_strlit("-load");
    reveal_strlit("--system-headers");
    reveal_strlit("-system-headers");
    reveal_strlit("-p");
    lemma_first_byte("--checks");
    lemma_first_byte("-checks");
    lemma_first_byte("--config");
    lemma_first_byte("-config");
    lemma_first_byte("--config-file");
    lemma_first_byte("-config-file");
    lemma_first_byte("--export-fixes");
    lemma_first_byte("-export-fixes");
    lemma_first_byte("--extra-arg");
    lemma_first_byte("-extra-arg");
    lemma_first_byte("--extra-arg-before");
    lemma_first_byte("-extra-arg-before");
    lemma_first_byte("--header-filter");
    lemma_first_byte("-header-filter");
    lemma_first_byte("--line-filter");
    lemma_first_byte("-line-filter");
    lemma_first_byte("--load");
    lemma_first_byte("-load");
    lemma_first_byte("--system-headers");
    lemma_first_byte("-system-headers");
    lemma_first_byte("-p");
}

#[verifier::spinoff_prover]
proof fn lemma_flag_dashes()
    ensures
        "--fix".spec_bytes()[0] == 45,
        "-fix".spec_bytes()[0] == 45,
        "--fix-errors".spec_bytes()[0] == 45,
        "-fix-errors".spec_bytes()[0] == 45,
        "--quiet".spec_bytes()[0] == 45,
        "-quiet".spec_bytes()[0] == 45,
        "--warnings-as-errors".spec_bytes()[0] == 45,
        "-warnings-as-errors".spec_bytes()[0] == 45,
{
    reveal_strlit("--fix");
    reveal_strlit("-fix");
    reveal_strlit("--fix-errors");
    reveal_strlit("-fix-errors");
    reveal_strlit("--quiet");
    reveal_strlit("-quiet");
    reveal_strlit("--warnings-as-errors");
    reveal_strlit("-warnings-as-errors");
    lemma_first_byte("--fix");
    lemma_first_byte("-fix");
    lemma_first_byte("--fix-errors");
    lemma_first_byte("-fix-errors");
    lemma_first_byte("--quiet");
    lemma_first_byte("-quiet");
    lemma_first_byte("--warnings-as-errors");
    lemma_first_byte("-warnings-as-errors");
}

/// An argument that is read and written out again is as it was, with one
/// exception: where the `=` of a known option is the last byte, it goes.
#[verifier::spinoff_prover]
pub proof fn law_written(arg: Seq<u8>)
    ensures
        argument_of(arg).data() is None ==> argument_of(arg).written() == arg,
        argument_of(arg).data() is Some ==> argument_of(arg).written() == (if text_of(arg).last()
            == EQUALS && !text_of(arg).drop_last().contains(EQUALS) {
            text_of(arg).drop_last()
        } else {
            text_of(arg)
        }),
{
    let text = text_of(arg);
    let (name, rest) = lemma_name_and_rest(text);
    lemma_name_end(name, rest);
    lemma_flag_spellings();
    if flag_option(text) is Some {
        assert(!text.contains(EQUALS));
        assert(text.last() == text[text.len() - 1]);
    } else if rest.len() > 0 {
        assert(text[name.len() as int] == EQUALS);
        assert(name.push(EQUALS) + rest.skip(1) =~= text);
        if rest.len() == 1 {
            assert(text.drop_last() =~= name);
        } else {
            assert(text.drop_last()[name.len() as int] == EQUALS);
        }
    } else {
        assert(text =~= name);
        if name.len() > 0 {
            assert(name.contains(name.last()));
        }
        if argument_of(arg).data() is Some {
            lemma_spelled_names(name);
        }
    }
}

} // verus!
