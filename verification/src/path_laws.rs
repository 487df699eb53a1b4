//! What paths and file names tell: extensions, languages, compilers.

use vstd::prelude::*;
use vstd::string::*;

use crate::bytes::{
    has_infix, last_index, lemma_last_index_bounds, lower, lowered, occurs_at, DOT, SLASH,
};
use crate::flags::{likely_compiler, source_extension};
use crate::language::{extension_language, file_language, Language};
use crate::parse::source_language;
use crate::paths::{extension_of, joined, last_component};

verus! {

/// Making ASCII letters lower case moves the bytes from 65 to 90 up by 32 and
/// leaves every other byte, and the length, as they are.
pub proof fn law_lowered(s: Seq<u8>)
    ensures
        lowered(s).len() == s.len(),
        forall|i: int|
            0 <= i < s.len() ==> (if 65 <= s[i] <= 90 {
                #[trigger] lowered(s)[i] == s[i] + 32
            } else {
                lowered(s)[i] == s[i]
            }),
{
}

/// What stands between two other texts is found in them put together.
pub proof fn law_infix(front: Seq<u8>, needle: Seq<u8>, back: Seq<u8>)
    ensures
        has_infix(front + needle + back, needle),
{
    let all = front + needle + back;
    assert(all.subrange(front.len() as int, front.len() as int + needle.len()) =~= needle);
    assert(occurs_at(all, needle, front.len() as int));
}

/// What is found in a text stands between two other texts in it.
pub proof fn law_infix_parts(haystack: Seq<u8>, needle: Seq<u8>) -> (parts: (Seq<u8>, Seq<u8>))
    requires
        has_infix(haystack, needle),
    ensures
        haystack == parts.0 + needle + parts.1,
{
    let i = choose|i: int| occurs_at(haystack, needle, i);
    let front = haystack.take(i);
    let back = haystack.skip(i + needle.len());
    assert(haystack =~= front + haystack.subrange(i, i + needle.len()) + back);
    (front, back)
}

/// Seen from a directory, an absolute path stays as it is. Any other path is
/// put behind the directory with nothing lost of either, and with one `/`
/// between them exactly where the directory is named and does not end in one.
pub proof fn law_joined(base: Seq<u8>, path: Seq<u8>)
    ensures
        path.is_suffix_of(joined(base, path)),
        path.len() > 0 && path[0] == 47 ==> joined(base, path) == path,
        path.len() == 0 || path[0] != 47 ==> {
            &&& base.is_prefix_of(joined(base, path))
            &&& base.len() == 0 || base.last() == 47 ==> joined(base, path).len() == base.len()
                + path.len()
            &&& base.len() > 0 && base.last() != 47 ==> joined(base, path).len() == base.len()
                + path.len() + 1 && joined(base, path)[base.len() as int] == 47
        },
{
    let all = joined(base, path);
    assert(path =~= all.subrange(all.len() - path.len(), all.len() as int));
    if path.len() == 0 || path[0] != 47 {
        assert(base =~= all.subrange(0, base.len() as int));
    }
}

proof fn lemma_last_index_at(front: Seq<u8>, b: u8, back: Seq<u8>)
    requires
        !back.contains(b),
    ensures
        last_index(front.push(b) + back, b) == front.len(),
    decreases back.len(),
{
    let all = front.push(b) + back;
    if back.len() == 0 {
        assert(all =~= front.push(b));
    } else {
        let shorter = back.drop_last();
        assert(!shorter.contains(b)) by {
            if shorter.contains(b) {
                let i = choose|i: int| 0 <= i < shorter.len() && shorter[i] == b;
                assert(back[i] == b);
            }
        }
        assert(back.contains(back.last()));
        assert(all.last() == back.last());
        lemma_last_index_at(front, b, shorter);
        assert(all.drop_last() =~= front.push(b) + shorter);
    }
}

proof fn lemma_last_index_none(s: Seq<u8>, b: u8)
    requires
        !s.contains(b),
    ensures
        last_index(s, b) == -1,
{
    lemma_last_index_bounds(s, b);
    if last_index(s, b) >= 0 {
        assert(s.contains(s[last_index(s, b)]));
    }
}

/// Whether a text is a directory in front of a file name: empty, or ending in
/// `/`.
pub open spec fn directory(dir: Seq<u8>) -> bool {
    dir.len() == 0 || dir.last() == 47
}

proof fn lemma_dots()
    ensures
        ".".spec_bytes() == seq![46u8],
        "..".spec_bytes() == seq![46u8, 46],
{
    reveal_strlit(".");
    reveal_strlit("..");
    assert(is_ascii(".") && is_ascii(".."));
    assert(".".spec_bytes() =~= seq![46u8]);
    assert("..".spec_bytes() =~= seq![46u8, 46]);
}

proof fn lemma_last_component(dir: Seq<u8>, name: Seq<u8>)
    requires
        directory(dir),
        !name.contains(47),
        dir.len() > 0 ==> name.len() > 0 && name != seq![46u8],
    ensures
        last_component(dir + name) == name,
{
    let path = dir + name;
    lemma_dots();
    if dir.len() == 0 {
        assert(path =~= name);
        lemma_last_index_none(path, SLASH);
        assert(path.skip(0) =~= name);
    } else {
        let front = dir.drop_last();
        assert(path =~= front.push(SLASH) + name);
        lemma_last_index_at(front, SLASH, name);
        assert(path.skip(dir.len() as int) =~= name);
    }
}

/// In a file name, what follows the last dot is the extension, in whatever
/// directory the file is. What comes before the dot is not empty, and the
/// name is not `..`.
pub proof fn law_extension(dir: Seq<u8>, stem: Seq<u8>, ext: Seq<u8>)
    requires
        directory(dir),
        stem.len() > 0,
        !stem.contains(47),
        !ext.contains(47),
        !ext.contains(46),
        !(stem == seq![46u8] && ext.len() == 0),
    ensures
        extension_of(dir + (stem.push(46) + ext)) == Some(ext),
{
    let name = stem.push(46) + ext;
    lemma_dots();
    assert(!name.contains(47)) by {
        if name.contains(47) {
            let i = choose|i: int| 0 <= i < name.len() && name[i] == 47;
            if i < stem.len() {
                assert(stem[i] == 47);
            } else if i > stem.len() {
                assert(ext[i - stem.len() - 1] == 47);
            }
        }
    }
    assert(name.len() > 1);
    lemma_last_component(dir, name);
    if name == seq![46u8, 46] {
        assert(stem =~= seq![46u8]);
    }
    lemma_last_index_at(stem, DOT, ext);
    assert(name.skip(stem.len() as int + 1) =~= ext);
}

/// A file name without a dot behind its first byte has no extension, nor has
/// `..`, nor an empty path, nor `.`.
pub proof fn law_no_extension(dir: Seq<u8>, name: Seq<u8>)
    requires
        directory(dir),
        !name.contains(47),
        name == seq![46u8, 46] || forall|i: int| 1 <= i < name.len() ==> name[i] != 46,
        dir.len() > 0 ==> name.len() > 0 && name != seq![46u8],
    ensures
        extension_of(dir + name) is None,
{
    lemma_dots();
    lemma_last_component(dir, name);
    lemma_last_index_bounds(name, DOT);
}

/// A path means the same file with `/` or `/.` behind it.
pub proof fn law_extension_trailing(path: Seq<u8>)
    ensures
        extension_of(path.push(47)) == extension_of(path),
        extension_of(path.push(47).push(46)) == extension_of(path),
{
    lemma_dots();
    let slashed = path.push(47);
    lemma_last_index_at(path, SLASH, Seq::empty());
    assert(slashed =~= path.push(SLASH) + Seq::<u8>::empty());
    assert(slashed.skip(path.len() as int + 1) =~= Seq::<u8>::empty());
    assert(slashed.take(path.len() as int) =~= path);
    assert(last_component(slashed) == last_component(path));
    let dotted = slashed.push(46);
    lemma_last_index_at(path, SLASH, seq![46u8]);
    assert(dotted =~= path.push(SLASH) + seq![46u8]);
    assert(dotted.skip(path.len() as int + 1) =~= seq![46u8]);
    assert(dotted.take(path.len() as int) =~= path);
    assert(last_component(dotted) == last_component(path));
}

/// The path of a file with a given extension.
pub open spec fn file(dir: Seq<u8>, stem: Seq<u8>, ext: &str) -> Seq<u8> {
    dir + (stem.push(46) + ext.spec_bytes())
}

/// Whether an extension is not empty and holds neither a dot nor a `/`.
spec fn plain(ext: Seq<u8>) -> bool {
    ext.len() > 0 && !ext.contains(47) && !ext.contains(46)
}

/// How an extension is spelled, as far as it tells extensions apart: its
/// length, and its first bytes as far as it is that long.
spec fn spelled(ext: Seq<u8>, len: int, first: u8, second: u8, third: u8) -> bool {
    &&& plain(ext)
    &&& ext.len() == len
    &&& ext[0] == first
    &&& len > 1 ==> ext[1] == second
    &&& len > 2 ==> ext[2] == third
}

proof fn lemma_ascii_bytes(s: &str, n: int)
    requires
        is_ascii(s),
        s@.len() == n,
        n > 0,
        forall|i: int| 0 <= i < n ==> s@[i] != '.' && s@[i] != '/',
    ensures
        plain(s.spec_bytes()),
        s.spec_bytes().len() == n,
        s.spec_bytes()[0] == s@[0] as u8,
        n > 1 ==> s.spec_bytes()[1] == s@[1] as u8,
        n > 2 ==> s.spec_bytes()[2] == s@[2] as u8,
{
    let b = s.spec_bytes();
    assert forall|i: int| 0 <= i < n implies b[i] != 46 && b[i] != 47 by {
        assert(b[i] == s@[i] as u8);
    }
}

#[verifier::spinoff_prover]
proof fn lemma_extensions()
    ensures
        spelled("c".spec_bytes(), 1, 99, 0, 0),
        spelled("h".spec_bytes(), 1, 104, 0, 0),
        spelled("C".spec_bytes(), 1, 67, 0, 0),
        spelled("cc".spec_bytes(), 2, 99, 99, 0),
        spelled("cp".spec_bytes(), 2, 99, 112, 0),
        spelled("cpp".spec_bytes(), 3, 99, 112, 112),
        spelled("CPP".spec_bytes(), 3, 67, 80, 80),
        spelled("cxx".spec_bytes(), 3, 99, 120, 120),
        spelled("c++".spec_bytes(), 3, 99, 43, 43),
        spelled("H".spec_bytes(), 1, 72, 0, 0),
        spelled("hh".spec_bytes(), 2, 104, 104, 0),
        spelled("hp".spec_bytes(), 2, 104, 112, 0),
        spelled("hpp".spec_bytes(), 3, 104, 112, 112),
        spelled("HPP".spec_bytes(), 3, 72, 80, 80),
        spelled("hxx".spec_bytes(), 3, 104, 120, 120),
        spelled("h++".spec_bytes(), 3, 104, 43, 43),
        spelled("tcc".spec_bytes(), 3, 116, 99, 99),
        spelled("m".spec_bytes(), 1, 109, 0, 0),
        spelled("M".spec_bytes(), 1, 77, 0, 0),
        spelled("mm".spec_bytes(), 2, 109, 109, 0),
        spelled("cu".spec_bytes(), 2, 99, 117, 0),
        spelled("ptx".spec_bytes(), 3, 112, 116, 120),
        spelled("cubin".spec_bytes(), 5, 99, 117, 98),
        spelled("rs".spec_bytes(), 2, 114, 115, 0),
        spelled("hip".spec_bytes(), 3, 104, 105, 112),
{
    reveal_strlit("c");
    reveal_strlit("h");
    reveal_strlit("C");
    reveal_strlit("cc");
    reveal_strlit("cp");
    reveal_strlit("cpp");
    reveal_strlit("CPP");
    reveal_strlit("cxx");
    reveal_strlit("c++");
    reveal_strlit("H");
    reveal_strlit("hh");
    reveal_strlit("hp");
    reveal_strlit("hpp");
    reveal_strlit("HPP");
    reveal_strlit("hxx");
    reveal_strlit("h++");
    reveal_strlit("tcc");
    reveal_strlit("m");
    reveal_strlit("M");
    reveal_strlit("mm");
    reveal_strlit("cu");
    reveal_strlit("ptx");
    reveal_strlit("cubin");
    reveal_strlit("rs");
    reveal_strlit("hip");
    lemma_ascii_bytes("c", 1);
    lemma_ascii_bytes("h", 1);
    lemma_ascii_bytes("C", 1);
    lemma_ascii_bytes("cc", 2);
    lemma_ascii_bytes("cp", 2);
    lemma_ascii_bytes("cpp", 3);
    lemma_ascii_bytes("CPP", 3);
    lemma_ascii_bytes("cxx", 3);
    lemma_ascii_bytes("c++", 3);
    lemma_ascii_bytes("H", 1);
    lemma_ascii_bytes("hh", 2);
    lemma_ascii_bytes("hp", 2);
    lemma_ascii_bytes("hpp", 3);
    lemma_ascii_bytes("HPP", 3);
    lemma_ascii_bytes("hxx", 3);
    lemma_ascii_bytes("h++", 3);
    lemma_ascii_bytes("tcc", 3);
    lemma_ascii_bytes("m", 1);
    lemma_ascii_bytes("M", 1);
    lemma_ascii_bytes("mm", 2);
    lemma_ascii_bytes("cu", 2);
    lemma_ascii_bytes("ptx", 3);
    lemma_ascii_bytes("cubin", 5);
    lemma_ascii_bytes("rs", 2);
    lemma_ascii_bytes("hip", 3);
}

proof fn lemma_file(dir: Seq<u8>, stem: Seq<u8>, ext: &str)
    requires
        directory(dir),
        stem.len() > 0,
        !stem.contains(47),
        plain(ext.spec_bytes()),
    ensures
        extension_of(file(dir, stem, ext)) == Some(ext.spec_bytes()),
{
    law_extension(dir, stem, ext.spec_bytes());
}

#[verifier::spinoff_prover]
proof fn lemma_extension_languages()
    ensures
        extension_language("c".spec_bytes()) == Some(Language::C),
        extension_language("h".spec_bytes()) == Some(Language::GenericHeader),
        extension_language("C".spec_bytes()) == Some(Language::Cxx),
        extension_language("cc".spec_bytes()) == Some(Language::Cxx),
        extension_language("cp".spec_bytes()) == Some(Language::Cxx),
        extension_language("cpp".spec_bytes()) == Some(Language::Cxx),
        extension_language("CPP".spec_bytes()) == Some(Language::Cxx),
        extension_language("cxx".spec_bytes()) == Some(Language::Cxx),
        extension_language("c++".spec_bytes()) == Some(Language::Cxx),
        extension_language("H".spec_bytes()) == Some(Language::CxxHeader),
        extension_language("hh".spec_bytes()) == Some(Language::CxxHeader),
        extension_language("hp".spec_bytes()) == Some(Language::CxxHeader),
        extension_language("hpp".spec_bytes()) == Some(Language::CxxHeader),
        extension_language("HPP".spec_bytes()) == Some(Language::CxxHeader),
        extension_language("hxx".spec_bytes()) == Some(Language::CxxHeader),
        extension_language("h++".spec_bytes()) == Some(Language::CxxHeader),
        extension_language("tcc".spec_bytes()) == Some(Language::CxxHeader),
        extension_language("m".spec_bytes()) == Some(Language::ObjectiveC),
        extension_language("M".spec_bytes()) == Some(Language::ObjectiveCxx),
        extension_language("mm".spec_bytes()) == Some(Language::ObjectiveCxx),
        extension_language("cu".spec_bytes()) == Some(Language::Cuda),
        extension_language("ptx".spec_bytes()) == Some(Language::Ptx),
        extension_language("cubin".spec_bytes()) == Some(Language::Cubin),
        extension_language("rs".spec_bytes()) == Some(Language::Rust),
        extension_language("hip".spec_bytes()) == Some(Language::Hip),
{
    lemma_extensions();
}

/// The language of a file is told by its extension, wherever the file is and
/// however it is called.
#[verifier::spinoff_prover]
pub proof fn law_language(dir: Seq<u8>, stem: Seq<u8>)
    requires
        directory(dir),
        stem.len() > 0,
        !stem.contains(47),
    ensures
        file_language(file(dir, stem, "c")) == Some(Language::C),
        file_language(file(dir, stem, "h")) == Some(Language::GenericHeader),
        file_language(file(dir, stem, "C")) == Some(Language::Cxx),
        file_language(file(dir, stem, "cc")) == Some(Language::Cxx),
        file_language(file(dir, stem, "cp")) == Some(Language::Cxx),
        file_language(file(dir, stem, "cpp")) == Some(Language::Cxx),
        file_language(file(dir, stem, "CPP")) == Some(Language::Cxx),
        file_language(file(dir, stem, "cxx")) == Some(Language::Cxx),
        file_language(file(dir, stem, "c++")) == Some(Language::Cxx),
        file_language(file(dir, stem, "H")) == Some(Language::CxxHeader),
        file_language(file(dir, stem, "hh")) == Some(Language::CxxHeader),
        file_language(file(dir, stem, "hp")) == Some(Language::CxxHeader),
        file_language(file(dir, stem, "hpp")) == Some(Language::CxxHeader),
        file_language(file(dir, stem, "HPP")) == Some(Language::CxxHeader),
        file_language(file(dir, stem, "hxx")) == Some(Language::CxxHeader),
        file_language(file(dir, stem, "h++")) == Some(Language::CxxHeader),
        file_language(file(dir, stem, "tcc")) == Some(Language::CxxHeader),
        file_language(file(dir, stem, "m")) == Some(Language::ObjectiveC),
        file_language(file(dir, stem, "M")) == Some(Language::ObjectiveCxx),
        file_language(file(dir, stem, "mm")) == Some(Language::ObjectiveCxx),
        file_language(file(dir, stem, "cu")) == Some(Language::Cuda),
        file_language(file(dir, stem, "ptx")) == Some(Language::Ptx),
        file_language(file(dir, stem, "cubin")) == Some(Language::Cubin),
        file_language(file(dir, stem, "rs")) == Some(Language::Rust),
        file_language(file(dir, stem, "hip")) == Some(Language::Hip),
{
    lemma_extensions();
    lemma_extension_languages();
    lemma_file(dir, stem, "c");
    lemma_file(dir, stem, "h");
    lemma_file(dir, stem, "C");
    lemma_file(dir, stem, "cc");
    lemma_file(dir, stem, "cp");
    lemma_file(dir, stem, "cpp");
    lemma_file(dir, stem, "CPP");
    lemma_file(dir, stem, "cxx");
    lemma_file(dir, stem, "c++");
    lemma_file(dir, stem, "H");
    lemma_file(dir, stem, "hh");
    lemma_file(dir, stem, "hp");
    lemma_file(dir, stem, "hpp");
    lemma_file(dir, stem, "HPP");
    lemma_file(dir, stem, "hxx");
    lemma_file(dir, stem, "h++");
    lemma_file(dir, stem, "tcc");
    lemma_file(dir, stem, "m");
    lemma_file(dir, stem, "M");
    lemma_file(dir, stem, "mm");
    lemma_file(dir, stem, "cu");
    lemma_file(dir, stem, "ptx");
    lemma_file(dir, stem, "cubin");
    lemma_file(dir, stem, "rs");
    lemma_file(dir, stem, "hip");
}

/// Whether an extension tells the language of a file.
pub open spec fn telling(ext: Seq<u8>) -> bool {
    ||| ext == "c".spec_bytes()
    ||| ext == "h".spec_bytes()
    ||| ext == "C".spec_bytes()
    ||| ext == "cc".spec_bytes()
    ||| ext == "cp".spec_bytes()
    ||| ext == "cpp".spec_bytes()
    ||| ext == "CPP".spec_bytes()
    ||| ext == "cxx".spec_bytes()
    ||| ext == "c++".spec_bytes()
    ||| ext == "H".spec_bytes()
    ||| ext == "hh".spec_bytes()
    ||| ext == "hp".spec_bytes()
    ||| ext == "hpp".spec_bytes()
    ||| ext == "HPP".spec_bytes()
    ||| ext == "hxx".spec_bytes()
    ||| ext == "h++".spec_bytes()
    ||| ext == "tcc".spec_bytes()
    ||| ext == "m".spec_bytes()
    ||| ext == "M".spec_bytes()
    ||| ext == "mm".spec_bytes()
    ||| ext == "cu".spec_bytes()
    ||| ext == "ptx".spec_bytes()
    ||| ext == "cubin".spec_bytes()
    ||| ext == "rs".spec_bytes()
    ||| ext == "hip".spec_bytes()
}

/// No other extension tells a language, nor does a file without one. Where
/// the language is told, a source file is of that language; where it is not,
/// it is C++.
pub proof fn law_language_untold(path: Seq<u8>)
    ensures
        extension_of(path) is None ==> file_language(path) is None,
        extension_of(path) matches Some(ext) && !telling(ext) ==> file_language(path) is None,
        file_language(path) is None ==> source_language(path) == Language::Cxx,
        file_language(path) matches Some(language) ==> source_language(path) == language,
{
}

/// Whether a text is another one, up to the case of ASCII letters.
pub open spec fn cased(ext: Seq<u8>, like: &str) -> bool {
    &&& ext.len() == like.spec_bytes().len()
    &&& forall|i: int|
        0 <= i < ext.len() ==> {
            let b = like.spec_bytes()[i];
            #[trigger] ext[i] == b || 97 <= b <= 122 && ext[i] == b - 32
        }
}

pub proof fn lemma_cased(ext: Seq<u8>, like: &str)
    requires
        forall|i: int|
            0 <= i < like.spec_bytes().len() ==> !(65 <= #[trigger] like.spec_bytes()[i] <= 90),
    ensures
        lowered(ext) == like.spec_bytes() <==> cased(ext, like),
{
    let b = like.spec_bytes();
    if lowered(ext) == b {
        assert forall|i: int| 0 <= i < ext.len() implies #[trigger] ext[i] == b[i] || 97 <= b[i]
            <= 122 && ext[i] == b[i] - 32 by {
            assert(lowered(ext)[i] == lower(ext[i]));
        }
    }
    if cased(ext, like) {
        assert forall|i: int| 0 <= i < ext.len() implies lowered(ext)[i] == b[i] by {
            assert(ext[i] == b[i] || 97 <= b[i] <= 122 && ext[i] == b[i] - 32);
        }
        assert(lowered(ext) =~= b);
    }
}

/// Whether an extension is one of a source or header file, in any case.
pub open spec fn of_source(ext: Seq<u8>) -> bool {
    ||| cased(ext, "c")
    ||| cased(ext, "cc")
    ||| cased(ext, "cpp")
    ||| cased(ext, "cxx")
    ||| cased(ext, "c++")
    ||| cased(ext, "h")
    ||| cased(ext, "hh")
    ||| cased(ext, "hpp")
    ||| cased(ext, "hxx")
    ||| cased(ext, "h++")
    ||| cased(ext, "m")
    ||| cased(ext, "mm")
}

#[verifier::spinoff_prover]
proof fn lemma_of_source(ext: Seq<u8>)
    ensures
        source_extension(ext) <==> of_source(ext),
{
    lemma_extensions();
    lemma_cased(ext, "c");
    lemma_cased(ext, "cc");
    lemma_cased(ext, "cpp");
    lemma_cased(ext, "cxx");
    lemma_cased(ext, "c++");
    lemma_cased(ext, "h");
    lemma_cased(ext, "hh");
    lemma_cased(ext, "hpp");
    lemma_cased(ext, "hxx");
    lemma_cased(ext, "h++");
    lemma_cased(ext, "m");
    lemma_cased(ext, "mm");
}

/// An argument names a compiler exactly where it begins with neither `-` nor
/// `@`, has not the extension of a source or header file, and does not look
/// like a flag: a flag begins with `/` and has no other `/` and no `\` in it.
pub proof fn law_likely_compiler(text: Seq<u8>)
    ensures
        likely_compiler(text) <==> {
            &&& text.len() > 0 ==> text[0] != 45 && text[0] != 64
            &&& extension_of(text) matches Some(ext) ==> !of_source(ext)
            &&& text.len() > 0 && text[0] == 47 ==> exists|i: int|
                1 <= i < text.len() && (#[trigger] text[i] == 47 || text[i] == 92)
        },
{
    if let Some(ext) = extension_of(text) {
        lemma_of_source(ext);
    }
    if text.len() > 0 && text[0] == 47 {
        let rest = text.skip(1);
        if rest.contains(47) {
            let i = choose|i: int| 0 <= i < rest.len() && rest[i] == 47;
            assert(text[i + 1] == 47);
        }
        if text.contains(92) {
            let i = choose|i: int| 0 <= i < text.len() && text[i] == 92;
            assert(text[i] == 92);
        }
        if exists|i: int| 1 <= i < text.len() && (#[trigger] text[i] == 47 || text[i] == 92) {
            let i = choose|i: int|
                1 <= i < text.len() && (#[trigger] text[i] == 47 || text[i] == 92);
            assert(rest[i - 1] == text[i]);
            assert(rest.contains(rest[i - 1]));
            assert(text.contains(text[i]));
        }
    }
}

} // verus!
