//! Source languages.

use vstd::prelude::*;
use vstd::string::*;

use crate::bytes::same;
use crate::paths::{extension, extension_of};

verus! {

/// The language of a source file.
#[derive(Clone, Copy, Debug, PartialEq, Eq, Structural)]
pub enum Language {
    C,
    Cxx,
    GenericHeader,
    CHeader,
    CxxHeader,
    ObjectiveC,
    ObjectiveCxx,
    ObjectiveCxxHeader,
    Cuda,
    CudaFE,
    Ptx,
    Cubin,
    Rust,
    Hip,
}

/// The language that a file extension stands for.
pub open spec fn extension_language(ext: Seq<u8>) -> Option<Language> {
    if ext == "c".spec_bytes() {
        Some(Language::C)
    } else if ext == "h".spec_bytes() {
        Some(Language::GenericHeader)
    } else if ext == "C".spec_bytes() || ext == "cc".spec_bytes() || ext == "cp".spec_bytes() || ext
        == "cpp".spec_bytes() || ext == "CPP".spec_bytes() || ext == "cxx".spec_bytes() || ext
        == "c++".spec_bytes() {
        Some(Language::Cxx)
    } else if ext == "H".spec_bytes() || ext == "hh".spec_bytes() || ext == "hp".spec_bytes() || ext
        == "hpp".spec_bytes() || ext == "HPP".spec_bytes() || ext == "hxx".spec_bytes() || ext
        == "h++".spec_bytes() || ext == "tcc".spec_bytes() {
        Some(Language::CxxHeader)
    } else if ext == "m".spec_bytes() {
        Some(Language::ObjectiveC)
    } else if ext == "M".spec_bytes() || ext == "mm".spec_bytes() {
        Some(Language::ObjectiveCxx)
    } else if ext == "cu".spec_bytes() {
        Some(Language::Cuda)
    } else if ext == "ptx".spec_bytes() {
        Some(Language::Ptx)
    } else if ext == "cubin".spec_bytes() {
        Some(Language::Cubin)
    } else if ext == "rs".spec_bytes() {
        Some(Language::Rust)
    } else if ext == "hip".spec_bytes() {
        Some(Language::Hip)
    } else {
        None
    }
}

/// The language of a file, by its extension.
pub open spec fn file_language(path: Seq<u8>) -> Option<Language> {
    match extension_of(path) {
        Some(ext) => extension_language(ext),
        None => None,
    }
}

impl Language {
    /// The language of a file, by its extension; `None` where the extension
    /// tells nothing.
    pub fn from_file_name(file: &[u8]) -> (r: Option<Language>)
        ensures
            r == file_language(file@),
    {
        let ext: &[u8] = match extension(file) {
            Some(ext) => ext,
            None => {
                return None;
            },
        };
        if same(ext, "c".as_bytes()) {
            Some(Language::C)
        } else if same(ext, "h".as_bytes()) {
            Some(Language::GenericHeader)
        } else if same(ext, "C".as_bytes()) || same(ext, "cc".as_bytes()) || same(
            ext,
            "cp".as_bytes(),
        ) || same(ext, "cpp".as_bytes()) || same(ext, "CPP".as_bytes()) || same(
            ext,
            "cxx".as_bytes(),
        ) || same(ext, "c++".as_bytes()) {
            Some(Language::Cxx)
        } else if same(ext, "H".as_bytes()) || same(ext, "hh".as_bytes()) || same(
            ext,
            "hp".as_bytes(),
        ) || same(ext, "hpp".as_bytes()) || same(ext, "HPP".as_bytes()) || same(
            ext,
            "hxx".as_bytes(),
        ) || same(ext, "h++".as_bytes()) || same(ext, "tcc".as_bytes()) {
            Some(Language::CxxHeader)
        } else if same(ext, "m".as_bytes()) {
            Some(Language::ObjectiveC)
        } else if same(ext, "M".as_bytes()) || same(ext, "mm".as_bytes()) {
            Some(Language::ObjectiveCxx)
        } else if same(ext, "cu".as_bytes()) {
            Some(Language::Cuda)
        } else if same(ext, "ptx".as_bytes()) {
            Some(Language::Ptx)
        } else if same(ext, "cubin".as_bytes()) {
            Some(Language::Cubin)
        } else if same(ext, "rs".as_bytes()) {
            Some(Language::Rust)
        } else if same(ext, "hip".as_bytes()) {
            Some(Language::Hip)
        } else {
            None
        }
    }
}

} // verus!
