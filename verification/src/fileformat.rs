//! Object file formats and how they spell symbol names.
use vstd::prelude::*;
use vstd::string::StringExecFns;

verus! {

/// The object file format that the assembly is written for.
#[derive(Debug, Clone, Copy, PartialEq, Eq, Structural)]
pub enum FileFormat {
    Elf64,
    Macho64,
}

/// The lowercase form of a text, as the standard library gives it.
pub uninterp spec fn spec_lowercase(text: Seq<char>) -> Seq<char>;

/// Lowercases `text` with `str::to_lowercase` of the standard library.
/// Nothing is claimed of the result but that it depends on the text alone.
#[verifier::external_body]
fn lowercase(text: &str) -> (lowered: String)
    ensures
        lowered@ == spec_lowercase(text@),
{
    text.to_lowercase()
}

impl FileFormat {
    /// The name of a symbol as this format wants it: unchanged for ELF,
    /// with a leading underscore for Mach-O.
    pub open spec fn spec_label(self, name: Seq<char>) -> Seq<char> {
        match self {
            FileFormat::Elf64 => name,
            FileFormat::Macho64 => "_"@ + name,
        }
    }

    /// The format with the given lowercase name.
    pub open spec fn spec_from_lowercase(name: Seq<char>) -> Option<Self> {
        if name == "macho64"@ {
            Some(FileFormat::Macho64)
        } else if name == "elf64"@ {
            Some(FileFormat::Elf64)
        } else {
            None
        }
    }

    /// The name of a symbol as this format wants it.
    pub fn label(&self, name: String) -> (mangled: String)
        ensures
            mangled@ == self.spec_label(name@),
    {
        match self {
            Self::Elf64 => name,
            Self::Macho64 => String::from_str("_").concat(name.as_str()),
        }
    }

    /// The format with the given lowercase name: `macho64` or `elf64`.
    pub fn from_lowercase(name: &str) -> (format: Option<Self>)
        ensures
            format == Self::spec_from_lowercase(name@),
    {
        let name = String::from_str(name);
        if name == String::from_str("macho64") {
            Some(Self::Macho64)
        } else if name == String::from_str("elf64") {
            Some(Self::Elf64)
        } else {
            None
        }
    }

    /// The format with the given name, in whatever case it is written.
    pub fn from_str(s: String) -> (format: Option<Self>)
        ensures
            format == Self::spec_from_lowercase(spec_lowercase(s@)),
    {
        let lowered = lowercase(s.as_str());
        Self::from_lowercase(lowered.as_str())
    }
}

} // verus!
