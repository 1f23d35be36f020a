use vstd::prelude::*;
use crate::text::{chars_of, owned};

verus! {

/// Lower-case form of a text, as `str::to_lowercase` gives it.
pub uninterp spec fn lower_of(s: Seq<char>) -> Seq<char>;

/// Directory part of a path, as `Path::parent` gives it.
pub uninterp spec fn parent_of(p: Seq<char>) -> Option<Seq<char>>;

/// File name without extension, as `Path::file_stem` gives it.
pub uninterp spec fn stem_of(p: Seq<char>) -> Option<Seq<char>>;

/// Extension of the file name, as `Path::extension` gives it.
pub uninterp spec fn extension_of(p: Seq<char>) -> Option<Seq<char>>;

/// Relies on `str::to_lowercase`: the lower-case form depends on the
/// characters alone.
#[verifier::external_body]
fn lowercase(s: &str) -> (r: String)
    ensures
        r@ == lower_of(s@),
{
    s.to_lowercase()
}

/// Relies on `Path::parent`, read back as text with `to_string_lossy`.
#[verifier::external_body]
fn path_parent(p: &str) -> (r: Option<String>)
    ensures
        match r {
            Some(s) => parent_of(p@) == Some(s@),
            None => parent_of(p@) is None,
        },
{
    std::path::Path::new(p).parent().map(|d| d.to_string_lossy().to_string())
}

/// Relies on `Path::file_stem`, read back as text with `to_string_lossy`.
#[verifier::external_body]
fn path_stem(p: &str) -> (r: Option<String>)
    ensures
        match r {
            Some(s) => stem_of(p@) == Some(s@),
            None => stem_of(p@) is None,
        },
{
    std::path::Path::new(p).file_stem().map(|d| d.to_string_lossy().to_string())
}

/// Relies on `Path::extension`, read back as text with `to_string_lossy`.
#[verifier::external_body]
fn path_extension(p: &str) -> (r: Option<String>)
    ensures
        match r {
            Some(s) => extension_of(p@) == Some(s@),
            None => extension_of(p@) is None,
        },
{
    std::path::Path::new(p).extension().map(|d| d.to_string_lossy().to_string())
}

#[derive(Debug, Clone, Copy, PartialEq, Eq, Structural)]
pub enum SourceType {
    File,
    Url,
}

pub open spec fn has_prefix(s: Seq<char>, prefix: Seq<char>) -> bool {
    prefix.len() <= s.len() && s.take(prefix.len() as int) == prefix
}

/// An input whose lower-case form starts with `http://` or `https://` is a URL.
pub open spec fn type_of_lowered(lowered: Seq<char>) -> SourceType {
    if has_prefix(lowered, "http://"@) || has_prefix(lowered, "https://"@) {
        SourceType::Url
    } else {
        SourceType::File
    }
}

pub open spec fn folder_text(t: SourceType, parent: Option<Seq<char>>) -> Seq<char> {
    match t {
        SourceType::Url => "."@,
        SourceType::File => match parent {
            Some(p) => if p.len() > 0 { p } else { "."@ },
            None => "."@,
        },
    }
}

pub fn starts_with(s: &str, prefix: &str) -> (r: bool)
    ensures
        r == has_prefix(s@, prefix@),
{
    let a = chars_of(s);
    let b = chars_of(prefix);
    if b.len() > a.len() {
        return false;
    }
    let mut i: usize = 0;
    while i < b.len()
        invariant
            b.len() <= a.len(),
            i <= b.len(),
            a@ == s@,
            b@ == prefix@,
            a@.take(i as int) == b@.take(i as int),
        decreases b.len() - i,
    {
        if a[i] != b[i] {
            assert(a@.take(b.len() as int)[i as int] != b@[i as int]);
            return false;
        }
        assert(a@.take(i + 1) =~= a@.take(i as int).push(a@[i as int]));
        assert(b@.take(i + 1) =~= b@.take(i as int).push(b@[i as int]));
        i += 1;
    }
    assert(b@.take(b.len() as int) =~= b@);
    true
}

/// Whether an input is a file or a URL, from its lower-case form.
pub fn source_type_of(lowered: &str) -> (r: SourceType)
    ensures
        r == type_of_lowered(lowered@),
{
    if starts_with(lowered, "http://") || starts_with(lowered, "https://") {
        SourceType::Url
    } else {
        SourceType::File
    }
}

/// The folder for output files: the input's directory, or `.` for a URL or
/// a bare file name.
pub fn folder_from_parent(t: SourceType, parent: Option<String>) -> (r: String)
    ensures
        r@ == folder_text(t, match parent {
            Some(p) => Some(p@),
            None => None,
        }),
{
    match t {
        SourceType::Url => owned("."),
        SourceType::File => match parent {
            Some(p) => if p.as_str().unicode_len() > 0 { p } else { owned(".") },
            None => owned("."),
        },
    }
}

/// The input's base name and extension, `mp4` when it has none.
pub fn name_and_ext_from(stem: Option<String>, ext: Option<String>) -> (r: (String, String))
    ensures
        r.0@ == match stem {
            Some(s) => s@,
            None => Seq::empty(),
        },
        r.1@ == match ext {
            Some(e) => e@,
            None => "mp4"@,
        },
{
    let name = match stem {
        Some(s) => s,
        None => String::new(),
    };
    let e = match ext {
        Some(e) => e,
        None => owned("mp4"),
    };
    (name, e)
}

/// The input of the session: a file path or a URL.
pub struct Source {
    pub input: String,
    pub source_type: SourceType,
}

impl Source {
    pub fn new(input: String) -> (r: Source)
        ensures
            r.input == input,
            r.source_type == type_of_lowered(lower_of(input@)),
    {
        let lowered = lowercase(input.as_str());
        let source_type = source_type_of(lowered.as_str());
        Source { input, source_type }
    }

    /// Where output files go by default.
    pub fn input_folder(&self) -> (r: String)
        ensures
            r@ == folder_text(self.source_type, parent_of(self.input@)),
    {
        match self.source_type {
            SourceType::Url => owned("."),
            SourceType::File => folder_from_parent(SourceType::File, path_parent(self.input.as_str())),
        }
    }

    /// The input's base name and extension.
    pub fn input_name_and_ext(&self) -> (r: (String, String))
        ensures
            r.0@ == match stem_of(self.input@) {
                Some(s) => s,
                None => Seq::empty(),
            },
            r.1@ == match extension_of(self.input@) {
                Some(e) => e,
                None => "mp4"@,
            },
    {
        name_and_ext_from(path_stem(self.input.as_str()), path_extension(self.input.as_str()))
    }
}

} // verus!
