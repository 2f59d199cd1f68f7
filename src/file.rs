//! File parts: the media-type token, the recognised file types, and what is
//! handed to the persistence capability.
use vstd::prelude::*;
use crate::text::same_text;
use crate::value::File;

verus! {

/// A declared media type, as its two tokens (`image` and `png` for
/// `image/png`).
#[derive(Debug, Clone, PartialEq)]
pub struct MediaType {
    pub primary: String,
    pub secondary: String,
}

pub open spec fn is_separator(c: char) -> bool {
    c == '.' || c == '_' || c == '-'
}

pub open spec fn ascii_lower(c: char) -> char {
    if 'A' <= c && c <= 'Z' {
        ((c as u32) + 32) as char
    } else {
        c
    }
}

/// A token with separators removed and ASCII letters lowercased.
pub open spec fn normalized(s: Seq<char>) -> Seq<char>
    decreases s.len(),
{
    if s.len() == 0 {
        Seq::empty()
    } else if is_separator(s.last()) {
        normalized(s.drop_last())
    } else {
        normalized(s.drop_last()).push(ascii_lower(s.last()))
    }
}

/// The single token that names a media type: both tokens normalized, then
/// joined.
pub open spec fn media_token(primary: Seq<char>, secondary: Seq<char>) -> Seq<char> {
    normalized(primary) + normalized(secondary)
}

/// Relies on `String::push`: it appends one character at the end.
#[verifier::external_body]
fn push_char(s: &mut String, c: char)
    ensures
        final(s)@ == old(s)@.push(c),
{
    s.push(c)
}

/// Appends the normalized form of `s` to `out`.
fn append_normalized(out: &mut String, s: &str)
    ensures
        final(out)@ == old(out)@ + normalized(s@),
{
    let n = s.unicode_len();
    let mut i: usize = 0;
    while i < n
        invariant
            n == s@.len(),
            0 <= i <= n,
            out@ == old(out)@ + normalized(s@.subrange(0, i as int)),
        decreases n - i,
    {
        let c = s.get_char(i);
        let ghost p = s@.subrange(0, i + 1);
        assert(p.drop_last() == s@.subrange(0, i as int));
        assert(p.last() == c);
        if c == '.' || c == '_' || c == '-' {
        } else if 'A' <= c && c <= 'Z' {
            let lower = ((c as u8) + 32) as char;
            assert(lower == ascii_lower(c));
            push_char(out, lower);
        } else {
            push_char(out, c);
        }
        assert(out@ =~= old(out)@ + normalized(p));
        i = i + 1;
    }
    assert(s@.subrange(0, n as int) == s@);
}

impl MediaType {
    /// The normalized token of this media type (`textplain` for
    /// `text/plain`, `applicationvndoasisopendocumenttext` for
    /// `application/vnd.oasis.opendocument.text`).
    pub fn token(&self) -> (r: String)
        ensures
            r@ == media_token(self.primary@, self.secondary@),
    {
        let mut out = String::new();
        append_normalized(&mut out, self.primary.as_str());
        append_normalized(&mut out, self.secondary.as_str());
        assert(out@ =~= media_token(self.primary@, self.secondary@));
        out
    }
}

/// The file types that a caller can ask for by name.
#[derive(Debug, Clone, Copy, PartialEq, Eq)]
pub enum FileType {
    ImagePNG,
    ImageJPEG,
    ApplicationPDF,
    ApplicationVNDOasisOpendocumentText,
}

/// The file type that a media token names, if any.
pub open spec fn file_type_of(token: Seq<char>) -> Option<FileType> {
    if token == "imagepng"@ {
        Some(FileType::ImagePNG)
    } else if token == "imagejpeg"@ {
        Some(FileType::ImageJPEG)
    } else if token == "applicationpdf"@ {
        Some(FileType::ApplicationPDF)
    } else if token == "applicationvndoasisopendocumenttext"@ {
        Some(FileType::ApplicationVNDOasisOpendocumentText)
    } else {
        None
    }
}

impl FileType {
    /// Reads a media token such as `imagepng`.
    pub fn from_token(token: &str) -> (r: Option<FileType>)
        ensures
            r == file_type_of(token@),
    {
        if same_text(token, "imagepng") {
            Some(FileType::ImagePNG)
        } else if same_text(token, "imagejpeg") {
            Some(FileType::ImageJPEG)
        } else if same_text(token, "applicationpdf") {
            Some(FileType::ApplicationPDF)
        } else if same_text(token, "applicationvndoasisopendocumenttext") {
            Some(FileType::ApplicationVNDOasisOpendocumentText)
        } else {
            None
        }
    }
}

/// What the persistence capability receives for one file: its type, its
/// client-side name, its size in bytes and its bytes.
#[derive(Debug)]
pub struct FileInfos {
    pub file_type: Option<FileType>,
    pub filename: String,
    pub weight: usize,
    pub data: Vec<u8>,
}

impl File {
    /// The normalized media token of the file.
    pub fn file_type(&self) -> (r: &String)
        ensures
            r@ == self.file_type@,
    {
        &self.file_type
    }

    /// The client-side file name.
    pub fn name(&self) -> (r: &String)
        ensures
            r@ == self.name@,
    {
        &self.name
    }

    /// The size of the file in bytes.
    pub fn len(&self) -> (r: usize)
        ensures
            r == self.data@.len(),
    {
        self.data.len()
    }

    /// The bytes of the file.
    pub fn data(&self) -> (r: &Vec<u8>)
        ensures
            r@ == self.data@,
    {
        &self.data
    }
}

} // verus!
