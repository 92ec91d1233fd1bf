//! Application descriptors: what a desktop entry says of an application, and
//! which entries may enter the color index.

use vstd::prelude::*;
use crate::text::chars_of;

verus! {

/// `freedesktop_file_parser::ParseError`, the error of the descriptor parser.
/// It is carried through as it is; nothing is claimed of what it holds.
#[verifier::external_type_specification]
#[verifier::external_body]
pub struct ExParseError(freedesktop_file_parser::ParseError);

/// The result of `freedesktop_file_parser::parse` on the text of a file, as
/// far as it is read here: the flags, the kind, the icon reference and the
/// exec template of the parsed entry, or `None` where the parser reports an
/// error. The parser looks at nothing but the text, so equal texts give
/// equal results.
pub uninterp spec fn parsed(contents: Seq<char>) -> Option<DescriptorView>;

/// The kind of thing a desktop entry describes.
#[derive(Clone, Copy, Debug, PartialEq, Eq, Structural)]
pub enum EntryKind {
    /// A program that can be launched.
    Application,
    /// A shortcut to a URL.
    Link,
    /// A menu directory.
    Directory,
    /// Any other kind.
    Unknown,
}

/// The fields of a parsed descriptor file that the launcher reads.
#[derive(Clone, Debug)]
pub struct Descriptor {
    /// The no-display flag, if the file sets it.
    pub no_display: Option<bool>,
    /// The hidden flag, if the file sets it.
    pub hidden: Option<bool>,
    /// What the entry describes.
    pub kind: EntryKind,
    /// The icon reference as written: a file path or a themed icon name.
    pub icon: Option<String>,
    /// The exec template of an application.
    pub exec_template: Option<String>,
}

/// The mathematical value of a [`Descriptor`].
pub struct DescriptorView {
    pub no_display: Option<bool>,
    pub hidden: Option<bool>,
    pub kind: EntryKind,
    pub icon: Option<Seq<char>>,
    pub exec_template: Option<Seq<char>>,
}

/// The characters of an optional string.
pub open spec fn opt_chars(s: Option<String>) -> Option<Seq<char>> {
    match s {
        Some(t) => Some(t@),
        None => None,
    }
}

impl View for Descriptor {
    type V = DescriptorView;

    open spec fn view(&self) -> DescriptorView {
        DescriptorView {
            no_display: self.no_display,
            hidden: self.hidden,
            kind: self.kind,
            icon: opt_chars(self.icon),
            exec_template: opt_chars(self.exec_template),
        }
    }
}

/// An installed application as the index sees it.
#[derive(Clone, Debug)]
pub struct ApplicationEntry {
    /// Identity: the descriptor's path below its search root, separators
    /// flattened to dashes.
    pub id: String,
    /// Set when the entry asks not to be shown in menus.
    pub no_display: bool,
    /// Set when the entry counts as deleted.
    pub hidden: bool,
    /// What the entry describes.
    pub kind: EntryKind,
    /// The icon file that the icon reference resolved to, if any.
    pub icon: Option<String>,
    /// The exec template.
    pub exec_template: Option<String>,
}

/// The mathematical value of an [`ApplicationEntry`].
pub struct EntryView {
    pub id: Seq<char>,
    pub no_display: bool,
    pub hidden: bool,
    pub kind: EntryKind,
    pub icon: Option<Seq<char>>,
    pub exec_template: Option<Seq<char>>,
}

impl View for ApplicationEntry {
    type V = EntryView;

    open spec fn view(&self) -> EntryView {
        EntryView {
            id: self.id@,
            no_display: self.no_display,
            hidden: self.hidden,
            kind: self.kind,
            icon: opt_chars(self.icon),
            exec_template: opt_chars(self.exec_template),
        }
    }
}

/// Whether `path` names a file `stem.ext` with a non-empty stem: it ends in
/// a dot and `ext`, and the dot is not the first character of the last path
/// component.
pub open spec fn has_extension(path: Seq<char>, ext: Seq<char>) -> bool {
    let dot = path.len() - ext.len() - 1;
    &&& dot >= 1
    &&& path[dot] == '.'
    &&& path[dot - 1] != '/'
    &&& path.skip(dot + 1) == ext
}

/// The extension of descriptor files.
pub open spec fn descriptor_ext() -> Seq<char> {
    seq!['d', 'e', 's', 'k', 't', 'o', 'p']
}

/// The extension of vector icons.
pub open spec fn vector_ext() -> Seq<char> {
    seq!['s', 'v', 'g']
}

/// Whether an entry may enter the index: it is a visible application whose
/// icon resolved to a raster file.
pub open spec fn eligible(e: EntryView) -> bool {
    &&& !e.no_display
    &&& !e.hidden
    &&& e.kind == EntryKind::Application
    &&& e.icon matches Some(path)
    &&& !has_extension(path, vector_ext())
}

/// Calls `freedesktop_file_parser::parse` and keeps the fields read here.
///
/// Not proved: that the outcome is [`parsed`] of the text. The body moves
/// the flags, the icon reference and, for an application, the exec template
/// out of the parser's record and maps its four entry types to
/// [`EntryKind`]; an error of the parser is handed on.
#[verifier::external_body]
fn run_parser(contents: &str) -> (r: Result<Descriptor, freedesktop_file_parser::ParseError>)
    ensures
        r is Ok <==> parsed(contents@) is Some,
        r matches Ok(d) ==> parsed(contents@) == Some(d@),
{
    let entry = freedesktop_file_parser::parse(contents)?.entry;
    let (kind, exec_template) = match entry.entry_type {
        freedesktop_file_parser::EntryType::Application(fields) => (
            EntryKind::Application,
            fields.exec,
        ),
        freedesktop_file_parser::EntryType::Link(_) => (EntryKind::Link, None),
        freedesktop_file_parser::EntryType::Directory => (EntryKind::Directory, None),
        freedesktop_file_parser::EntryType::Unknown => (EntryKind::Unknown, None),
    };
    let icon = entry.icon.map(|icon| icon.content);
    Ok(Descriptor { no_display: entry.no_display, hidden: entry.hidden, kind, icon, exec_template })
}

/// Why a descriptor file gives no descriptor.
#[derive(Clone, Copy, Debug, PartialEq, Eq, Structural)]
pub enum DescriptorError {
    /// The parser does not accept the file's text.
    Malformed,
}

/// Parses the text of a descriptor file.
///
/// The result is [`parsed`] of the text: the descriptor on which the parser
/// settles, or `Malformed` where it reports an error.
pub fn parse_descriptor(contents: &str) -> (r: Result<Descriptor, DescriptorError>)
    ensures
        r is Ok <==> parsed(contents@) is Some,
        r matches Ok(d) ==> parsed(contents@) == Some(d@),
        r matches Err(e) ==> e == DescriptorError::Malformed,
{
    match run_parser(contents) {
        Ok(descriptor) => Ok(descriptor),
        Err(_) => Err(DescriptorError::Malformed),
    }
}

/// Whether `path` ends in `.` and the characters of `ext`, after a non-empty
/// stem.
fn ends_with_extension(path: &Vec<char>, ext: &Vec<char>) -> (r: bool)
    ensures
        r == has_extension(path@, ext@),
{
    if path.len() < ext.len() || path.len() - ext.len() < 2 {
        return false;
    }
    let dot: usize = path.len() - ext.len() - 1;
    if path[dot] != '.' || path[dot - 1] == '/' {
        return false;
    }
    let mut i: usize = 0;
    while i < ext.len()
        invariant
            i <= ext.len(),
            dot + 1 + ext.len() == path.len(),
            forall|j: int| 0 <= j < i ==> path@[dot + 1 + j] == ext@[j],
        decreases ext.len() - i,
    {
        if path[dot + 1 + i] != ext[i] {
            assert(path@.skip(dot + 1)[i as int] != ext@[i as int]);
            return false;
        }
        i += 1;
    }
    assert(path@.skip(dot + 1) =~= ext@);
    true
}

/// A flag that a descriptor may leave out counts as unset.
pub open spec fn flag(value: Option<bool>) -> bool {
    value == Some(true)
}

/// Whether a descriptor is worth an icon lookup: a visible application that
/// names an icon.
pub open spec fn names_icon(d: DescriptorView) -> bool {
    &&& !flag(d.no_display)
    &&& !flag(d.hidden)
    &&& d.kind == EntryKind::Application
    &&& d.icon is Some
}

/// The entry made of an id, a descriptor and the file that the descriptor's
/// icon reference resolved to.
pub open spec fn entry_of(id: Seq<char>, d: DescriptorView, icon_path: Option<Seq<char>>) -> EntryView {
    EntryView {
        id,
        no_display: flag(d.no_display),
        hidden: flag(d.hidden),
        kind: d.kind,
        icon: if d.icon is Some {
            icon_path
        } else {
            None
        },
        exec_template: d.exec_template,
    }
}

impl Descriptor {
    /// Whether this descriptor is a visible application that names an icon.
    /// Only then is there an icon to look up.
    pub fn names_icon(&self) -> (r: bool)
        ensures
            r == names_icon(self@),
    {
        let no_display: bool = match self.no_display {
            Some(value) => value,
            None => false,
        };
        let hidden: bool = match self.hidden {
            Some(value) => value,
            None => false,
        };
        !no_display && !hidden && self.kind == EntryKind::Application && self.icon.is_some()
    }
}

impl ApplicationEntry {
    /// Makes the entry for the descriptor found under `id`. `icon_path` is
    /// the file that the descriptor's icon reference resolved to; it is
    /// dropped where the descriptor names no icon.
    pub fn from_descriptor(id: String, descriptor: Descriptor, icon_path: Option<String>) -> (e:
        ApplicationEntry)
        ensures
            e@ == entry_of(id@, descriptor@, opt_chars(icon_path)),
    {
        let no_display: bool = match descriptor.no_display {
            Some(value) => value,
            None => false,
        };
        let hidden: bool = match descriptor.hidden {
            Some(value) => value,
            None => false,
        };
        let icon: Option<String> = if descriptor.icon.is_some() {
            icon_path
        } else {
            None
        };
        ApplicationEntry {
            id,
            no_display,
            hidden,
            kind: descriptor.kind,
            icon,
            exec_template: descriptor.exec_template,
        }
    }

    /// Whether this entry may enter the index.
    pub fn is_eligible(&self) -> (r: bool)
        ensures
            r == eligible(self@),
    {
        if self.no_display || self.hidden || self.kind != EntryKind::Application {
            return false;
        }
        match &self.icon {
            Some(path) => !is_vector_icon(path.as_str()),
            None => false,
        }
    }
}

/// Whether `path` names a descriptor file, one with the extension
/// `desktop`.
pub fn is_descriptor(path: &str) -> (r: bool)
    ensures
        r == has_extension(path@, descriptor_ext()),
{
    let ext: Vec<char> = vec!['d', 'e', 's', 'k', 't', 'o', 'p'];
    assert(ext@ =~= descriptor_ext());
    ends_with_extension(&chars_of(path), &ext)
}

/// Whether `path` names a vector icon, one with the extension `svg`.
pub fn is_vector_icon(path: &str) -> (r: bool)
    ensures
        r == has_extension(path@, vector_ext()),
{
    let ext: Vec<char> = vec!['s', 'v', 'g'];
    assert(ext@ =~= vector_ext());
    ends_with_extension(&chars_of(path), &ext)
}

} // verus!
