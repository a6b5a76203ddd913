//! What the preview column shows for a file: a directory's list, a text's
//! first lines, a video, an image, a sound, or what the external previewer
//! prints, and when choosing another file starts a new preview.
use vstd::prelude::*;
use crate::files::{File, Kind, opt_view, path_parent, paths_equal, same_path};
use crate::text::{chars_eq, str_to_chars};

verus! {

/// The type and subtype of the media type `text`, as the `mime` crate
/// parses it (lowercased); `None` where it is no media type.
pub uninterp spec fn mime_parts(text: Seq<char>) -> Option<(Seq<char>, Seq<char>)>;

/// `mime::Mime::from_str`, then `type_` and `subtype`; the result is named
/// `mime_parts`.
#[verifier::external_body]
pub(crate) fn parse_mime(text: &str) -> (r: Option<(String, String)>)
    ensures
        match r {
            Some((t, s)) => mime_parts(text@) == Some((t@, s@)),
            None => mime_parts(text@) is None,
        },
{
    match text.parse::<mime::Mime>() {
        Ok(m) => Some((m.type_().as_str().to_string(), m.subtype().as_str().to_string())),
        Err(_) => None,
    }
}

/// The media type `mime_guess` lists first for the file extension `ext`
/// (as the `mime` crate writes it); `None` where it knows none.
pub uninterp spec fn ext_mime(ext: Seq<char>) -> Option<Seq<char>>;

/// `mime_guess::from_ext(ext).first()`, written as text; the result is named
/// `ext_mime`.
#[verifier::external_body]
fn mime_from_ext(ext: &str) -> (r: Option<String>)
    ensures
        opt_view(r) == ext_mime(ext@),
{
    match mime_guess::from_ext(ext).first() {
        Some(m) => Some(m.to_string()),
        None => None,
    }
}

/// The extension of a path, as `Path::extension` finds it (the text after
/// the last dot of the file name); `None` where there is none.
pub uninterp spec fn path_extension(path: Seq<char>) -> Option<Seq<char>>;

/// `Path::extension`; the result is named `path_extension`.
#[verifier::external_body]
fn extension_of(path: &str) -> (r: Option<String>)
    ensures
        opt_view(r) == path_extension(path@),
{
    std::path::Path::new(path).extension().map(|e| e.to_string_lossy().to_string())
}

/// The media type a path's extension tells.
pub open spec fn ext_mime_of(path: Seq<char>) -> Option<Seq<char>> {
    match path_extension(path) {
        Some(e) => ext_mime(e),
        None => None,
    }
}

/// The media type of `file` by its extension; `None` where it has none, or
/// one that `mime_guess` does not know.
pub fn mime_by_ext(file: &File) -> (r: Option<String>)
    ensures
        opt_view(r) == ext_mime_of(file.path@),
{
    match extension_of(file.path.as_str()) {
        Some(e) => mime_from_ext(e.as_str()),
        None => None,
    }
}

/// The kinds of preview.
#[derive(Clone, Copy, Debug, PartialEq, Eq, Structural)]
pub enum PreviewKind {
    Directory,
    Text,
    Video,
    Image,
    Audio,
    External,
}

/// The preview for a file of kind `kind`, text or not, of media type
/// `mime` (if known): directories list their files, texts show their
/// lines, videos and GIF images play, other images show, sounds play, and
/// anything else goes to the external previewer.
pub open spec fn preview_kind_of(kind: Kind, is_text: bool, mime: Option<Seq<char>>) -> PreviewKind {
    if kind == Kind::Directory {
        PreviewKind::Directory
    } else if is_text {
        PreviewKind::Text
    } else {
        match mime {
            Some(m) => match mime_parts(m) {
                Some((t, s)) => if t == "video"@ || s == "gif"@ {
                    PreviewKind::Video
                } else if t == "image"@ {
                    PreviewKind::Image
                } else if t == "audio"@ {
                    PreviewKind::Audio
                } else {
                    PreviewKind::External
                },
                None => PreviewKind::External,
            },
            None => PreviewKind::External,
        }
    }
}

fn is(s: &String, w: &str) -> (r: bool)
    ensures
        r == (s@ == w@),
{
    chars_eq(&str_to_chars(s.as_str()), &str_to_chars(w))
}

/// The preview for `file`, given whether it is a text and its media type.
pub fn preview_kind(file: &File, is_text: bool, mime: &Option<String>) -> (r: PreviewKind)
    ensures
        r == preview_kind_of(file.kind, is_text, opt_view(*mime)),
{
    if file.kind == Kind::Directory {
        return PreviewKind::Directory;
    }
    if is_text {
        return PreviewKind::Text;
    }
    match mime {
        Some(m) => match parse_mime(m.as_str()) {
            Some((t, s)) => {
                if is(&t, "video") || is(&s, "gif") {
                    PreviewKind::Video
                } else if is(&t, "image") {
                    PreviewKind::Image
                } else if is(&t, "audio") {
                    PreviewKind::Audio
                } else {
                    PreviewKind::External
                }
            },
            None => PreviewKind::External,
        },
        None => PreviewKind::External,
    }
}

/// Whether two paths lie in the same directory: their parents are the same
/// path, or neither has one.
pub open spec fn same_parent(a: Seq<char>, b: Seq<char>) -> bool {
    match (path_parent(a), path_parent(b)) {
        (Some(x), Some(y)) => same_path(x, y),
        (None, None) => true,
        _ => false,
    }
}

/// Whether choosing `file` starts a new preview, and then whether it is in
/// the directory of the file previewed before (so the preview slides in
/// only when the directory changes): nothing to do where `file` is the one
/// previewed and that preview is still current.
pub fn preview_change(current: &Option<File>, stale: bool, file: &File) -> (r: Option<bool>)
    ensures
        (current matches Some(c) && same_path(c.path@, file.path@) && !stale) ==> r is None,
        !(current matches Some(c) && same_path(c.path@, file.path@) && !stale) ==> r == Some(
            match current {
                Some(c) => same_parent(c.path@, file.path@),
                None => true,
            },
        ),
{
    match current {
        Some(c) => {
            let same = paths_equal(c.path.as_str(), file.path.as_str());
            if same && !stale {
                return None;
            }
            let a = c.parent();
            let b = file.parent();
            let same_dir = match (&a, &b) {
                (Some(x), Some(y)) => paths_equal(x.as_str(), y.as_str()),
                (None, None) => true,
                _ => false,
            };
            Some(same_dir)
        },
        None => Some(true),
    }
}

} // verus!
