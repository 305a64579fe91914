//! Filesystem safety rules: which directories are accepted, how much of a
//! file is read, and where the data directory lies.
//!
//! The caller looks at the filesystem; the rules here say what to do next.

use vstd::prelude::*;
use vstd::string::*;
use vstd::utf8::*;

use crate::io_error::{IoError, IoErrorView, IoKind};
use crate::paths::{absolute, is_absolute, join, join2, joined_path};
use crate::text::{decimal, write_decimal};

verus! {

/// The permission bits of a mode, without the file type.
pub const MODE_BITS_MASK: u32 = 0o7777;

/// Why a directory was not accepted.
#[derive(Debug, PartialEq, Eq)]
pub enum FsCheckError {
    /// A filesystem operation on `path` failed.
    Io { path: String, source: IoError },
    /// `path` is a symbolic link.
    Symlink { path: String },
    /// `path` is there but is not a directory.
    NotADirectory { path: String },
    /// `path` is a directory with the wrong permission bits.
    WrongMode { path: String, actual: u32, expected: u32 },
}

/// What a failed directory check holds.
pub enum FsCheckView {
    Io { path: Seq<char>, source: IoErrorView },
    Symlink { path: Seq<char> },
    NotADirectory { path: Seq<char> },
    WrongMode { path: Seq<char>, actual: u32, expected: u32 },
}

impl View for FsCheckError {
    type V = FsCheckView;

    open spec fn view(&self) -> FsCheckView {
        match *self {
            FsCheckError::Io { path, source } => FsCheckView::Io { path: path@, source: source@ },
            FsCheckError::Symlink { path } => FsCheckView::Symlink { path: path@ },
            FsCheckError::NotADirectory { path } => FsCheckView::NotADirectory { path: path@ },
            FsCheckError::WrongMode { path, actual, expected } => FsCheckView::WrongMode {
                path: path@,
                actual,
                expected,
            },
        }
    }
}

impl Clone for FsCheckError {
    fn clone(&self) -> (err: FsCheckError)
        ensures
            err@ == self@,
    {
        match self {
            FsCheckError::Io { path, source } => FsCheckError::Io {
                path: path.clone(),
                source: source.clone(),
            },
            FsCheckError::Symlink { path } => FsCheckError::Symlink { path: path.clone() },
            FsCheckError::NotADirectory { path } => FsCheckError::NotADirectory {
                path: path.clone(),
            },
            FsCheckError::WrongMode { path, actual, expected } => FsCheckError::WrongMode {
                path: path.clone(),
                actual: *actual,
                expected: *expected,
            },
        }
    }
}

/// What is at a path. Symbolic links are not followed.
#[derive(Debug, Clone, Copy, PartialEq, Eq, Structural)]
pub enum FileKind {
    Symlink,
    Directory,
    Other,
}

/// What looking at a path told.
#[derive(Debug, Clone, Copy, PartialEq, Eq, Structural)]
pub struct Stat {
    pub kind: FileKind,
    /// Mode, with the file type.
    pub mode: u32,
    /// Size in bytes.
    pub len: u64,
}

/// The outcome of an operation, with its failure's content.
pub open spec fn result_view<T>(r: Result<T, IoError>) -> Result<T, IoErrorView> {
    match r {
        Ok(t) => Ok(t),
        Err(e) => Err(e@),
    }
}

/// The outcome of an optional operation, with its failure's content.
pub open spec fn opt_result_view<T>(r: Option<Result<T, IoError>>) -> Option<
    Result<T, IoErrorView>,
> {
    match r {
        Some(x) => Some(result_view(x)),
        None => None,
    }
}

/// The outcome of a directory check, with its failure's content.
pub open spec fn check_view(r: Result<(), FsCheckError>) -> Result<(), FsCheckView> {
    match r {
        Ok(()) => Ok(()),
        Err(e) => Err(e@),
    }
}

/// Whether what is at `path` is a plain directory with exactly the expected
/// permission bits.
pub open spec fn accepted(path: Seq<char>, stat: Stat, expected: u32) -> Result<(), FsCheckView> {
    if stat.kind == FileKind::Symlink {
        Err(FsCheckView::Symlink { path })
    } else if stat.kind != FileKind::Directory {
        Err(FsCheckView::NotADirectory { path })
    } else if stat.mode & MODE_BITS_MASK != expected {
        Err(FsCheckView::WrongMode { path, actual: stat.mode & MODE_BITS_MASK, expected })
    } else {
        Ok(())
    }
}

fn check_mode(path: &str, stat: &Stat, expected: u32) -> (out: Result<(), FsCheckError>)
    ensures
        check_view(out) == (if stat.mode & MODE_BITS_MASK != expected {
            Err(
                FsCheckView::WrongMode {
                    path: path@,
                    actual: stat.mode & MODE_BITS_MASK,
                    expected,
                },
            )
        } else {
            Ok(())
        }),
{
    let actual: u32 = stat.mode & MODE_BITS_MASK;
    if actual != expected {
        return Err(FsCheckError::WrongMode { path: path.to_owned(), actual, expected });
    }
    Ok(())
}

fn accept(path: &str, stat: &Stat, expected: u32) -> (out: Result<(), FsCheckError>)
    ensures
        check_view(out) == accepted(path@, *stat, expected),
{
    if stat.kind == FileKind::Symlink {
        return Err(FsCheckError::Symlink { path: path.to_owned() });
    }
    if stat.kind != FileKind::Directory {
        return Err(FsCheckError::NotADirectory { path: path.to_owned() });
    }
    check_mode(path, stat, expected)
}

/// What has been learned so far about a directory that must be there.
#[derive(Debug, PartialEq, Eq)]
pub struct DirectoryReplies {
    /// What the first look told.
    pub found: Option<Result<Stat, IoError>>,
    /// What creating the directory came to.
    pub created: Option<Result<(), IoError>>,
    /// What the look after creation told.
    pub rechecked: Option<Result<Stat, IoError>>,
}

/// What to do next about a directory that must be there.
#[derive(Debug, PartialEq, Eq)]
pub enum DirectoryNext {
    /// Look at the path, without following a link.
    Stat { path: String },
    /// Create the directory with this mode, with all its missing parents.
    Create { path: String, mode: u32 },
    /// Look at the path again, without following a link.
    Restat { path: String },
    /// Nothing: the directory is accepted or refused.
    Done(Result<(), FsCheckError>),
}

/// What to do next, with the content of a refusal.
pub enum DirectoryNextView {
    Stat { path: Seq<char> },
    Create { path: Seq<char>, mode: u32 },
    Restat { path: Seq<char> },
    Done(Result<(), FsCheckView>),
}

impl View for DirectoryNext {
    type V = DirectoryNextView;

    open spec fn view(&self) -> DirectoryNextView {
        match *self {
            DirectoryNext::Stat { path } => DirectoryNextView::Stat { path: path@ },
            DirectoryNext::Create { path, mode } => DirectoryNextView::Create {
                path: path@,
                mode,
            },
            DirectoryNext::Restat { path } => DirectoryNextView::Restat { path: path@ },
            DirectoryNext::Done(out) => DirectoryNextView::Done(check_view(out)),
        }
    }
}

/// The rule for a directory that must be there: what is there must be
/// acceptable; what is not there is created, and what is there then must be
/// acceptable.
pub open spec fn directory_rule(
    path: Seq<char>,
    expected: u32,
    found: Option<Result<Stat, IoErrorView>>,
    created: Option<Result<(), IoErrorView>>,
    rechecked: Option<Result<Stat, IoErrorView>>,
) -> DirectoryNextView {
    match found {
        None => DirectoryNextView::Stat { path },
        Some(Ok(stat)) => DirectoryNextView::Done(accepted(path, stat, expected)),
        Some(Err(source)) => if source.kind != IoKind::NotFound {
            DirectoryNextView::Done(Err(FsCheckView::Io { path, source }))
        } else {
            match created {
                None => DirectoryNextView::Create { path, mode: expected },
                Some(Err(source)) => DirectoryNextView::Done(Err(FsCheckView::Io { path, source })),
                Some(Ok(())) => match rechecked {
                    None => DirectoryNextView::Restat { path },
                    Some(Err(source)) => DirectoryNextView::Done(
                        Err(FsCheckView::Io { path, source }),
                    ),
                    Some(Ok(stat)) => DirectoryNextView::Done(accepted(path, stat, expected)),
                },
            }
        },
    }
}

/// What to do next so that `path` is a plain directory with exactly the
/// expected permission bits. Nothing is mended silently: a wrong mode, a link
/// or a file in its place is refused.
pub fn ensure_directory(path: &str, expected_mode: u32, seen: &DirectoryReplies) -> (next:
    DirectoryNext)
    ensures
        next@ == directory_rule(
            path@,
            expected_mode,
            opt_result_view(seen.found),
            opt_result_view(seen.created),
            opt_result_view(seen.rechecked),
        ),
{
    match &seen.found {
        None => DirectoryNext::Stat { path: path.to_owned() },
        Some(Ok(stat)) => DirectoryNext::Done(accept(path, stat, expected_mode)),
        Some(Err(source)) => {
            if !source.is_not_found() {
                return DirectoryNext::Done(
                    Err(FsCheckError::Io { path: path.to_owned(), source: source.clone() }),
                );
            }
            match &seen.created {
                None => DirectoryNext::Create { path: path.to_owned(), mode: expected_mode },
                Some(Err(source)) => DirectoryNext::Done(
                    Err(FsCheckError::Io { path: path.to_owned(), source: source.clone() }),
                ),
                Some(Ok(())) => match &seen.rechecked {
                    None => DirectoryNext::Restat { path: path.to_owned() },
                    Some(Err(source)) => DirectoryNext::Done(
                        Err(FsCheckError::Io { path: path.to_owned(), source: source.clone() }),
                    ),
                    Some(Ok(stat)) => DirectoryNext::Done(accept(path, stat, expected_mode)),
                },
            }
        },
    }
}

// ── Bounded reads ────────────────────────────────────────────────────────────

/// How many bytes are read of a file that may hold `max_bytes`: one more, so
/// that a longer file shows.
pub open spec fn read_limit(max_bytes: u64) -> int {
    if max_bytes == u64::MAX {
        max_bytes as int
    } else {
        max_bytes + 1
    }
}

/// How many bytes to read of a file that may hold `max_bytes`.
pub fn read_cap(max_bytes: u64) -> (cap: u64)
    ensures
        cap == read_limit(max_bytes),
{
    if max_bytes == u64::MAX {
        max_bytes
    } else {
        max_bytes + 1
    }
}

/// Calls `String::from_utf8`, and claims that it gives the text whose UTF-8
/// encoding is `bytes` where they are valid UTF-8, and none where they are
/// not.
#[verifier::external_body]
fn utf8_text(bytes: Vec<u8>) -> (text: Option<String>)
    ensures
        match text {
            Some(s) => valid_utf8(bytes@) && s@ == decode_utf8(bytes@),
            None => !valid_utf8(bytes@),
        },
{
    String::from_utf8(bytes).ok()
}

/// Takes what was read of a file, at most [`read_cap`] bytes, as text. A file
/// over the limit, or one that is not UTF-8, is refused.
pub fn read_nofollow_bounded(buffer: Vec<u8>, max_bytes: u64) -> (out: Result<String, IoError>)
    ensures
        match out {
            Ok(text) => buffer@.len() < read_limit(max_bytes) && valid_utf8(buffer@) && text@
                == decode_utf8(buffer@),
            Err(err) => if buffer@.len() >= read_limit(max_bytes) {
                err@ == (IoErrorView {
                    kind: IoKind::InvalidData,
                    message: "file exceeds "@ + decimal(max_bytes as nat) + " byte limit"@,
                })
            } else {
                !valid_utf8(buffer@) && err@ == (IoErrorView {
                    kind: IoKind::InvalidData,
                    message: "file is not valid UTF-8"@,
                })
            },
        },
{
    if buffer.len() as u64 >= read_cap(max_bytes) {
        let mut message: String = "file exceeds ".to_owned();
        message.append(write_decimal(max_bytes).as_str());
        message.append(" byte limit");
        return Err(IoError { kind: IoKind::InvalidData, message });
    }
    match utf8_text(buffer) {
        Some(text) => Ok(text),
        None => Err(IoError::new(IoKind::InvalidData, "file is not valid UTF-8")),
    }
}

// ── Data directory ───────────────────────────────────────────────────────────

/// Why the base of the data directory could not be found.
#[derive(Debug, PartialEq, Eq)]
pub enum XdgBaseError {
    /// Neither `$HOME` nor `$XDG_DATA_HOME` was set, or both were empty.
    MissingHome,
    /// The variable named holds a relative path.
    RelativeDir { var_name: &'static str, path: String },
}

/// What the failure holds.
pub enum XdgBaseView {
    MissingHome,
    RelativeDir { var_name: Seq<char>, path: Seq<char> },
}

impl View for XdgBaseError {
    type V = XdgBaseView;

    open spec fn view(&self) -> XdgBaseView {
        match *self {
            XdgBaseError::MissingHome => XdgBaseView::MissingHome,
            XdgBaseError::RelativeDir { var_name, path } => XdgBaseView::RelativeDir {
                var_name: var_name@,
                path: path@,
            },
        }
    }
}

/// The value of a variable, where it is set and not empty.
pub open spec fn set_value(var: Option<&str>) -> Option<Seq<char>> {
    match var {
        Some(v) => if v@.len() == 0 {
            None
        } else {
            Some(v@)
        },
        None => None,
    }
}

/// The base of the data directory: `$XDG_DATA_HOME`, else `.local/share`
/// under `$HOME`. A variable that is empty counts as not set; a relative path
/// is refused.
pub open spec fn xdg_base(xdg: Option<Seq<char>>, home: Option<Seq<char>>) -> Result<
    Seq<char>,
    XdgBaseView,
> {
    match (xdg, home) {
        (Some(path), _) => if absolute(path) {
            Ok(path)
        } else {
            Err(XdgBaseView::RelativeDir { var_name: "XDG_DATA_HOME"@, path })
        },
        (None, Some(path)) => if absolute(path) {
            Ok(joined_path(joined_path(path, ".local"@), "share"@))
        } else {
            Err(XdgBaseView::RelativeDir { var_name: "HOME"@, path })
        },
        (None, None) => Err(XdgBaseView::MissingHome),
    }
}

/// The text or failure that a function came to.
pub open spec fn base_view(r: Result<String, XdgBaseError>) -> Result<Seq<char>, XdgBaseView> {
    match r {
        Ok(s) => Ok(s@),
        Err(e) => Err(e@),
    }
}

/// Finds the base of the data directory from the values of `$XDG_DATA_HOME`
/// and `$HOME`.
pub fn resolve_xdg_base_dir(xdg: Option<&str>, home: Option<&str>) -> (out: Result<
    String,
    XdgBaseError,
>)
    ensures
        base_view(out) == xdg_base(set_value(xdg), set_value(home)),
{
    match xdg {
        Some(value) if !value.is_empty() => {
            if !is_absolute(value) {
                return Err(
                    XdgBaseError::RelativeDir {
                        var_name: "XDG_DATA_HOME",
                        path: value.to_owned(),
                    },
                );
            }
            return Ok(value.to_owned());
        },
        _ => {},
    }
    match home {
        Some(value) if !value.is_empty() => {
            if !is_absolute(value) {
                return Err(XdgBaseError::RelativeDir { var_name: "HOME", path: value.to_owned() });
            }
            Ok(join2(value, ".local", "share"))
        },
        _ => Err(XdgBaseError::MissingHome),
    }
}

/// The data root: `reeve` under the base.
pub open spec fn data_root(xdg: Option<Seq<char>>, home: Option<Seq<char>>) -> Result<
    Seq<char>,
    XdgBaseView,
> {
    match xdg_base(xdg, home) {
        Ok(base) => Ok(joined_path(base, "reeve"@)),
        Err(e) => Err(e),
    }
}

/// Finds the data root from the values of `$XDG_DATA_HOME` and `$HOME`.
pub fn resolve_reeve_data_root(xdg: Option<&str>, home: Option<&str>) -> (out: Result<
    String,
    XdgBaseError,
>)
    ensures
        base_view(out) == data_root(set_value(xdg), set_value(home)),
{
    match resolve_xdg_base_dir(xdg, home) {
        Ok(base) => Ok(join(base.as_str(), "reeve")),
        Err(e) => Err(e),
    }
}

// ── Laws ─────────────────────────────────────────────────────────────────────

/// A directory is accepted only where the last look showed a plain directory
/// with exactly the expected permission bits.
pub proof fn law_accepted_directory_is_plain(
    path: Seq<char>,
    expected: u32,
    found: Option<Result<Stat, IoErrorView>>,
    created: Option<Result<(), IoErrorView>>,
    rechecked: Option<Result<Stat, IoErrorView>>,
)
    requires
        directory_rule(path, expected, found, created, rechecked) == DirectoryNextView::Done(
            Ok::<(), FsCheckView>(()),
        ),
    ensures
        exists|stat: Stat|
            (found == Some(Ok::<Stat, IoErrorView>(stat)) || rechecked == Some(
                Ok::<Stat, IoErrorView>(stat),
            )) && stat.kind == FileKind::Directory && #[trigger] (stat.mode & MODE_BITS_MASK)
                == expected,
{
    match found {
        Some(Ok(stat)) => {
            assert(stat.mode & MODE_BITS_MASK == expected);
        },
        _ => {
            let stat = rechecked->0->Ok_0;
            assert(stat.mode & MODE_BITS_MASK == expected);
        },
    }
}

/// A data root that is found is absolute.
pub proof fn law_data_root_is_absolute(xdg: Option<Seq<char>>, home: Option<Seq<char>>)
    requires
        data_root(xdg, home) is Ok,
    ensures
        absolute(data_root(xdg, home)->Ok_0),
{
    reveal_strlit("/");
    reveal_strlit("reeve");
    reveal_strlit(".local");
    reveal_strlit("share");
}

/// A directory that must be there is looked at, made and looked at again under
/// the path and with the mode that were asked for; it is made only where nothing
/// was found; and a refusal names the path and what was wrong with it.
pub proof fn law_directories_are_made_as_asked(
    path: Seq<char>,
    expected: u32,
    found: Option<Result<Stat, IoErrorView>>,
    created: Option<Result<(), IoErrorView>>,
    rechecked: Option<Result<Stat, IoErrorView>>,
)
    ensures
        match directory_rule(path, expected, found, created, rechecked) {
            DirectoryNextView::Stat { path: at } => at == path && found is None,
            DirectoryNextView::Create { path: at, mode } => at == path && mode == expected && (
            found matches Some(Err(e)) && e.kind == IoKind::NotFound) && created is None,
            DirectoryNextView::Restat { path: at } => at == path && (created matches Some(Ok(_)))
                && rechecked is None,
            DirectoryNextView::Done(Ok(())) => (found matches Some(Ok(_))) || (
            rechecked matches Some(Ok(_))),
            DirectoryNextView::Done(Err(FsCheckView::Io { path: at, source })) => at == path && {
                ||| found == Some(Err::<Stat, IoErrorView>(source))
                ||| created == Some(Err::<(), IoErrorView>(source))
                ||| rechecked == Some(Err::<Stat, IoErrorView>(source))
            },
            DirectoryNextView::Done(Err(FsCheckView::Symlink { path: at })) => at == path && {
                ||| found matches Some(Ok(stat)) && stat.kind == FileKind::Symlink
                ||| rechecked matches Some(Ok(stat)) && stat.kind == FileKind::Symlink
            },
            DirectoryNextView::Done(Err(FsCheckView::NotADirectory { path: at })) => at == path && {
                ||| found matches Some(Ok(stat)) && stat.kind == FileKind::Other
                ||| rechecked matches Some(Ok(stat)) && stat.kind == FileKind::Other
            },
            DirectoryNextView::Done(
                Err(FsCheckView::WrongMode { path: at, actual, expected: wanted }),
            ) => at == path && wanted == expected && actual != expected && {
                ||| found matches Some(Ok(stat)) && actual == stat.mode & 0o7777
                ||| rechecked matches Some(Ok(stat)) && actual == stat.mode & 0o7777
            },
        },
{
}

/// A plain directory with exactly the mode that was asked for is accepted.
pub proof fn law_plain_directories_are_accepted(path: Seq<char>, expected: u32, stat: Stat)
    requires
        stat.kind == FileKind::Directory,
        stat.mode & 0o7777 == expected,
    ensures
        directory_rule(path, expected, Some(Ok(stat)), None, None) == DirectoryNextView::Done(
            Ok::<(), FsCheckView>(()),
        ),
{
}

/// The data root is `reeve` below the base that the user set, else below the
/// user's own share; a base that is relative is refused by the name of its
/// variable.
pub proof fn law_data_root_is_where_it_is_said(xdg: Option<Seq<char>>, home: Option<Seq<char>>)
    ensures
        match (xdg, home) {
            (Some(base), _) => data_root(xdg, home) == if absolute(base) {
                Ok::<Seq<char>, XdgBaseView>(joined_path(base, "reeve"@))
            } else {
                Err(XdgBaseView::RelativeDir { var_name: "XDG_DATA_HOME"@, path: base })
            },
            (None, Some(own)) => data_root(xdg, home) == if absolute(own) {
                Ok::<Seq<char>, XdgBaseView>(
                    joined_path(joined_path(joined_path(own, ".local"@), "share"@), "reeve"@),
                )
            } else {
                Err(XdgBaseView::RelativeDir { var_name: "HOME"@, path: own })
            },
            (None, None) => data_root(xdg, home) == Err::<Seq<char>, XdgBaseView>(
                XdgBaseView::MissingHome,
            ),
        },
{
}

/// A file that holds as much as it may is taken, and one byte more is too much.
pub proof fn law_full_files_are_taken(len: nat, max_bytes: u64)
    requires
        max_bytes < u64::MAX,
    ensures
        len <= max_bytes <==> len < read_limit(max_bytes),
{
}

} // verus!
