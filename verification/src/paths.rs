//! File-system path syntax, as `std::path::Path` reads it on the host
//! platform. Each helper calls one `Path` method and names its result.
use vstd::prelude::*;

use crate::text;

verus! {

/// What `Path::file_name` returns for a path (as text).
pub uninterp spec fn path_file_name(path: Seq<char>) -> Option<Seq<char>>;

/// What `Path::extension` returns for a path (as text).
pub uninterp spec fn path_extension(path: Seq<char>) -> Option<Seq<char>>;

/// What `Path::file_stem` returns for a path (as text).
pub uninterp spec fn path_file_stem(path: Seq<char>) -> Option<Seq<char>>;

/// What `Path::is_absolute` returns for a path.
pub uninterp spec fn path_is_absolute(path: Seq<char>) -> bool;

/// The kinds of the components that `Path::components` yields, in order.
pub uninterp spec fn path_component_kinds(path: Seq<char>) -> Seq<ComponentKind>;

/// What `Path::join` makes of a base path and a relative one (as text).
pub uninterp spec fn path_join(base: Seq<char>, name: Seq<char>) -> Seq<char>;

/// The kind of one path component (`std::path::Component`).
#[derive(Debug, Clone, Copy, PartialEq, Eq, Structural)]
pub enum ComponentKind {
    Prefix,
    RootDir,
    CurDir,
    ParentDir,
    Normal,
}

pub open spec fn opt_view(o: Option<String>) -> Option<Seq<char>> {
    match o {
        Some(s) => Some(s@),
        None => None,
    }
}

/// Calls `Path::file_name`; claimed: the result depends on the path text only.
/// A name that is not valid UTF-8 cannot arise from a `&str` path.
#[verifier::external_body]
pub(crate) fn file_name(path: &str) -> (res: Option<String>)
    ensures
        opt_view(res) == path_file_name(path@),
{
    std::path::Path::new(path).file_name().map(|name| name.to_string_lossy().into_owned())
}

/// Calls `Path::extension`; claimed: the result depends on the path text only.
#[verifier::external_body]
pub(crate) fn extension(path: &str) -> (res: Option<String>)
    ensures
        opt_view(res) == path_extension(path@),
{
    std::path::Path::new(path).extension().map(|ext| ext.to_string_lossy().into_owned())
}

/// Calls `Path::file_stem`; claimed: the result depends on the path text only.
#[verifier::external_body]
pub(crate) fn file_stem(path: &str) -> (res: Option<String>)
    ensures
        opt_view(res) == path_file_stem(path@),
{
    std::path::Path::new(path).file_stem().map(|stem| stem.to_string_lossy().into_owned())
}

/// Calls `Path::is_absolute`; claimed: the result depends on the path text only.
#[verifier::external_body]
pub(crate) fn is_absolute(path: &str) -> (res: bool)
    ensures
        res == path_is_absolute(path@),
{
    std::path::Path::new(path).is_absolute()
}

/// Calls `Path::components` and reports the kind of each component in order.
#[verifier::external_body]
pub(crate) fn component_kinds(path: &str) -> (res: Vec<ComponentKind>)
    ensures
        res@ == path_component_kinds(path@),
{
    std::path::Path::new(path).components().map(|part| match part {
        std::path::Component::Prefix(_) => ComponentKind::Prefix,
        std::path::Component::RootDir => ComponentKind::RootDir,
        std::path::Component::CurDir => ComponentKind::CurDir,
        std::path::Component::ParentDir => ComponentKind::ParentDir,
        std::path::Component::Normal(_) => ComponentKind::Normal,
    }).collect()
}

/// Calls `Path::join` and displays the result; claimed: the result depends
/// on the two texts only.
#[verifier::external_body]
pub(crate) fn join(base: &str, name: &str) -> (res: String)
    ensures
        res@ == path_join(base@, name@),
{
    std::path::Path::new(base).join(name).to_string_lossy().into_owned()
}

/// The file name of a path, or the whole path when it has none.
pub fn file_name_or_self(path: &str) -> (res: String)
    ensures
        res@ == (match path_file_name(path@) {
            Some(name) => name,
            None => path@,
        }),
{
    match file_name(path) {
        Some(name) => name,
        None => text::string_from(path),
    }
}

} // verus!
