//! Records of the paths that a glob pattern matched.
use crate::config::opt_view;
use vstd::prelude::*;

verus! {

/// The last component of a path, as `std::path::Path::file_name` gives it.
pub uninterp spec fn file_name_of(p: Seq<char>) -> Option<Seq<char>>;

/// Relies on std::path::Path::file_name: the last component of the path,
/// `None` where it ends in `..` or is empty; the result depends on the path alone.
#[verifier::external_body]
fn path_file_name(p: &str) -> (r: Option<String>)
    ensures
        opt_view(r) == file_name_of(p@),
        p@.len() == 0 ==> r is None,
{
    std::path::Path::new(p).file_name().map(|f| f.to_string_lossy().into_owned())
}

/// One matched path: as matched, absolute, its kind and its last component.
#[derive(Debug)]
pub struct GlobItem {
    pub path: String,
    pub abspath: Option<String>,
    pub is_file: bool,
    pub is_dir: bool,
    pub file_name: Option<String>,
}

/// The record of a matched path, from what the file system said of it.
pub fn pathbuf_to_item(path: String, abspath: Option<String>, is_file: bool, is_dir: bool) -> (r: GlobItem)
    ensures
        r.path@ == path@,
        opt_view(r.abspath) == opt_view(abspath),
        r.is_file == is_file,
        r.is_dir == is_dir,
        opt_view(r.file_name) == file_name_of(path@),
{
    let file_name = path_file_name(path.as_str());
    GlobItem { path, abspath, is_file, is_dir, file_name }
}

} // verus!
