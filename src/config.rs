use vstd::prelude::*;
use vstd::string::*;
use crate::text::{contains_text, has_infix};

verus! {

/// Where new projects are created.
#[derive(Debug)]
pub struct ProjectConfig {
    pub project_directory: String,
}

/// Whether a directory text holds `..` or `~`, which are refused.
pub open spec fn has_unsafe_parts(directory: Seq<char>) -> bool {
    has_infix(directory, ".."@) || has_infix(directory, "~"@)
}

/// Checks a directory chosen for projects, given whether it is an absolute
/// path: a relative path is refused first, then one that holds `..` or `~`.
pub fn check_project_directory(directory: &str, is_absolute: bool) -> (r: Result<(), String>)
    ensures
        !is_absolute ==> r is Err && r->Err_0@ == "Directory must be an absolute path"@,
        is_absolute && has_unsafe_parts(directory@) ==> r is Err && r->Err_0@
            == "Invalid directory path"@,
        is_absolute && !has_unsafe_parts(directory@) ==> r is Ok,
{
    if !is_absolute {
        return Err(String::from_str("Directory must be an absolute path"));
    }
    if contains_text(directory, "..") || contains_text(directory, "~") {
        return Err(String::from_str("Invalid directory path"));
    }
    Ok(())
}

/// Relies on `std::path::Path::is_absolute`, whose answer depends on the
/// platform's path rules; nothing is claimed of it.
#[verifier::external_body]
fn path_is_absolute(directory: &str) -> (r: bool) {
    std::path::Path::new(directory).is_absolute()
}

/// Checks a directory chosen for projects on this platform. A directory with
/// `..` or `~` is always refused; one that passes holds neither.
pub fn validate_project_directory(directory: &str) -> (r: Result<(), String>)
    ensures
        has_unsafe_parts(directory@) ==> r is Err,
        r is Ok ==> !has_unsafe_parts(directory@),
{
    let absolute = path_is_absolute(directory);
    check_project_directory(directory, absolute)
}

} // verus!
