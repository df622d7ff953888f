//! Serving the panel's web frontend: which file a request gets, whether it
//! is a page whose site address is filled in, and the type it is served
//! with. Reading the files is the caller's.
use vstd::prelude::*;
use crate::text::{has_prefix, starts_with, owned, concat3};

verus! {

/// The media type that `mime_guess` gives for a path (its first guess, or
/// `application/octet-stream`).
pub uninterp spec fn mime_type_of(path: Seq<char>) -> Seq<char>;

/// The extension of a path's file name, as `std::path::Path::extension`
/// gives it, when it is text.
pub uninterp spec fn extension_of(path: Seq<char>) -> Option<Seq<char>>;

/// The media type to serve a file with, guessed from its path.
#[verifier::external_body]
fn content_type_for(path: &str) -> (r: String)
    ensures
        r@ == mime_type_of(path@),
{
    mime_guess::from_path(path).first_or_octet_stream().to_string()
}

/// The extension of a path's file name.
#[verifier::external_body]
fn path_extension(path: &str) -> (r: Option<String>)
    ensures
        match r {
            Some(e) => extension_of(path@) == Some(e@),
            None => extension_of(path@) is None,
        },
{
    std::path::Path::new(path).extension().and_then(|e| e.to_str()).map(|e| e.to_string())
}

/// The directory the frontend is built into.
pub open spec fn build_dir() -> Seq<char> {
    "src/frontend/build"@
}

/// `file` joined to the build directory: an absolute file stands for
/// itself, as a path join has it.
pub open spec fn joined_build_path(file: Seq<char>) -> Seq<char> {
    if has_prefix(file, "/"@) {
        file
    } else {
        build_dir() + "/"@ + file
    }
}

/// The path of a frontend file (see `joined_build_path`).
pub fn frontend_file_path(file: &str) -> (r: String)
    ensures
        r@ == joined_build_path(file@),
{
    if starts_with(file, "/") {
        owned(file)
    } else {
        concat3("src/frontend/build", "/", file)
    }
}

/// How a frontend file is served.
#[derive(Debug)]
pub enum StaticPlan {
    /// A page: read it as text and fill in the site address.
    Page { path: String },
    /// Anything else: its bytes, with this media type.
    Asset { path: String, content_type: String },
}

/// The path served for a request: the file's own when it exists, else the
/// frontend's index page.
pub open spec fn served_path(file: Seq<char>, exists: bool) -> Seq<char> {
    if exists {
        joined_build_path(file)
    } else {
        "src/frontend/build/index.html"@
    }
}

/// Decides how a frontend file is served: `exists` says whether its path
/// exists. Files whose extension is `html` are pages; the rest are served
/// with the type guessed from their path.
pub fn static_plan(file: &str, exists: bool) -> (r: StaticPlan)
    ensures
        extension_of(served_path(file@, exists)) == Some("html"@) ==> (r matches StaticPlan::Page {
            path,
        } && path@ == served_path(file@, exists)),
        extension_of(served_path(file@, exists)) != Some("html"@) ==> (r matches StaticPlan::Asset {
            path,
            content_type,
        } && path@ == served_path(file@, exists) && content_type@ == mime_type_of(
            served_path(file@, exists),
        )),
{
    let path = if exists {
        frontend_file_path(file)
    } else {
        owned("src/frontend/build/index.html")
    };
    let is_page = match path_extension(path.as_str()) {
        Some(e) => crate::text::str_eq(e.as_str(), "html"),
        None => false,
    };
    if is_page {
        StaticPlan::Page { path }
    } else {
        let content_type = content_type_for(path.as_str());
        StaticPlan::Asset { path, content_type }
    }
}

/// The text of the answer when a file cannot be served.
pub fn serving_error_text(file: &str) -> (r: String)
    ensures
        r@ == "Error serving `"@ + file@ + "`"@,
{
    concat3("Error serving `", file, "`")
}

/// What the sign-in guard of the frontend does with a request.
#[derive(Debug, PartialEq, Eq, Structural)]
pub enum Guard {
    /// Serve the request.
    Pass,
    /// Send the user to the login page.
    ToLogin,
}

/// The guard of the protected frontend routes: the identity provider's
/// routes and signed-in users pass; anyone else goes to the login page.
pub fn login_guard(path: &str, signed_in: bool) -> (r: Guard)
    ensures
        r == (if has_prefix(path@, "/oidc"@) || signed_in {
            Guard::Pass
        } else {
            Guard::ToLogin
        }),
{
    if starts_with(path, "/oidc") {
        return Guard::Pass;
    }
    if signed_in {
        Guard::Pass
    } else {
        Guard::ToLogin
    }
}

} // verus!
