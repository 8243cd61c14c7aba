//! The user's standard directories, as the `directories` crate finds them in
//! the environment. Nothing about their text can be known in advance, so the
//! library only passes them on.
use vstd::prelude::*;

verus! {

#[verifier::external_type_specification]
#[verifier::external_body]
pub struct ExUserDirs(directories::UserDirs);

/// Looks up the user's directories with `directories::UserDirs::new`; it
/// finds none where the environment gives no home directory. Nothing is
/// promised of the outcome.
#[verifier::external_body]
pub(crate) fn user_dirs() -> (r: Option<directories::UserDirs>) {
    directories::UserDirs::new()
}

/// The home directory held by `dirs` (`UserDirs::home_dir`), as text.
#[verifier::external_body]
pub(crate) fn home_dir(dirs: &directories::UserDirs) -> (r: String) {
    dirs.home_dir().to_string_lossy().to_string()
}

/// The video directory held by `dirs` (`UserDirs::video_dir`), as text,
/// where the platform knows one.
#[verifier::external_body]
pub(crate) fn video_dir(dirs: &directories::UserDirs) -> (r: Option<String>) {
    match dirs.video_dir() {
        Some(p) => Some(p.to_string_lossy().to_string()),
        None => None,
    }
}

} // verus!
