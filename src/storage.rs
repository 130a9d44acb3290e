//! Where the logbook file lives.

use vstd::prelude::*;

use crate::logbook::LogbookError;

verus! {

/// The logbook file's path under the home directory `home`.
pub open spec fn logbook_path_of(home: Seq<char>) -> Seq<char> {
    home + "/.logbook.json"@
}

/// Relies on `dirs::home_dir`: the current user's home directory, where it
/// can be determined, as a string where the path is valid Unicode.
#[verifier::external_body]
fn home_directory() -> Option<String> {
    match dirs::home_dir() {
        Some(p) => p.into_os_string().into_string().ok(),
        None => None,
    }
}

/// The logbook file's path under the home directory `home`.
pub fn logbook_path_in(home: &str) -> (r: String)
    ensures
        r@ == logbook_path_of(home@),
{
    let mut r = home.to_owned();
    r.append("/.logbook.json");
    r
}

/// The logbook file's path under the current user's home directory; an
/// environment error where that directory cannot be determined.
pub fn get_default_logbook_dir() -> (r: Result<String, LogbookError>)
    ensures
        r matches Ok(p) ==> exists|home: Seq<char>| p@ == #[trigger] logbook_path_of(home),
        r is Err ==> r->Err_0 == LogbookError::Environment,
{
    match home_directory() {
        Some(home) => Ok(logbook_path_in(&home)),
        None => Err(LogbookError::Environment),
    }
}

} // verus!
