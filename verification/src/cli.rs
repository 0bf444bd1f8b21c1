//! What the command line needs to know before a store is opened.

use vstd::prelude::*;
use vstd::string::StringExecFns;

use crate::text::bytes_to_string;
use crate::text::text_of;

verus! {

/// The environment variable that names the store.
pub const STORE_VARIABLE: &'static str = "KOISHI_STORE";

/// Where the store is looked for when the variable is not set. The shell
/// variables in it are the caller's to expand.
pub const DEFAULT_STORE_LOCATION: &'static str = "$XDG_DATA_HOME/koishi-store";

/// What is reported for a program whose version cannot be told.
pub const UNKNOWN_VERSION: &'static str = "unknown";

/// What is said when the location of the store cannot be expanded.
pub const EXPANSION_FAILURE: &'static str = "Failed to perform shell expansion on store path";

/// Why the store could not be located.
#[derive(Debug)]
pub struct LocationError {
    /// What the expansion said was wrong.
    pub cause: String,
}

impl LocationError {
    /// The message shown to the user; `cause` says more.
    pub fn message(&self) -> (message: String)
        ensures
            message@ == EXPANSION_FAILURE@,
    {
        String::from_str(EXPANSION_FAILURE)
    }
}

/// The location of the store before shell expansion: what the command
/// line's flag says where it is given, else the value of the store variable
/// where it is set, else the default.
pub fn configured_store_location(flag: Option<&str>, variable: Option<&str>) -> (location: String)
    ensures
        location@ == configured_location(flag, variable),
{
    match flag {
        Some(path) => String::from_str(path),
        None => match variable {
            Some(value) => String::from_str(value),
            None => String::from_str(DEFAULT_STORE_LOCATION),
        },
    }
}

/// Whether expansion has anything to replace in a location: a `$`
/// anywhere, or a `~` at the start that stands alone or before a separator.
/// A location without either is the same in every environment.
pub open spec fn names_environment(location: Seq<char>) -> bool {
    ||| location.contains('$')
    ||| (location.len() > 0 && location[0] == '~' && (location.len() == 1 || location[1] == '/'
        || location[1] == '\\'))
}

/// The configured location of the store, before expansion: the flag goes
/// before the variable, and the variable before the default.
pub open spec fn configured_location(flag: Option<&str>, variable: Option<&str>) -> Seq<char> {
    match flag {
        Some(path) => path@,
        None => match variable {
            Some(value) => value@,
            None => DEFAULT_STORE_LOCATION@,
        },
    }
}

/// `shellexpand::path::full`, which replaces a leading `~` by the home
/// directory and `$NAME` or `${NAME}` by the value of that variable of the
/// environment. A text that holds no `$` and no `~` to replace comes back
/// as it is. What else comes back depends on the environment, so nothing
/// is claimed of it. A path that is not Unicode comes back with the
/// offending parts replaced; an error comes back as its message.
#[verifier::external_body]
fn expand(location: &str) -> (expanded: Result<String, String>)
    ensures
        !names_environment(location@) ==> expanded is Ok && expanded->Ok_0@ == location@,
{
    match shellexpand::path::full(location) {
        Ok(path) => Ok(path.to_string_lossy().into_owned()),
        Err(e) => Err(e.to_string()),
    }
}

/// The location of the store, given what expansion made of the configured
/// location.
pub fn expanded_store_location(expanded: Result<String, String>) -> (location: Result<
    String,
    LocationError,
>)
    ensures
        match expanded {
            Ok(path) => location == Ok::<String, LocationError>(path),
            Err(cause) => location == Err::<String, LocationError>(LocationError { cause }),
        },
{
    match expanded {
        Ok(path) => Ok(path),
        Err(cause) => Err(LocationError { cause }),
    }
}

/// The location of the store after shell expansion: what the command
/// line's flag says where it is given, else the value of the store variable
/// where it is set, else the default, with `~` and the variables in it
/// replaced from the environment. Fails where it names a variable that
/// cannot be read.
///
/// A location that names nothing of the environment is the store's
/// location as it stands. What becomes of any other is the environment's
/// to say.
pub fn get_store_location(flag: Option<&str>, variable: Option<&str>) -> (location: Result<
    String,
    LocationError,
>)
    ensures
        !names_environment(configured_location(flag, variable)) ==> location is Ok
            && location->Ok_0@ == configured_location(flag, variable),
{
    let configured = configured_store_location(flag, variable);
    expanded_store_location(expand(configured.as_str()))
}

/// The version a program reports, from what it wrote to standard output
/// when asked: the text without surrounding white space, or `unknown`
/// where it could not be run or wrote no UTF-8.
pub fn get_binary_version(output: Option<&[u8]>) -> (version: String)
    ensures
        version@ == match output {
            Some(bytes) => match text_of(bytes@) {
                Some(text) => text,
                None => UNKNOWN_VERSION@,
            },
            None => UNKNOWN_VERSION@,
        },
{
    match output {
        Some(bytes) => match bytes_to_string(bytes) {
            Some(text) => text,
            None => String::from_str(UNKNOWN_VERSION),
        },
        None => String::from_str(UNKNOWN_VERSION),
    }
}

/// The version text of the program: its own version, then those of Git
/// and SOPS, each on a line of its own.
pub fn version(own: &str, git: &str, sops: &str) -> (text: String)
    ensures
        text@ == "v"@ + own@ + "\n "@ + git@ + "\n "@ + sops@,
{
    let mut text = String::from_str("v");
    text.append(own);
    text.append("\n ");
    text.append(git);
    text.append("\n ");
    text.append(sops);
    text
}

} // verus!
