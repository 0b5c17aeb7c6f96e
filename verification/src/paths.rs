//! Where Myo keeps its on-disk state: everything under `~/.myo`, with the
//! shared config document at `~/.myo/config.json`.

use vstd::prelude::*;
use vstd::string::{StrSliceExecFns, StringExecFns};

use crate::text::owned;

verus! {

/// `Path::join` of a relative `name` onto `base`, with `/` as the separator:
/// no separator is added after an empty base or one that already ends in `/`.
pub open spec fn join_path(base: Seq<char>, name: Seq<char>) -> Seq<char> {
    if base.len() == 0 || base.last() == '/' {
        base + name
    } else {
        base + "/"@ + name
    }
}

/// `~/.myo` for the home directory `home`.
pub open spec fn myo_dir_of(home: Seq<char>) -> Seq<char> {
    join_path(home, ".myo"@)
}

/// `~/.myo/config.json` for the home directory `home`.
pub open spec fn config_path_of(home: Seq<char>) -> Seq<char> {
    join_path(myo_dir_of(home), "config.json"@)
}

fn join(base: &str, name: &str) -> (r: String)
    ensures
        r@ == join_path(base@, name@),
{
    let mut r = owned(base);
    let n = base.unicode_len();
    if n == 0 || base.get_char(n - 1) == '/' {
        r.append(name);
    } else {
        r.append("/");
        r.append(name);
    }
    r
}

/// The current user's home directory (`dirs::home_dir`), as text. It
/// depends on the platform and the environment, so nothing is stated of it;
/// a path that is not valid Unicode comes back with its invalid parts
/// replaced.
#[verifier::external_body]
fn home_dir() -> (r: Option<String>) {
    dirs::home_dir().map(|p| p.to_string_lossy().into_owned())
}

/// The Myo state directory under the home directory `home`.
pub fn myo_dir_in(home: &str) -> (r: String)
    ensures
        r@ == myo_dir_of(home@),
{
    join(home, ".myo")
}

/// The shared config document under the home directory `home`.
pub fn config_path_in(home: &str) -> (r: String)
    ensures
        r@ == config_path_of(home@),
{
    let d = myo_dir_in(home);
    join(d.as_str(), "config.json")
}

/// `~/.myo` — the per-user Myo state directory; an error when there is no
/// home directory.
pub fn myo_dir() -> (r: Result<String, String>)
    ensures
        r matches Ok(d) ==> exists|home: Seq<char>| d@ == myo_dir_of(home),
        r matches Err(e) ==> e@ == "no home dir"@,
{
    match home_dir() {
        Some(h) => Ok(myo_dir_in(h.as_str())),
        None => Err(owned("no home dir")),
    }
}

/// `~/.myo/config.json` — the single config document the shell and the
/// updater share; an error when there is no home directory.
pub fn config_path() -> (r: Result<String, String>)
    ensures
        r matches Ok(p) ==> exists|home: Seq<char>| p@ == config_path_of(home),
        r matches Err(e) ==> e@ == "no home dir"@,
{
    match home_dir() {
        Some(h) => Ok(config_path_in(h.as_str())),
        None => Err(owned("no home dir")),
    }
}

} // verus!
