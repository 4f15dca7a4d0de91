//! Paths: the installed data files below the data directory, and which
//! settings file and home directory a user's settings live in.
use vstd::prelude::*;

use crate::text::{chars_of, owned, push_char, str_eq};

verus! {

/// `dir` joined with the relative name `name`: a `/` is put between them
/// unless `dir` is empty or already ends with one.
pub open spec fn joined(dir: Seq<char>, name: Seq<char>) -> Seq<char> {
    if dir.len() == 0 {
        name
    } else if dir.last() == '/' {
        dir + name
    } else {
        dir + seq!['/'] + name
    }
}

/// `Path::new(dir).join(name)` for a relative `name`.
pub fn join_path(dir: &str, name: &str) -> (r: String)
    ensures
        r@ == joined(dir@, name@),
{
    let v = chars_of(dir);
    let mut s = owned(dir);
    if v.len() > 0 && v[v.len() - 1] != '/' {
        push_char(&mut s, '/');
    }
    s.append(name);
    s
}

/// The settings file to read for a user: the user's own file when it
/// exists, else the system defaults when they exist, else the user's path
/// (where a save would go), else the system path.
pub fn choose_config_path(user_path: Option<String>, user_exists: bool, system_path: String, system_exists: bool) -> (p: String)
    ensures
        p@ == (if user_path is Some && user_exists {
            user_path->0@
        } else if system_exists {
            system_path@
        } else if user_path is Some {
            user_path->0@
        } else {
            system_path@
        }),
{
    match user_path {
        Some(u) => if user_exists || !system_exists {
            u
        } else {
            system_path
        },
        None => system_path,
    }
}

/// The home directory a login may keep settings in: none for the display
/// manager's account (`gdm`, which uses the system defaults) or when the
/// login or its home is unknown.
pub fn home_for_login(login: Option<String>, home: Option<String>) -> (h: Option<String>)
    ensures
        h is Some <==> (login is Some && login->0@ != "gdm"@ && home is Some),
        h matches Some(x) ==> (home matches Some(y) && x@ == y@),
{
    match login {
        Some(name) => if str_eq(name.as_str(), "gdm") {
            None
        } else {
            home
        },
        None => None,
    }
}

} // verus!
