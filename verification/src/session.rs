//! What is remembered from one launch to the next.
//!
//! Paths are kept as they were given, so a relative one is resolved against the
//! working directory of the next launch. A session file that is missing or
//! cannot be read counts as none.

use vstd::prelude::*;

use crate::lang;
use crate::lang::Lang;
use crate::text;

verus! {

/// The state of a session.
#[derive(Debug)]
pub struct SessionState {
    /// The configuration file that was used last.
    pub last_config: Option<String>,
    /// The router table that was loaded last.
    pub last_router: Option<String>,
    /// The position in the router table.
    pub router_index: usize,
    /// The language that was chosen.
    pub language: Option<Lang>,
}

/// What a session state holds.
pub struct SessionView {
    pub last_config: Option<Seq<char>>,
    pub last_router: Option<Seq<char>>,
    pub router_index: usize,
    pub language: Option<Lang>,
}

impl View for SessionState {
    type V = SessionView;

    open spec fn view(&self) -> SessionView {
        SessionView {
            last_config: text::opt_view(self.last_config),
            last_router: text::opt_view(self.last_router),
            router_index: self.router_index,
            language: self.language,
        }
    }
}

impl Default for SessionState {
    fn default() -> (r: Self)
        ensures
            r@ == (SessionView {
                last_config: None,
                last_router: None,
                router_index: 0,
                language: None,
            }),
    {
        SessionState { last_config: None, last_router: None, router_index: 0, language: None }
    }
}

impl Clone for SessionState {
    fn clone(&self) -> (r: Self)
        ensures
            r@ == self@,
    {
        SessionState {
            last_config: text::copied(&self.last_config),
            last_router: text::copied(&self.last_router),
            router_index: self.router_index,
            language: self.language,
        }
    }
}

/// The directory of the session file: the user's profile, else the home
/// directory, else the working directory.
pub open spec fn home_of(profile: Option<Seq<char>>, home: Option<Seq<char>>) -> Seq<char> {
    match profile {
        Some(p) => p,
        None => match home {
            Some(h) => h,
            None => "."@,
        },
    }
}

/// The directory of the session file, from the environment variables
/// `USERPROFILE` and `HOME`.
pub fn state_home(profile: Option<String>, home: Option<String>) -> (r: String)
    ensures
        r@ == home_of(text::opt_view(profile), text::opt_view(home)),
{
    match profile {
        Some(p) => p,
        None => match home {
            Some(h) => h,
            None => ".".to_string(),
        },
    }
}

/// The name of the session file.
pub fn state_file_name() -> (r: &'static str)
    ensures
        r@ == ".zwt"@,
{
    ".zwt"
}

/// The reason that is given where a session state cannot be written as JSON.
pub fn serialization_error(l: Lang, reason: &str) -> (r: String)
    ensures
        r@ == lang::message(
            l,
            "序列化会话状态失败: {}"@,
            "Session serialization failed: {}"@,
            seq![reason@],
        ),
{
    lang::fmt1(l, "序列化会话状态失败: {}", "Session serialization failed: {}", reason)
}

} // verus!
