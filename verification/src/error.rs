//! The error type of the library and the table of binder status codes.

use vstd::prelude::*;
use crate::text::{nat_text, push_char, push_str, push_u64};

verus! {

/// Where an error was raised or last traced.
#[derive(Debug, Clone, Copy)]
pub struct DbgInfo {
    pub name: &'static str,
    pub file: &'static str,
    pub line: u32,
    pub column: u32,
}

/// What an error says: its label, its message and its status.
pub struct AfbErrorView {
    pub uid: Seq<char>,
    pub info: Seq<char>,
    pub status: i32,
}

/// Error value carried through every fallible call of the library.
#[derive(Debug)]
pub struct AfbError {
    uid: String,
    info: String,
    status: i32,
    dbg_info: DbgInfo,
}

impl View for AfbError {
    type V = AfbErrorView;

    closed spec fn view(&self) -> AfbErrorView {
        AfbErrorView { uid: self.uid@, info: self.info@, status: self.status }
    }
}

/// The view of an error made of a label and a message, status 0.
pub open spec fn err_view(uid: Seq<char>, info: Seq<char>) -> AfbErrorView {
    AfbErrorView { uid, info, status: 0 }
}

/// A result seen through the views of its value and of its error.
pub open spec fn res_view<T: View>(r: Result<T, AfbError>) -> Result<T::V, AfbErrorView> {
    match r {
        Ok(t) => Ok(t@),
        Err(e) => Err(e@),
    }
}

/// A message that can become the text of an error.
pub trait MakeError<T>: Sized {
    spec fn msg_text(msg: T) -> Seq<char>;

    fn make(uid: &str, status: i32, msg: T) -> (r: AfbError)
        ensures
            r@ == (AfbErrorView { uid: uid@, info: Self::msg_text(msg), status }),
            r.dbg_info() == AfbError::no_location(),
    ;
}

impl MakeError<&str> for AfbError {
    open spec fn msg_text(msg: &str) -> Seq<char> {
        msg@
    }

    fn make(uid: &str, status: i32, msg: &str) -> (r: AfbError) {
        AfbError { uid: uid.to_owned(), info: msg.to_owned(), status, dbg_info: AfbError::unlocated() }
    }
}

impl MakeError<String> for AfbError {
    open spec fn msg_text(msg: String) -> Seq<char> {
        msg@
    }

    fn make(uid: &str, status: i32, msg: String) -> (r: AfbError) {
        AfbError { uid: uid.to_owned(), info: msg, status, dbg_info: AfbError::unlocated() }
    }
}

impl AfbError {
    /// The trace of an error raised where no location is known.
    pub open spec fn no_location() -> (Seq<char>, Seq<char>, u32, u32) {
        (Seq::empty(), Seq::empty(), 0, 0)
    }

    /// The trace of an error: function name, file, line and column.
    pub closed spec fn dbg_info(self) -> (Seq<char>, Seq<char>, u32, u32) {
        (self.dbg_info.name@, self.dbg_info.file@, self.dbg_info.line, self.dbg_info.column)
    }

    fn unlocated() -> (d: DbgInfo)
        ensures
            (d.name@, d.file@, d.line, d.column) == AfbError::no_location(),
    {
        let d = DbgInfo { name: "", file: "", line: 0, column: 0 };
        proof {
            reveal_strlit("");
        }
        d
    }

    /// Builds an error from a label, a status and a message.
    pub fn new<T>(uid: &str, status: i32, msg: T) -> (r: AfbError)
        where AfbError: MakeError<T>,
        ensures
            r@ == (AfbErrorView { uid: uid@, info: <AfbError as MakeError<T>>::msg_text(msg), status }),
            r.dbg_info() == AfbError::no_location(),
    {
        <AfbError as MakeError<T>>::make(uid, status, msg)
    }

    /// Builds an error with status 0 from a label and a message.
    pub fn msg(uid: &str, info: &str) -> (r: AfbError)
        ensures
            r@ == err_view(uid@, info@),
            r.dbg_info() == AfbError::no_location(),
    {
        <AfbError as MakeError<&str>>::make(uid, 0, info)
    }

    /// Builds an error with status 0 from a label and an owned message.
    pub fn msg_string(uid: &str, info: String) -> (r: AfbError)
        ensures
            r@ == err_view(uid@, info@),
            r.dbg_info() == AfbError::no_location(),
    {
        <AfbError as MakeError<String>>::make(uid, 0, info)
    }

    pub fn get_uid(&self) -> (r: String)
        ensures
            r@ == self@.uid,
    {
        self.uid.clone()
    }

    pub fn get_status(&self) -> (r: i32)
        ensures
            r == self@.status,
    {
        self.status
    }

    pub fn get_info(&self) -> (r: String)
        ensures
            r@ == self@.info,
    {
        self.info.clone()
    }

    pub fn get_dbg(&self) -> (r: &DbgInfo)
        ensures
            (r.name@, r.file@, r.line, r.column) == self.dbg_info(),
    {
        &self.dbg_info
    }

    /// The same error, traced at another place.
    pub fn add_trace(&self, name: &'static str, file: &'static str, line: u32, column: u32) -> (r: Self)
        ensures
            r@ == self@,
            r.dbg_info() == (name@, file@, line, column),
    {
        AfbError {
            uid: self.uid.clone(),
            info: self.info.clone(),
            status: self.status,
            dbg_info: DbgInfo { name, file, line, column },
        }
    }

    /// Display text of an error: `uid:info`.
    pub fn to_display(&self) -> (r: String)
        ensures
            r@ == self@.uid + seq![':'] + self@.info,
    {
        let mut s = self.uid.clone();
        push_char(&mut s, ':');
        push_str(&mut s, self.info.as_str());
        s
    }

    /// Debug text of an error: `uid:info file:line:column`.
    pub fn to_debug(&self) -> (r: String)
        ensures
            r@ == self@.uid + seq![':'] + self@.info + seq![' '] + self.dbg_info().1 + seq![':']
                + nat_text(self.dbg_info().2 as nat) + seq![':'] + nat_text(self.dbg_info().3 as nat),
    {
        let mut s = self.to_display();
        push_char(&mut s, ' ');
        push_str(&mut s, self.dbg_info.file);
        push_char(&mut s, ':');
        push_u64(&mut s, self.dbg_info.line as u64);
        push_char(&mut s, ':');
        push_u64(&mut s, self.dbg_info.column as u64);
        s
    }
}

/// The text the binder attaches to a status code.
pub open spec fn error_info_text(errcode: i32) -> Seq<char> {
    if errcode == 0 { "Success"@ }
    else if errcode == -9 { "Invalid Scope"@ }
    else if errcode == -11 { "No Reply"@ }
    else if errcode == -17 { "Api already exist"@ }
    else if errcode == -62 { "Watchdog expire"@ }
    else if errcode == -110 { "Connection timeout"@ }
    else if errcode == -2 { "File exist"@ }
    else if errcode == -3 { "Api not found"@ }
    else if errcode == -4 { "Verb not found"@ }
    else if errcode == -99 { "Invalid data type"@ }
    else if errcode == -100 { "subcall application error"@ }
    else { "Unknown"@ }
}

/// Human readable meaning of a binder status code.
pub fn afb_error_info(errcode: i32) -> (r: &'static str)
    ensures
        r@ == error_info_text(errcode),
{
    match errcode {
        0 => "Success",
        -9 => "Invalid Scope",
        -11 => "No Reply",
        -17 => "Api already exist",
        -62 => "Watchdog expire",
        -110 => "Connection timeout",
        -2 => "File exist",
        -3 => "Api not found",
        -4 => "Verb not found",
        -99 => "Invalid data type",
        -100 => "subcall application error",
        _ => "Unknown",
    }
}

} // verus!
