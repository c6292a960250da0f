//! Log levels: syslog numbers, binder verbosity masks, and the text of a
//! message.

use vstd::prelude::*;
use crate::error::{AfbError, AfbErrorView, DbgInfo, err_view};
use crate::jsonc::no_nul;
use crate::text::{nat_text, push_str, push_u64};

verus! {

/// Severity of a log message.
#[derive(Debug, Clone, Copy, PartialEq, Eq, Structural)]
pub enum AfbLogLevel {
    Emergency,
    Alert,
    Critical,
    Error,
    Warning,
    Notice,
    Info,
    Debug,
    /// A level the binder does not know; its messages carry level -1.
    Unknown,
}

/// The syslog number of a level: 0 (emergency) to 7 (debug); an unknown
/// level has none, and 8 stands outside that range.
pub open spec fn syslog_of(level: AfbLogLevel) -> u32 {
    match level {
        AfbLogLevel::Emergency => 0,
        AfbLogLevel::Alert => 1,
        AfbLogLevel::Critical => 2,
        AfbLogLevel::Error => 3,
        AfbLogLevel::Warning => 4,
        AfbLogLevel::Notice => 5,
        AfbLogLevel::Info => 6,
        AfbLogLevel::Debug => 7,
        AfbLogLevel::Unknown => 8,
    }
}

/// The level number a message is sent with: the syslog number, or -1 for
/// an unknown level.
pub open spec fn level_number(level: AfbLogLevel) -> i32 {
    if level is Unknown {
        -1i32
    } else {
        syslog_of(level) as i32
    }
}

/// The one-bit verbosity mask of syslog number `n`: two to the power `n`.
pub open spec fn level_bit(n: nat) -> u32 {
    if n == 0 { 1 } else if n == 1 { 2 } else if n == 2 { 4 } else if n == 3 { 8 }
    else if n == 4 { 16 } else if n == 5 { 32 } else if n == 6 { 64 } else { 128 }
}

/// The level of a syslog number, when it is one.
pub open spec fn level_of_syslog(n: u32) -> Option<AfbLogLevel> {
    if n == 0 { Some(AfbLogLevel::Emergency) }
    else if n == 1 { Some(AfbLogLevel::Alert) }
    else if n == 2 { Some(AfbLogLevel::Critical) }
    else if n == 3 { Some(AfbLogLevel::Error) }
    else if n == 4 { Some(AfbLogLevel::Warning) }
    else if n == 5 { Some(AfbLogLevel::Notice) }
    else if n == 6 { Some(AfbLogLevel::Info) }
    else if n == 7 { Some(AfbLogLevel::Debug) }
    else { None }
}

/// Error for a number that is no syslog level.
pub open spec fn invalid_level(n: nat) -> AfbErrorView {
    err_view("afb-log-level"@, "invalid level:"@ + nat_text(n) + " should be 0-7"@)
}

impl AfbLogLevel {
    /// The verbosity mask bit of the level.
    pub fn to_afb_mask(&self) -> (r: u32)
        requires
            !(*self is Unknown),
        ensures
            r == level_bit(syslog_of(*self) as nat),
    {
        match self {
            AfbLogLevel::Emergency => 1,
            AfbLogLevel::Alert => 2,
            AfbLogLevel::Critical => 4,
            AfbLogLevel::Error => 8,
            AfbLogLevel::Warning => 16,
            AfbLogLevel::Notice => 32,
            AfbLogLevel::Info => 64,
            AfbLogLevel::Debug => 128,
            AfbLogLevel::Unknown => {
                assert(false);
                0
            },
        }
    }

    /// The level of a syslog number (0-7).
    pub fn from_syslog_level(level: u32) -> (r: Result<AfbLogLevel, AfbError>)
        ensures
            match level_of_syslog(level) {
                Some(l) => r == Ok::<AfbLogLevel, AfbError>(l),
                None => r is Err && r->Err_0@ == invalid_level(level as nat),
            },
    {
        match level {
            0 => Ok(AfbLogLevel::Emergency),
            1 => Ok(AfbLogLevel::Alert),
            2 => Ok(AfbLogLevel::Critical),
            3 => Ok(AfbLogLevel::Error),
            4 => Ok(AfbLogLevel::Warning),
            5 => Ok(AfbLogLevel::Notice),
            6 => Ok(AfbLogLevel::Info),
            7 => Ok(AfbLogLevel::Debug),
            _ => {
                let mut msg = String::new();
                push_str(&mut msg, "invalid level:");
                push_u64(&mut msg, level as u64);
                push_str(&mut msg, " should be 0-7");
                assert(msg@ =~= "invalid level:"@ + nat_text(level as nat) + " should be 0-7"@);
                Err(AfbError::msg_string("afb-log-level", msg))
            },
        }
    }

    /// The syslog number of the level.
    pub fn to_syslog_level(&self) -> (r: u32)
        requires
            !(*self is Unknown),
        ensures
            r == syslog_of(*self),
    {
        match self {
            AfbLogLevel::Emergency => 0,
            AfbLogLevel::Alert => 1,
            AfbLogLevel::Critical => 2,
            AfbLogLevel::Error => 3,
            AfbLogLevel::Warning => 4,
            AfbLogLevel::Notice => 5,
            AfbLogLevel::Info => 6,
            AfbLogLevel::Debug => 7,
            AfbLogLevel::Unknown => {
                assert(false);
                8
            },
        }
    }
}

/// The absolute value of a verbosity level.
pub open spec fn abs_level(level: i32) -> nat {
    if level < 0 {
        (-level) as nat
    } else {
        level as nat
    }
}

/// Turns a syslog level (0-7, its sign ignored) into a verbosity mask.
pub fn verbosity_to_mask(level: i32) -> (r: Result<u32, AfbError>)
    ensures
        abs_level(level) <= 7 ==> r == Ok::<u32, AfbError>(level_bit(abs_level(level))),
        abs_level(level) > 7 ==> r is Err && r->Err_0@ == invalid_level(abs_level(level)),
{
    let magnitude: u32 = if level < 0 {
        let m: i32 = -(level + 1);
        m as u32 + 1
    } else {
        level as u32
    };
    let mut mask = match AfbLogLevel::from_syslog_level(magnitude) {
        Ok(l) => l.to_afb_mask(),
        Err(e) => return Err(e),
    };
    if level > 0 {
        let levels: [u32; 7] = [1, 2, 3, 4, 5, 6, 7];
        let mut i: usize = 0;
        while i < 7
            invariant
                0 < level <= 7,
                mask == level_bit(level as nat),
                levels@ == seq![1u32, 2, 3, 4, 5, 6, 7],
            decreases 7 - i,
        {
            let sys_level = levels[i];
            if level as u32 >= mask {
                let bit = match AfbLogLevel::from_syslog_level(sys_level) {
                    Ok(l) => l.to_afb_mask(),
                    Err(e) => return Err(e),
                };
                assert(false);
                mask = mask | bit;
            } else {
                break;
            }
            i = i + 1;
        }
    }
    Ok(mask)
}

/// Log messages of the binder.
pub struct AfbLogMsg {}

/// What can be written as a log message.
pub trait DoMessage<T>: Sized {
    spec fn message_text(msg: T) -> Seq<char>;

    fn as_string(msg: T) -> (r: String)
        ensures
            r@ == Self::message_text(msg),
    ;
}

impl<'a> DoMessage<&'a AfbError> for AfbLogMsg {
    open spec fn message_text(msg: &'a AfbError) -> Seq<char> {
        msg@.uid + seq![':'] + msg@.info
    }

    fn as_string(msg: &'a AfbError) -> (r: String) {
        msg.to_display()
    }
}

impl DoMessage<String> for AfbLogMsg {
    open spec fn message_text(msg: String) -> Seq<char> {
        msg@
    }

    fn as_string(msg: String) -> (r: String) {
        msg
    }
}

impl<'a> DoMessage<&'a str> for AfbLogMsg {
    open spec fn message_text(msg: &'a str) -> Seq<char> {
        msg@
    }

    fn as_string(msg: &'a str) -> (r: String) {
        msg.to_owned()
    }
}

impl AfbLogMsg {
    /// The level number a message of this level is sent with.
    pub fn get_level(log_level: AfbLogLevel) -> (r: i32)
        ensures
            r == level_number(log_level),
    {
        match log_level {
            AfbLogLevel::Unknown => -1,
            _ => log_level.to_syslog_level() as i32,
        }
    }

    /// Whether a handle with this verbosity mask lets messages of this
    /// level through.
    pub fn verbosity_satisfied(level: AfbLogLevel, verbosity: u32) -> (r: bool)
        requires
            !(level is Unknown),
        ensures
            r == (verbosity & level_bit(syslog_of(level) as nat) != 0),
    {
        (verbosity & level.to_afb_mask()) != 0
    }

    /// The level number and the text a message is sent with.
    pub fn message<T>(level: AfbLogLevel, format: T) -> (r: (i32, String))
        where AfbLogMsg: DoMessage<T>,
        ensures
            r.0 == level_number(level),
            r.1@ == <AfbLogMsg as DoMessage<T>>::message_text(format),
    {
        (Self::get_level(level), <AfbLogMsg as DoMessage<T>>::as_string(format))
    }

    /// All a message is sent with: its level number, its text, and where it
    /// was raised (the file, the line and the function's name), or empty
    /// texts and line 0 when that is not known. Every text crosses into a
    /// C string.
    pub fn message_at<T>(level: AfbLogLevel, format: T, info: Option<&DbgInfo>) -> (r: (
        i32,
        String,
        String,
        u32,
        String,
    ))
        where AfbLogMsg: DoMessage<T>,
        requires
            no_nul(<AfbLogMsg as DoMessage<T>>::message_text(format)),
            info matches Some(d) ==> no_nul(d.file@) && no_nul(d.name@),
        ensures
            r.0 == level_number(level),
            r.1@ == <AfbLogMsg as DoMessage<T>>::message_text(format),
            match info {
                Some(d) => r.2@ == d.file@ && r.3 == d.line && r.4@ == d.name@,
                None => r.2@ == Seq::<char>::empty() && r.3 == 0 && r.4@ == Seq::<char>::empty(),
            },
    {
        let (number, text) = Self::message(level, format);
        match info {
            Some(d) => (number, text, d.file.to_owned(), d.line, d.name.to_owned()),
            None => (number, text, String::new(), 0, String::new()),
        }
    }
}

} // verus!
