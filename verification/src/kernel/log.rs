//! Log events on their way to a handler.

use crate::util::text::{concat3, str_equal};
use vstd::prelude::*;

verus! {

/// Importance of an event.
#[derive(Debug, Clone, Copy, PartialEq, Eq, Structural)]
pub enum LogLevel {
    /// Finest detail.
    Trace,
    /// Detail.
    Debug,
    /// Normal course.
    Info,
    /// Something is odd.
    Warn,
    /// Something failed.
    Error,
}

/// Takes log events.
pub trait EventHandler {
    /// Takes one event.
    fn handle(&self, level: LogLevel, target: &str, message: &str);
}

/// The message of an event after one more of its fields: the text of the field `message`
/// as it is, any other field as `name=value`, behind a space where it is not the first.
pub open spec fn with_field(message: Seq<char>, name: Seq<char>, value: Seq<char>) -> Seq<char> {
    if name == "message"@ {
        message + value
    } else if message.len() == 0 {
        message + name + "="@ + value
    } else {
        message + " "@ + name + "="@ + value
    }
}

/// The message of an event, built up from its fields.
#[derive(Debug)]
pub struct MessageVisitor {
    /// The message so far.
    pub message: String,
}

impl MessageVisitor {
    /// The empty message.
    pub fn new() -> (r: Self)
        ensures
            r.message@ == Seq::<char>::empty(),
    {
        let r = MessageVisitor { message: "".to_owned() };
        proof {
            reveal_strlit("");
            assert(r.message@ =~= Seq::<char>::empty());
        }
        r
    }

    /// Takes one more field.
    pub fn record_debug(&mut self, name: &str, value: &str)
        ensures
            final(self).message@ == with_field(old(self).message@, name@, value@),
    {
        if str_equal(name, "message") {
            self.message.append(value);
        } else {
            if self.message.as_str().unicode_len() != 0 {
                self.message.append(" ");
            }
            self.message.append(name);
            self.message.append("=");
            self.message.append(value);
        }
    }
}

/// The number that Python's `logging` has for a level.
pub fn level_to_python(level: LogLevel) -> (r: i32)
    ensures
        r == (match level {
            LogLevel::Trace => 10i32,
            LogLevel::Debug => 10i32,
            LogLevel::Info => 20i32,
            LogLevel::Warn => 30i32,
            LogLevel::Error => 40i32,
        }),
{
    match level {
        LogLevel::Trace => 10,
        LogLevel::Debug => 10,
        LogLevel::Info => 20,
        LogLevel::Warn => 30,
        LogLevel::Error => 40,
    }
}

/// The line that is handed to Python for an event.
pub fn python_line(target: &str, message: &str) -> (r: String)
    ensures
        r@ == target@ + ": "@ + message@,
{
    concat3(target, ": ", message)
}

/// Whether events are handed to Python: where the setting is exactly `1`.
pub fn forward_enabled(setting: Option<&str>) -> (b: bool)
    ensures
        b == (setting matches Some(s) && s@ == "1"@),
{
    match setting {
        None => false,
        Some(s) => str_equal(s, "1"),
    }
}

/// Fields are told apart: the message is taken as it is, and any other field shows its name and
/// its value behind an equals sign, one space behind what was there.
pub proof fn law_fields_are_shown(message: Seq<char>, name: Seq<char>, value: Seq<char>)
    ensures
        ({
            let after = with_field(message, name, value);
            &&& message.is_prefix_of(after)
            &&& name == "message"@ ==> after.len() == message.len() + value.len()
            &&& name != "message"@ && message.len() == 0 ==> after == name + "="@ + value
            &&& name != "message"@ && message.len() > 0 ==> after.skip(message.len() as int)
                == " "@ + name + "="@ + value
            &&& after.skip(after.len() - value.len()) == value
        }),
{
    let after = with_field(message, name, value);
    assert(after.skip(after.len() - value.len()) =~= value);
    assert(after.take(message.len() as int) =~= message);
    if name != "message"@ {
        if message.len() == 0 {
            assert(after =~= name + "="@ + value);
        } else {
            assert(after.skip(message.len() as int) =~= " "@ + name + "="@ + value);
        }
    }
}

} // verus!
