//! Script error events, and forwarding their messages to an attached debugger.
use vstd::prelude::*;
use crate::types::{PipelineId, ScriptValue};

verus! {

impl ScriptValue {
    pub fn duplicate(&self) -> (r: ScriptValue)
        ensures
            r == *self,
    {
        match self {
            ScriptValue::Undefined => ScriptValue::Undefined,
            ScriptValue::Boolean(b) => ScriptValue::Boolean(*b),
            ScriptValue::Number(bits) => ScriptValue::Number(*bits),
            ScriptValue::String(s) => ScriptValue::String(s.clone()),
            ScriptValue::Object => ScriptValue::Object,
            ScriptValue::Null => ScriptValue::Null,
        }
    }
}

/// The optional members with which script constructs an error event.
#[derive(Debug)]
pub struct ErrorEventInit {
    pub bubbles: bool,
    pub cancelable: bool,
    pub message: Option<String>,
    pub filename: Option<String>,
    pub lineno: Option<u32>,
    pub colno: Option<u32>,
    pub error: ScriptValue,
}

/// An event that reports a script error: where it happened and what was thrown.
#[derive(Debug)]
pub struct ErrorEvent {
    event_type: String,
    bubbles: bool,
    cancelable: bool,
    message: String,
    filename: String,
    lineno: u32,
    colno: u32,
    error: ScriptValue,
}

/// The mathematical content of an `ErrorEvent`.
pub struct ErrorEventView {
    pub event_type: Seq<char>,
    pub bubbles: bool,
    pub cancelable: bool,
    pub message: Seq<char>,
    pub filename: Seq<char>,
    pub lineno: u32,
    pub colno: u32,
    pub error: ScriptValue,
}

impl View for ErrorEvent {
    type V = ErrorEventView;

    closed spec fn view(&self) -> ErrorEventView {
        ErrorEventView {
            event_type: self.event_type@,
            bubbles: self.bubbles,
            cancelable: self.cancelable,
            message: self.message@,
            filename: self.filename@,
            lineno: self.lineno,
            colno: self.colno,
            error: self.error,
        }
    }
}

/// The text of an optional member, empty when absent.
pub open spec fn text_or_empty(s: Option<String>) -> Seq<char> {
    match s {
        Some(t) => t@,
        None => Seq::empty(),
    }
}

fn string_or_empty(s: &Option<String>) -> (r: String)
    ensures
        r@ == text_or_empty(*s),
{
    match s {
        Some(t) => t.clone(),
        None => String::new(),
    }
}

#[allow(non_snake_case)]
impl ErrorEvent {
    /// An event with no type, empty texts, zero positions and a null error.
    pub fn new_uninitialized() -> (r: ErrorEvent)
        ensures
            r@ == (ErrorEventView {
                event_type: Seq::empty(),
                bubbles: false,
                cancelable: false,
                message: Seq::empty(),
                filename: Seq::empty(),
                lineno: 0,
                colno: 0,
                error: ScriptValue::Null,
            }),
    {
        ErrorEvent {
            event_type: String::new(),
            bubbles: false,
            cancelable: false,
            message: String::new(),
            filename: String::new(),
            lineno: 0,
            colno: 0,
            error: ScriptValue::Null,
        }
    }

    /// An initialized event carrying the given members.
    pub fn new(
        type_: String,
        can_bubble: bool,
        cancelable: bool,
        message: String,
        filename: String,
        lineno: u32,
        colno: u32,
        error: ScriptValue,
    ) -> (r: ErrorEvent)
        ensures
            r@ == (ErrorEventView {
                event_type: type_@,
                bubbles: can_bubble,
                cancelable,
                message: message@,
                filename: filename@,
                lineno,
                colno,
                error,
            }),
    {
        let mut ev = ErrorEvent::new_uninitialized();
        ev.event_type = type_;
        ev.bubbles = can_bubble;
        ev.cancelable = cancelable;
        ev.message = message;
        ev.filename = filename;
        ev.lineno = lineno;
        ev.colno = colno;
        ev.error = error;
        ev
    }

    /// The event that script's `new ErrorEvent(type, init)` creates: an absent text
    /// is empty and an absent position is zero.
    pub fn Constructor(type_: String, init: &ErrorEventInit) -> (r: ErrorEvent)
        ensures
            r@ == (ErrorEventView {
                event_type: type_@,
                bubbles: init.bubbles,
                cancelable: init.cancelable,
                message: text_or_empty(init.message),
                filename: text_or_empty(init.filename),
                lineno: match init.lineno {
                    Some(n) => n,
                    None => 0,
                },
                colno: match init.colno {
                    Some(n) => n,
                    None => 0,
                },
                error: init.error,
            }),
    {
        let msg = string_or_empty(&init.message);
        let file_name = string_or_empty(&init.filename);
        let line_num = match init.lineno {
            Some(n) => n,
            None => 0,
        };
        let col_num = match init.colno {
            Some(n) => n,
            None => 0,
        };
        ErrorEvent::new(
            type_,
            init.bubbles,
            init.cancelable,
            msg,
            file_name,
            line_num,
            col_num,
            init.error.duplicate(),
        )
    }

    pub fn Type(&self) -> (r: String)
        ensures
            r@ == self@.event_type,
    {
        self.event_type.clone()
    }

    pub fn Bubbles(&self) -> (r: bool)
        ensures
            r == self@.bubbles,
    {
        self.bubbles
    }

    pub fn Cancelable(&self) -> (r: bool)
        ensures
            r == self@.cancelable,
    {
        self.cancelable
    }

    pub fn Lineno(&self) -> (r: u32)
        ensures
            r == self@.lineno,
    {
        self.lineno
    }

    pub fn Colno(&self) -> (r: u32)
        ensures
            r == self@.colno,
    {
        self.colno
    }

    pub fn Message(&self) -> (r: String)
        ensures
            r@ == self@.message,
    {
        self.message.clone()
    }

    pub fn Filename(&self) -> (r: String)
        ensures
            r@ == self@.filename,
    {
        self.filename.clone()
    }

    pub fn Error(&self) -> (r: ScriptValue)
        ensures
            r == self@.error,
    {
        self.error.duplicate()
    }
}

/// How a page notification is to be reported.
#[derive(Clone, Copy, Debug, PartialEq, Eq, Structural)]
pub enum Severity {
    Log,
    Warn,
}

/// A message for the debugger's console.
#[derive(Debug)]
pub struct ConsoleMessage {
    pub pipeline: PipelineId,
    pub text: String,
}

/// The outbound console path: a bounded queue toward the attached debugger, if
/// one is attached. A message that finds the queue full is dropped, so a page
/// never waits for the debugger.
pub struct ConsoleForwarder {
    attached: bool,
    capacity: usize,
    queue: Vec<ConsoleMessage>,
}

/// The mathematical content of a `ConsoleForwarder`.
pub struct ConsoleForwarderView {
    pub attached: bool,
    pub capacity: nat,
    pub queue: Seq<ConsoleMessage>,
}

impl View for ConsoleForwarder {
    type V = ConsoleForwarderView;

    closed spec fn view(&self) -> ConsoleForwarderView {
        ConsoleForwarderView {
            attached: self.attached,
            capacity: self.capacity as nat,
            queue: self.queue@,
        }
    }
}

impl ConsoleForwarder {
    /// A forwarder with no debugger attached.
    pub fn new() -> (r: ConsoleForwarder)
        ensures
            !r@.attached,
            r@.queue.len() == 0,
    {
        ConsoleForwarder { attached: false, capacity: 0, queue: Vec::new() }
    }

    /// Attaches a debugger whose queue holds at most `capacity` messages.
    pub fn attach(&mut self, capacity: usize)
        ensures
            final(self)@.attached,
            final(self)@.capacity == capacity,
            final(self)@.queue.len() == 0,
    {
        self.attached = true;
        self.capacity = capacity;
        self.queue = Vec::new();
    }

    /// Detaches the debugger; undelivered messages are dropped.
    pub fn detach(&mut self)
        ensures
            !final(self)@.attached,
            final(self)@.queue.len() == 0,
    {
        self.attached = false;
        self.queue = Vec::new();
    }

    pub fn is_attached(&self) -> (r: bool)
        ensures
            r == self@.attached,
    {
        self.attached
    }

    /// Hands out the queued messages, oldest first, and empties the queue.
    pub fn take_messages(&mut self) -> (r: Vec<ConsoleMessage>)
        ensures
            r@ == old(self)@.queue,
            final(self)@.queue.len() == 0,
            final(self)@.attached == old(self)@.attached,
            final(self)@.capacity == old(self)@.capacity,
    {
        let mut out: Vec<ConsoleMessage> = Vec::new();
        std::mem::swap(&mut out, &mut self.queue);
        out
    }
}

/// Whether a notification of `severity` is queued: it is a `Log`, a debugger is
/// attached and its queue has room.
pub open spec fn forwards(severity: Severity, f: ConsoleForwarderView) -> bool {
    severity == Severity::Log && f.attached && f.queue.len() < f.capacity
}

/// Forwards the message of a script error raised in the page of `pipeline`. A
/// `Log` notification goes to the attached debugger with the pipeline and the
/// message text as they are; with no debugger attached, or a full queue, it is
/// dropped. A `Warn` notification is not forwarded.
pub fn propagate_error(
    forwarder: &mut ConsoleForwarder,
    pipeline: PipelineId,
    severity: Severity,
    event: &ErrorEvent,
)
    ensures
        final(forwarder)@.attached == old(forwarder)@.attached,
        final(forwarder)@.capacity == old(forwarder)@.capacity,
        forwards(severity, old(forwarder)@) ==> {
            let q = final(forwarder)@.queue;
            &&& q.len() == old(forwarder)@.queue.len() + 1
            &&& q.drop_last() == old(forwarder)@.queue
            &&& q.last().pipeline == pipeline
            &&& q.last().text@ == event@.message
        },
        !forwards(severity, old(forwarder)@) ==> final(forwarder)@.queue == old(forwarder)@.queue,
{
    match severity {
        Severity::Log => {
            if forwarder.attached && forwarder.queue.len() < forwarder.capacity {
                forwarder.queue.push(ConsoleMessage { pipeline, text: event.Message() });
                assert(forwarder.queue@.drop_last() =~= old(forwarder).queue@);
            }
        },
        Severity::Warn => {},
    }
}

} // verus!
