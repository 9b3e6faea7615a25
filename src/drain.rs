use vstd::prelude::*;

verus! {

/// The byte that ends a line.
pub const NEWLINE: u8 = 10;

/// What the worker's output stream delivers, one event at a time.
#[derive(Debug, Clone, PartialEq, Eq)]
pub enum OutputEvent {
    /// One chunk of standard output or standard error, as raw bytes.
    Output(Vec<u8>),
    /// The launcher reported an error on the process.
    Error(String),
    /// The process has terminated; no further events follow.
    Terminated,
    /// Any other event kind.
    Other,
}

/// What the drain asks its runner to do after an event.
#[derive(Debug, Clone, PartialEq, Eq)]
pub enum DrainAction {
    /// Append these bytes to the log file.
    Append(Vec<u8>),
    /// Nothing to write; wait for the next event.
    Continue,
    /// The drain is over: stop reading events.
    Stop,
}

/// The decoded text of raw output bytes, as UTF-8 bytes, with each invalid
/// sequence replaced by U+FFFD.
pub uninterp spec fn utf8_lossy(b: Seq<u8>) -> Seq<u8>;

/// Relies on `String::from_utf8_lossy`: decodes the bytes as UTF-8,
/// replacing each invalid sequence with U+FFFD.
#[verifier::external_body]
fn decode_lossy(b: &Vec<u8>) -> (r: Vec<u8>)
    ensures
        r@ == utf8_lossy(b@),
{
    String::from_utf8_lossy(b.as_slice()).into_owned().into_bytes()
}

/// `text` without one trailing newline, if it ends with one.
pub open spec fn strip_newline(text: Seq<u8>) -> Seq<u8> {
    if text.len() > 0 && text.last() == NEWLINE {
        text.drop_last()
    } else {
        text
    }
}

/// The log line written for decoded output `text`: the text without one
/// trailing newline, then exactly one newline.
pub open spec fn line_of(text: Seq<u8>) -> Seq<u8> {
    strip_newline(text).push(NEWLINE)
}

/// True of the events that end a drain.
pub open spec fn is_terminal(e: OutputEvent) -> bool {
    match e {
        OutputEvent::Error(_) | OutputEvent::Terminated => true,
        _ => false,
    }
}

/// The bytes that a drain appends to the log while it consumes `events`:
/// one line per output event, up to the first error or termination.
pub open spec fn transcript(events: Seq<OutputEvent>) -> Seq<u8>
    decreases events.len(),
{
    if events.len() == 0 {
        Seq::empty()
    } else {
        match events[0] {
            OutputEvent::Output(b) => line_of(utf8_lossy(b@)) + transcript(events.drop_first()),
            OutputEvent::Other => transcript(events.drop_first()),
            _ => Seq::empty(),
        }
    }
}

/// The log line for one chunk of raw output: decoded text without one
/// trailing newline, followed by a newline.
pub fn log_line(raw: &Vec<u8>) -> (r: Vec<u8>)
    ensures
        r@ == line_of(utf8_lossy(raw@)),
{
    let mut text = decode_lossy(raw);
    let n = text.len();
    if n > 0 && text[n - 1] == NEWLINE {
        text.pop();
    }
    text.push(NEWLINE);
    proof {
        assert(text@ =~= line_of(utf8_lossy(raw@)));
    }
    text
}

impl OutputEvent {
    /// Whether this event reports that the process has terminated.
    pub fn is_terminated(&self) -> (r: bool)
        ensures
            r <==> (*self is Terminated),
    {
        match self {
            OutputEvent::Terminated => true,
            _ => false,
        }
    }
}

/// The state of one process's log drain.
pub struct LogDrain {
    finished: bool,
}

impl LogDrain {
    /// Whether the drain has stopped consuming events.
    pub closed spec fn is_finished(&self) -> bool {
        self.finished
    }

    /// A drain that has not consumed any event yet.
    pub fn new() -> (r: LogDrain)
        ensures
            !r.is_finished(),
    {
        LogDrain { finished: false }
    }

    /// Whether the drain has stopped consuming events.
    pub fn finished(&self) -> (r: bool)
        ensures
            r == self.is_finished(),
    {
        self.finished
    }

    /// Consumes one event. Output becomes one log line; an error or a
    /// termination ends the drain; any other event is ignored. A finished
    /// drain asks to stop whatever comes.
    pub fn on_event(&mut self, event: OutputEvent) -> (r: DrainAction)
        ensures
            old(self).is_finished() ==> r is Stop && final(self).is_finished(),
            !old(self).is_finished() ==> match event {
                OutputEvent::Output(b) => (match r {
                    DrainAction::Append(line) => line@ == line_of(utf8_lossy(b@)),
                    _ => false,
                }) && !final(self).is_finished(),
                OutputEvent::Other => r is Continue && !final(self).is_finished(),
                _ => r is Stop && final(self).is_finished(),
            },
    {
        if self.finished {
            return DrainAction::Stop;
        }
        match event {
            OutputEvent::Output(b) => DrainAction::Append(log_line(&b)),
            OutputEvent::Other => DrainAction::Continue,
            _ => {
                self.finished = true;
                DrainAction::Stop
            },
        }
    }

    /// Records that appending to the log file failed: the drain ends and
    /// asks to stop on every later event. Nothing else is touched.
    pub fn on_write_error(&mut self)
        ensures
            final(self).is_finished(),
    {
        self.finished = true;
    }
}

/// Appends to `log` what a fresh drain writes while it consumes `events`.
pub fn append_transcript(log: &mut Vec<u8>, events: Vec<OutputEvent>)
    ensures
        final(log)@ == old(log)@ + transcript(events@),
{
    let ghost all = events@;
    let ghost start = log@;
    let mut rest = events;
    let mut drain = LogDrain::new();
    while rest.len() > 0
        invariant
            !drain.is_finished() ==> log@ + transcript(rest@) == start + transcript(all),
            drain.is_finished() ==> log@ == start + transcript(all),
        decreases rest.len(),
    {
        let ghost before = rest@;
        let event = rest.remove(0);
        proof {
            assert(rest@ =~= before.drop_first());
        }
        let ghost was_finished = drain.is_finished();
        match drain.on_event(event) {
            DrainAction::Append(mut line) => {
                proof {
                    assert(log@ + line@ + transcript(rest@) =~= log@ + transcript(before));
                }
                log.append(&mut line);
            },
            DrainAction::Continue => {},
            DrainAction::Stop => {
                proof {
                    if !was_finished {
                        assert(transcript(before) =~= Seq::<u8>::empty());
                        assert(log@ =~= log@ + transcript(before));
                    }
                }
            },
        }
    }
    proof {
        if !drain.is_finished() {
            assert(log@ =~= log@ + transcript(rest@));
        }
    }
}

} // verus!
