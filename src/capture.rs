use vstd::prelude::*;

verus! {

use vstd::string::StringExecFns;

/// A terminal key press, as far as input capture tells keys apart.
#[derive(Clone, Copy, Debug, PartialEq, Eq, Structural)]
pub enum Key {
    /// A key that produces a character.
    Char(char),
    Enter,
    Esc,
    /// Any other key (arrows, function keys, ...).
    Other,
}

/// What the capture loop does after one key.
#[derive(Debug)]
pub enum CaptureStep {
    /// Send this message down the channel.
    Send(String),
    /// Nothing to send; keep reading.
    Skip,
    /// Capture has ended; read no more.
    Stop,
}

/// The message that a key produces while capture is running.
pub open spec fn key_message(key: Key) -> Option<Seq<char>> {
    match key {
        Key::Char(c) => Some(seq![c]),
        Key::Enter => Some(seq!['\n']),
        _ => None,
    }
}

/// One capture transition: from whether capture had stopped and a key, to
/// whether it has stopped now and the message to send, if any.
pub open spec fn capture_step(stopped: bool, key: Key) -> (bool, Option<Seq<char>>) {
    if stopped || key == Key::Esc {
        (true, None)
    } else {
        (false, key_message(key))
    }
}

/// The message carried by a step, if any.
pub open spec fn step_message(step: CaptureStep) -> Option<Seq<char>> {
    match step {
        CaptureStep::Send(m) => Some(m@),
        _ => None,
    }
}

/// Relies on std's `From<char> for String`: a string of exactly that character.
#[verifier::external_body]
fn char_text(c: char) -> (r: String)
    ensures
        r@ == seq![c],
{
    String::from(c)
}

/// The input capture state machine: reading until Escape, then stopped for good.
pub struct InputCapture {
    stopped: bool,
}

impl InputCapture {
    pub closed spec fn is_stopped(&self) -> bool {
        self.stopped
    }

    /// A capture that is reading.
    pub fn new() -> (r: InputCapture)
        ensures
            !r.is_stopped(),
    {
        InputCapture { stopped: false }
    }

    /// True once Escape has been seen.
    pub fn stopped(&self) -> (r: bool)
        ensures
            r == self.is_stopped(),
    {
        self.stopped
    }

    /// Translates one key: a character becomes a one-character message, Enter
    /// a newline, Escape stops capture, any other key is skipped. Once stopped,
    /// every key gives `Stop` and no message.
    pub fn handle(&mut self, key: Key) -> (r: CaptureStep)
        ensures
            final(self).is_stopped() == capture_step(old(self).is_stopped(), key).0,
            step_message(r) == capture_step(old(self).is_stopped(), key).1,
            (r is Stop) == final(self).is_stopped(),
    {
        if self.stopped {
            return CaptureStep::Stop;
        }
        match key {
            Key::Char(c) => CaptureStep::Send(char_text(c)),
            Key::Enter => {
                let nl = String::from_str("\n");
                proof {
                    reveal_strlit("\n");
                }
                assert(nl@ =~= seq!['\n']);
                CaptureStep::Send(nl)
            },
            Key::Esc => {
                self.stopped = true;
                CaptureStep::Stop
            },
            Key::Other => CaptureStep::Skip,
        }
    }
}

} // verus!
