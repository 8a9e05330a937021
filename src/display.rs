use vstd::prelude::*;

verus! {

use crate::channel::BoundedChannel;
use vstd::string::StringExecFns;

/// Milliseconds between two poll ticks.
pub const POLL_INTERVAL_MS: u64 = 100;

/// One poll tick on a display buffer and a channel queue: the oldest message,
/// if any, moves from the queue to the end of the buffer.
pub open spec fn polled(output: Seq<char>, queue: Seq<Seq<char>>) -> (Seq<char>, Seq<Seq<char>>) {
    if queue.len() == 0 {
        (output, queue)
    } else {
        (output + queue[0], queue.drop_first())
    }
}

/// The display application's state: the text received so far. It only grows.
pub struct TerminalApp {
    output: String,
}

impl TerminalApp {
    pub closed spec fn spec_output(&self) -> Seq<char> {
        self.output@
    }

    /// An application with an empty display buffer.
    pub fn new() -> (r: TerminalApp)
        ensures
            r.spec_output() == Seq::<char>::empty(),
    {
        TerminalApp { output: String::new() }
    }

    /// The window title.
    pub fn title(&self) -> (r: String)
        ensures
            r@ == "Rocket Term"@,
    {
        String::from_str("Rocket Term")
    }

    /// The display buffer.
    pub fn output(&self) -> (r: &str)
        ensures
            r@ == self.spec_output(),
    {
        self.output.as_str()
    }

    /// Appends a received message to the buffer verbatim.
    pub fn update(&mut self, message: String)
        ensures
            final(self).spec_output() == old(self).spec_output() + message@,
    {
        self.output.append(message.as_str());
    }

    /// One poll tick: takes at most one message from the channel and appends
    /// it. Returns whether a message was received; on an empty channel neither
    /// the buffer nor the channel changes.
    pub fn poll(&mut self, channel: &mut BoundedChannel) -> (r: bool)
        requires
            old(channel).wf(),
        ensures
            final(channel).wf(),
            final(channel).spec_capacity() == old(channel).spec_capacity(),
            r == (old(channel).queue().len() > 0),
            (final(self).spec_output(), final(channel).queue()) == polled(
                old(self).spec_output(),
                old(channel).queue(),
            ),
    {
        match channel.try_recv() {
            Some(message) => {
                self.update(message);
                true
            },
            None => false,
        }
    }
}

} // verus!
