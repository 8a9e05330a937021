use vstd::prelude::*;

verus! {

use crate::capture::{Key, capture_step};
use crate::channel::{sent, sent_all};
use crate::display::polled;

/// Capture state and channel queue after a run of keys with no poll tick in
/// between: each key goes through `InputCapture::handle`, and each message it
/// gives through `BoundedChannel::try_send`.
pub open spec fn captured(stopped: bool, queue: Seq<Seq<char>>, capacity: nat, keys: Seq<Key>) -> (
    bool,
    Seq<Seq<char>>,
)
    decreases keys.len(),
{
    if keys.len() == 0 {
        (stopped, queue)
    } else {
        let step = capture_step(stopped, keys[0]);
        let next = match step.1 {
            Some(msg) => sent(queue, capacity, msg),
            None => queue,
        };
        captured(step.0, next, capacity, keys.drop_first())
    }
}

/// Display buffer and channel queue after `n` poll ticks (`TerminalApp::poll`).
pub open spec fn polled_n(output: Seq<char>, queue: Seq<Seq<char>>, n: nat) -> (
    Seq<char>,
    Seq<Seq<char>>,
)
    decreases n,
{
    if n == 0 {
        (output, queue)
    } else {
        let p = polled(output, queue);
        polled_n(p.0, p.1, (n - 1) as nat)
    }
}

/// The messages of a queue joined into one text, oldest first.
pub open spec fn joined(queue: Seq<Seq<char>>) -> Seq<char>
    decreases queue.len(),
{
    if queue.len() == 0 {
        Seq::empty()
    } else {
        queue[0] + joined(queue.drop_first())
    }
}

/// The key that types `c`.
pub open spec fn char_key(c: char) -> Key {
    Key::Char(c)
}

/// The key presses that type out `chars`.
pub open spec fn typed(chars: Seq<char>) -> Seq<Key>
    decreases chars.len(),
{
    if chars.len() == 0 {
        Seq::empty()
    } else {
        seq![char_key(chars[0])] + typed(chars.drop_first())
    }
}

/// Feeding two runs of keys one after the other is feeding their concatenation.
pub proof fn lemma_captured_concat(
    stopped: bool,
    queue: Seq<Seq<char>>,
    capacity: nat,
    a: Seq<Key>,
    b: Seq<Key>,
)
    ensures
        captured(stopped, queue, capacity, a + b) == ({
            let mid = captured(stopped, queue, capacity, a);
            captured(mid.0, mid.1, capacity, b)
        }),
    decreases a.len(),
{
    if a.len() == 0 {
        assert(a + b =~= b);
    } else {
        let step = capture_step(stopped, a[0]);
        let next = match step.1 {
            Some(msg) => sent(queue, capacity, msg),
            None => queue,
        };
        assert((a + b).drop_first() =~= a.drop_first() + b);
        lemma_captured_concat(step.0, next, capacity, a.drop_first(), b);
    }
}

/// Once capture has stopped, no key sends anything: the queue stays as it is.
pub proof fn lemma_stopped_sends_nothing(queue: Seq<Seq<char>>, capacity: nat, keys: Seq<Key>)
    ensures
        captured(true, queue, capacity, keys) == (true, queue),
    decreases keys.len(),
{
    if keys.len() > 0 {
        lemma_stopped_sends_nothing(queue, capacity, keys.drop_first());
    }
}

/// After an Escape, whatever keys follow produce no message: the queue is the
/// one the keys before the Escape left, and capture has stopped.
pub proof fn lemma_no_messages_after_escape(
    stopped: bool,
    queue: Seq<Seq<char>>,
    capacity: nat,
    before: Seq<Key>,
    after: Seq<Key>,
)
    ensures
        captured(stopped, queue, capacity, before + seq![Key::Esc] + after) == (
            true,
            captured(stopped, queue, capacity, before).1,
        ),
{
    let mid = captured(stopped, queue, capacity, before);
    lemma_captured_concat(stopped, queue, capacity, before + seq![Key::Esc], after);
    lemma_captured_concat(stopped, queue, capacity, before, seq![Key::Esc]);
    assert(seq![Key::Esc].drop_first() =~= Seq::<Key>::empty());
    assert(captured(true, mid.1, capacity, seq![Key::Esc].drop_first()) == (true, mid.1));
    assert(captured(mid.0, mid.1, capacity, seq![Key::Esc]) == (true, mid.1));
    lemma_stopped_sends_nothing(mid.1, capacity, after);
}

/// Sends with no receive in between keep the first messages that fit and drop
/// the rest: the queue never grows past the capacity.
pub proof fn lemma_sends_past_capacity_dropped(
    queue: Seq<Seq<char>>,
    capacity: nat,
    msgs: Seq<Seq<char>>,
)
    requires
        queue.len() <= capacity,
    ensures
        sent_all(queue, capacity, msgs) == queue + msgs.take(
            if msgs.len() <= capacity - queue.len() {
                msgs.len() as int
            } else {
                capacity - queue.len()
            },
        ),
        sent_all(queue, capacity, msgs).len() <= capacity,
    decreases msgs.len(),
{
    if msgs.len() == 0 {
        assert(queue + msgs.take(0) =~= queue);
    } else if queue.len() < capacity {
        lemma_sends_past_capacity_dropped(queue.push(msgs[0]), capacity, msgs.drop_first());
        let k = if msgs.len() <= capacity - queue.len() {
            msgs.len() as int
        } else {
            capacity - queue.len()
        };
        assert(queue.push(msgs[0]) + msgs.drop_first().take(k - 1) =~= queue + msgs.take(k));
    } else {
        lemma_sends_past_capacity_dropped(queue, capacity, msgs.drop_first());
        assert(msgs.drop_first().take(0) =~= msgs.take(0));
    }
}

/// Polling an empty channel any number of times changes neither the display
/// buffer nor the channel.
pub proof fn lemma_empty_polls_change_nothing(output: Seq<char>, queue: Seq<Seq<char>>, n: nat)
    requires
        queue.len() == 0,
    ensures
        polled_n(output, queue, n) == (output, queue),
    decreases n,
{
    if n > 0 {
        lemma_empty_polls_change_nothing(output, queue, (n - 1) as nat);
    }
}

/// As many ticks as there are queued messages move all of them, in order, to
/// the end of the display buffer.
pub proof fn lemma_drain(output: Seq<char>, queue: Seq<Seq<char>>)
    ensures
        polled_n(output, queue, queue.len()) == (output + joined(queue), Seq::<Seq<char>>::empty()),
    decreases queue.len(),
{
    if queue.len() == 0 {
        assert(output + joined(queue) =~= output);
    } else {
        lemma_drain(output + queue[0], queue.drop_first());
        assert(output + queue[0] + joined(queue.drop_first()) =~= output + joined(queue));
    }
}

proof fn lemma_joined_push(queue: Seq<Seq<char>>, msg: Seq<char>)
    ensures
        joined(queue.push(msg)) == joined(queue) + msg,
    decreases queue.len(),
{
    if queue.len() == 0 {
        assert(queue.push(msg).drop_first() =~= Seq::<Seq<char>>::empty());
        assert(joined(queue.push(msg).drop_first()) == Seq::<char>::empty());
        assert(joined(queue.push(msg)) =~= joined(queue) + msg);
    } else {
        assert(queue.push(msg).drop_first() =~= queue.drop_first().push(msg));
        lemma_joined_push(queue.drop_first(), msg);
        assert(joined(queue.push(msg)) =~= joined(queue) + msg);
    }
}

/// Typing characters into running capture, with room for all of them, queues
/// one message per character and adds exactly their text to the queue's.
proof fn lemma_typing_queues(queue: Seq<Seq<char>>, capacity: nat, chars: Seq<char>)
    requires
        queue.len() + chars.len() <= capacity,
    ensures
        captured(false, queue, capacity, typed(chars)).0 == false,
        captured(false, queue, capacity, typed(chars)).1.len() == queue.len() + chars.len(),
        joined(captured(false, queue, capacity, typed(chars)).1) == joined(queue) + chars,
    decreases chars.len(),
{
    if chars.len() == 0 {
        assert(joined(queue) + chars =~= joined(queue));
    } else {
        let head = seq![char_key(chars[0])];
        assert((head + typed(chars.drop_first()))[0] == head[0]);
        assert((head + typed(chars.drop_first())).drop_first() =~= typed(chars.drop_first()));
        let next = queue.push(seq![chars[0]]);
        lemma_typing_queues(next, capacity, chars.drop_first());
        lemma_joined_push(queue, seq![chars[0]]);
        assert(joined(queue) + seq![chars[0]] + chars.drop_first() =~= joined(queue) + chars);
    }
}

/// Printable characters followed by Enter, typed into running capture on an
/// empty channel with room for every message, end up in an empty display
/// buffer as those characters followed by a newline once the channel has
/// drained, one tick per message.
pub proof fn lemma_typed_line_displayed(chars: Seq<char>, capacity: nat)
    requires
        chars.len() + 1 <= capacity,
    ensures
        ({
            let fed = captured(false, Seq::empty(), capacity, typed(chars).push(Key::Enter));
            &&& fed.1.len() == chars.len() + 1
            &&& polled_n(Seq::empty(), fed.1, fed.1.len()) == (
                chars.push('\n'),
                Seq::<Seq<char>>::empty(),
            )
        }),
{
    let empty = Seq::<Seq<char>>::empty();
    lemma_typing_queues(empty, capacity, chars);
    let mid = captured(false, empty, capacity, typed(chars));
    lemma_captured_concat(false, empty, capacity, typed(chars), seq![Key::Enter]);
    assert(typed(chars).push(Key::Enter) =~= typed(chars) + seq![Key::Enter]);
    assert(seq![Key::Enter].drop_first() =~= Seq::<Key>::empty());
    let fed = captured(false, empty, capacity, typed(chars).push(Key::Enter));
    assert(captured(false, mid.1.push(seq!['\n']), capacity, seq![Key::Enter].drop_first()) == (
        false,
        mid.1.push(seq!['\n']),
    ));
    assert(fed.1 == mid.1.push(seq!['\n']));
    lemma_joined_push(mid.1, seq!['\n']);
    assert(joined(empty) =~= Seq::<char>::empty());
    lemma_drain(Seq::empty(), fed.1);
    assert(Seq::<char>::empty() + joined(fed.1) =~= chars.push('\n'));
}

} // verus!
