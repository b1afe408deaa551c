//! The scan buffer: accumulates characters and hands out a scan when the live
//! trigger key arrives.

use vstd::prelude::*;
use crate::keys::KeyMessage;
use crate::text::{opt_text, push_char, text_equals, texts};
use std::sync::mpsc::Receiver;

verus! {

/// Which trigger key completes a scan; exactly one is live.
#[derive(Debug, Clone, Copy, PartialEq, Eq, Structural)]
pub enum TriggerMode {
    /// Return / keypad Enter completes a scan.
    Primary,
    /// Tab completes a scan.
    Secondary,
}

/// The trigger key that completes a scan in mode `t`.
pub open spec fn live_key(t: TriggerMode) -> KeyMessage {
    match t {
        TriggerMode::Primary => KeyMessage::Enter,
        TriggerMode::Secondary => KeyMessage::Tab,
    }
}

/// The trigger key that does nothing in mode `t`.
pub open spec fn inert_key(t: TriggerMode) -> KeyMessage {
    match t {
        TriggerMode::Primary => KeyMessage::Tab,
        TriggerMode::Secondary => KeyMessage::Enter,
    }
}

/// The trigger mode a configured suffix mode selects: `"tab"` selects Tab,
/// anything else Enter.
pub open spec fn trigger_mode_for(suffix_mode: Seq<char>) -> TriggerMode {
    if suffix_mode == "tab"@ {
        TriggerMode::Secondary
    } else {
        TriggerMode::Primary
    }
}

/// One message applied to the pending characters: the new pending characters
/// and the completed scan, if any.
pub open spec fn step(t: TriggerMode, pending: Seq<char>, m: KeyMessage) -> (Seq<char>, Option<Seq<char>>) {
    match m {
        KeyMessage::Char(c) => (pending.push(c), None),
        _ => if m == live_key(t) && pending.len() > 0 {
            (Seq::empty(), Some(pending))
        } else {
            (pending, None)
        },
    }
}

/// A run of messages from the pending characters `pending`: the pending
/// characters at the end and the scans completed, in order.
pub open spec fn run(t: TriggerMode, pending: Seq<char>, msgs: Seq<KeyMessage>) -> (Seq<char>, Seq<Seq<char>>)
    decreases msgs.len(),
{
    if msgs.len() == 0 {
        (pending, Seq::empty())
    } else {
        let before = run(t, pending, msgs.drop_last());
        let after = step(t, before.0, msgs.last());
        match after.1 {
            Some(scan) => (after.0, before.1.push(scan)),
            None => (after.0, before.1),
        }
    }
}

/// Picks the trigger mode from a configured suffix mode.
pub fn trigger_mode_from(suffix_mode: &str) -> (r: TriggerMode)
    ensures
        r == trigger_mode_for(suffix_mode@),
{
    if text_equals(suffix_mode, "tab") {
        TriggerMode::Secondary
    } else {
        TriggerMode::Primary
    }
}

/// The accumulator: Idle while `pending` is empty, Accumulating otherwise.
pub struct ScanBuffer {
    pub mode: TriggerMode,
    pub pending: String,
}

impl ScanBuffer {
    pub fn new(mode: TriggerMode) -> (r: ScanBuffer)
        ensures
            r.mode == mode,
            r.pending@ == Seq::<char>::empty(),
    {
        ScanBuffer { mode, pending: String::new() }
    }

    /// Applies one message. A character is appended; the live trigger hands
    /// out the pending characters and empties the buffer when they are not
    /// empty; the inert trigger, or any trigger on an empty buffer, does
    /// nothing.
    pub fn feed(&mut self, msg: KeyMessage) -> (r: Option<String>)
        ensures
            final(self).mode == old(self).mode,
            (final(self).pending@, opt_text(r)) == step(old(self).mode, old(self).pending@, msg),
    {
        match msg {
            KeyMessage::Char(c) => {
                push_char(&mut self.pending, c);
                None
            },
            _ => {
                let live = match self.mode {
                    TriggerMode::Primary => msg == KeyMessage::Enter,
                    TriggerMode::Secondary => msg == KeyMessage::Tab,
                };
                if live && self.pending.unicode_len() > 0 {
                    let scan = self.pending.clone();
                    self.pending = String::new();
                    Some(scan)
                } else {
                    None
                }
            },
        }
    }
}

/// Runs a fresh buffer in the mode that `suffix_mode` selects over
/// `messages` and returns the completed scans in order.
pub fn scan_messages(messages: &Vec<KeyMessage>, suffix_mode: &str) -> (r: Vec<String>)
    ensures
        texts(r@) == run(trigger_mode_for(suffix_mode@), Seq::empty(), messages@).1,
{
    let mode = trigger_mode_from(suffix_mode);
    let mut buffer = ScanBuffer::new(mode);
    let mut scans: Vec<String> = Vec::new();
    let mut i: usize = 0;
    while i < messages.len()
        invariant
            i <= messages@.len(),
            buffer.mode == mode,
            mode == trigger_mode_for(suffix_mode@),
            (buffer.pending@, texts(scans@)) == run(mode, Seq::empty(), messages@.take(i as int)),
        decreases messages@.len() - i,
    {
        let ghost before = scans@;
        assert(messages@.take(i + 1).drop_last() =~= messages@.take(i as int));
        match buffer.feed(messages[i]) {
            Some(scan) => {
                scans.push(scan);
                assert(texts(scans@) =~= texts(before).push(scan@));
            },
            None => {},
        }
        i += 1;
    }
    assert(messages@.take(messages@.len() as int) =~= messages@);
    scans
}

/// The receiving end of a std channel, carried through unexamined.
#[verifier::external_type_specification]
#[verifier::external_body]
#[verifier::reject_recursive_types(T)]
pub struct ExReceiver<T>(Receiver<T>);

/// Relies on mpsc::Receiver::iter: yields messages until every sender is
/// gone.
#[verifier::external_body]
fn receive_all(rx: Receiver<KeyMessage>) -> (r: Vec<KeyMessage>) {
    rx.iter().collect()
}

/// Reads messages until the channel closes and returns the scans they
/// complete, in order. What arrives is up to the senders; whatever it is,
/// every scan returned is non-empty.
pub fn process_key_buffer(rx: Receiver<KeyMessage>, suffix_mode: &str) -> (r: Vec<String>)
    ensures
        forall|k: int| 0 <= k < r@.len() ==> r@[k]@.len() > 0,
{
    let messages = receive_all(rx);
    let scans = scan_messages(&messages, suffix_mode);
    proof {
        lemma_scans_nonempty(trigger_mode_for(suffix_mode@), Seq::empty(), messages@);
        assert forall|k: int| 0 <= k < scans@.len() implies scans@[k]@.len() > 0 by {
            assert(texts(scans@)[k] == scans@[k]@);
        }
    }
    scans
}

/// Every completed scan is non-empty: the trigger never flushes an empty
/// buffer.
pub proof fn lemma_scans_nonempty(t: TriggerMode, pending: Seq<char>, msgs: Seq<KeyMessage>)
    ensures
        forall|k: int| 0 <= k < run(t, pending, msgs).1.len() ==> #[trigger] run(t, pending, msgs).1[k].len() > 0,
    decreases msgs.len(),
{
    if msgs.len() > 0 {
        lemma_scans_nonempty(t, pending, msgs.drop_last());
        let before = run(t, pending, msgs.drop_last());
        let after = step(t, before.0, msgs.last());
        if let Some(scan) = after.1 {
            assert(scan.len() > 0);
            assert forall|k: int| 0 <= k < before.1.push(scan).len() implies #[trigger] before.1.push(scan)[k].len() > 0 by {
                if k < before.1.len() {
                    assert(before.1[k].len() > 0);
                }
            }
        }
    }
}

pub open spec fn not_inert(t: TriggerMode) -> spec_fn(KeyMessage) -> bool {
    |m: KeyMessage| m != inert_key(t)
}

/// The inert trigger key never flushes nor clears: a stream with every inert
/// trigger taken out leaves the same pending characters and completes the
/// same scans.
pub proof fn lemma_inert_trigger_ignored(t: TriggerMode, pending: Seq<char>, msgs: Seq<KeyMessage>)
    ensures
        run(t, pending, msgs) == run(t, pending, msgs.filter(not_inert(t))),
    decreases msgs.len(),
{
    reveal(Seq::filter);
    if msgs.len() > 0 {
        lemma_inert_trigger_ignored(t, pending, msgs.drop_last());
        let kept = msgs.filter(not_inert(t));
        if not_inert(t)(msgs.last()) {
            assert(kept == msgs.drop_last().filter(not_inert(t)).push(msgs.last()));
            assert(kept.drop_last() =~= msgs.drop_last().filter(not_inert(t)));
        } else {
            assert(kept == msgs.drop_last().filter(not_inert(t)));
        }
    }
}

} // verus!
