//! Some terminals have no bracketed paste: a paste arrives as a burst of
//! individual key events, one Enter per newline, so a multi-line paste would
//! submit once per line. When a key event has more events already queued behind
//! it, the run of printable keys is coalesced back into a single paste.
use vstd::prelude::*;
use vstd::string::*;

use super::model_picker;
use super::model_picker::typing_char;
use crate::keys::{KeyCode, KeyEvent, KeyEventKind, TermEvent};
use crate::text;

verus! {

/// Grace period for straggler events once a burst is underway, in milliseconds,
/// so a paste split across console writes still coalesces into one event.
pub const BURST_CONTINUE_TIMEOUT: u64 = 3;

/// What a run of key events was.
#[derive(Debug)]
pub enum Burst {
    Key(KeyEvent),
    Paste(String),
}

/// What a run of key events was.
pub enum BurstView {
    Key(KeyEvent),
    Paste(Seq<char>),
}

impl View for Burst {
    type V = BurstView;

    open spec fn view(&self) -> BurstView {
        match self {
            Burst::Key(key) => BurstView::Key(*key),
            Burst::Paste(t) => BurstView::Paste(t@),
        }
    }
}

/// The character that a key adds to a burst.
pub open spec fn pasted_char(key: KeyEvent) -> Option<char> {
    match key.code {
        KeyCode::Char(_) => model_picker::types(key),
        KeyCode::Enter => if key.modifiers.is_empty() {
            Some('\n')
        } else {
            None
        },
        KeyCode::Tab => if key.modifiers.is_empty() {
            Some('\t')
        } else {
            None
        },
        _ => None,
    }
}

/// The character that a key adds to a burst.
pub fn burst_char(key: &KeyEvent) -> (c: Option<char>)
    ensures
        c == pasted_char(*key),
{
    match key.code {
        KeyCode::Char(_) => typing_char(key),
        KeyCode::Enter => if key.modifiers.is_empty() {
            Some('\n')
        } else {
            None
        },
        KeyCode::Tab => if key.modifiers.is_empty() {
            Some('\t')
        } else {
            None
        },
        _ => None,
    }
}

/// A burst that is being read.
pub struct Coalescer {
    first: KeyEvent,
    text: String,
    many: bool,
}

/// What was read of a burst.
#[verifier::ext_equal]
pub struct CoalescerView {
    pub first: KeyEvent,
    pub text: Seq<char>,
}

impl View for Coalescer {
    type V = CoalescerView;

    closed spec fn view(&self) -> CoalescerView {
        CoalescerView { first: self.first, text: self.text@ }
    }
}

impl CoalescerView {
    /// How long to wait for the next event, in milliseconds.
    pub open spec fn wait(self) -> u64 {
        if self.text.len() > 1 {
            BURST_CONTINUE_TIMEOUT
        } else {
            0
        }
    }

    /// The burst with another event read: a typed character joins it, a key that
    /// went up or is held is dropped, and anything else ends it.
    pub open spec fn taken(self, ev: TermEvent) -> CoalescerView {
        match ev {
            TermEvent::Key(key) => match pasted_char(key) {
                Some(c) => if key.kind is Press {
                    CoalescerView { text: self.text.push(c), ..self }
                } else {
                    self
                },
                None => self,
            },
            _ => self,
        }
    }

    /// Whether an event ends the burst.
    pub open spec fn ends(self, ev: TermEvent) -> bool {
        match ev {
            TermEvent::Key(key) => key.kind is Press && pasted_char(key) is None,
            _ => true,
        }
    }

    /// What the burst was.
    pub open spec fn burst(self) -> BurstView {
        if self.text.len() > 1 {
            BurstView::Paste(self.text)
        } else {
            BurstView::Key(self.first)
        }
    }
}

/// What was read of a burst after a run of events that do not end it.
pub open spec fn read_all(start: CoalescerView, evs: Seq<TermEvent>) -> CoalescerView
    decreases evs.len(),
{
    if evs.len() == 0 {
        start
    } else {
        read_all(start, evs.drop_last()).taken(evs.last())
    }
}

/// A burst only grows: what was read of it stays its start.
pub proof fn bursts_grow(start: CoalescerView, evs: Seq<TermEvent>)
    ensures
        start.text.is_prefix_of(read_all(start, evs).text),
        read_all(start, evs).first == start.first,
    decreases evs.len(),
{
    if evs.len() > 0 {
        bursts_grow(start, evs.drop_last());
        let before = read_all(start, evs.drop_last()).text;
        let after = read_all(start, evs).text;
        assert(start.text =~= before.subrange(0, start.text.len() as int));
        assert(start.text =~= after.subrange(0, start.text.len() as int));
    } else {
        assert(start.text =~= start.text.subrange(0, start.text.len() as int));
    }
}

impl Coalescer {
    /// Whether the burst holds at least its first character.
    pub closed spec fn wf(&self) -> bool {
        self.text@.len() >= 1 && self.many == (self.text@.len() > 1)
    }

    /// Starts to read a burst at a key; none starts at a key that types
    /// nothing.
    pub fn start(first: KeyEvent) -> (c: Option<Self>)
        ensures
            match c {
                Some(c) => c.wf() && pasted_char(first) is Some && c@ == (CoalescerView {
                    first,
                    text: seq![pasted_char(first)->0],
                }),
                None => pasted_char(first) is None,
            },
    {
        match burst_char(&first) {
            Some(ch) => {
                let mut t = String::new();
                t.push(ch);
                assert(t@ =~= seq![ch]);
                Some(Coalescer { first, text: t, many: false })
            },
            None => None,
        }
    }

    /// How long to wait for the next event, in milliseconds: only once the
    /// burst is underway.
    pub fn timeout(&self) -> (ms: u64)
        requires
            self.wf(),
        ensures
            ms == self@.wait(),
    {
        if self.many {
            BURST_CONTINUE_TIMEOUT
        } else {
            0
        }
    }

    /// Reads the next event. An event that ends the burst is handed back.
    pub fn take(&mut self, ev: TermEvent) -> (trailing: Option<TermEvent>)
        requires
            old(self).wf(),
        ensures
            final(self).wf(),
            final(self)@ == old(self)@.taken(ev),
            old(self)@.ends(ev) ==> trailing == Some(ev),
            !old(self)@.ends(ev) ==> trailing is None,
    {
        match ev {
            TermEvent::Key(key) => {
                match key.kind {
                    KeyEventKind::Press => {},
                    _ => {
                        return None;
                    },
                }
                match burst_char(&key) {
                    Some(ch) => {
                        self.text.push(ch);
                        self.many = true;
                        None
                    },
                    None => Some(TermEvent::Key(key)),
                }
            },
            other => Some(other),
        }
    }

    /// What the burst was: a paste, or the single key it started with.
    pub fn finish(self) -> (burst: Burst)
        requires
            self.wf(),
        ensures
            burst@ == self@.burst(),
    {
        if self.many {
            Burst::Paste(self.text)
        } else {
            Burst::Key(self.first)
        }
    }
}

/// Whether events are key presses that each type a character.
pub open spec fn types_all(evs: Seq<TermEvent>) -> bool {
    forall|i: int|
        0 <= i < evs.len() ==> (#[trigger] evs[i] matches TermEvent::Key(key) && key.kind is Press
            && pasted_char(key) is Some)
}

/// The character that an event types.
pub open spec fn typed_by(ev: TermEvent) -> char {
    match ev {
        TermEvent::Key(key) => pasted_char(key)->0,
        _ => ' ',
    }
}

/// A burst holds every character that was typed, in order; one that is a single
/// character is the key itself, and more are a paste of all of them.
pub proof fn bursts_hold_what_was_typed(start: CoalescerView, evs: Seq<TermEvent>)
    requires
        types_all(evs),
    ensures
        read_all(start, evs).text == start.text + Seq::new(evs.len(), |i: int| typed_by(evs[i])),
        start.text.len() == 1 && evs.len() == 0 ==> read_all(start, evs).burst() == BurstView::Key(
            start.first,
        ),
        start.text.len() == 1 && evs.len() > 0 ==> read_all(start, evs).burst()
            == BurstView::Paste(start.text + Seq::new(evs.len(), |i: int| typed_by(evs[i]))),
    decreases evs.len(),
{
    let typed = Seq::new(evs.len(), |i: int| typed_by(evs[i]));
    if evs.len() == 0 {
        assert(start.text + typed =~= start.text);
    } else {
        let rest = evs.drop_last();
        assert forall|i: int| 0 <= i < rest.len() implies (
        #[trigger] rest[i] matches TermEvent::Key(key) && key.kind is Press && pasted_char(
            key,
        ) is Some) by {
            assert(rest[i] == evs[i]);
        }
        bursts_hold_what_was_typed(start, rest);
        assert(evs.last() == evs[evs.len() - 1]);
        let before = Seq::new(rest.len(), |i: int| typed_by(rest[i]));
        assert(start.text + typed =~= (start.text + before).push(typed_by(evs.last())));
    }
}

/// A key that goes up or is held adds nothing to a burst and does not end it; a
/// key that types nothing ends it, and so does anything that is no key.
pub proof fn only_presses_count(v: CoalescerView, key: KeyEvent)
    ensures
        !(key.kind is Press) ==> v.taken(TermEvent::Key(key)) == v && !v.ends(TermEvent::Key(key)),
        key.kind is Press ==> (v.ends(TermEvent::Key(key)) <==> pasted_char(key) is None),
        v.ends(TermEvent::Key(key)) ==> v.taken(TermEvent::Key(key)) == v,
{
}

/// A single key waits for nothing; once a character followed it at once, each more
/// is waited for a little.
pub proof fn only_bursts_wait(start: CoalescerView, key: KeyEvent)
    requires
        start.text.len() == 1,
        key.kind is Press,
        pasted_char(key) is Some,
    ensures
        start.wait() == 0,
        start.taken(TermEvent::Key(key)).wait() > 0,
        start.taken(TermEvent::Key(key)).burst() is Paste,
        start.burst() is Key,
{
}

} // verus!
