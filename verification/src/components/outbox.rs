//! Messages on their way to the session.
use vstd::prelude::*;
use vstd::string::*;

use crate::seqs;

verus! {

/// Messages that are sent one by one, each as its own turn, until one fails.
pub struct Outbox {
    texts: Vec<String>,
    sent: usize,
    failed: bool,
}

/// What became of the messages so far.
#[verifier::ext_equal]
pub struct OutboxView {
    pub texts: Seq<Seq<char>>,
    pub sent: nat,
    pub failed: bool,
}

impl View for Outbox {
    type V = OutboxView;

    closed spec fn view(&self) -> OutboxView {
        OutboxView { texts: seqs::views(self.texts@), sent: self.sent as nat, failed: self.failed }
    }
}

impl OutboxView {
    /// Whether no more were sent than there are.
    pub open spec fn wf(self) -> bool {
        self.sent <= self.texts.len() && (self.failed ==> self.sent < self.texts.len())
    }

    /// The message to send next.
    pub open spec fn next(self) -> Option<Seq<char>> {
        if self.failed || self.sent >= self.texts.len() {
            None
        } else {
            Some(self.texts[self.sent as int])
        }
    }

    /// The messages after an attempt to send the next one.
    pub open spec fn reported(self, ok: bool) -> OutboxView {
        if self.next() is None {
            self
        } else if ok {
            OutboxView { sent: self.sent + 1, ..self }
        } else {
            OutboxView { failed: true, ..self }
        }
    }

    /// The messages that were not sent: the first failed one and everything
    /// after it.
    pub open spec fn remaining(self) -> Seq<Seq<char>> {
        self.texts.skip(self.sent as int)
    }
}

/// Messages of which none was tried yet.
pub open spec fn unsent(texts: Seq<Seq<char>>) -> OutboxView {
    OutboxView { texts, sent: 0, failed: false }
}

/// The messages after attempts with the given outcomes.
pub open spec fn after_attempts(texts: Seq<Seq<char>>, oks: Seq<bool>) -> OutboxView
    decreases oks.len(),
{
    if oks.len() == 0 {
        unsent(texts)
    } else {
        after_attempts(texts, oks.drop_last()).reported(oks.last())
    }
}

impl Outbox {
    /// Starts to send messages.
    pub fn new(texts: Vec<String>) -> (o: Self)
        ensures
            o@ == unsent(seqs::views(texts@)),
            o@.wf(),
    {
        Outbox { texts, sent: 0, failed: false }
    }

    /// The message to send next; none once all are sent or one has failed.
    pub fn next_text(&self) -> (t: Option<&str>)
        requires
            self@.wf(),
        ensures
            match t {
                Some(t) => self@.next() == Some(t@),
                None => self@.next() is None,
            },
    {
        if self.failed || self.sent >= self.texts.len() {
            None
        } else {
            Some(self.texts[self.sent].as_str())
        }
    }

    /// Notes whether the next message was sent.
    pub fn report(&mut self, ok: bool)
        requires
            old(self)@.wf(),
        ensures
            final(self)@ == old(self)@.reported(ok),
            final(self)@.wf(),
    {
        if self.failed || self.sent >= self.texts.len() {
            return ;
        }
        if ok {
            self.sent = self.sent + 1;
        } else {
            self.failed = true;
        }
    }

    /// How many messages were sent.
    pub fn sent(&self) -> (n: usize)
        ensures
            n == self@.sent,
    {
        self.sent
    }

    /// Message `i`.
    pub fn text(&self, i: usize) -> (t: &str)
        requires
            i < self@.texts.len(),
        ensures
            t@ == self@.texts[i as int],
    {
        self.texts[i].as_str()
    }

    /// The messages that were not sent: the first failed one and everything
    /// after it.
    pub fn remaining(&self) -> (out: Vec<String>)
        requires
            self@.wf(),
        ensures
            seqs::views(out@) == self@.remaining(),
    {
        let ghost all = self@.remaining();
        let mut out: Vec<String> = Vec::new();
        let mut i: usize = self.sent;
        assert(seqs::views(out@) =~= all.take(0));
        while i < self.texts.len()
            invariant
                self.sent <= i <= self.texts@.len(),
                all == self@.remaining(),
                seqs::views(out@) == all.take(i - self.sent),
            decreases self.texts.len() - i,
        {
            proof {
                let k = i - self.sent;
                assert(all.take(k + 1) =~= all.take(k).push(all[k]));
                broadcast use crate::seqs::views_push;
            }
            out.push(self.texts[i].clone());
            i += 1;
        }
        assert(all.take(all.len() as int) =~= all);
        out
    }
}

/// The messages that were sent and those that were not are all the messages, in
/// their order; where every attempt succeeds, each attempt sends one more.
pub proof fn sending_keeps_the_order(texts: Seq<Seq<char>>, oks: Seq<bool>)
    ensures
        ({
            let o = after_attempts(texts, oks);
            &&& o.wf() && o.texts == texts
            &&& texts.take(o.sent as int) + o.remaining() == texts
            &&& (forall|i: int| 0 <= i < oks.len() ==> oks[i]) && oks.len() <= texts.len()
                ==> o.sent == oks.len()
        }),
    decreases oks.len(),
{
    let o = after_attempts(texts, oks);
    if oks.len() > 0 {
        sending_keeps_the_order(texts, oks.drop_last());
        if forall|i: int| 0 <= i < oks.len() ==> oks[i] {
            assert forall|i: int| 0 <= i < oks.drop_last().len() implies oks.drop_last()[i] by {
                assert(oks[i]);
            }
            assert(oks[oks.len() - 1]);
            lemma_no_failure(texts, oks.drop_last());
        }
    }
    assert(texts.take(o.sent as int) + o.remaining() =~= texts);
}

proof fn lemma_no_failure(texts: Seq<Seq<char>>, oks: Seq<bool>)
    requires
        forall|i: int| 0 <= i < oks.len() ==> oks[i],
    ensures
        !after_attempts(texts, oks).failed,
    decreases oks.len(),
{
    if oks.len() > 0 {
        assert forall|i: int| 0 <= i < oks.drop_last().len() implies oks.drop_last()[i] by {
            assert(oks[i]);
        }
        lemma_no_failure(texts, oks.drop_last());
        assert(oks[oks.len() - 1]);
    }
}

} // verus!
