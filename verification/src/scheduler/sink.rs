//! The sink that takes proactive messages, and the record of what it was asked.
use vstd::prelude::*;

use crate::scheduler::worker::{ScheduledMessage, ScheduledMessageView};
use crate::text::{compact, compact_of, lemma_compact_is_stable};

verus! {

#[derive(Clone, Copy, Debug, PartialEq, Eq, Structural)]
pub enum EnqueueDisposition {
    Created,
    AlreadyPresent,
}

/// Why a sink took no message. Its text is trimmed and has at most 1024 characters.
#[derive(Debug, PartialEq, Eq)]
pub struct SchedulerSinkError {
    message: String,
}

impl SchedulerSinkError {
    pub closed spec fn text(self) -> Seq<char> {
        self.message@
    }

    #[verifier::type_invariant]
    closed spec fn compacted(self) -> bool {
        compact_of(self.message@, 1024) == self.message@
    }

    pub fn new(message: &str) -> (r: Self)
        ensures
            r.text() == compact_of(message@, 1024),
    {
        proof {
            lemma_compact_is_stable(message@, 1024);
        }
        SchedulerSinkError { message: compact(message, 1_024) }
    }

    /// Compacting the text once more changes nothing.
    pub fn to_string(&self) -> (r: String)
        ensures
            r@ == self.text(),
            compact_of(self.text(), 1024) == self.text(),
    {
        proof {
            use_type_invariant(self);
        }
        self.message.clone()
    }
}

impl Clone for SchedulerSinkError {
    fn clone(&self) -> (r: Self)
        ensures
            r.text() == self.text(),
    {
        proof {
            use_type_invariant(self);
        }
        SchedulerSinkError { message: self.message.clone() }
    }
}

/// Takes proactive messages, for instance into a mailbox.
pub trait ProactiveSink {
    fn enqueue(&self, message: &ScheduledMessage) -> Result<EnqueueDisposition, SchedulerSinkError>;
}

/// A sink, and every message it was asked about since it was taken over. [`AskedSink::ask`] is
/// the one way to reach the sink.
pub struct AskedSink<S> {
    sink: S,
    asked: Ghost<Seq<ScheduledMessageView>>,
}

impl<S> AskedSink<S> {
    pub closed spec fn inner(self) -> S {
        self.sink
    }

    pub closed spec fn asked(self) -> Seq<ScheduledMessageView> {
        self.asked@
    }
}

impl<S: ProactiveSink> AskedSink<S> {
    pub fn new(sink: S) -> (r: Self)
        ensures
            r.inner() == sink,
            r.asked() == Seq::<ScheduledMessageView>::empty(),
    {
        AskedSink { sink, asked: Ghost(Seq::empty()) }
    }

    /// Asks the sink to take one message.
    pub fn ask(&mut self, message: &ScheduledMessage) -> (r: Result<
        EnqueueDisposition,
        SchedulerSinkError,
    >)
        ensures
            final(self).inner() == old(self).inner(),
            final(self).asked() == old(self).asked().push(message@),
            call_ensures(S::enqueue, (&old(self).inner(), message), r),
    {
        let answer = self.sink.enqueue(message);
        proof {
            self.asked@ = self.asked@.push(message@);
        }
        answer
    }
}

} // verus!
