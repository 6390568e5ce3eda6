//! The part of a stream that is kept.
use vstd::prelude::*;
use vstd::utf8::{decode_utf8, valid_utf8};

use crate::text::{lossy_text, utf8_lossy, utf8_text};

verus! {

/// The first `limit` bytes of what a stream has given so far.
pub open spec fn kept(stream: Seq<u8>, limit: nat) -> Seq<u8> {
    if stream.len() <= limit {
        stream
    } else {
        stream.take(limit as int)
    }
}

/// What is kept of a stream, and whether anything was dropped.
#[derive(Debug)]
pub struct BoundedOutput {
    bytes: Vec<u8>,
    truncated: bool,
    limit: usize,
}

impl BoundedOutput {
    pub closed spec fn spec_bytes(self) -> Seq<u8> {
        self.bytes@
    }

    pub closed spec fn spec_truncated(self) -> bool {
        self.truncated
    }

    pub closed spec fn spec_limit(self) -> nat {
        self.limit as nat
    }

    /// This is what is kept of `stream`.
    pub open spec fn holds(self, stream: Seq<u8>) -> bool {
        &&& self.spec_bytes() == kept(stream, self.spec_limit())
        &&& self.spec_truncated() == (stream.len() > self.spec_limit())
    }

    pub fn new(limit: usize) -> (r: Self)
        ensures
            r.spec_limit() == limit,
            r.holds(Seq::empty()),
            r.spec_bytes().len() == 0,
            !r.spec_truncated(),
    {
        let r = BoundedOutput { bytes: Vec::new(), truncated: false, limit };
        assert(r.spec_bytes() =~= Seq::<u8>::empty());
        r
    }

    /// Takes in the next bytes of the stream. What is kept depends on the whole stream, and
    /// not on how it was parted.
    pub fn feed(&mut self, chunk: &[u8])
        ensures
            final(self).spec_limit() == old(self).spec_limit(),
            forall|stream: Seq<u8>|
                #![trigger old(self).holds(stream)]
                old(self).holds(stream) ==> final(self).holds(stream + chunk@),
    {
        let ghost before = *self;
        let remaining: usize = if self.limit > self.bytes.len() {
            self.limit - self.bytes.len()
        } else {
            0
        };
        let count: usize = chunk.len();
        let taken: usize = if count < remaining {
            count
        } else {
            remaining
        };
        let mut i: usize = 0;
        while i < taken
            invariant
                i <= taken <= chunk@.len(),
                self.bytes@ == before.bytes@ + chunk@.take(i as int),
                self.limit == before.limit,
                self.truncated == before.truncated,
            decreases taken - i,
        {
            self.bytes.push(chunk[i]);
            assert(before.bytes@ + chunk@.take(i + 1) =~= (before.bytes@ + chunk@.take(
                i as int,
            )).push(chunk@[i as int]));
            i += 1;
        }
        if count > remaining {
            self.truncated = true;
        }
        assert forall|stream: Seq<u8>| #[trigger] before.holds(stream) implies self.holds(
            stream + chunk@,
        ) by {
            assert(self.bytes@ =~= kept(stream + chunk@, self.limit as nat));
        }
    }

    pub fn truncated(&self) -> (r: bool)
        ensures
            r == self.spec_truncated(),
    {
        self.truncated
    }

    /// What was kept, if it is UTF-8.
    pub fn utf8(&self) -> (r: Option<String>)
        ensures
            r is Some == valid_utf8(self.spec_bytes()),
            r is Some ==> r->0@ == decode_utf8(self.spec_bytes()),
    {
        match utf8_text(self.bytes.clone()) {
            Ok(text) => Some(text),
            Err(_) => None,
        }
    }

    /// The text of what was kept.
    pub fn text(&self) -> (r: String)
        ensures
            r@ == lossy_text(self.spec_bytes()),
    {
        utf8_lossy(&self.bytes)
    }
}

/// What is kept is the start of the stream: all of it where it fits, and as much as fits where it
/// does not. Something was dropped if and only if the stream is longer than what is kept.
pub proof fn lemma_start_of_the_stream_is_kept(output: BoundedOutput, stream: Seq<u8>)
    requires
        output.holds(stream),
    ensures
        output.spec_bytes().is_prefix_of(stream),
        output.spec_bytes().len() <= output.spec_limit(),
        output.spec_truncated() <==> output.spec_bytes().len() < stream.len(),
        output.spec_truncated() ==> output.spec_bytes().len() == output.spec_limit(),
        !output.spec_truncated() ==> output.spec_bytes() == stream,
{
    assert(output.spec_bytes() =~= stream.subrange(0, output.spec_bytes().len() as int));
}

/// What a stream is cut into makes no difference: whatever was kept of what came before, what is
/// kept then is the start of all that came.
pub proof fn lemma_streams_are_kept_as_a_whole(
    output: &mut BoundedOutput,
    before: Seq<u8>,
    chunk: &[u8],
)
    requires
        call_ensures(BoundedOutput::feed, (output, chunk), ()),
        old(output).holds(before),
    ensures
        final(output).spec_limit() == old(output).spec_limit(),
        final(output).spec_bytes().is_prefix_of(before + chunk@),
        before.len() + chunk@.len() <= old(output).spec_limit() ==> final(output).spec_bytes()
            == before + chunk@ && !final(output).spec_truncated(),
        before.len() + chunk@.len() > old(output).spec_limit() ==> final(output).spec_bytes().len()
            == old(output).spec_limit() && final(output).spec_truncated(),
{
    assert(final(output).holds(before + chunk@));
    lemma_start_of_the_stream_is_kept(*final(output), before + chunk@);
}

} // verus!
