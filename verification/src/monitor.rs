//! Supervision of the external compiler's combined output stream: a
//! byte-wise sliding-window detector for one known diagnostic signature,
//! wrapping a pass-through forwarder that preserves incremental output.
//!
//! The detector is a pure transform over a byte stream; it can be driven by
//! synthetic streams without spawning a process.

use vstd::prelude::*;

verus! {

/// The known diagnostic byte signature denoting a missing required
/// entry-point attribute: the bytes of `error[E0601]`.
pub open spec fn spec_signature() -> Seq<u8> {
    seq![101u8, 114u8, 114u8, 111u8, 114u8, 91u8, 69u8, 48u8, 54u8, 48u8, 49u8, 93u8]
}

/// Whether the stream ends with the diagnostic signature.
pub open spec fn spec_ends_with_signature(s: Seq<u8>) -> bool {
    s.len() >= 12 && s.skip(s.len() - 12) == spec_signature()
}

/// Whether the stream contains the diagnostic signature anywhere.
pub open spec fn spec_contains_signature(s: Seq<u8>) -> bool {
    exists|i: int| 0 <= i <= s.len() - 12 && #[trigger] s.subrange(i, i + 12) == spec_signature()
}

/// Extending a stream by one byte finds the signature exactly where the
/// old stream contained it, or ending at the new byte.
pub proof fn lemma_contains_signature_push(s: Seq<u8>, b: u8)
    ensures
        spec_contains_signature(s.push(b)) == (spec_contains_signature(s)
            || spec_ends_with_signature(s.push(b))),
{
    let t = s.push(b);
    if spec_contains_signature(s) {
        let i = choose|i: int| 0 <= i <= s.len() - 12 && #[trigger] s.subrange(i, i + 12) == spec_signature();
        assert(t.subrange(i, i + 12) =~= s.subrange(i, i + 12));
        assert(spec_contains_signature(t));
    }
    if spec_ends_with_signature(t) {
        let i = t.len() - 12;
        assert(t.subrange(i, i + 12) =~= t.skip(i));
        assert(spec_contains_signature(t));
    }
    if spec_contains_signature(t) {
        let i = choose|i: int| 0 <= i <= t.len() - 12 && #[trigger] t.subrange(i, i + 12) == spec_signature();
        if i + 12 <= s.len() {
            assert(s.subrange(i, i + 12) =~= t.subrange(i, i + 12));
            assert(spec_contains_signature(s));
        } else {
            assert(i == t.len() - 12);
            assert(t.skip(i) =~= t.subrange(i, i + 12));
            assert(spec_ends_with_signature(t));
        }
    }
}

/// The bytes of the diagnostic signature.
fn signature() -> (r: Vec<u8>)
    ensures
        r@ == spec_signature(),
{
    let mut v: Vec<u8> = Vec::new();
    v.push(101);
    v.push(114);
    v.push(114);
    v.push(111);
    v.push(114);
    v.push(91);
    v.push(69);
    v.push(48);
    v.push(54);
    v.push(48);
    v.push(49);
    v.push(93);
    proof {
        assert(v@ =~= spec_signature());
    }
    v
}

/// Byte-wise equality of two byte vectors.
#[verifier::loop_isolation(false)]
fn bytes_eq(a: &Vec<u8>, b: &Vec<u8>) -> (r: bool)
    ensures
        r == (a@ == b@),
{
    if a.len() != b.len() {
        proof {
            assert(a@ != b@);
        }
        return false;
    }
    let mut i: usize = 0;
    while i < a.len()
        invariant
            0 <= i <= a@.len(),
            a@.len() == b@.len(),
            forall|k: int| 0 <= k < i ==> a@[k] == b@[k],
        decreases a@.len() - i,
    {
        if a[i] != b[i] {
            return false;
        }
        i = i + 1;
    }
    proof {
        assert(a@ =~= b@);
    }
    true
}

/// The sliding-window scanner over the compiler's combined output stream.
///
/// Bytes are pushed one at a time; once the window is full, each push
/// forwards the oldest byte so interactive output keeps flowing. After each
/// push the window is compared byte-exactly with the signature; a match
/// latches.
pub struct ScanState {
    window: Vec<u8>,
    matched: bool,
    history: Ghost<Seq<u8>>,
    relayed: Ghost<Seq<u8>>,
}

impl ScanState {
    /// Every byte ever pushed, in order.
    pub closed spec fn spec_history(self) -> Seq<u8> {
        self.history@
    }

    /// Every byte forwarded to the user-facing stream so far, in order.
    pub closed spec fn spec_relayed(self) -> Seq<u8> {
        self.relayed@
    }

    /// Whether the signature has been seen.
    pub closed spec fn spec_matched(self) -> bool {
        self.matched
    }

    /// Well-formedness: the window holds exactly the unforwarded tail of
    /// the stream — its last twelve bytes at most — and the match flag is
    /// set exactly when the stream so far contains the signature.
    pub closed spec fn wf(self) -> bool {
        &&& self.window@ == self.history@.skip(
            if self.history@.len() >= 12 {
                self.history@.len() - 12
            } else {
                0
            },
        )
        &&& self.relayed@ + self.window@ == self.history@
        &&& self.matched == spec_contains_signature(self.history@)
    }

    /// A scanner that has seen nothing.
    pub fn new() -> (r: ScanState)
        ensures
            r.wf(),
            r.spec_history() == Seq::<u8>::empty(),
            r.spec_relayed() == Seq::<u8>::empty(),
            !r.spec_matched(),
    {
        let r = ScanState {
            window: Vec::new(),
            matched: false,
            history: Ghost(Seq::empty()),
            relayed: Ghost(Seq::empty()),
        };
        proof {
            assert(r.window@ =~= r.history@.skip(0));
            assert(r.relayed@ + r.window@ =~= r.history@);
            assert(!spec_contains_signature(r.history@));
        }
        r
    }

    /// Whether the signature has been detected in the stream so far.
    pub fn matched(&self) -> (r: bool)
        ensures
            r == self.spec_matched(),
    {
        self.matched
    }

    /// Pushes one byte of the stream into the window. If the window was
    /// full, the oldest byte leaves it and is returned for forwarding.
    pub fn push_byte(&mut self, b: u8) -> (forwarded: Option<u8>)
        requires
            old(self).wf(),
        ensures
            final(self).wf(),
            final(self).spec_history() == old(self).spec_history().push(b),
            final(self).spec_matched() == (old(self).spec_matched() || spec_ends_with_signature(
                final(self).spec_history(),
            )),
            match forwarded {
                Some(x) => final(self).spec_relayed() == old(self).spec_relayed().push(x),
                None => final(self).spec_relayed() == old(self).spec_relayed(),
            },
    {
        let ghost oldh = self.history@;
        proof {
            self.history@ = self.history@.push(b);
        }
        self.window.push(b);
        let forwarded: Option<u8> = if self.window.len() > 12 {
            let x = self.window.remove(0);
            proof {
                self.relayed@ = self.relayed@.push(x);
            }
            Some(x)
        } else {
            None
        };
        proof {
            let newh = self.history@;
            assert(self.window@ =~= newh.skip(
                if newh.len() >= 12 {
                    newh.len() - 12
                } else {
                    0
                },
            ));
            assert(self.relayed@ + self.window@ =~= newh);
            lemma_contains_signature_push(oldh, b);
        }
        if !self.matched && self.window.len() == 12 {
            let sig = signature();
            if bytes_eq(&self.window, &sig) {
                self.matched = true;
            }
        }
        proof {
            let newh = self.history@;
            if newh.len() >= 12 {
                assert(self.window@ == newh.skip(newh.len() - 12));
            } else {
                assert(self.window@.len() < 12);
                assert(!spec_ends_with_signature(newh));
            }
        }
        forwarded
    }

    /// Pushes a whole chunk, returning the bytes forwarded while it was
    /// consumed. Chunk boundaries carry no meaning: only the total stream
    /// decides whether the signature matches.
    #[verifier::loop_isolation(false)]
    pub fn push_chunk(&mut self, chunk: &Vec<u8>) -> (forwarded: Vec<u8>)
        requires
            old(self).wf(),
        ensures
            final(self).wf(),
            final(self).spec_history() == old(self).spec_history() + chunk@,
            final(self).spec_relayed() == old(self).spec_relayed() + forwarded@,
    {
        let mut out: Vec<u8> = Vec::new();
        let mut i: usize = 0;
        proof {
            assert(self.spec_history() =~= old(self).spec_history() + chunk@.take(0));
            assert(self.spec_relayed() =~= old(self).spec_relayed() + out@);
        }
        while i < chunk.len()
            invariant
                0 <= i <= chunk@.len(),
                self.wf(),
                self.spec_history() == old(self).spec_history() + chunk@.take(i as int),
                self.spec_relayed() == old(self).spec_relayed() + out@,
            decreases chunk@.len() - i,
        {
            let b = chunk[i];
            match self.push_byte(b) {
                Some(x) => {
                    out.push(x);
                },
                None => {},
            }
            i = i + 1;
            proof {
                assert(self.spec_history() =~= old(self).spec_history() + chunk@.take(i as int));
                assert(self.spec_relayed() =~= old(self).spec_relayed() + out@);
            }
        }
        proof {
            assert(chunk@.take(chunk@.len() as int) =~= chunk@);
        }
        out
    }

    /// End of stream: hands back the window's remaining bytes so the
    /// caller can flush them; together with everything forwarded they are
    /// exactly the whole stream.
    pub fn finish(self) -> (rest: Vec<u8>)
        requires
            self.wf(),
        ensures
            self.spec_relayed() + rest@ == self.spec_history(),
    {
        self.window
    }
}

/// The detector is exact: a well-formed scanner has matched exactly when
/// the bytes seen so far — however they were split across reads — contain
/// the diagnostic signature; a stream that nowhere holds the exact twelve
/// bytes never matches.
pub proof fn lemma_monitor_exact(st: ScanState)
    requires
        st.wf(),
    ensures
        st.spec_matched() == spec_contains_signature(st.spec_history()),
{
}

} // verus!
