use vstd::prelude::*;

verus! {

/// A fixed 256-byte opaque message payload. It is both the verification input
/// and the deduplication key; two messages are equal iff all 256 bytes match.
#[derive(Clone, Copy, Debug)]
pub struct Message([u8; 256]);

impl View for Message {
    type V = Seq<u8>;

    closed spec fn view(&self) -> Seq<u8> {
        self.0@
    }
}

impl Message {
    /// Wraps 256 raw bytes as a message.
    pub fn new(bytes: [u8; 256]) -> (r: Message)
        ensures
            r@ == bytes@,
    {
        Message(bytes)
    }

    /// The raw 256 bytes of the message.
    pub fn bytes(&self) -> (r: &[u8; 256])
        ensures
            r@ == self@,
    {
        &self.0
    }
}

impl PartialEq for Message {
    fn eq(&self, other: &Self) -> (r: bool) {
        let mut i: usize = 0;
        while i < 256
            invariant
                0 <= i <= 256,
                forall|j: int| 0 <= j < i ==> self.0@[j] == other.0@[j],
            decreases 256 - i,
        {
            if self.0[i] != other.0[i] {
                return false;
            }
            i += 1;
        }
        proof {
            assert(self@ =~= other@);
        }
        true
    }
}

impl Eq for Message {}

impl vstd::std_specs::cmp::PartialEqSpecImpl for Message {
    open spec fn obeys_eq_spec() -> bool {
        true
    }

    open spec fn eq_spec(&self, other: &Self) -> bool {
        self@ == other@
    }
}

/// The set of messages that have been verified. A message enters the set upon
/// its first successful verification and is never removed: "already verified"
/// is terminal. Failed attempts leave the registry untouched.
pub struct MessageRegistry {
    entries: Vec<Message>,
}

impl View for MessageRegistry {
    type V = Set<Seq<u8>>;

    closed spec fn view(&self) -> Set<Seq<u8>> {
        Set::new(
            |m: Seq<u8>|
                exists|i: int| 0 <= i < self.entries@.len() && self.entries@[i]@ == m,
        )
    }
}

impl MessageRegistry {
    /// An empty registry: no message is verified.
    pub fn new() -> (r: MessageRegistry)
        ensures
            r@ == Set::<Seq<u8>>::empty(),
    {
        let r = MessageRegistry { entries: Vec::new() };
        proof {
            assert(r@ =~= Set::<Seq<u8>>::empty());
        }
        r
    }

    /// Pure lookup: whether this exact message has been verified; absence
    /// means it has not.
    pub fn is_verified(&self, message: &Message) -> (r: bool)
        ensures
            r == self@.contains(message@),
    {
        let n = self.entries.len();
        let mut i: usize = 0;
        while i < n
            invariant
                0 <= i <= n,
                n == self.entries@.len(),
                forall|j: int| 0 <= j < i ==> self.entries@[j]@ != message@,
            decreases n - i,
        {
            if self.entries[i] == *message {
                proof {
                    assert(0 <= i < self.entries@.len() && self.entries@[i as int]@
                        == message@);
                }
                return true;
            }
            i += 1;
        }
        false
    }

    /// Records this message as verified. The caller must have checked
    /// `is_verified` first: this primitive does not re-check, so the
    /// at-most-once guarantee is the caller's protocol.
    pub fn mark_verified(&mut self, message: Message)
        requires
            !old(self)@.contains(message@),
        ensures
            final(self)@ == old(self)@.insert(message@),
    {
        self.entries.push(message);
        proof {
            let pre = old(self).entries@;
            let post = self.entries@;
            assert(self@ =~= old(self)@.insert(message@)) by {
                assert forall|m: Seq<u8>| self@.contains(m) implies old(self)@.insert(
                    message@,
                ).contains(m) by {
                    let i = choose|i: int| 0 <= i < post.len() && post[i]@ == m;
                    if i < pre.len() {
                        assert(0 <= i < pre.len() && pre[i]@ == m);
                    } else {
                        assert(post[i] == message);
                    }
                }
                assert forall|m: Seq<u8>|
                    old(self)@.insert(message@).contains(m) implies self@.contains(m) by {
                    if m == message@ {
                        assert(0 <= pre.len() < post.len() && post[pre.len() as int]@ == m);
                    } else {
                        let i = choose|i: int| 0 <= i < pre.len() && pre[i]@ == m;
                        assert(0 <= i < post.len() && post[i]@ == m);
                    }
                }
            }
        }
    }
}

} // verus!
