//! The multipart message: an ordered sequence of opaque byte frames.
//!
//! Frame order is significant and is preserved end-to-end; a message with no
//! frames is valid and doubles as the "nothing in flight" state of the write
//! side, which consumes a message by removing sent frames from the front.

use vstd::prelude::*;

verus! {

/// A multipart message, viewed in specifications as the sequence of its
/// frames' byte sequences.
pub struct ZmqMessage {
    frames: Vec<Vec<u8>>,
}

impl View for ZmqMessage {
    type V = Seq<Seq<u8>>;

    closed spec fn view(&self) -> Seq<Seq<u8>> {
        self.frames@.map_values(|f: Vec<u8>| f@)
    }
}

impl ZmqMessage {
    /// A message with no frames.
    pub fn empty() -> (m: Self)
        ensures
            m@ =~= Seq::<Seq<u8>>::empty(),
    {
        ZmqMessage { frames: Vec::new() }
    }

    /// A message holding the one given frame.
    pub fn new(part: Vec<u8>) -> (m: Self)
        ensures
            m@ =~= seq![part@],
    {
        let mut frames: Vec<Vec<u8>> = Vec::new();
        frames.push(part);
        ZmqMessage { frames }
    }

    /// Appends one frame at the back.
    pub fn push(&mut self, part: Vec<u8>)
        ensures
            final(self)@ =~= old(self)@.push(part@),
    {
        self.frames.push(part);
    }

    /// The number of frames.
    pub fn len(&self) -> (n: usize)
        ensures
            n == self@.len(),
    {
        self.frames.len()
    }

    /// Whether the message holds no frames.
    pub fn is_empty(&self) -> (b: bool)
        ensures
            b == (self@.len() == 0),
    {
        self.frames.len() == 0
    }

    /// The frame at the given position.
    pub fn frame(&self, i: usize) -> (f: &Vec<u8>)
        requires
            i < self@.len(),
        ensures
            f@ == self@[i as int],
    {
        &self.frames[i]
    }

    /// Removes and returns the first frame; the write side calls this after
    /// the frame was handed to the transport.
    pub fn pop_front(&mut self) -> (f: Vec<u8>)
        requires
            old(self)@.len() > 0,
        ensures
            f@ == old(self)@[0],
            final(self)@ =~= old(self)@.drop_first(),
    {
        self.frames.remove(0)
    }

    /// A frame-for-frame copy of the message.
    pub fn duplicate(&self) -> (m: Self)
        ensures
            m@ =~= self@,
    {
        let mut frames: Vec<Vec<u8>> = Vec::new();
        let mut i: usize = 0;
        while i < self.frames.len()
            invariant
                i <= self.frames.len(),
                frames@.len() == i,
                forall|k: int| 0 <= k < i ==> #[trigger] frames@[k]@ == self.frames@[k]@,
            decreases self.frames.len() - i,
        {
            let mut part: Vec<u8> = Vec::new();
            let mut j: usize = 0;
            while j < self.frames[i].len()
                invariant
                    i < self.frames@.len(),
                    j <= self.frames[i as int]@.len(),
                    part@ =~= self.frames[i as int]@.take(j as int),
                decreases self.frames[i as int]@.len() - j,
            {
                part.push(self.frames[i][j]);
                j = j + 1;
            }
            assert(part@ =~= self.frames[i as int]@);
            frames.push(part);
            i = i + 1;
        }
        let m = ZmqMessage { frames };
        assert(m@ =~= self@);
        m
    }
}

/// A byte-for-byte copy of one frame.
pub fn clone_frame(part: &Vec<u8>) -> (r: Vec<u8>)
    ensures
        r@ =~= part@,
{
    let mut r: Vec<u8> = Vec::new();
    let mut j: usize = 0;
    while j < part.len()
        invariant
            j <= part@.len(),
            r@ =~= part@.take(j as int),
        decreases part@.len() - j,
    {
        r.push(part[j]);
        j = j + 1;
    }
    r
}

impl Default for ZmqMessage {
    /// Same as `empty`: a message with no frames.
    fn default() -> (m: Self)
        ensures
            m@ =~= Seq::<Seq<u8>>::empty(),
    {
        ZmqMessage { frames: Vec::new() }
    }
}

} // verus!
