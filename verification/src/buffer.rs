//! The fixed-capacity stack of segments a path is kept in.
//!
//! The storage is a `heapless::Vec`, which never allocates. Nothing is proved of the
//! storage itself: each function with a body that Verus does not read states what the
//! `heapless` source shows of the one method it calls, over [`stacked`], the sequence of
//! segments a buffer holds from bottom to top. [`PathBuf::segments`] is proved from
//! those statements.
use vstd::prelude::*;
use crate::path::Segment;

verus! {

/// Number of segments a buffer can hold.
pub const CAPACITY: usize = 16;

/// A stack of at most sixteen segments.
#[verifier::external_body]
#[derive(Debug, PartialEq)]
pub struct PathBuf {
    inner: heapless::Vec<Segment, heapless::consts::U16>,
}

/// The segments a buffer holds, oldest first.
pub uninterp spec fn stacked(buffer: PathBuf) -> Seq<Segment>;

impl View for PathBuf {
    type V = Seq<Segment>;

    open spec fn view(&self) -> Seq<Segment> {
        stacked(*self)
    }
}

impl Clone for PathBuf {
    /// `heapless::Vec::clone`: the copy holds clones of the same segments in the same
    /// order, and a segment is a plain copyable value.
    #[verifier::external_body]
    fn clone(&self) -> (copy: PathBuf)
        ensures
            stacked(copy) == stacked(*self),
    {
        PathBuf { inner: self.inner.clone() }
    }
}

impl PathBuf {
    /// `heapless::Vec::new`: the new vector has length zero.
    #[verifier::external_body]
    pub(crate) fn new() -> (buffer: PathBuf)
        ensures
            stacked(buffer) == Seq::<Segment>::empty(),
    {
        PathBuf { inner: heapless::Vec::new() }
    }

    /// The length of the slice a `heapless::Vec` dereferences to: the number of segments
    /// held, which `push` never lets pass the capacity.
    #[verifier::external_body]
    pub(crate) fn len(&self) -> (n: usize)
        ensures
            n == stacked(*self).len(),
            n <= CAPACITY,
    {
        self.inner.len()
    }

    /// `heapless::Vec::push`: below capacity the segment is written behind the last one
    /// and the call succeeds; at capacity the vector is left as it was and the segment is
    /// handed back as an error.
    #[verifier::external_body]
    pub(crate) fn push(&mut self, segment: Segment) -> (pushed: bool)
        ensures
            pushed == (stacked(*old(self)).len() < CAPACITY),
            pushed ==> stacked(*final(self)) == stacked(*old(self)).push(segment),
            !pushed ==> stacked(*final(self)) == stacked(*old(self)),
    {
        self.inner.push(segment).is_ok()
    }

    /// `last` on the slice a `heapless::Vec` dereferences to: the segment pushed most
    /// recently, or nothing when the vector is empty.
    #[verifier::external_body]
    pub(crate) fn last(&self) -> (top: Option<Segment>)
        ensures
            stacked(*self).len() == 0 ==> top.is_none(),
            stacked(*self).len() > 0 ==> top == Some(stacked(*self).last()),
    {
        self.inner.last().copied()
    }

    /// `heapless::Vec::pop`: removes the last segment and returns it, or returns nothing
    /// and changes nothing when the vector is empty.
    #[verifier::external_body]
    pub(crate) fn pop(&mut self) -> (top: Option<Segment>)
        ensures
            stacked(*old(self)).len() == 0 ==> top.is_none() && stacked(*final(self)) == stacked(
                *old(self),
            ),
            stacked(*old(self)).len() > 0 ==> top == Some(stacked(*old(self)).last()) && stacked(
                *final(self),
            ) == stacked(*old(self)).drop_last(),
    {
        self.inner.pop()
    }
}

impl PathBuf {
    /// Lists the segments held, oldest first, without changing the buffer.
    pub fn segments(&self) -> (list: Vec<Segment>)
        ensures
            list@ == self@,
    {
        let mut rest = self.clone();
        let mut taken: Vec<Segment> = Vec::new();
        let mut left: usize = rest.len();
        while left > 0
            invariant
                left == rest@.len(),
                taken@.len() + rest@.len() == self@.len(),
                rest@ == self@.take(rest@.len() as int),
                forall|i: int|
                    0 <= i < taken@.len() ==> taken@[i] == self@[self@.len() - 1 - i],
            decreases left,
        {
            match rest.pop() {
                Some(top) => {
                    taken.push(top);
                },
                None => {},
            }
            left = rest.len();
        }
        let mut list: Vec<Segment> = Vec::new();
        let mut i: usize = taken.len();
        while i > 0
            invariant
                i <= taken@.len(),
                taken@.len() == self@.len(),
                list@.len() == taken@.len() - i,
                forall|j: int| 0 <= j < taken@.len() ==> taken@[j] == self@[self@.len() - 1 - j],
                forall|j: int| 0 <= j < list@.len() ==> list@[j] == self@[j],
            decreases i,
        {
            i = i - 1;
            list.push(taken[i]);
        }
        proof {
            assert(list@ =~= self@);
        }
        list
    }
}

/// `typenum::Unsigned::to_usize` on the capacity type of the buffer, `U16`: sixteen.
#[verifier::external_body]
pub(crate) fn capacity() -> (n: usize)
    ensures
        n == CAPACITY,
{
    <heapless::consts::U16 as typenum::Unsigned>::to_usize()
}

} // verus!
