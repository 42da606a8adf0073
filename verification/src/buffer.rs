use vstd::prelude::*;

verus! {

/// A growable byte queue that framed readers and writers keep their pending bytes in.
pub trait Buffer: Sized + View<V = Seq<u8>> {
    /// An empty buffer that can hold `capacity` bytes before it reallocates.
    fn with_capacity(capacity: usize) -> (buf: Self)
        ensures
            buf@ == Seq::<u8>::empty(),
    ;

    /// Appends the bytes of `src` at the back.
    fn extend_from_slice(&mut self, src: &[u8])
        ensures
            final(self)@ == old(self)@ + src@,
    ;

    /// Whether the buffer holds no byte.
    fn is_empty(&self) -> (empty: bool)
        ensures
            empty == (self@.len() == 0),
    ;

    /// Drops the first `cnt` bytes.
    fn advance(&mut self, cnt: usize)
        requires
            cnt <= old(self)@.len(),
        ensures
            final(self)@ == old(self)@.skip(cnt as int),
    ;

    /// The number of bytes held.
    fn len(&self) -> (n: usize)
        ensures
            n == self@.len(),
    ;

    /// The bytes held, front first.
    fn as_slice(&self) -> (bytes: &[u8])
        ensures
            bytes@ == self@,
    ;
}

impl Buffer for Vec<u8> {
    fn with_capacity(capacity: usize) -> (buf: Self) {
        Vec::with_capacity(capacity)
    }

    fn extend_from_slice(&mut self, src: &[u8]) {
        Vec::extend_from_slice(self, src);
        assert(final(self)@ =~= old(self)@ + src@);
    }

    fn is_empty(&self) -> (empty: bool) {
        Vec::is_empty(self)
    }

    fn advance(&mut self, cnt: usize) {
        let rest = self.split_off(cnt);
        *self = rest;
    }

    fn len(&self) -> (n: usize) {
        Vec::len(self)
    }

    fn as_slice(&self) -> (bytes: &[u8]) {
        Vec::as_slice(self)
    }
}

} // verus!

verus! {

/// `after` holds `before` at its front, with possibly more bytes behind.
pub open spec fn appended(before: Seq<u8>, after: Seq<u8>) -> bool {
    before.len() <= after.len() && after.take(before.len() as int) == before
}

/// A writer took the first `k` bytes of `buffered`, for some `k`: they moved to the
/// back of `accepted`, the bytes the writer has taken so far, and the rest stayed
/// buffered, in order.
pub open spec fn handed_over(
    accepted: Seq<u8>,
    buffered: Seq<u8>,
    accepted_after: Seq<u8>,
    buffered_after: Seq<u8>,
) -> bool {
    exists|k: int|
        0 <= k <= buffered.len() && accepted_after == accepted + buffered.take(k) && buffered_after
            == buffered.skip(k)
}

} // verus!

verus! {

/// No byte is lost, added or reordered when a writer takes bytes from a buffer: the
/// bytes taken so far followed by the bytes still buffered stay the same.
pub proof fn law_hand_over_keeps_bytes(
    accepted: Seq<u8>,
    buffered: Seq<u8>,
    accepted_after: Seq<u8>,
    buffered_after: Seq<u8>,
)
    requires
        handed_over(accepted, buffered, accepted_after, buffered_after),
    ensures
        accepted_after + buffered_after == accepted + buffered,
        accepted_after.len() >= accepted.len(),
        accepted_after.take(accepted.len() as int) == accepted,
{
    let k = choose|k: int|
        0 <= k <= buffered.len() && accepted_after == accepted + buffered.take(k) && buffered_after
            == buffered.skip(k);
    assert(accepted_after + buffered_after =~= accepted + buffered);
    assert(accepted_after.take(accepted.len() as int) =~= accepted);
}

/// Successive hand-overs compose: over two rounds of writes, the writer takes a
/// prefix of what was buffered at the start, in order.
pub proof fn law_hand_over_composes(
    accepted0: Seq<u8>,
    buffered0: Seq<u8>,
    accepted1: Seq<u8>,
    buffered1: Seq<u8>,
    accepted2: Seq<u8>,
    buffered2: Seq<u8>,
)
    requires
        handed_over(accepted0, buffered0, accepted1, buffered1),
        handed_over(accepted1, buffered1, accepted2, buffered2),
    ensures
        handed_over(accepted0, buffered0, accepted2, buffered2),
{
    let k1 = choose|k: int|
        0 <= k <= buffered0.len() && accepted1 == accepted0 + buffered0.take(k) && buffered1
            == buffered0.skip(k);
    let k2 = choose|k: int|
        0 <= k <= buffered1.len() && accepted2 == accepted1 + buffered1.take(k) && buffered2
            == buffered1.skip(k);
    assert(accepted2 =~= accepted0 + buffered0.take(k1 + k2));
    assert(buffered2 =~= buffered0.skip(k1 + k2));
}

} // verus!
