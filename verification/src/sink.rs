use vstd::prelude::*;
use vstd::std_specs::iter::IteratorSpec;

verus! {

/// An `IterSink` is a value into which other values can be sent.
///
/// Values are sent in two phases: first by internally buffering the value,
/// and then actually writing the value upon flushing.
pub trait IterSink<Item> {
    /// The type of value produced by the sink when an error occurs.
    type Error;

    /// Whether `ready` may return `r` and leave the sink as `after`.
    /// A sink that says nothing more allows any outcome.
    open spec fn readies(&self, r: Result<(), Self::Error>, after: Self) -> bool where Self: Sized {
        true
    }

    /// Whether `start_send(item)` may return `r` and leave the sink as `after`.
    /// A sink that says nothing more allows any outcome.
    open spec fn sends(&self, item: Item, r: Result<(), Self::Error>, after: Self) -> bool where
        Self: Sized,
     {
        true
    }

    /// Whether `flush` may return `r` and leave the sink as `after`.
    /// A sink that says nothing more allows any outcome.
    open spec fn flushes(&self, r: Result<(), Self::Error>, after: Self) -> bool where Self: Sized {
        true
    }

    /// Attempts to prepare the `IterSink` to receive a value, adjusting the internal
    /// buffer if necessary.
    ///
    /// This method must be called prior to each call to `start_send`.
    fn ready(&mut self) -> (r: Result<(), Self::Error>) where Self: Sized
        ensures
            old(self).readies(r, *final(self)),
    ;

    /// Write a value to the internal buffer.
    /// Each call to this function must be preceded by a successful call to `ready`.
    fn start_send(&mut self, item: Item) -> (r: Result<(), Self::Error>) where Self: Sized
        ensures
            old(self).sends(item, r, *final(self)),
    ;

    /// Flush any remaining output from this sink's internal buffer.
    fn flush(&mut self) -> (r: Result<(), Self::Error>) where Self: Sized
        ensures
            old(self).flushes(r, *final(self)),
    ;
}

/// `r` and `after` are what sending `items` into `sink` and then flushing it can end
/// in: for each item in turn, an error item is returned at once; otherwise the sink is
/// made ready and the item is sent, and the first error of either is returned; once
/// every item is sent, the outcome is that of the flush.
pub open spec fn sends_all<Item, S: IterSink<Item>>(
    sink: S,
    items: Seq<Result<Item, S::Error>>,
    r: Result<(), S::Error>,
    after: S,
) -> bool
    decreases items.len(),
{
    if items.len() == 0 {
        sink.flushes(r, after)
    } else {
        match items[0] {
            Err(e) => r == Err::<(), S::Error>(e) && after == sink,
            Ok(item) => exists|r1: Result<(), S::Error>, s1: S|
                #[trigger] sink.readies(r1, s1) && if r1 is Err {
                    r == r1 && after == s1
                } else {
                    exists|r2: Result<(), S::Error>, s2: S|
                        #[trigger] s1.sends(item, r2, s2) && if r2 is Err {
                            r == r2 && after == s2
                        } else {
                            sends_all(s2, items.skip(1), r, after)
                        }
                },
        }
    }
}

/// An extension trait for `IterSink`s that provides a few convenient functions.
pub trait IterSinkExt<Item>: IterSink<Item> {
    /// Fully processes an item into the sink, including flushing.
    ///
    /// Note that, because of the flushing requirement, it is usually better to batch
    /// together items to send via send_all, rather than flushing between each item.
    fn send(&mut self, item: Item) -> (r: Result<(), Self::Error>) where Self: Sized
        ensures
            sends_all(*old(self), seq![Ok::<Item, Self::Error>(item)], r, *final(self)),
    {
        let ghost s0 = *self;
        let ghost items = seq![Ok::<Item, Self::Error>(item)];
        assert(items.skip(1) =~= Seq::<Result<Item, Self::Error>>::empty());
        assert(items[0]->Ok_0 == item);
        let ready = self.ready();
        let ghost s1 = *self;
        match ready {
            Ok(()) => {},
            Err(e) => {
                assert(s0.readies(ready, s1));
                return Err(e);
            },
        }
        let sent = self.start_send(item);
        let ghost s2 = *self;
        match sent {
            Ok(()) => {},
            Err(e) => {
                assert(s0.readies(ready, s1));
                assert(s1.sends(item, sent, s2));
                return Err(e);
            },
        }
        let r = self.flush();
        assert(s0.readies(ready, s1));
        assert(s1.sends(item, sent, s2));
        assert(sends_all(s2, items.skip(1), r, *self));
        r
    }

    /// Fully processes the iterator of items into the sink, including flushing.
    ///
    /// This drives the iterator to keep producing items until it is exhausted, sending
    /// each item to the sink. It completes once both the input iterator is exhausted,
    /// and the sink has received and flushed all items.
    fn send_all<I: Iterator<Item = Result<Item, Self::Error>>>(&mut self, items: I) -> (r: Result<
        (),
        Self::Error,
    >) where Self: Sized
        requires
            items.obeys_prophetic_iter_laws(),
            items.decrease() is Some,
        ensures
            sends_all(*old(self), items.remaining(), r, *final(self)),
            r is Ok ==> forall|i: int|
                0 <= i < items.remaining().len() ==> #[trigger] items.remaining()[i] is Ok,
    {
        let ghost all = items.remaining();
        let ghost mut taken: int = 0;
        let mut iter = items;
        loop
            invariant
                iter.obeys_prophetic_iter_laws(),
                iter.decrease() is Some,
                0 <= taken <= all.len(),
                iter.remaining() == all.skip(taken),
                all == items.remaining(),
                forall|i: int| 0 <= i < taken ==> #[trigger] all[i] is Ok,
                forall|r: Result<(), Self::Error>, fin: Self|
                    #[trigger] sends_all(*self, all.skip(taken), r, fin) ==> sends_all(
                        *old(self),
                        all,
                        r,
                        fin,
                    ),
            ensures
                forall|i: int| 0 <= i < all.len() ==> #[trigger] all[i] is Ok,
                taken == all.len(),
                forall|r: Result<(), Self::Error>, fin: Self|
                    #[trigger] sends_all(*self, all.skip(taken), r, fin) ==> sends_all(
                        *old(self),
                        all,
                        r,
                        fin,
                    ),
            decreases iter.decrease()->0,
        {
            let ghost cur = *self;
            let ghost rest = all.skip(taken);
            match iter.next() {
                None => break,
                Some(item) => {
                    let item = match item {
                        Ok(x) => x,
                        Err(e) => {
                            let r = Err(e);
                            assert(rest[0]->Err_0 == e);
                            assert(sends_all(cur, rest, r, cur));
                            return r;
                        },
                    };
                    proof {
                        assert(rest[0]->Ok_0 == item);
                        taken = taken + 1;
                    }
                    let ready = self.ready();
                    let ghost s1 = *self;
                    match ready {
                        Ok(()) => {},
                        Err(e) => {
                            assert(cur.readies(ready, s1));
                            assert(sends_all(cur, rest, ready, s1));
                            return Err(e);
                        },
                    }
                    let sent = self.start_send(item);
                    let ghost s2 = *self;
                    match sent {
                        Ok(()) => {},
                        Err(e) => {
                            assert(cur.readies(ready, s1));
                            assert(s1.sends(item, sent, s2));
                            assert(sends_all(cur, rest, sent, s2));
                            return Err(e);
                        },
                    }
                    proof {
                        assert(rest.skip(1) =~= all.skip(taken));
                        assert forall|r: Result<(), Self::Error>, fin: Self|
                            #[trigger] sends_all(s2, all.skip(taken), r, fin) implies sends_all(
                                *old(self),
                                all,
                                r,
                                fin,
                            ) by {
                            assert(cur.readies(ready, s1));
                            assert(s1.sends(item, sent, s2));
                            assert(sends_all(cur, rest, r, fin));
                        }
                    }
                },
            }
        }
        let ghost cur = *self;
        let r = self.flush();
        assert(all.skip(taken) =~= Seq::<Result<Item, Self::Error>>::empty());
        assert(sends_all(cur, all.skip(taken), r, *self));
        r
    }
}

impl<T: ?Sized, Item> IterSinkExt<Item> for T where T: IterSink<Item> {
}

} // verus!
