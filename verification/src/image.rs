//! Channels and images: the raw, format-agnostic storage.
//!
//! A [`Channel`] is a buffer of samples for one color component. An
//! [`Image`] is an ordered group of channels which are all meant to have the
//! same length.

use std::fmt::Debug;
use vstd::prelude::*;

verus! {

/// A buffer of samples for one color component, together with the value that
/// fills slots created by growth.
#[derive(Debug)]
pub struct Channel<T: Clone + Debug> {
    data: Vec<T>,
    default: T,
}

impl<T: Clone + Debug> View for Channel<T> {
    type V = Seq<T>;

    /// The samples, in index order.
    closed spec fn view(&self) -> Seq<T> {
        self.data@
    }
}

impl<T: Clone + Debug> Channel<T> {
    /// The value whose clones fill newly created slots.
    pub closed spec fn fill(&self) -> T {
        self.default
    }

    /// The channel has `len` samples, each a clone of `default`, and `default`
    /// is its fill value.
    pub open spec fn is_filled_with(&self, default: T, len: nat) -> bool {
        &&& self@.len() == len
        &&& self.fill() == default
        &&& forall|i: int| 0 <= i < len ==> cloned(default, #[trigger] self@[i])
    }

    /// `self` is what resizing `before` to `new_len` may produce: the common
    /// prefix is kept as it was, and every slot past the old end holds a clone
    /// of the fill value, which itself is carried over.
    pub open spec fn is_resize_of(&self, before: &Channel<T>, new_len: nat) -> bool {
        &&& self@.len() == new_len
        &&& self.fill() == before.fill()
        &&& forall|i: int| 0 <= i < new_len && i < before@.len() ==> self@[i] == before@[i]
        &&& forall|i: int| before@.len() <= i < new_len ==> cloned(before.fill(), #[trigger] self@[i])
    }

    /// Creates a channel of `x` clones of `default`.
    pub fn new(default: T, x: usize) -> (c: Channel<T>)
        ensures
            c@.len() == x,
            c.is_filled_with(default, x as nat),
    {
        let mut c = Channel { data: Vec::new(), default };
        c._resize(x);
        c
    }

    /// The number of samples in this channel.
    pub fn len(&self) -> (n: usize)
        ensures
            n == self@.len(),
    {
        self.data.len()
    }

    /// Replaces the sample at index `i` with `data`.
    pub fn write(&mut self, i: usize, data: T)
        requires
            i < old(self)@.len(),
        ensures
            final(self)@ == old(self)@.update(i as int, data),
            final(self)@.len() == old(self)@.len(),
            final(self)@[i as int] == data,
            forall|j: int|
                0 <= j < old(self)@.len() && j != i ==> final(self)@[j] == old(self)@[j],
            final(self).fill() == old(self).fill(),
    {
        self.data[i] = data;
    }

    /// The sample at index `i`, if there is one.
    pub fn get(&self, i: usize) -> (r: Option<&T>)
        ensures
            r == (if i < self@.len() { Some(&self@[i as int]) } else { None }),
    {
        if i < self.data.len() {
            Some(&self.data[i])
        } else {
            None
        }
    }

    /// Mutable access to the sample at index `i`, if there is one.
    pub fn get_mut(&mut self, i: usize) -> (r: Option<&mut T>)
        ensures
            i >= old(self)@.len() ==> r is None && *final(self) == *old(self),
            i < old(self)@.len() ==> r is Some && *r.unwrap() == old(self)@[i as int]
                && final(self)@ == old(self)@.update(i as int, *final(r.unwrap()))
                && final(self).fill() == old(self).fill(),
        no_unwind
    {
        if i < self.data.len() {
            Some(&mut self.data[i])
        } else {
            None
        }
    }

    /// A clone of the sample at index `i`, if there is one.
    pub fn get_clone(&self, i: usize) -> (r: Option<T>)
        ensures
            i >= self@.len() ==> r is None,
            i < self@.len() ==> r is Some && cloned(self@[i as int], r.unwrap()),
    {
        match self.get(i) {
            Some(sample) => Some(sample.clone()),
            None => None,
        }
    }

    /// The number of samples this channel holds, which is its length.
    pub fn capacity(&self) -> (n: usize)
        ensures
            n == self@.len(),
    {
        self.len()
    }

    /// An iterator over the samples of this channel, in index order.
    pub fn iter(&self) -> (it: ChannelIterator<'_, T>)
        ensures
            it.channel() == self,
            it.position() == 0,
    {
        ChannelIterator { chan: self, at: 0 }
    }

    /// Resizes the channel to `new_len` samples and returns it.
    pub fn resize(self, new_len: usize) -> (c: Channel<T>)
        ensures
            c@.len() == new_len,
            c.is_resize_of(&self, new_len as nat),
    {
        let mut c = self;
        c._resize(new_len);
        c
    }

    /// Resizes the channel in place: a longer channel is cut after `new_len`
    /// samples, a shorter one is filled up with clones of the fill value.
    fn _resize(&mut self, new_len: usize)
        ensures
            final(self).is_resize_of(old(self), new_len as nat),
    {
        self.data.truncate(new_len);
        while self.data.len() < new_len
            invariant
                self.default == old(self).default,
                self.data@.len() <= new_len,
                self.data@.len() == new_len || old(self).data@.len() <= self.data@.len(),
                forall|i: int| 0 <= i < self.data@.len() && i < old(self).data@.len()
                    ==> self.data@[i] == old(self).data@[i],
                forall|i: int| old(self).data@.len() <= i < self.data@.len()
                    ==> cloned(old(self).default, #[trigger] self.data@[i]),
            decreases new_len - self.data@.len(),
        {
            let sample = self.default.clone();
            self.data.push(sample);
        }
    }
}

impl<T: Clone + Debug> Channel<T> {
    /// A new channel that is resized is what a new channel of that length
    /// is: it has the new length and holds clones of the default throughout.
    pub proof fn lemma_resize_new(&self, resized: &Channel<T>, default: T, len: nat, new_len: nat)
        requires
            self.is_filled_with(default, len),
            resized.is_resize_of(self, new_len),
        ensures
            resized@.len() == new_len,
            resized.is_filled_with(default, new_len),
    {
    }

    /// Resizing twice to one length is resizing once: the second resize
    /// changes neither a sample nor the fill value.
    pub proof fn lemma_resize_idempotent(&self, once: &Channel<T>, twice: &Channel<T>, len: nat)
        requires
            once.is_resize_of(self, len),
            twice.is_resize_of(once, len),
        ensures
            twice@ == once@,
            twice.fill() == once.fill(),
    {
        assert(twice@ =~= once@);
    }

    /// Of two resizes in a row, only the samples below both lengths survive;
    /// every other slot holds a clone of the fill value that the channel had
    /// from the start. So growing after shrinking brings back nothing of what
    /// was cut off.
    pub proof fn lemma_resize_twice(
        &self,
        first: &Channel<T>,
        second: &Channel<T>,
        first_len: nat,
        second_len: nat,
    )
        requires
            first.is_resize_of(self, first_len),
            second.is_resize_of(first, second_len),
        ensures
            second@.len() == second_len,
            second.fill() == self.fill(),
            forall|i: int|
                0 <= i < self@.len() && i < first_len && i < second_len ==> second@[i] == self@[i],
            forall|i: int|
                0 <= i < second_len && (self@.len() <= i || first_len <= i) ==> cloned(
                    self.fill(),
                    #[trigger] second@[i],
                ),
    {
    }
}

impl<T: Clone + Debug> Clone for Channel<T> {
    /// A channel of the same length, whose samples and fill value are clones
    /// of those of `self`.
    fn clone(&self) -> (c: Self)
        ensures
            c@.len() == self@.len(),
            forall|i: int| 0 <= i < self@.len() ==> cloned(self@[i], #[trigger] c@[i]),
            cloned(self.fill(), c.fill()),
    {
        Channel { data: self.data.clone(), default: self.default.clone() }
    }
}

impl<T: Clone + Debug> std::ops::Index<usize> for Channel<T> {
    type Output = T;

    fn index(&self, i: usize) -> (r: &T)
        ensures
            *r == self@[i as int],
    {
        &self.data[i]
    }
}

impl<T: Clone + Debug> vstd::std_specs::core::IndexSpecImpl<usize> for Channel<T> {
    open spec fn index_req(&self, index: &usize) -> bool {
        *index < self@.len()
    }
}

/// Walks over the samples of a channel, front to back.
pub struct ChannelIterator<'a, T: Clone + Debug> {
    chan: &'a Channel<T>,
    at: usize,
}

impl<'a, T: Clone + Debug> ChannelIterator<'a, T> {
    /// The channel that is walked over.
    pub closed spec fn channel(&self) -> &'a Channel<T> {
        self.chan
    }

    /// The index of the sample that `next` returns.
    pub closed spec fn position(&self) -> nat {
        self.at as nat
    }

    /// The next sample, or `None` once the end of the channel is reached.
    pub fn next(&mut self) -> (r: Option<&'a T>)
        ensures
            final(self).channel() == old(self).channel(),
            old(self).position() < old(self).channel()@.len() ==> {
                &&& r == Some(&old(self).channel()@[old(self).position() as int])
                &&& final(self).position() == old(self).position() + 1
            },
            old(self).position() >= old(self).channel()@.len() ==> {
                &&& r is None
                &&& final(self).position() == old(self).position()
            },
    {
        if self.at < self.chan.len() {
            let i = self.at;
            self.at = self.at + 1;
            self.chan.get(i)
        } else {
            None
        }
    }

    /// The bounds on the number of samples: both are the channel's length.
    pub fn size_hint(&self) -> (r: (usize, Option<usize>))
        ensures
            r.0 == self.channel()@.len(),
            r.1 == Some(r.0),
    {
        (self.chan.len(), Some(self.chan.len()))
    }
}

/// An ordered group of channels, with the length that each of them is meant
/// to have.
#[derive(Debug)]
pub struct Image<T: Clone + Debug> {
    channels: Vec<Channel<T>>,
    len: usize,
}

impl<T: Clone + Debug> Image<T> {
    /// The channels, in the order of their creation.
    pub closed spec fn channels(&self) -> Seq<Channel<T>> {
        self.channels@
    }

    /// The length that every channel of this image is meant to have.
    pub closed spec fn spec_len(&self) -> usize {
        self.len
    }

    /// Every channel has exactly the length of the image.
    pub open spec fn wf(&self) -> bool {
        forall|i: int|
            0 <= i < self.channels().len() ==> (#[trigger] self.channels()[i])@.len()
                == self.spec_len()
    }

    /// Creates an image of the given length that has no channels yet.
    pub fn new(len: usize) -> (img: Image<T>)
        ensures
            img.channels() == Seq::<Channel<T>>::empty(),
            img.spec_len() == len,
            img.wf(),
    {
        Image { channels: Vec::new(), len }
    }

    /// Appends a channel that is as long as the image and holds clones of
    /// `default`.
    pub fn create_channel(&mut self, default: T)
        ensures
            final(self).spec_len() == old(self).spec_len(),
            final(self).channels().len() == old(self).channels().len() + 1,
            final(self).channels().drop_last() == old(self).channels(),
            final(self).channels().last().is_filled_with(default, old(self).spec_len() as nat),
            old(self).wf() ==> final(self).wf(),
    {
        let channel = Channel::new(default, self.len);
        self.channels.push(channel);
        assert(self.channels@.drop_last() =~= old(self).channels@);
    }

    /// The channel at index `i`, if there is one.
    pub fn channel(&self, i: usize) -> (r: Option<&Channel<T>>)
        ensures
            r == (if i < self.channels().len() {
                Some(&self.channels()[i as int])
            } else {
                None
            }),
    {
        if i < self.channels.len() {
            Some(&self.channels[i])
        } else {
            None
        }
    }

    /// Mutable access to the channel at index `i`, if there is one.
    ///
    /// The image stays well-formed as long as the channel keeps its length.
    pub fn channel_mut(&mut self, i: usize) -> (r: Option<&mut Channel<T>>)
        ensures
            final(self).spec_len() == old(self).spec_len(),
            i >= old(self).channels().len() ==> r is None && final(self).channels() == old(
                self,
            ).channels(),
            i < old(self).channels().len() ==> r is Some && *r.unwrap() == old(self).channels()[i as int]
                && final(self).channels() == old(self).channels().update(
                i as int,
                *final(r.unwrap()),
            ),
        no_unwind
    {
        if i < self.channels.len() {
            Some(&mut self.channels[i])
        } else {
            None
        }
    }

    /// The number of channels.
    pub fn count(&self) -> (n: usize)
        ensures
            n == self.channels().len(),
    {
        self.channels.len()
    }

    /// The length of the image, which is meant to be the length of each channel.
    #[verifier::when_used_as_spec(spec_len)]
    pub fn len(&self) -> (n: usize)
        ensures
            n == self.spec_len(),
    {
        self.len
    }

    /// Resizes the image, and with it every channel, to `new_len`.
    pub fn resize(&mut self, new_len: usize)
        ensures
            final(self).spec_len() == new_len,
            final(self).channels().len() == old(self).channels().len(),
            forall|i: int|
                0 <= i < old(self).channels().len() ==> (#[trigger] final(self).channels()[i]).is_resize_of(
                    &old(self).channels()[i],
                    new_len as nat,
                ),
            final(self).wf(),
    {
        self.len = new_len;
        let n = self.channels.len();
        let mut k: usize = 0;
        while k < n
            invariant
                k <= n,
                n == self.channels@.len(),
                n == old(self).channels@.len(),
                self.len == new_len,
                forall|i: int|
                    0 <= i < k ==> (#[trigger] self.channels@[i]).is_resize_of(
                        &old(self).channels@[i],
                        new_len as nat,
                    ),
                forall|i: int| k <= i < n ==> self.channels@[i] == old(self).channels@[i],
            decreases n - k,
        {
            self.channels[k]._resize(new_len);
            k = k + 1;
        }
    }
}

impl<T: Clone + Debug> Image<T> {
    /// An image stays well-formed when one of its channels is replaced by a
    /// channel of the same length, as happens when samples are written
    /// through `channel_mut`.
    pub proof fn lemma_same_length_keeps_wf(&self, after: &Image<T>, i: int, channel: Channel<T>)
        requires
            self.wf(),
            0 <= i < self.channels().len(),
            channel@.len() == self.channels()[i]@.len(),
            after.spec_len() == self.spec_len(),
            after.channels() == self.channels().update(i, channel),
        ensures
            after.wf(),
    {
        assert forall|k: int| 0 <= k < after.channels().len() implies (
        #[trigger] after.channels()[k])@.len() == after.spec_len() by {
            assert(self.channels()[k]@.len() == self.spec_len());
        }
    }
}

impl<T: Clone + Debug> Clone for Image<T> {
    /// An image of the same length, with a clone of each channel.
    fn clone(&self) -> (img: Self)
        ensures
            img.spec_len() == self.spec_len(),
            img.channels().len() == self.channels().len(),
            forall|i: int|
                0 <= i < self.channels().len() ==> cloned(
                    self.channels()[i],
                    #[trigger] img.channels()[i],
                ),
            forall|i: int|
                0 <= i < self.channels().len() ==> (#[trigger] img.channels()[i])@.len()
                    == self.channels()[i]@.len(),
            self.wf() ==> img.wf(),
    {
        let channels = self.channels.clone();
        Image { channels, len: self.len }
    }
}

impl<T: Clone + Debug> std::ops::Index<usize> for Image<T> {
    type Output = Channel<T>;

    fn index(&self, i: usize) -> (r: &Channel<T>)
        ensures
            *r == self.channels()[i as int],
    {
        &self.channels[i]
    }
}

impl<T: Clone + Debug> vstd::std_specs::core::IndexSpecImpl<usize> for Image<T> {
    open spec fn index_req(&self, index: &usize) -> bool {
        *index < self.channels().len()
    }
}

} // verus!
