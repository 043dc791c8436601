use std::collections::VecDeque;
use vstd::prelude::*;

verus! {

/// A first-in first-out buffer that holds at most `capacity` values; pushing
/// into a full buffer evicts the oldest value.
pub struct RingBuffer<T> {
    data: VecDeque<T>,
    capacity: usize,
}

/// What a bounded FIFO holds after `val` is pushed onto `s` with room for `cap`
/// values: the oldest value leaves when the buffer is full.
pub open spec fn bounded_push<T>(s: Seq<T>, val: T, cap: nat) -> Seq<T> {
    if cap == 0 {
        s
    } else if s.len() >= cap {
        s.subrange(s.len() - cap + 1, s.len() as int).push(val)
    } else {
        s.push(val)
    }
}

impl<T: Copy> RingBuffer<T> {
    /// The values held, oldest first.
    pub closed spec fn view(&self) -> Seq<T> {
        self.data@
    }

    pub closed spec fn spec_capacity(&self) -> nat {
        self.capacity as nat
    }

    pub closed spec fn wf(&self) -> bool {
        self.data@.len() <= self.capacity
    }

    pub fn new(capacity: usize) -> (r: Self)
        ensures
            r.wf(),
            r.view() == Seq::<T>::empty(),
            r.spec_capacity() == capacity,
    {
        RingBuffer { data: VecDeque::with_capacity(capacity), capacity }
    }

    /// Appends `val`, dropping the oldest value when the buffer is full.
    pub fn add_value(&mut self, val: T)
        requires
            old(self).wf(),
        ensures
            final(self).wf(),
            final(self).spec_capacity() == old(self).spec_capacity(),
            final(self).view() == bounded_push(old(self).view(), val, old(self).spec_capacity()),
            final(self).view().len() <= final(self).spec_capacity(),
    {
        if self.capacity == 0 {
            return;
        }
        if self.data.len() >= self.capacity {
            self.data.pop_front();
        }
        self.data.push_back(val);
        assert(self.data@ =~= bounded_push(old(self).view(), val, old(self).spec_capacity()));
    }

    /// The values held, oldest first.
    pub fn get_as_vec(&self) -> (r: Vec<T>)
        ensures
            r@ == self.view(),
    {
        let mut out: Vec<T> = Vec::new();
        let n = self.data.len();
        let mut i: usize = 0;
        while i < n
            invariant
                n == self.data@.len(),
                i <= n,
                out@ == self.data@.subrange(0, i as int),
            decreases n - i,
        {
            out.push(self.data[i]);
            i = i + 1;
            assert(out@ =~= self.data@.subrange(0, i as int));
        }
        assert(out@ =~= self.data@);
        out
    }

    /// The newest value, if any.
    pub fn get_last_value(&self) -> (r: Option<T>)
        ensures
            self.view().len() == 0 ==> r.is_none(),
            self.view().len() > 0 ==> r == Some(self.view().last()),
    {
        let n = self.data.len();
        if n == 0 {
            None
        } else {
            Some(self.data[n - 1])
        }
    }

    pub fn is_full(&self) -> (r: bool)
        ensures
            r == (self.view().len() == self.spec_capacity()),
    {
        self.data.len() == self.capacity
    }

    /// Empties the buffer, keeping its capacity.
    pub fn clear(&mut self)
        requires
            old(self).wf(),
        ensures
            final(self).wf(),
            final(self).view() == Seq::<T>::empty(),
            final(self).spec_capacity() == old(self).spec_capacity(),
    {
        self.data.clear();
    }

    pub fn len(&self) -> (r: usize)
        ensures
            r == self.view().len(),
    {
        self.data.len()
    }

    pub fn capacity(&self) -> (r: usize)
        ensures
            r == self.spec_capacity(),
    {
        self.capacity
    }
}


/// The buffers a trailing indicator keeps: raw samples, processed values, and
/// the samples' timestamps.
pub struct BaseIndicator<T> {
    pub sampling_buffer: RingBuffer<T>,
    pub processing_buffer: RingBuffer<T>,
    pub time_buffer: RingBuffer<u64>,
}

impl<T: Copy> BaseIndicator<T> {
    pub fn new(sampling_length: usize, processing_length: usize) -> (r: Self)
        ensures
            r.sampling_buffer.wf() && r.processing_buffer.wf() && r.time_buffer.wf(),
            r.sampling_buffer.view().len() == 0,
            r.processing_buffer.view().len() == 0,
            r.time_buffer.view().len() == 0,
            r.sampling_buffer.spec_capacity() == sampling_length,
            r.processing_buffer.spec_capacity() == processing_length,
            r.time_buffer.spec_capacity() == sampling_length,
    {
        BaseIndicator {
            sampling_buffer: RingBuffer::new(sampling_length),
            processing_buffer: RingBuffer::new(processing_length),
            time_buffer: RingBuffer::new(sampling_length),
        }
    }

    pub fn is_sampling_buffer_full(&self) -> (r: bool)
        ensures
            r == (self.sampling_buffer.view().len() == self.sampling_buffer.spec_capacity()),
    {
        self.sampling_buffer.is_full()
    }
}

} // verus!
