use vstd::prelude::*;

verus! {

/// The last `n` items of `s`, or all of `s` where it holds fewer.
pub open spec fn last_n<T>(s: Seq<T>, n: nat) -> Seq<T> {
    if s.len() <= n {
        s
    } else {
        s.subrange(s.len() - n, s.len() as int)
    }
}

/// `s` brought to length `n` by putting `zero` in front of it.
pub open spec fn padded<T>(s: Seq<T>, n: nat, zero: T) -> Seq<T> {
    Seq::new((n - s.len()) as nat, |i: int| zero) + s
}

/// Bounded store of the most recent samples of a stream: appending drops the
/// oldest samples beyond the capacity.
pub struct SampleBuffer<T> {
    samples: Vec<T>,
    buffer_size: usize,
}

impl<T> View for SampleBuffer<T> {
    type V = Seq<T>;

    /// The samples held, oldest first.
    closed spec fn view(&self) -> Seq<T> {
        self.samples@
    }
}

/// Keeps the last `amount` items of `buffer`: copies them to its front, then
/// cuts it to that length.
fn resize_buffer<T: Copy>(buffer: &mut Vec<T>, amount: usize)
    requires
        amount <= old(buffer).len(),
    ensures
        final(buffer)@ == old(buffer)@.subrange(old(buffer).len() - amount, old(buffer).len() as int),
{
    let len = buffer.len();
    let start = len - amount;
    let mut i: usize = 0;
    while i < amount
        invariant
            i <= amount,
            start + amount == len,
            buffer.len() == len,
            forall|j: int| 0 <= j < i ==> buffer@[j] == old(buffer)@[start + j],
            forall|j: int| i <= j < len ==> buffer@[j] == old(buffer)@[j],
        decreases amount - i,
    {
        let x = buffer[start + i];
        buffer.set(i, x);
        i += 1;
    }
    buffer.truncate(amount);
    assert(buffer@ =~= old(buffer)@.subrange(start as int, len as int));
}

impl<T: Copy> SampleBuffer<T> {
    /// The most samples the buffer keeps.
    pub closed spec fn capacity(&self) -> nat {
        self.buffer_size as nat
    }

    pub open spec fn wf(&self) -> bool {
        self@.len() <= self.capacity()
    }

    /// An empty buffer that keeps at most `buffer_size` samples.
    pub fn new(buffer_size: usize) -> (r: Self)
        ensures
            r.wf(),
            r@ == Seq::<T>::empty(),
            r.capacity() == buffer_size,
    {
        SampleBuffer { samples: Vec::with_capacity(buffer_size), buffer_size }
    }

    pub fn buffer_size(&self) -> (r: usize)
        ensures
            r == self.capacity(),
    {
        self.buffer_size
    }

    /// Appends a block of samples, then keeps only the most recent
    /// `buffer_size` of all that the buffer held.
    pub fn append(&mut self, data: &[T])
        requires
            old(self).wf(),
        ensures
            final(self).wf(),
            final(self).capacity() == old(self).capacity(),
            final(self)@ == last_n(old(self)@ + data@, old(self).capacity()),
    {
        let mut i: usize = 0;
        while i < data.len()
            invariant
                i <= data.len(),
                self.buffer_size == old(self).buffer_size,
                self.samples@ == old(self).samples@ + data@.subrange(0, i as int),
            decreases data.len() - i,
        {
            self.samples.push(data[i]);
            i += 1;
            assert(data@.subrange(0, i as int) =~= data@.subrange(0, i - 1) + seq![data@[i - 1]]);
        }
        assert(data@.subrange(0, data.len() as int) =~= data@);
        if self.samples.len() > self.buffer_size {
            resize_buffer(&mut self.samples, self.buffer_size);
        }
    }

    /// A copy of the samples held, oldest first.
    pub fn copy(&self) -> (r: Vec<T>)
        ensures
            r@ == self@,
    {
        let mut out: Vec<T> = Vec::with_capacity(self.samples.len());
        let mut j: usize = 0;
        while j < self.samples.len()
            invariant
                j <= self.samples.len(),
                out@ == self.samples@.subrange(0, j as int),
            decreases self.samples.len() - j,
        {
            out.push(self.samples[j]);
            j += 1;
            assert(self.samples@.subrange(0, j as int) =~= self.samples@.subrange(0, j - 1)
                + seq![self.samples@[j - 1]]);
        }
        assert(self.samples@.subrange(0, j as int) =~= self.samples@);
        out
    }

    /// A copy of the samples held, with zeros in front so that it has exactly
    /// `buffer_size` samples.
    pub fn snapshot(&self, zero: T) -> (r: Vec<T>)
        requires
            self.wf(),
        ensures
            r@ == padded(self@, self.capacity(), zero),
            r@.len() == self.capacity(),
    {
        pad_front(self.copy(), self.buffer_size, zero)
    }
}

/// `samples` with `zero` put in front of it up to length `size`.
pub fn pad_front<T: Copy>(samples: Vec<T>, size: usize, zero: T) -> (r: Vec<T>)
    requires
        samples@.len() <= size,
    ensures
        r@ == padded(samples@, size as nat, zero),
        r@.len() == size,
{
    let pad = size - samples.len();
    let mut out: Vec<T> = Vec::with_capacity(size);
    let mut i: usize = 0;
    while i < pad
        invariant
            i <= pad,
            out@ == Seq::new(i as nat, |k: int| zero),
        decreases pad - i,
    {
        out.push(zero);
        i += 1;
        assert(out@ =~= Seq::new(i as nat, |k: int| zero));
    }
    let mut j: usize = 0;
    while j < samples.len()
        invariant
            j <= samples.len(),
            pad + samples@.len() == size,
            out@ == Seq::new(pad as nat, |k: int| zero) + samples@.subrange(0, j as int),
        decreases samples.len() - j,
    {
        out.push(samples[j]);
        j += 1;
        assert(samples@.subrange(0, j as int) =~= samples@.subrange(0, j - 1) + seq![samples@[j - 1]]);
    }
    assert(samples@.subrange(0, j as int) =~= samples@);
    out
}

/// A snapshot of a buffer that has received nothing is `buffer_size` zeros.
pub proof fn lemma_fresh_snapshot_is_silence<T>(buffer_size: nat, zero: T)
    ensures
        padded(Seq::<T>::empty(), buffer_size, zero) == Seq::new(buffer_size, |i: int| zero),
{
    assert(padded(Seq::<T>::empty(), buffer_size, zero) =~= Seq::new(buffer_size, |i: int| zero));
}

/// Appending block after block keeps the last `n` samples of the whole stream.
pub proof fn lemma_appends_compose<T>(stream: Seq<T>, block: Seq<T>, n: nat)
    ensures
        last_n(last_n(stream, n) + block, n) == last_n(stream + block, n),
{
    let s = stream + block;
    let t = last_n(stream, n) + block;
    assert(last_n(t, n) =~= last_n(s, n));
}

/// Once the stream holds at least `buffer_size` samples, a snapshot is exactly
/// the most recent `buffer_size` of them, in the order they came.
pub proof fn lemma_full_snapshot_is_recent<T>(stream: Seq<T>, buffer_size: nat, zero: T)
    requires
        stream.len() >= buffer_size,
    ensures
        padded(last_n(stream, buffer_size), buffer_size, zero) == stream.subrange(
            stream.len() - buffer_size,
            stream.len() as int,
        ),
{
    assert(padded(last_n(stream, buffer_size), buffer_size, zero) =~= stream.subrange(
        stream.len() - buffer_size,
        stream.len() as int,
    ));
}

} // verus!
