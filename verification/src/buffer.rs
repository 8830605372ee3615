//! Fixed-capacity byte buffers for the tty layer.
//!
//! `TtyBufferInner` is a circular byte store with random access by logical
//! index; `TtyBuffer` is the handle the rest of the layer works with; an
//! `EchoBuffer` pairs one buffer with the on-screen cursor column.
//!
//! Overflow is lossy, not fatal: a byte pushed into a full buffer is silently
//! dropped, and out-of-range queries return a default instead of failing.

use vstd::prelude::*;

verus! {

/// Capacity of every tty buffer, fixed at construction.
pub const TTY_BUF_SIZE: usize = 4096;

/// One byte appended to `s` unless `s` is already at capacity: the model of a
/// single (lossy) `push`.
pub open spec fn push_lossy(s: Seq<u8>, ch: u8) -> Seq<u8> {
    if s.len() < TTY_BUF_SIZE {
        s.push(ch)
    } else {
        s
    }
}

/// Every byte of `input` appended to `s` in order, each one dropped if the
/// buffer is full at that moment: the model of pushing a whole slice.
pub open spec fn fill_lossy(s: Seq<u8>, input: Seq<u8>) -> Seq<u8>
    decreases input.len(),
{
    if input.len() == 0 {
        s
    } else {
        fill_lossy(push_lossy(s, input[0]), input.skip(1))
    }
}

/// Physical slot of logical index `i` when the first logical element lives in
/// slot `head`, for `head`, `i` below `TTY_BUF_SIZE`.
spec fn ring_pos(head: int, i: int) -> int {
    if head + i < TTY_BUF_SIZE {
        head + i
    } else {
        head + i - TTY_BUF_SIZE
    }
}

fn ring_index(head: usize, i: usize) -> (r: usize)
    requires
        head < TTY_BUF_SIZE,
        i < TTY_BUF_SIZE,
    ensures
        r == ring_pos(head as int, i as int),
        r < TTY_BUF_SIZE,
{
    if head + i < TTY_BUF_SIZE {
        head + i
    } else {
        head + i - TTY_BUF_SIZE
    }
}

/// Circular byte store: `buf` always holds `TTY_BUF_SIZE` slots, `head` is the
/// slot of logical element 0 and `len` the number of valid elements.  The view
/// is the sequence of valid bytes in logical order.
pub struct TtyBufferInner {
    buf: Vec<u8>,
    head: usize,
    len: usize,
}

impl View for TtyBufferInner {
    type V = Seq<u8>;

    closed spec fn view(&self) -> Seq<u8> {
        Seq::new(self.len as nat, |i: int| self.buf@[ring_pos(self.head as int, i)])
    }
}

impl TtyBufferInner {
    /// Structural invariant: full backing store, head in range, len within
    /// capacity.
    pub closed spec fn wf(&self) -> bool {
        &&& self.buf@.len() == TTY_BUF_SIZE
        &&& self.head < TTY_BUF_SIZE
        &&& self.len <= TTY_BUF_SIZE
    }

    pub fn new() -> (r: TtyBufferInner)
        ensures
            r.wf(),
            r@ == Seq::<u8>::empty(),
    {
        let r = TtyBufferInner { buf: vec![0u8; TTY_BUF_SIZE], head: 0, len: 0 };
        proof {
            assert(r@ =~= Seq::<u8>::empty());
        }
        r
    }

    /// Discard all buffered bytes, whether or not they were ever read.
    pub fn flush(&mut self)
        requires
            old(self).wf(),
        ensures
            final(self).wf(),
            final(self)@ == Seq::<u8>::empty(),
    {
        self.len = 0;
        self.head = 0;
        proof {
            assert(self@ =~= Seq::<u8>::empty());
        }
    }

    /// Byte at logical index `index`, or 0 if out of range — never a fault.
    pub fn see(&self, index: usize) -> (r: u8)
        requires
            self.wf(),
        ensures
            index < self@.len() ==> r == self@[index as int],
            index >= self@.len() ==> r == 0,
    {
        if index < self.len {
            self.buf[ring_index(self.head, index)]
        } else {
            0
        }
    }

    pub fn full(&self) -> (r: bool)
        requires
            self.wf(),
        ensures
            r == (self@.len() == TTY_BUF_SIZE),
    {
        self.len == TTY_BUF_SIZE
    }

    pub fn empty(&self) -> (r: bool)
        requires
            self.wf(),
        ensures
            r == (self@.len() == 0),
    {
        self.len == 0
    }

    pub fn len(&self) -> (r: usize)
        requires
            self.wf(),
        ensures
            r == self@.len(),
    {
        self.len
    }

    /// Append at the tail; a byte pushed into a full buffer is dropped.
    pub fn push(&mut self, ch: u8)
        requires
            old(self).wf(),
        ensures
            final(self).wf(),
            final(self)@ == push_lossy(old(self)@, ch),
    {
        if self.len != TTY_BUF_SIZE {
            let idx = ring_index(self.head, self.len);
            self.buf[idx] = ch;
            self.len = self.len + 1;
            proof {
                assert(self@ =~= old(self)@.push(ch));
            }
        }
    }

    /// Append each byte of `chars` if they all fit; otherwise change nothing.
    pub fn push_many(&mut self, chars: &[u8])
        requires
            old(self).wf(),
        ensures
            final(self).wf(),
            old(self)@.len() + chars@.len() <= TTY_BUF_SIZE ==> final(self)@ == old(self)@
                + chars@,
            old(self)@.len() + chars@.len() > TTY_BUF_SIZE ==> final(self)@ == old(self)@,
    {
        if chars.len() <= TTY_BUF_SIZE - self.len {
            let mut i: usize = 0;
            while i < chars.len()
                invariant
                    self.wf(),
                    i <= chars@.len(),
                    old(self)@.len() + chars@.len() <= TTY_BUF_SIZE,
                    self@ == old(self)@ + chars@.subrange(0, i as int),
                decreases chars@.len() - i,
            {
                self.push(chars[i]);
                proof {
                    assert(self@ =~= old(self)@ + chars@.subrange(0, i + 1));
                }
                i = i + 1;
            }
            proof {
                assert(chars@.subrange(0, chars@.len() as int) =~= chars@);
            }
        }
    }

    /// Remove the last element, if any.
    pub fn pop(&mut self)
        requires
            old(self).wf(),
        ensures
            final(self).wf(),
            old(self)@.len() > 0 ==> final(self)@ == old(self)@.drop_last(),
            old(self)@.len() == 0 ==> final(self)@ == old(self)@,
    {
        if self.len != 0 {
            self.len = self.len - 1;
            proof {
                assert(self@ =~= old(self)@.drop_last());
            }
        }
    }

    /// Insert `ch` at logical index `index`, shifting `[index, len)` one slot
    /// toward the tail; a no-op if the buffer is full or `index` exceeds the
    /// length.
    pub fn insert(&mut self, ch: u8, index: usize)
        requires
            old(self).wf(),
        ensures
            final(self).wf(),
            old(self)@.len() < TTY_BUF_SIZE && index <= old(self)@.len() ==> final(self)@ == old(
                self,
            )@.insert(index as int, ch),
            !(old(self)@.len() < TTY_BUF_SIZE && index <= old(self)@.len()) ==> final(self)@ == old(
                self,
            )@,
    {
        if self.len != TTY_BUF_SIZE && index <= self.len {
            let mut k: usize = self.len;
            while k > index
                invariant
                    old(self).wf(),
                    self.buf@.len() == TTY_BUF_SIZE,
                    self.head == old(self).head,
                    self.len == old(self).len,
                    self.len < TTY_BUF_SIZE,
                    index <= k <= self.len,
                    forall|j: int|
                        0 <= j < k ==> self.buf@[ring_pos(self.head as int, j)] == old(self)@[j],
                    forall|j: int|
                        k < j <= self.len ==> self.buf@[ring_pos(self.head as int, j)] == old(
                            self,
                        )@[j - 1],
                decreases k,
            {
                k = k - 1;
                let v = self.buf[ring_index(self.head, k)];
                let to = ring_index(self.head, k + 1);
                self.buf[to] = v;
            }
            let at = ring_index(self.head, index);
            self.buf[at] = ch;
            self.len = self.len + 1;
            proof {
                assert(self@ =~= old(self)@.insert(index as int, ch));
            }
        }
    }

    /// Remove and return the byte at logical index `index`, shifting
    /// `[index+1, len)` one slot toward the head; returns 0 and changes
    /// nothing if the index is out of range.
    pub fn delete(&mut self, index: usize) -> (r: u8)
        requires
            old(self).wf(),
        ensures
            final(self).wf(),
            index < old(self)@.len() ==> r == old(self)@[index as int] && final(self)@ == old(
                self,
            )@.remove(index as int),
            index >= old(self)@.len() ==> r == 0 && final(self)@ == old(self)@,
    {
        if self.len != 0 && index < self.len {
            let ret = self.buf[ring_index(self.head, index)];
            let mut k: usize = index + 1;
            while k < self.len
                invariant
                    old(self).wf(),
                    self.buf@.len() == TTY_BUF_SIZE,
                    self.head == old(self).head,
                    self.len == old(self).len,
                    0 < self.len <= TTY_BUF_SIZE,
                    index < k <= self.len,
                    index < self.len,
                    forall|j: int|
                        index <= j < k - 1 ==> self.buf@[ring_pos(self.head as int, j)] == old(
                            self,
                        )@[j + 1],
                    forall|j: int|
                        0 <= j < index || k - 1 <= j < self.len ==> self.buf@[ring_pos(
                            self.head as int,
                            j,
                        )] == old(self)@[j],
                decreases self.len - k,
            {
                let v = self.buf[ring_index(self.head, k)];
                let to = ring_index(self.head, k - 1);
                self.buf[to] = v;
                k = k + 1;
            }
            self.len = self.len - 1;
            proof {
                assert(self@ =~= old(self)@.remove(index as int));
            }
            ret
        } else {
            0
        }
    }
}

/// Pushing one more byte after a slice is one more lossy push.
pub proof fn lemma_fill_lossy_snoc(s: Seq<u8>, input: Seq<u8>, x: u8)
    ensures
        fill_lossy(s, input.push(x)) == push_lossy(fill_lossy(s, input), x),
    decreases input.len(),
{
    if input.len() == 0 {
        assert(input.push(x).skip(1) =~= Seq::<u8>::empty());
        assert(input.push(x)[0] == x);
        assert(fill_lossy(s, input.push(x)) == fill_lossy(push_lossy(s, x), Seq::<u8>::empty()));
        assert(fill_lossy(push_lossy(s, x), Seq::<u8>::empty()) == push_lossy(s, x));
        assert(fill_lossy(s, input) == s);
    } else {
        assert(input.push(x)[0] == input[0]);
        assert(input.push(x).skip(1) =~= input.skip(1).push(x));
        lemma_fill_lossy_snoc(push_lossy(s, input[0]), input.skip(1), x);
        assert(fill_lossy(s, input.push(x)) == fill_lossy(
            push_lossy(s, input[0]),
            input.skip(1).push(x),
        ));
        assert(fill_lossy(s, input) == fill_lossy(push_lossy(s, input[0]), input.skip(1)));
    }
}

/// Pushing a slice whose bytes all fit simply appends them: nothing is
/// dropped below capacity.
pub proof fn lemma_fill_lossy_fits(s: Seq<u8>, input: Seq<u8>)
    requires
        s.len() + input.len() <= TTY_BUF_SIZE,
    ensures
        fill_lossy(s, input) == s + input,
    decreases input.len(),
{
    if input.len() == 0 {
        assert(fill_lossy(s, input) =~= s + input);
    } else {
        lemma_fill_lossy_fits(s.push(input[0]), input.skip(1));
        assert(s.push(input[0]) + input.skip(1) =~= s + input);
    }
}

/// Pushing a slice never grows a buffer past its capacity, and fills it
/// exactly when the bytes suffice.
pub proof fn lemma_fill_lossy_len(s: Seq<u8>, input: Seq<u8>)
    requires
        s.len() <= TTY_BUF_SIZE,
    ensures
        fill_lossy(s, input).len() == if s.len() + input.len() <= TTY_BUF_SIZE {
            (s.len() + input.len()) as int
        } else {
            TTY_BUF_SIZE as int
        },
    decreases input.len(),
{
    if input.len() > 0 {
        lemma_fill_lossy_len(push_lossy(s, input[0]), input.skip(1));
    }
}

/// First-in first-out: pushing bytes `b1..bn` with `n` within capacity into an
/// empty buffer stores exactly `b1..bn` in order, so `see(i)` returns `b_i+1`.
pub proof fn lemma_ring_fifo(input: Seq<u8>)
    requires
        input.len() <= TTY_BUF_SIZE,
    ensures
        fill_lossy(Seq::<u8>::empty(), input) == input,
{
    lemma_fill_lossy_fits(Seq::<u8>::empty(), input);
    assert(Seq::<u8>::empty() + input =~= input);
}

/// Overflow is lossy, not fatal: pushing capacity-or-more bytes into an empty
/// buffer leaves it holding exactly `TTY_BUF_SIZE` bytes, and `push` itself
/// has no precondition, so no input can make it fail.
pub proof fn lemma_overflow_lossy(input: Seq<u8>)
    requires
        input.len() >= TTY_BUF_SIZE,
    ensures
        fill_lossy(Seq::<u8>::empty(), input).len() == TTY_BUF_SIZE,
{
    lemma_fill_lossy_len(Seq::<u8>::empty(), input);
}

/// Insert then delete at the same index restores the buffer: for a buffer
/// holding `s` with room to spare and `i <= s.len()`, `insert(x, i)` stores
/// `s.insert(i, x)` by its contract, `delete(i)` then returns `x` and leaves
/// `s` again — every untouched element keeps its place.
pub proof fn lemma_insert_delete_id(s: Seq<u8>, x: u8, i: int)
    requires
        s.len() < TTY_BUF_SIZE,
        0 <= i <= s.len(),
    ensures
        s.insert(i, x)[i] == x,
        s.insert(i, x).remove(i) == s,
{
    assert(s.insert(i, x).remove(i) =~= s);
}

/// Handle for a character buffer; wraps the circular store with the interface
/// the line discipline and the read path use.
pub struct TtyBuffer {
    inner: TtyBufferInner,
}

impl View for TtyBuffer {
    type V = Seq<u8>;

    closed spec fn view(&self) -> Seq<u8> {
        self.inner@
    }
}

impl TtyBuffer {
    pub closed spec fn wf(&self) -> bool {
        self.inner.wf()
    }

    pub proof fn lemma_view_len(&self)
        requires
            self.wf(),
        ensures
            self@.len() <= TTY_BUF_SIZE,
    {
    }

    pub fn new() -> (r: TtyBuffer)
        ensures
            r.wf(),
            r@ == Seq::<u8>::empty(),
    {
        TtyBuffer { inner: TtyBufferInner::new() }
    }

    /// Discard all buffered bytes.
    pub fn flush(&mut self)
        requires
            old(self).wf(),
        ensures
            final(self).wf(),
            final(self)@ == Seq::<u8>::empty(),
    {
        self.inner.flush()
    }

    /// Byte at logical index `index`, or 0 if out of range.
    pub fn see(&self, index: usize) -> (r: u8)
        requires
            self.wf(),
        ensures
            index < self@.len() ==> r == self@[index as int],
            index >= self@.len() ==> r == 0,
    {
        self.inner.see(index)
    }

    pub fn full(&self) -> (r: bool)
        requires
            self.wf(),
        ensures
            r == (self@.len() == TTY_BUF_SIZE),
    {
        self.inner.full()
    }

    pub fn empty(&self) -> (r: bool)
        requires
            self.wf(),
        ensures
            r == (self@.len() == 0),
    {
        self.inner.empty()
    }

    /// Append at the tail; dropped if the buffer is full.
    pub fn push(&mut self, ch: u8)
        requires
            old(self).wf(),
        ensures
            final(self).wf(),
            final(self)@ == push_lossy(old(self)@, ch),
    {
        self.inner.push(ch)
    }

    /// Append each byte of `chars` if they all fit; otherwise change nothing.
    pub fn push_many(&mut self, chars: &[u8])
        requires
            old(self).wf(),
        ensures
            final(self).wf(),
            old(self)@.len() + chars@.len() <= TTY_BUF_SIZE ==> final(self)@ == old(self)@
                + chars@,
            old(self)@.len() + chars@.len() > TTY_BUF_SIZE ==> final(self)@ == old(self)@,
    {
        self.inner.push_many(chars)
    }

    /// Remove and return the first byte, or 0 if the buffer is empty.
    pub fn pop(&mut self) -> (r: u8)
        requires
            old(self).wf(),
        ensures
            final(self).wf(),
            old(self)@.len() > 0 ==> r == old(self)@[0] && final(self)@ == old(self)@.remove(0),
            old(self)@.len() == 0 ==> r == 0 && final(self)@ == old(self)@,
    {
        self.inner.delete(0)
    }

    /// Insert `ch` at logical index `index`; a no-op if the buffer is full or
    /// `index` exceeds the length.
    pub fn insert(&mut self, ch: u8, index: usize)
        requires
            old(self).wf(),
        ensures
            final(self).wf(),
            old(self)@.len() < TTY_BUF_SIZE && index <= old(self)@.len() ==> final(self)@ == old(
                self,
            )@.insert(index as int, ch),
            !(old(self)@.len() < TTY_BUF_SIZE && index <= old(self)@.len()) ==> final(self)@ == old(
                self,
            )@,
    {
        self.inner.insert(ch, index)
    }

    /// Remove and return the byte at logical index `index`; returns 0 and
    /// changes nothing if the index is out of range.
    pub fn delete(&mut self, index: usize) -> (r: u8)
        requires
            old(self).wf(),
        ensures
            final(self).wf(),
            index < old(self)@.len() ==> r == old(self)@[index as int] && final(self)@ == old(
                self,
            )@.remove(index as int),
            index >= old(self)@.len() ==> r == 0 && final(self)@ == old(self)@,
    {
        self.inner.delete(index)
    }

    pub fn len(&self) -> (r: usize)
        requires
            self.wf(),
        ensures
            r == self@.len(),
    {
        self.inner.len()
    }
}

/// The line being composed on screen: one buffer plus the cursor column.
/// Invariant: the column never exceeds the line length.
pub struct EchoBuffer {
    pub buffer: TtyBuffer,
    pub col: usize,
}

impl EchoBuffer {
    pub open spec fn wf(&self) -> bool {
        &&& self.buffer.wf()
        &&& self.col <= self.buffer@.len()
    }

    pub fn new() -> (r: EchoBuffer)
        ensures
            r.wf(),
            r.buffer@ == Seq::<u8>::empty(),
            r.col == 0,
    {
        EchoBuffer { buffer: TtyBuffer::new(), col: 0 }
    }

    pub fn col(&self) -> (r: usize)
        ensures
            r == self.col,
    {
        self.col
    }

    /// Move the cursor one column left; the caller guards against column 0
    /// and keeps the column within the line.
    pub fn col_sub_one(&mut self)
        requires
            old(self).buffer.wf(),
            old(self).col > 0,
            old(self).col - 1 <= old(self).buffer@.len(),
        ensures
            final(self).wf(),
            final(self).col == old(self).col - 1,
            final(self).buffer == old(self).buffer,
    {
        self.col = self.col - 1;
    }

    /// Move the cursor one column right; the caller guards against the end of
    /// the line, keeping the column within the line length.
    pub fn col_add_one(&mut self)
        requires
            old(self).wf(),
            old(self).col < old(self).buffer@.len(),
        ensures
            final(self).wf(),
            final(self).col == old(self).col + 1,
            final(self).buffer == old(self).buffer,
    {
        self.col = self.col + 1;
    }

    /// Reset the cursor to column 0.
    pub fn col_clear(&mut self)
        requires
            old(self).buffer.wf(),
        ensures
            final(self).wf(),
            final(self).col == 0,
            final(self).buffer == old(self).buffer,
    {
        self.col = 0;
    }

    pub fn len(&self) -> (r: usize)
        requires
            self.wf(),
        ensures
            r == self.buffer@.len(),
    {
        self.buffer.len()
    }
}

} // verus!
