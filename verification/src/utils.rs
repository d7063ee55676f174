use vstd::prelude::*;

verus! {

/// A byte buffer with a read cursor: bytes before the cursor have been
/// consumed, bytes from the cursor on are still to be handed out.
pub trait CursoredBuffer {
    /// Well-formedness of the buffer (the cursor is inside the data).
    spec fn buf_wf(&self) -> bool;

    /// The bytes not yet consumed.
    spec fn remaining_view(&self) -> Seq<u8>;

    /// The unconsumed bytes as a slice.
    fn as_bytes(&self) -> (r: &[u8])
        requires
            self.buf_wf(),
        ensures
            r@ == self.remaining_view(),
    ;

    /// Consume `len` bytes.
    fn advance(&mut self, len: usize)
        requires
            old(self).buf_wf(),
            len <= old(self).remaining_view().len(),
        ensures
            final(self).buf_wf(),
            final(self).remaining_view() == old(self).remaining_view().skip(len as int),
    ;
}

/// Byte buffer used on the UDP relay paths: data is appended at the
/// end, consumed from a cursor, and the consumed prefix can be dropped
/// with `compact`.
pub struct UdpRelayBuffer {
    inner: Vec<u8>,
    cursor: usize,
}

impl UdpRelayBuffer {
    /// All bytes ever appended and not yet compacted away.
    pub closed spec fn data(&self) -> Seq<u8> {
        self.inner@
    }

    /// Position of the read cursor inside `data`.
    pub closed spec fn cur(&self) -> int {
        self.cursor as int
    }

    /// The cursor never runs past the end of the data.
    pub open spec fn wf(&self) -> bool {
        0 <= self.cur() <= self.data().len()
    }

    /// The bytes from the cursor to the end.
    pub open spec fn chunk_view(&self) -> Seq<u8> {
        self.data().skip(self.cur())
    }

    pub fn new() -> (r: Self)
        ensures
            r.wf(),
            r.data() == Seq::<u8>::empty(),
            r.cur() == 0,
    {
        UdpRelayBuffer { inner: Vec::new(), cursor: 0 }
    }

    /// Total length of the data, consumed prefix included.
    pub fn len(&self) -> (r: usize)
        ensures
            r == self.data().len(),
    {
        self.inner.len()
    }

    pub fn is_empty(&self) -> (r: bool)
        ensures
            r == (self.data().len() == 0),
    {
        self.inner.len() == 0
    }

    /// How many bytes are left after the cursor.
    pub fn remaining(&self) -> (r: usize)
        requires
            self.wf(),
        ensures
            r == self.chunk_view().len(),
    {
        self.inner.len() - self.cursor
    }

    pub fn has_remaining(&self) -> (r: bool)
        requires
            self.wf(),
        ensures
            r == (self.chunk_view().len() > 0),
    {
        self.cursor < self.inner.len()
    }

    /// The unconsumed bytes.
    pub fn chunk(&self) -> (r: &[u8])
        requires
            self.wf(),
        ensures
            r@ == self.chunk_view(),
    {
        let pair = self.inner.as_slice().split_at(self.cursor);
        pair.1
    }

    /// Ask the allocator for room; the contents are untouched.
    pub fn reserve(&mut self, additional: usize)
        ensures
            final(self).data() == old(self).data(),
            final(self).cur() == old(self).cur(),
            old(self).wf() ==> final(self).wf(),
    {
        if additional <= usize::MAX - self.inner.len() {
            self.inner.reserve(additional);
        }
    }

    /// Append `src` at the end; the cursor does not move.
    pub fn extend_from_slice(&mut self, src: &[u8])
        requires
            old(self).data().len() + src@.len() <= usize::MAX,
        ensures
            final(self).data() == old(self).data() + src@,
            final(self).cur() == old(self).cur(),
            old(self).wf() ==> final(self).wf(),
    {
        let mut i: usize = 0;
        while i < src.len()
            invariant
                i <= src@.len(),
                self.inner@ == old(self).inner@ + src@.take(i as int),
                self.cursor == old(self).cursor,
            decreases src@.len() - i,
        {
            self.inner.push(src[i]);
            i = i + 1;
            proof {
                assert(self.inner@ =~= old(self).inner@ + src@.take(i as int));
            }
        }
        proof {
            assert(self.inner@ =~= old(self).inner@ + src@);
        }
    }

    /// Consume `len` bytes: the cursor moves forward, the data stays.
    pub fn advance(&mut self, len: usize)
        requires
            old(self).wf(),
            len <= old(self).chunk_view().len(),
        ensures
            final(self).wf(),
            final(self).data() == old(self).data(),
            final(self).cur() == old(self).cur() + len,
            final(self).chunk_view() == old(self).chunk_view().skip(len as int),
    {
        let total = self.inner.len();
        assert(self.cursor + len <= total);
        self.cursor = self.cursor + len;
        proof {
            assert(self.chunk_view() =~= old(self).chunk_view().skip(len as int));
        }
    }

    /// Drop the consumed prefix: the unconsumed bytes move to the
    /// start and the cursor returns to zero.
    pub fn compact(&mut self)
        requires
            old(self).wf(),
        ensures
            final(self).wf(),
            final(self).data() == old(self).chunk_view(),
            final(self).cur() == 0,
    {
        let n = self.inner.len() - self.cursor;
        let mut i: usize = 0;
        while i < n
            invariant
                i <= n,
                n == old(self).inner@.len() - old(self).cursor,
                self.cursor == old(self).cursor,
                self.inner@.len() == old(self).inner@.len(),
                forall|j: int|
                    0 <= j < i ==> self.inner@[j] == old(self).inner@[old(self).cursor + j],
                forall|j: int|
                    i <= j < self.inner@.len() ==> self.inner@[j] == old(self).inner@[j],
            decreases n - i,
        {
            let cur_len = self.inner.len();
            assert(self.cursor + i < cur_len);
            let b = self.inner[self.cursor + i];
            self.inner.set(i, b);
            i = i + 1;
        }
        self.inner.truncate(n);
        self.cursor = 0;
        proof {
            assert(self.inner@ =~= old(self).inner@.skip(old(self).cursor as int));
        }
    }

    /// Forget everything.
    pub fn reset(&mut self)
        ensures
            final(self).wf(),
            final(self).data() == Seq::<u8>::empty(),
            final(self).cur() == 0,
    {
        self.inner.clear();
        self.cursor = 0;
    }
}

impl CursoredBuffer for UdpRelayBuffer {
    open spec fn buf_wf(&self) -> bool {
        self.wf()
    }

    open spec fn remaining_view(&self) -> Seq<u8> {
        self.chunk_view()
    }

    fn as_bytes(&self) -> (r: &[u8]) {
        self.chunk()
    }

    fn advance(&mut self, len: usize) {
        let total = self.inner.len();
        assert(self.cursor + len <= total);
        self.cursor = self.cursor + len;
    }
}

/// Spill big-endian `u16` values into a byte buffer with overlapping
/// steps: step `i` writes the high byte of `a[i]` at `b[i]` and the
/// low byte at `b[i + 1]`, each low byte but the last being
/// overwritten by the next high byte.  Nothing happens when `b` is
/// shorter than `2 * a.len()`.
pub fn transmute_u16s_to_u8s(a: &[u16], b: &mut Vec<u8>)
    ensures
        final(b)@.len() == old(b)@.len(),
        old(b)@.len() < a@.len() * 2 ==> final(b)@ == old(b)@,
        old(b)@.len() >= a@.len() * 2 ==> {
            &&& forall|i: int| 0 <= i < a@.len() ==> final(b)@[i] == a@[i] / 256
            &&& a@.len() > 0 ==> final(b)@[a@.len() as int] == a@[a@.len() - 1] % 256
            &&& forall|j: int| a@.len() + 1 <= j < old(b)@.len() ==> final(b)@[j] == old(b)@[j]
            &&& a@.len() == 0 ==> final(b)@ == old(b)@
        },
{
    if b.len() < a.len() || (a.len() > 0 && b.len() - a.len() < a.len()) {
        return ;
    }
    let n = a.len();
    let mut i: usize = 0;
    while i < n
        invariant
            i <= n,
            n == a@.len(),
            n * 2 <= b@.len(),
            b@.len() == old(b)@.len(),
            forall|k: int| 0 <= k < i ==> b@[k] == a@[k] / 256,
            i > 0 ==> b@[i as int] == a@[i - 1] % 256,
            forall|j: int| i + 1 <= j < b@.len() ==> b@[j] == old(b)@[j],
            i == 0 ==> b@ == old(b)@,
        decreases n - i,
    {
        let x = a[i];
        let hi = (x / 256) as u8;
        let lo = (x % 256) as u8;
        b.set(i, hi);
        b.set(i + 1, lo);
        i = i + 1;
    }
}

} // verus!
