//! Line reassembler: turns a stream of raw byte chunks into complete,
//! delimiter-terminated lines, independent of how the stream is chunked.

use vstd::prelude::*;

verus! {

/// The working buffer holds at most this many bytes of one unterminated
/// line; a longer line is a protocol fault.
pub const LINE_CAPACITY: usize = 512;

/// The line delimiter, `\n`.
pub open spec fn is_delim(b: u8) -> bool {
    b == 10
}

/// Position of the first delimiter in `bytes`, or `bytes.len()` if none.
pub open spec fn first_delim(bytes: Seq<u8>) -> nat
    decreases bytes.len(),
{
    if bytes.len() == 0 {
        0
    } else if is_delim(bytes[0]) {
        0
    } else {
        1 + first_delim(bytes.drop_first())
    }
}

/// The complete lines in `bytes`: for every delimiter, the bytes between
/// the previous delimiter (or the start) and it, in order.
pub open spec fn complete_lines(bytes: Seq<u8>) -> Seq<Seq<u8>>
    decreases bytes.len(),
{
    let i = first_delim(bytes);
    if i >= bytes.len() {
        seq![]
    } else {
        seq![bytes.subrange(0, i as int)] + complete_lines(
            bytes.subrange(i as int + 1, bytes.len() as int),
        )
    }
}

/// The bytes after the last delimiter in `bytes`: the unterminated tail.
pub open spec fn line_residue(bytes: Seq<u8>) -> Seq<u8>
    decreases bytes.len(),
{
    let i = first_delim(bytes);
    if i >= bytes.len() {
        bytes
    } else {
        line_residue(bytes.subrange(i as int + 1, bytes.len() as int))
    }
}

proof fn lemma_first_delim_facts(bytes: Seq<u8>)
    ensures
        first_delim(bytes) <= bytes.len(),
        first_delim(bytes) < bytes.len() ==> is_delim(bytes[first_delim(bytes) as int]),
        forall|j: int| 0 <= j < first_delim(bytes) ==> !is_delim(bytes[j]),
    decreases bytes.len(),
{
    if bytes.len() != 0 && !is_delim(bytes[0]) {
        lemma_first_delim_facts(bytes.drop_first());
        assert forall|j: int| 0 <= j < first_delim(bytes) implies !is_delim(bytes[j]) by {
            if j > 0 {
                assert(bytes[j] == bytes.drop_first()[j - 1]);
            }
        }
    }
}

proof fn lemma_first_delim_at(bytes: Seq<u8>, i: int)
    requires
        0 <= i <= bytes.len(),
        forall|j: int| 0 <= j < i ==> !is_delim(bytes[j]),
        i < bytes.len() ==> is_delim(bytes[i]),
    ensures
        first_delim(bytes) == i,
    decreases bytes.len(),
{
    if bytes.len() != 0 && !is_delim(bytes[0]) {
        assert forall|j: int| 0 <= j < i - 1 implies !is_delim(bytes.drop_first()[j]) by {
            assert(bytes.drop_first()[j] == bytes[j + 1]);
        }
        lemma_first_delim_at(bytes.drop_first(), i - 1);
    }
}

/// A residue never holds a delimiter.
proof fn lemma_residue_no_delim(bytes: Seq<u8>)
    ensures
        forall|j: int| 0 <= j < line_residue(bytes).len() ==> !is_delim(line_residue(bytes)[j]),
    decreases bytes.len(),
{
    lemma_first_delim_facts(bytes);
    let i = first_delim(bytes);
    if i < bytes.len() {
        lemma_residue_no_delim(bytes.subrange(i as int + 1, bytes.len() as int));
        assert(line_residue(bytes) == line_residue(
            bytes.subrange(i as int + 1, bytes.len() as int),
        ));
    } else {
        assert(line_residue(bytes) == bytes);
    }
}

/// A delimiter-free sequence has no complete line and is all residue.
proof fn lemma_no_delim_plain(bytes: Seq<u8>)
    requires
        forall|j: int| 0 <= j < bytes.len() ==> !is_delim(bytes[j]),
    ensures
        complete_lines(bytes) == Seq::<Seq<u8>>::empty(),
        line_residue(bytes) == bytes,
{
    lemma_first_delim_at(bytes, bytes.len() as int);
    assert(complete_lines(bytes) =~= Seq::<Seq<u8>>::empty());
}

/// Splicing: the lines of a concatenation are the lines of the first part
/// followed by the lines of its residue joined with the second part.
pub proof fn lemma_lines_splice(a: Seq<u8>, b: Seq<u8>)
    ensures
        complete_lines(a + b) =~= complete_lines(a) + complete_lines(line_residue(a) + b),
        line_residue(a + b) == line_residue(line_residue(a) + b),
    decreases a.len(),
{
    lemma_first_delim_facts(a);
    let i = first_delim(a);
    if i >= a.len() {
        assert(line_residue(a) == a);
        assert(complete_lines(a) == Seq::<Seq<u8>>::empty());
        assert(complete_lines(a) + complete_lines(a + b) =~= complete_lines(a + b));
    } else {
        assert forall|j: int| 0 <= j < i implies !is_delim((a + b)[j]) by {
            assert((a + b)[j] == a[j]);
        }
        assert((a + b)[i as int] == a[i as int]);
        lemma_first_delim_at(a + b, i as int);
        let arest = a.subrange(i as int + 1, a.len() as int);
        assert((a + b).subrange(0, i as int) =~= a.subrange(0, i as int));
        assert((a + b).subrange(i as int + 1, (a + b).len() as int) =~= arest + b);
        lemma_lines_splice(arest, b);
        assert(complete_lines(a + b) =~= seq![a.subrange(0, i as int)] + complete_lines(
            arest + b,
        ));
        assert(complete_lines(a) =~= seq![a.subrange(0, i as int)] + complete_lines(arest));
        assert(line_residue(a) == line_residue(arest));
        assert(complete_lines(a + b) =~= complete_lines(a) + complete_lines(
            line_residue(a) + b,
        ));
    }
}

/// Extending by one byte: a delimiter closes the residue into a line, any
/// other byte extends the residue.
proof fn lemma_lines_snoc(s: Seq<u8>, b: u8)
    ensures
        is_delim(b) ==> complete_lines(s.push(b)) =~= complete_lines(s).push(line_residue(s))
            && line_residue(s.push(b)) =~= Seq::<u8>::empty(),
        !is_delim(b) ==> complete_lines(s.push(b)) =~= complete_lines(s) && line_residue(
            s.push(b),
        ) =~= line_residue(s).push(b),
{
    let one = seq![b];
    assert(s.push(b) =~= s + one);
    lemma_lines_splice(s, one);
    lemma_residue_no_delim(s);
    let r = line_residue(s);
    if is_delim(b) {
        lemma_first_delim_at(r + one, r.len() as int);
        assert((r + one).subrange(0, r.len() as int) =~= r);
        assert((r + one).subrange(r.len() as int + 1, (r + one).len() as int) =~= Seq::<
            u8,
        >::empty());
        assert(complete_lines(Seq::<u8>::empty()) =~= Seq::<Seq<u8>>::empty());
        assert(complete_lines(r + one) =~= seq![r]);
        assert(complete_lines(s.push(b)) =~= complete_lines(s).push(r));
        assert(line_residue(r + one) == line_residue(Seq::<u8>::empty()));
    } else {
        assert(forall|j: int| 0 <= j < (r + one).len() ==> !is_delim((r + one)[j]));
        lemma_no_delim_plain(r + one);
        assert(complete_lines(s.push(b)) =~= complete_lines(s));
        assert(line_residue(s.push(b)) =~= r.push(b));
    }
}

/// The line reassembler's working buffer: the bytes of the current,
/// still unterminated line.
pub struct LineBuffer {
    partial: Vec<u8>,
}

impl View for LineBuffer {
    type V = Seq<u8>;

    closed spec fn view(&self) -> Seq<u8> {
        self.partial@
    }
}

impl LineBuffer {
    /// The buffer never holds a delimiter: those always close a line.
    pub open spec fn wf(&self) -> bool {
        forall|j: int| 0 <= j < self@.len() ==> !is_delim(self@[j])
    }

    /// An empty reassembly buffer.
    pub fn new() -> (r: LineBuffer)
        ensures
            r@ =~= Seq::<u8>::empty(),
            r.wf(),
    {
        LineBuffer { partial: Vec::new() }
    }

    /// Feeds one chunk of raw bytes.  Returns every line completed by the
    /// chunk, in order, and whether the unterminated tail has reached the
    /// buffer capacity — the "line too long" protocol fault, reported to
    /// the caller rather than aborting.
    pub fn push_chunk(&mut self, chunk: &[u8]) -> (r: (Vec<Vec<u8>>, bool))
        requires
            old(self).wf(),
        ensures
            final(self).wf(),
            r.0.deep_view() =~= complete_lines(old(self)@ + chunk@),
            final(self)@ =~= line_residue(old(self)@ + chunk@),
            r.1 == (final(self)@.len() >= LINE_CAPACITY),
    {
        let ghost whole = old(self)@ + chunk@;
        let mut lines: Vec<Vec<u8>> = Vec::new();
        let mut acc: Vec<u8> = Vec::new();
        core::mem::swap(&mut acc, &mut self.partial);
        proof {
            lemma_no_delim_plain(old(self)@);
            assert(whole.subrange(0, old(self)@.len() as int) =~= old(self)@);
            assert(lines.deep_view() =~= complete_lines(
                whole.subrange(0, old(self)@.len() as int),
            ));
        }
        let mut k: usize = 0;
        while k < chunk.len()
            invariant
                k <= chunk.len(),
                whole == old(self)@ + chunk@,
                chunk@.len() == chunk.len(),
                lines.deep_view() =~= complete_lines(
                    whole.subrange(0, old(self)@.len() + k as int),
                ),
                acc@ =~= line_residue(whole.subrange(0, old(self)@.len() + k as int)),
            decreases chunk.len() - k,
        {
            let ghost seen = whole.subrange(0, old(self)@.len() + k as int);
            let b = chunk[k];
            proof {
                assert(b == whole[old(self)@.len() + k as int]);
                assert(whole.subrange(0, old(self)@.len() + k + 1) =~= seen.push(b));
                lemma_lines_snoc(seen, b);
            }
            if b == 10 {
                let ghost prev_lines = lines.deep_view();
                let ghost accv = acc@;
                lines.push(acc);
                acc = Vec::new();
                proof {
                    assert(lines.deep_view() =~~= prev_lines.push(accv));
                }
            } else {
                acc.push(b);
            }
            k = k + 1;
        }
        proof {
            assert(whole.subrange(0, whole.len() as int) =~= whole);
            lemma_residue_no_delim(whole);
        }
        self.partial = acc;
        let overflow = self.partial.len() >= LINE_CAPACITY;
        (lines, overflow)
    }

    /// Hands out the unterminated trailing line at end of stream, if any,
    /// leaving the buffer empty.
    pub fn take_trailing(&mut self) -> (r: Option<Vec<u8>>)
        ensures
            final(self)@ =~= Seq::<u8>::empty(),
            final(self).wf(),
            match r {
                Some(l) => l@ == old(self)@ && old(self)@.len() > 0,
                None => old(self)@.len() == 0,
            },
    {
        if self.partial.len() == 0 {
            None
        } else {
            let mut out: Vec<u8> = Vec::new();
            core::mem::swap(&mut out, &mut self.partial);
            Some(out)
        }
    }
}

/// Every line emitted while feeding `chunks` one at a time, starting from
/// the unterminated tail `start`.
pub open spec fn emitted_lines(start: Seq<u8>, chunks: Seq<Seq<u8>>) -> Seq<Seq<u8>>
    decreases chunks.len(),
{
    if chunks.len() == 0 {
        seq![]
    } else {
        complete_lines(start + chunks[0]) + emitted_lines(
            line_residue(start + chunks[0]),
            chunks.drop_first(),
        )
    }
}

/// The unterminated tail left after feeding `chunks` one at a time.
pub open spec fn residue_after(start: Seq<u8>, chunks: Seq<Seq<u8>>) -> Seq<u8>
    decreases chunks.len(),
{
    if chunks.len() == 0 {
        start
    } else {
        residue_after(line_residue(start + chunks[0]), chunks.drop_first())
    }
}

proof fn lemma_feed_general(start: Seq<u8>, chunks: Seq<Seq<u8>>)
    requires
        forall|j: int| 0 <= j < start.len() ==> !is_delim(start[j]),
    ensures
        emitted_lines(start, chunks) =~= complete_lines(start + chunks.flatten()),
        residue_after(start, chunks) =~= line_residue(start + chunks.flatten()),
    decreases chunks.len(),
{
    if chunks.len() == 0 {
        assert(chunks.flatten() =~= Seq::<u8>::empty());
        assert(start + chunks.flatten() =~= start);
        lemma_no_delim_plain(start);
    } else {
        let c0 = chunks[0];
        let rest = chunks.drop_first();
        assert(chunks.flatten() == c0 + rest.flatten());
        lemma_residue_no_delim(start + c0);
        lemma_feed_general(line_residue(start + c0), rest);
        lemma_lines_splice(start + c0, rest.flatten());
        assert((start + c0) + rest.flatten() =~= start + chunks.flatten());
    }
}

/// Chunking invariance: however a byte stream is cut into chunks, the
/// reassembler emits exactly the complete lines of the concatenated
/// stream — one line per delimiter, each equal to the bytes between
/// successive delimiters, in order — and retains exactly the bytes after
/// the last delimiter.
pub proof fn lemma_chunking_invariance(chunks: Seq<Seq<u8>>)
    ensures
        emitted_lines(Seq::empty(), chunks) =~= complete_lines(chunks.flatten()),
        residue_after(Seq::empty(), chunks) =~= line_residue(chunks.flatten()),
{
    lemma_feed_general(Seq::empty(), chunks);
    assert(Seq::empty() + chunks.flatten() =~= chunks.flatten());
}

} // verus!
