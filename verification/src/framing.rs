//! Cutting a byte stream into lines. The engine speaks newline-delimited
//! JSON over HTTP, and chunks arrive at arbitrary boundaries, so a rolling
//! buffer collects bytes until a line break; the trailing bytes after the
//! last break stay buffered and are never handed out as a line.
use vstd::prelude::*;

verus! {

/// The line separator of the engine's newline-delimited wire format.
pub const LINE_BREAK: u8 = 10;

/// What a rolling buffer holding `acc` becomes once the bytes `s` arrive:
/// the complete lines cut at each line break, in stream order, and the bytes
/// still waiting for a break.
pub open spec fn scan_lines(acc: Seq<u8>, s: Seq<u8>) -> (Seq<Seq<u8>>, Seq<u8>)
    decreases s.len(),
{
    if s.len() == 0 {
        (Seq::empty(), acc)
    } else if s[0] == LINE_BREAK {
        let rest = scan_lines(Seq::empty(), s.skip(1));
        (seq![acc] + rest.0, rest.1)
    } else {
        scan_lines(acc.push(s[0]), s.skip(1))
    }
}

/// The complete lines of a whole stream delivered at once.
pub open spec fn lines_of(s: Seq<u8>) -> Seq<Seq<u8>> {
    scan_lines(Seq::empty(), s).0
}

/// The trailing bytes of a whole stream that no line break ever closed.
pub open spec fn line_rest_of(s: Seq<u8>) -> Seq<u8> {
    scan_lines(Seq::empty(), s).1
}

/// Scanning `a + b` is scanning `a` and then scanning `b` from the buffer
/// that `a` left behind.
pub proof fn lemma_scan_lines_append(acc: Seq<u8>, a: Seq<u8>, b: Seq<u8>)
    ensures
        scan_lines(acc, a + b).0 == scan_lines(acc, a).0 + scan_lines(scan_lines(acc, a).1, b).0,
        scan_lines(acc, a + b).1 == scan_lines(scan_lines(acc, a).1, b).1,
    decreases a.len(),
{
    if a.len() == 0 {
        assert(a + b =~= b);
        assert(scan_lines(acc, a).0 + scan_lines(acc, b).0 =~= scan_lines(acc, b).0);
    } else {
        assert((a + b)[0] == a[0]);
        assert((a + b).skip(1) =~= a.skip(1) + b);
        if a[0] == LINE_BREAK {
            lemma_scan_lines_append(Seq::empty(), a.skip(1), b);
            let tail = scan_lines(Seq::empty(), a.skip(1));
            let cont = scan_lines(tail.1, b);
            assert(seq![acc] + (tail.0 + cont.0) =~= (seq![acc] + tail.0) + cont.0);
        } else {
            lemma_scan_lines_append(acc.push(a[0]), a.skip(1), b);
        }
    }
}

/// How the scan treats one more byte: a line break closes the buffered line,
/// anything else joins it.
pub proof fn lemma_scan_lines_single(acc: Seq<u8>, b: u8)
    ensures
        b == LINE_BREAK ==> scan_lines(acc, seq![b]).0 == seq![acc] && scan_lines(
            acc,
            seq![b],
        ).1 == Seq::<u8>::empty(),
        b != LINE_BREAK ==> scan_lines(acc, seq![b]).0 == Seq::<Seq<u8>>::empty() && scan_lines(
            acc,
            seq![b],
        ).1 == acc.push(b),
{
    let bs = seq![b];
    assert(bs.skip(1) =~= Seq::<u8>::empty());
    if b == LINE_BREAK {
        assert(scan_lines(Seq::<u8>::empty(), Seq::<u8>::empty()) == (
            Seq::<Seq<u8>>::empty(),
            Seq::<u8>::empty(),
        ));
        assert(scan_lines(acc, bs).0 =~= seq![acc]);
    } else {
        assert(scan_lines(acc.push(b), Seq::<u8>::empty()) == (
            Seq::<Seq<u8>>::empty(),
            acc.push(b),
        ));
    }
}

/// All the bytes of a stream, in the order its chunks came.
pub open spec fn concat_chunks(chunks: Seq<Seq<u8>>) -> Seq<u8>
    decreases chunks.len(),
{
    if chunks.len() == 0 {
        Seq::empty()
    } else {
        concat_chunks(chunks.drop_last()) + chunks.last()
    }
}

/// The lines and leftover bytes after feeding a fresh buffer one chunk at a
/// time.
pub open spec fn scan_all(chunks: Seq<Seq<u8>>) -> (Seq<Seq<u8>>, Seq<u8>)
    decreases chunks.len(),
{
    if chunks.len() == 0 {
        (Seq::empty(), Seq::empty())
    } else {
        let prev = scan_all(chunks.drop_last());
        let step = scan_lines(prev.1, chunks.last());
        (prev.0 + step.0, step.1)
    }
}

/// Chunk boundaries do not matter: feeding a stream chunk by chunk yields
/// exactly the lines of the stream delivered as one piece, and leaves exactly
/// the one trailing unterminated line buffered.
pub proof fn lemma_chunk_boundaries_irrelevant(chunks: Seq<Seq<u8>>)
    ensures
        scan_all(chunks).0 == lines_of(concat_chunks(chunks)),
        scan_all(chunks).1 == line_rest_of(concat_chunks(chunks)),
    decreases chunks.len(),
{
    if chunks.len() == 0 {
        assert(scan_all(chunks).0 =~= lines_of(concat_chunks(chunks)));
    } else {
        lemma_chunk_boundaries_irrelevant(chunks.drop_last());
        lemma_scan_lines_append(Seq::empty(), concat_chunks(chunks.drop_last()), chunks.last());
    }
}

/// A byte the engine's lines are trimmed of before parsing.
pub open spec fn is_blank(b: u8) -> bool {
    b == 32 || b == 9 || b == 13 || b == 10
}

/// `s` without its leading blanks.
pub open spec fn trim_front(s: Seq<u8>) -> Seq<u8>
    decreases s.len(),
{
    if s.len() > 0 && is_blank(s[0]) {
        trim_front(s.skip(1))
    } else {
        s
    }
}

/// `s` without its trailing blanks.
pub open spec fn trim_back(s: Seq<u8>) -> Seq<u8>
    decreases s.len(),
{
    if s.len() > 0 && is_blank(s.last()) {
        trim_back(s.drop_last())
    } else {
        s
    }
}

/// A line as it is handed to the record parser: blanks stripped from both
/// ends.
pub open spec fn trimmed(s: Seq<u8>) -> Seq<u8> {
    trim_back(trim_front(s))
}

pub fn is_blank_byte(b: u8) -> (r: bool)
    ensures
        r == is_blank(b),
{
    b == 32 || b == 9 || b == 13 || b == 10
}

/// Strips blanks from both ends of a line.
pub fn trim_bytes(line: &Vec<u8>) -> (r: Vec<u8>)
    ensures
        r@ == trimmed(line@),
{
    let len = line.len();
    proof {
        assert(line@.skip(0) =~= line@);
    }
    let mut start: usize = 0;
    while start < len && is_blank_byte(line[start])
        invariant
            start <= len,
            len == line@.len(),
            trim_front(line@) == trim_front(line@.skip(start as int)),
        decreases len - start,
    {
        proof {
            assert(line@.skip(start as int).skip(1) =~= line@.skip(start as int + 1));
        }
        start = start + 1;
    }
    proof {
        if start == len {
            assert(line@.skip(start as int) =~= Seq::<u8>::empty());
        }
        assert(trim_front(line@) == line@.skip(start as int));
        assert(line@.skip(start as int) =~= line@.subrange(start as int, len as int));
    }
    let mut end: usize = len;
    while end > start && is_blank_byte(line[end - 1])
        invariant
            start <= end <= len,
            len == line@.len(),
            trim_back(line@.skip(start as int)) == trim_back(
                line@.subrange(start as int, end as int),
            ),
        decreases end,
    {
        proof {
            assert(line@.subrange(start as int, end as int).drop_last() =~= line@.subrange(
                start as int,
                end as int - 1,
            ));
        }
        end = end - 1;
    }
    proof {
        assert(trimmed(line@) == line@.subrange(start as int, end as int));
    }
    let mut out: Vec<u8> = Vec::new();
    let mut i: usize = start;
    while i < end
        invariant
            start <= i <= end,
            end <= len,
            len == line@.len(),
            out@ == line@.subrange(start as int, i as int),
        decreases end - i,
    {
        out.push(line[i]);
        i = i + 1;
        proof {
            assert(line@.subrange(start as int, i as int) =~= line@.subrange(
                start as int,
                i as int - 1,
            ).push(line@[i - 1]));
        }
    }
    out
}

/// How many of these lines have anything on them besides blanks. The
/// stale-instance probe reads a process listing this way: one non-blank
/// line per matching process.
pub open spec fn nonblank_line_count(lines: Seq<Seq<u8>>) -> int
    decreases lines.len(),
{
    if lines.len() == 0 {
        0
    } else {
        nonblank_line_count(lines.drop_last()) + if trimmed(lines.last()).len() > 0 {
            1int
        } else {
            0int
        }
    }
}

/// Counts the lines with anything on them besides blanks.
pub fn count_nonblank_lines(lines: &Vec<Vec<u8>>) -> (r: usize)
    ensures
        r == nonblank_line_count(lines.deep_view()),
{
    let ghost ls = lines.deep_view();
    let mut count: usize = 0;
    let mut i: usize = 0;
    proof {
        assert(ls.take(0) =~= Seq::<Seq<u8>>::empty());
    }
    while i < lines.len()
        invariant
            i <= lines@.len(),
            ls == lines.deep_view(),
            ls.len() == lines@.len(),
            count <= i,
            count == nonblank_line_count(ls.take(i as int)),
        decreases lines@.len() - i,
    {
        proof {
            assert(ls.take(i as int + 1).drop_last() =~= ls.take(i as int));
            assert(ls.take(i as int + 1).last() == ls[i as int]);
            assert(lines@[i as int].deep_view() =~= lines@[i as int]@);
        }
        let t = trim_bytes(&lines[i]);
        if t.len() > 0 {
            count = count + 1;
        }
        i = i + 1;
    }
    proof {
        assert(ls.take(ls.len() as int) =~= ls);
    }
    count
}

/// The rolling buffer behind every stream bridge. Its view is the bytes
/// still waiting for a line break.
pub struct LineBuffer {
    rest: Vec<u8>,
}

impl View for LineBuffer {
    type V = Seq<u8>;

    closed spec fn view(&self) -> Seq<u8> {
        self.rest@
    }
}

impl LineBuffer {
    pub fn new() -> (r: LineBuffer)
        ensures
            r@ == Seq::<u8>::empty(),
    {
        LineBuffer { rest: Vec::new() }
    }

    /// Appends one chunk and hands back every line it completed, in order.
    /// The bytes after the chunk's last line break stay buffered.
    pub fn push_chunk(&mut self, chunk: &[u8]) -> (lines: Vec<Vec<u8>>)
        ensures
            lines.deep_view() == scan_lines(old(self)@, chunk@).0,
            final(self)@ == scan_lines(old(self)@, chunk@).1,
    {
        let mut lines: Vec<Vec<u8>> = Vec::new();
        proof {
            assert(chunk@.take(0) =~= Seq::<u8>::empty());
            assert(lines.deep_view() =~~= Seq::<Seq<u8>>::empty());
        }
        let mut i: usize = 0;
        while i < chunk.len()
            invariant
                i <= chunk@.len(),
                lines.deep_view() == scan_lines(old(self)@, chunk@.take(i as int)).0,
                self.rest@ == scan_lines(old(self)@, chunk@.take(i as int)).1,
            decreases chunk@.len() - i,
        {
            let b = chunk[i];
            proof {
                let bs = seq![chunk@[i as int]];
                assert(chunk@.take(i as int + 1) =~= chunk@.take(i as int) + bs);
                lemma_scan_lines_append(old(self)@, chunk@.take(i as int), bs);
                lemma_scan_lines_single(self.rest@, chunk@[i as int]);
                if chunk@[i as int] != LINE_BREAK {
                    assert(scan_lines(old(self)@, chunk@.take(i as int)).0 + Seq::<Seq<u8>>::empty()
                        =~= scan_lines(old(self)@, chunk@.take(i as int)).0);
                }
            }
            if b == LINE_BREAK {
                let ghost prev_lines = lines.deep_view();
                let mut full: Vec<u8> = Vec::new();
                core::mem::swap(&mut self.rest, &mut full);
                lines.push(full);
                proof {
                    assert(lines.deep_view() =~~= prev_lines.push(full@));
                    assert(prev_lines + seq![full@] =~~= prev_lines.push(full@));
                }
            } else {
                self.rest.push(b);
            }
            i = i + 1;
        }
        proof {
            assert(chunk@.take(chunk@.len() as int) =~= chunk@);
        }
        lines
    }
}

} // verus!
