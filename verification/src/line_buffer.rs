//! Framing of a byte stream into complete newline-terminated lines.
use vstd::prelude::*;

verus! {

/// No byte of `s` is a newline.
pub open spec fn no_newline(s: Seq<u8>) -> bool {
    forall|i: int| 0 <= i < s.len() ==> s[i] != 10u8
}

/// The lines glued back together with a newline between each two.
pub open spec fn join_lines(lines: Seq<Seq<u8>>) -> Seq<u8>
    decreases lines.len(),
{
    if lines.len() == 0 {
        Seq::empty()
    } else if lines.len() == 1 {
        lines[0]
    } else {
        join_lines(lines.drop_last()) + seq![10u8] + lines.last()
    }
}

/// The byte contents of each line.
pub open spec fn line_views(lines: Seq<Vec<u8>>) -> Seq<Seq<u8>> {
    lines.map_values(|l: Vec<u8>| l@)
}

/// `lines` is `s` cut at every newline: gluing them back with newlines gives
/// `s`, and no line holds a newline.
pub open spec fn splits(s: Seq<u8>, lines: Seq<Seq<u8>>) -> bool {
    &&& lines.len() >= 1
    &&& join_lines(lines) == s
    &&& forall|i: int| 0 <= i < lines.len() ==> no_newline(#[trigger] lines[i])
}

/// The lines, each followed by its newline.
pub open spec fn terminated(lines: Seq<Seq<u8>>) -> Seq<u8>
    decreases lines.len(),
{
    if lines.len() == 0 {
        Seq::empty()
    } else {
        terminated(lines.drop_last()) + lines.last() + seq![10u8]
    }
}

/// No line holds a newline.
pub open spec fn all_without_newline(lines: Seq<Seq<u8>>) -> bool {
    forall|i: int| 0 <= i < lines.len() ==> no_newline(#[trigger] lines[i])
}

/// One `push`: with `pending` held, `chunk` arrives, `lines` come out and
/// `rest` is held: the lines with their newlines, then the rest, are the
/// held bytes and the chunk, and neither a line nor the rest holds a newline.
pub open spec fn push_step(pending: Seq<u8>, chunk: Seq<u8>, lines: Seq<Seq<u8>>, rest: Seq<u8>) -> bool {
    &&& terminated(lines) + rest == pending + chunk
    &&& no_newline(rest)
    &&& all_without_newline(lines)
}

/// The complete lines of a byte string (the pieces between its newlines,
/// up to the last one) and the bytes after its last newline.
pub open spec fn framing(s: Seq<u8>) -> (Seq<Seq<u8>>, Seq<u8>)
    decreases s.len(),
{
    if s.len() == 0 {
        (Seq::empty(), Seq::empty())
    } else {
        let (lines, tail) = framing(s.drop_last());
        if s.last() == 10u8 {
            (lines.push(tail), Seq::empty())
        } else {
            (lines, tail.push(s.last()))
        }
    }
}

/// The chunks one after another.
pub open spec fn concat_chunks(chunks: Seq<Seq<u8>>) -> Seq<u8>
    decreases chunks.len(),
{
    if chunks.len() == 0 {
        Seq::empty()
    } else {
        concat_chunks(chunks.drop_last()) + chunks.last()
    }
}

/// The lines of each call, one call after another.
pub open spec fn concat_lines(outs: Seq<Seq<Seq<u8>>>) -> Seq<Seq<u8>>
    decreases outs.len(),
{
    if outs.len() == 0 {
        Seq::empty()
    } else {
        concat_lines(outs.drop_last()) + outs.last()
    }
}

proof fn lemma_terminated_join(lines: Seq<Seq<u8>>)
    requires
        lines.len() >= 1,
    ensures
        terminated(lines) == join_lines(lines) + seq![10u8],
    decreases lines.len(),
{
    if lines.len() == 1 {
        assert(lines.drop_last() =~= Seq::<Seq<u8>>::empty());
        assert(terminated(lines.drop_last()) == Seq::<u8>::empty());
        assert(lines.last() == lines[0]);
        assert(terminated(lines) =~= lines[0] + seq![10u8]);
    } else {
        lemma_terminated_join(lines.drop_last());
        assert(terminated(lines) =~= join_lines(lines) + seq![10u8]);
    }
}

proof fn lemma_terminated_append(a: Seq<Seq<u8>>, b: Seq<Seq<u8>>)
    ensures
        terminated(a + b) == terminated(a) + terminated(b),
    decreases b.len(),
{
    if b.len() == 0 {
        assert(a + b =~= a);
        assert(terminated(a) + terminated(b) =~= terminated(a));
    } else {
        lemma_terminated_append(a, b.drop_last());
        assert((a + b).drop_last() =~= a + b.drop_last());
        assert((a + b).last() == b.last());
        assert(terminated(a + b) =~= terminated(a) + terminated(b));
    }
}

/// A byte string has one way only of being complete lines, each with its
/// newline, followed by bytes without a newline: its framing.
pub proof fn lemma_framing_unique(lines: Seq<Seq<u8>>, rest: Seq<u8>)
    requires
        all_without_newline(lines),
        no_newline(rest),
    ensures
        framing(terminated(lines) + rest) == (lines, rest),
    decreases lines.len(), rest.len(),
{
    let s = terminated(lines) + rest;
    if rest.len() > 0 {
        assert(s.drop_last() =~= terminated(lines) + rest.drop_last());
        assert(s.last() == rest.last());
        lemma_framing_unique(lines, rest.drop_last());
        assert(rest.drop_last().push(rest.last()) =~= rest);
    } else if lines.len() > 0 {
        let front = lines.drop_last();
        assert forall|i: int| 0 <= i < front.len() implies no_newline(#[trigger] front[i]) by {
            assert(front[i] == lines[i]);
        }
        assert(no_newline(lines.last()));
        assert(s =~= terminated(front) + lines.last() + seq![10u8]);
        assert(s.drop_last() =~= terminated(front) + lines.last());
        lemma_framing_unique(front, lines.last());
        assert(front.push(lines.last()) =~= lines);
    } else {
        assert(s =~= Seq::<u8>::empty());
    }
}

proof fn lemma_pushes_prefix(
    chunks: Seq<Seq<u8>>,
    outs: Seq<Seq<Seq<u8>>>,
    held: Seq<Seq<u8>>,
    n: int,
)
    requires
        0 <= n <= chunks.len(),
        outs.len() == chunks.len(),
        held.len() == chunks.len() + 1,
        held[0] == Seq::<u8>::empty(),
        forall|i: int| 0 <= i < chunks.len() ==> push_step(held[i], chunks[i], #[trigger] outs[i], held[i + 1]),
    ensures
        terminated(concat_lines(outs.take(n))) + held[n] == concat_chunks(chunks.take(n)),
        all_without_newline(concat_lines(outs.take(n))),
        no_newline(held[n]),
    decreases n,
{
    if n == 0 {
        assert(outs.take(0) =~= Seq::<Seq<Seq<u8>>>::empty());
        assert(chunks.take(0) =~= Seq::<Seq<u8>>::empty());
        assert(terminated(concat_lines(outs.take(0))) + held[0] =~= Seq::<u8>::empty());
    } else {
        lemma_pushes_prefix(chunks, outs, held, n - 1);
        let before = concat_lines(outs.take(n - 1));
        assert(outs.take(n).drop_last() =~= outs.take(n - 1));
        assert(chunks.take(n).drop_last() =~= chunks.take(n - 1));
        assert(push_step(held[n - 1], chunks[n - 1], outs[n - 1], held[n]));
        lemma_terminated_append(before, outs[n - 1]);
        assert(concat_lines(outs.take(n)) == before + outs[n - 1]);
        assert(terminated(concat_lines(outs.take(n))) + held[n] =~= terminated(before) + (terminated(
            outs[n - 1],
        ) + held[n]));
        assert(concat_chunks(chunks.take(n)) == concat_chunks(chunks.take(n - 1)) + chunks[n - 1]);
        let all = before + outs[n - 1];
        assert forall|i: int| 0 <= i < all.len() implies no_newline(#[trigger] all[i]) by {
            if i < before.len() {
                assert(all[i] == before[i]);
            } else {
                assert(all[i] == outs[n - 1][i - before.len()]);
            }
        }
    }
}

/// However a byte stream is cut into chunks, pushing the chunks one after
/// another into a new buffer hands out, over all the calls, exactly the
/// complete lines of the whole stream, in order, and holds exactly the bytes
/// after its last newline: `held[i]` is what the buffer holds before the
/// call that takes `chunks[i]`, and `outs[i]` what that call returns.
pub proof fn lemma_pushes_frame_the_stream(chunks: Seq<Seq<u8>>, outs: Seq<Seq<Seq<u8>>>, held: Seq<Seq<u8>>)
    requires
        outs.len() == chunks.len(),
        held.len() == chunks.len() + 1,
        held[0] == Seq::<u8>::empty(),
        forall|i: int| 0 <= i < chunks.len() ==> push_step(held[i], chunks[i], #[trigger] outs[i], held[i + 1]),
    ensures
        framing(concat_chunks(chunks)) == (concat_lines(outs), held.last()),
{
    let n = chunks.len() as int;
    lemma_pushes_prefix(chunks, outs, held, n);
    assert(outs.take(n) =~= outs);
    assert(chunks.take(n) =~= chunks);
    lemma_framing_unique(concat_lines(outs), held[n]);
}

/// Holds the bytes after the last newline until the rest of their line arrives.
pub struct LineBuffer {
    pending: Vec<u8>,
}

impl LineBuffer {
    /// The bytes received after the last newline.
    pub closed spec fn pending(&self) -> Seq<u8> {
        self.pending@
    }

    /// A buffer holding nothing.
    pub fn new() -> (b: LineBuffer)
        ensures
            b.pending() == Seq::<u8>::empty(),
    {
        LineBuffer { pending: Vec::new() }
    }

    /// Adds `chunk` and returns every line it completes, without their
    /// newlines. Bytes after the last newline wait for the next chunk, so a
    /// line split across chunks (even inside a UTF-8 sequence) comes out whole.
    pub fn push(&mut self, chunk: &[u8]) -> (lines: Vec<Vec<u8>>)
        requires
            no_newline(old(self).pending()),
            old(self).pending().len() + chunk@.len() <= usize::MAX,
        ensures
            no_newline(final(self).pending()),
            push_step(old(self).pending(), chunk@, line_views(lines@), final(self).pending()),
            no_newline(old(self).pending() + chunk@) ==> {
                &&& lines@.len() == 0
                &&& final(self).pending() == old(self).pending() + chunk@
            },
            !no_newline(old(self).pending() + chunk@) ==> {
                &&& splits(
                    (old(self).pending() + chunk@).subrange(
                        0,
                        (old(self).pending() + chunk@).len() - final(self).pending().len() - 1,
                    ),
                    line_views(lines@),
                )
                &&& join_lines(line_views(lines@)) + seq![10u8] + final(self).pending() == old(
                    self,
                ).pending() + chunk@
            },
    {
        let ghost all = self.pending@ + chunk@;
        let mut i: usize = 0;
        while i < chunk.len()
            invariant
                i <= chunk@.len(),
                self.pending@ == all.subrange(0, all.len() - chunk@.len() + i),
                all == old(self).pending() + chunk@,
            decreases chunk@.len() - i,
        {
            self.pending.push(chunk[i]);
            assert(all.subrange(0, all.len() - chunk@.len() + i + 1) == all.subrange(
                0,
                all.len() - chunk@.len() + i,
            ).push(chunk@[i as int]));
            i = i + 1;
        }
        assert(self.pending@ == all);
        let n = self.pending.len();
        // Find the last newline.
        let mut k: usize = n;
        while k > 0
            invariant
                k <= n,
                n == all.len(),
                self.pending@ == all,
                forall|j: int| k <= j < n ==> all[j] != 10u8,
            ensures
                k <= n,
                self.pending@ == all,
                forall|j: int| k <= j < n ==> all[j] != 10u8,
                k == 0 || all[k - 1] == 10u8,
            decreases k,
        {
            if self.pending[k - 1] == 10u8 {
                break;
            }
            k = k - 1;
        }
        if k == 0 {
            let none: Vec<Vec<u8>> = Vec::new();
            assert(line_views(none@) =~= Seq::<Seq<u8>>::empty());
            assert(terminated(line_views(none@)) + self.pending@ =~= all);
            return none;
        }
        let last = k - 1;
        assert(all[last as int] == 10u8);
        let mut lines: Vec<Vec<u8>> = Vec::new();
        let mut cur: Vec<u8> = Vec::new();
        let mut j: usize = 0;
        assert(line_views(lines@).push(cur@) =~= seq![Seq::<u8>::empty()]);
        assert(all.subrange(0, 0) =~= Seq::<u8>::empty());
        while j < last
            invariant
                j <= last,
                last < n,
                n == all.len(),
                self.pending@ == all,
                splits(all.subrange(0, j as int), line_views(lines@).push(cur@)),
            decreases last - j,
        {
            let b = self.pending[j];
            let ghost before = line_views(lines@).push(cur@);
            if b == 10u8 {
                lines.push(cur);
                cur = Vec::new();
                proof {
                    let now = line_views(lines@).push(cur@);
                    assert(now.drop_last() == before);
                    assert(join_lines(now) == join_lines(before) + seq![10u8]);
                    assert(all.subrange(0, j + 1) == all.subrange(0, j as int).push(b));
                    assert(join_lines(now) == all.subrange(0, j + 1));
                    assert forall|t: int| 0 <= t < now.len() implies no_newline(#[trigger] now[t]) by {
                        if t < now.len() - 1 {
                            assert(now[t] == before[t]);
                        }
                    }
                }
            } else {
                cur.push(b);
                proof {
                    let now = line_views(lines@).push(cur@);
                    assert(now.drop_last() == before.drop_last());
                    assert(all.subrange(0, j + 1) == all.subrange(0, j as int).push(b));
                    if before.len() == 1 {
                        assert(join_lines(now) == now[0]);
                    } else {
                        assert(join_lines(now) == join_lines(before.drop_last()) + seq![10u8] + cur@);
                        assert(join_lines(before) == join_lines(before.drop_last()) + seq![10u8]
                            + before.last());
                    }
                    assert(join_lines(now) =~= all.subrange(0, j + 1));
                    assert forall|t: int| 0 <= t < now.len() implies no_newline(#[trigger] now[t]) by {
                        if t < now.len() - 1 {
                            assert(now[t] == before[t]);
                        }
                    }
                }
            }
            j = j + 1;
        }
        let ghost prior = line_views(lines@).push(cur@);
        assert(j == last);
        lines.push(cur);
        assert(line_views(lines@) =~= prior);
        assert(splits(all.subrange(0, last as int), line_views(lines@)));
        let rest = self.pending.split_off(k);
        self.pending = rest;
        proof {
            assert(self.pending@ =~= all.subrange(k as int, n as int));
            assert(all.subrange(0, last as int).push(10u8) + self.pending@ =~= all);
            assert(!no_newline(all));
            assert(self.pending@.len() == n - k);
            assert(all.len() - self.pending@.len() - 1 == last);
            lemma_terminated_join(line_views(lines@));
            assert(terminated(line_views(lines@)) + self.pending@ =~= all);
        }
        lines
    }
}

impl Default for LineBuffer {
    fn default() -> (b: LineBuffer)
        ensures
            b.pending() == Seq::<u8>::empty(),
    {
        LineBuffer::new()
    }
}

} // verus!
