//! Write-back to the remote service: identifier allocation for fetched pages
//! and chunked submission of a mutation batch.
use crate::generate_id::{generate_stop_id, stop_id_of};
use crate::models::Stop;
use crate::query::{MutationArgs, MutationsData, StopData, StopWhere};
use vstd::prelude::*;

verus! {

/// Hands out identifiers of one pattern to fetched records, counting on
/// across pages.
pub struct IdAllocator {
    pattern: String,
    next: usize,
}

impl IdAllocator {
    pub closed spec fn pattern_view(&self) -> Seq<char> {
        self.pattern@
    }

    /// The index the next record gets.
    pub closed spec fn next_index(&self) -> nat {
        self.next as nat
    }

    /// The index the next record gets.
    pub fn next(&self) -> (r: usize)
        ensures
            r == self.next_index(),
    {
        self.next
    }

    pub fn new(pattern: String) -> (r: IdAllocator)
        ensures
            r.pattern_view() == pattern@,
            r.next_index() == 0,
    {
        IdAllocator { pattern, next: 0 }
    }

    /// The updates that give each record of `page`, in order, the next
    /// identifier of the pattern, each picked by the record's identity.
    pub fn assign_page(&mut self, page: &Vec<Stop>) -> (r: MutationArgs<StopData, StopWhere>)
        requires
            old(self).next_index() + page@.len() <= usize::MAX,
        ensures
            final(self).pattern_view() == old(self).pattern_view(),
            final(self).next_index() == old(self).next_index() + page@.len(),
            r.data@.len() == page@.len(),
            forall|i: int|
                0 <= i < page@.len() ==> (#[trigger] r.data@[i]).data.stop_id@ == stop_id_of(
                    old(self).pattern_view(),
                    (old(self).next_index() + i) as nat,
                ) && r.data@[i].wheres.id@ == page@[i].id@,
    {
        let mut data: Vec<MutationsData<StopData, StopWhere>> = Vec::new();
        let start = self.next;
        let mut i: usize = 0;
        while i < page.len()
            invariant
                i <= page@.len(),
                self.next == start + i,
                start + page@.len() <= usize::MAX,
                self.pattern == old(self).pattern,
                start == old(self).next,
                data@.len() == i,
                forall|j: int|
                    0 <= j < i ==> (#[trigger] data@[j]).data.stop_id@ == stop_id_of(
                        self.pattern@,
                        (start + j) as nat,
                    ) && data@[j].wheres.id@ == page@[j].id@,
            decreases page@.len() - i,
        {
            let stop_id = generate_stop_id(self.pattern.as_str(), self.next);
            let id = page[i].id.clone();
            data.push(MutationsData { data: StopData { stop_id }, wheres: StopWhere { id } });
            self.next = self.next + 1;
            i = i + 1;
        }
        MutationArgs { data }
    }
}

/// Number of chunks of size `c` that a batch of `m` updates is cut into.
pub open spec fn chunk_count(m: nat, c: nat) -> nat {
    ((m + c - 1) as nat / c) as nat
}

/// Bounds of chunk `k`: from `k * c` up to `(k + 1) * c` or the batch's end.
pub open spec fn chunk_range(m: nat, c: nat, k: nat) -> (nat, nat) {
    (k * c, if (k + 1) * c <= m {
        (k + 1) * c
    } else {
        m
    })
}

proof fn lemma_chunk_index(m: nat, c: nat, k: nat)
    requires
        c > 0,
    ensures
        (k * c < m) == (k < chunk_count(m, c)),
{
    let q = ((m + c - 1) as nat / c) as int;
    let r = ((m + c - 1) as nat % c) as int;
    vstd::arithmetic::div_mod::lemma_fundamental_div_mod((m + c - 1) as int, c as int);
    assert((k * c < m) == (k < q)) by (nonlinear_arith)
        requires
            m + c - 1 == c * q + r,
            0 <= r < c,
            c > 0,
            k >= 0,
    ;
}

pub ghost struct WriterView {
    pub len: nat,
    pub chunk_size: nat,
    pub issued: nat,
    pub failed: Seq<usize>,
}

impl WriterView {
    pub open spec fn wf(&self) -> bool {
        &&& self.chunk_size > 0
        &&& self.len <= usize::MAX
        &&& self.issued <= chunk_count(self.len, self.chunk_size)
        &&& forall|i: int| 0 <= i < self.failed.len() ==> self.failed[i] < self.issued
        &&& forall|i: int, j: int|
            0 <= i < j < self.failed.len() ==> self.failed[i] < self.failed[j]
    }

    /// The chunk to submit next, if any is left.
    pub open spec fn pending(&self) -> Option<(nat, nat)> {
        if self.issued < chunk_count(self.len, self.chunk_size) {
            Some(chunk_range(self.len, self.chunk_size, self.issued))
        } else {
            None
        }
    }

    /// The state once the pending chunk's call came back, successful or not.
    pub open spec fn after(&self, ok: bool) -> WriterView {
        WriterView {
            issued: self.issued + 1,
            failed: if ok {
                self.failed
            } else {
                self.failed.push(self.issued as usize)
            },
            ..*self
        }
    }
}

/// Submission of one mutation batch in chunks, one call per chunk. A failed
/// call is noted and the next chunk is still submitted.
pub struct BatchWriter {
    len: usize,
    chunk_size: usize,
    issued: usize,
    failed: Vec<usize>,
}

impl View for BatchWriter {
    type V = WriterView;

    closed spec fn view(&self) -> WriterView {
        WriterView {
            len: self.len as nat,
            chunk_size: self.chunk_size as nat,
            issued: self.issued as nat,
            failed: self.failed@,
        }
    }
}

impl BatchWriter {
    /// A writer for a batch of `len` updates in chunks of `chunk_size`.
    pub fn new(len: usize, chunk_size: usize) -> (r: BatchWriter)
        requires
            chunk_size > 0,
        ensures
            r@.wf(),
            r@.len == len,
            r@.chunk_size == chunk_size,
            r@.issued == 0,
            r@.failed.len() == 0,
    {
        BatchWriter { len, chunk_size, issued: 0, failed: Vec::new() }
    }

    /// Start of the pending chunk when there is one.
    fn pending_start(&self) -> (r: Option<usize>)
        requires
            self@.wf(),
        ensures
            match r {
                Some(a) => self@.issued < chunk_count(self@.len, self@.chunk_size) && a
                    == self@.issued * self@.chunk_size && a < self@.len,
                None => self@.issued >= chunk_count(self@.len, self@.chunk_size),
            },
    {
        proof {
            lemma_chunk_index(self.len as nat, self.chunk_size as nat, self.issued as nat);
            let a = self.issued as nat;
            let b = self.chunk_size as nat;
            assert(a * b <= usize::MAX * usize::MAX) by (nonlinear_arith)
                requires
                    a <= usize::MAX,
                    b <= usize::MAX,
            ;
        }
        let start: u128 = self.issued as u128 * self.chunk_size as u128;
        if start < self.len as u128 {
            Some(start as usize)
        } else {
            None
        }
    }

    /// The bounds of the chunk to submit next, or `None` when all were.
    pub fn next_range(&self) -> (r: Option<(usize, usize)>)
        requires
            self@.wf(),
        ensures
            match r {
                Some((a, b)) => self@.pending() == Some((a as nat, b as nat)),
                None => self@.pending() is None,
            },
    {
        match self.pending_start() {
            Some(start) => {
                proof {
                    assert((self.issued + 1) * self.chunk_size == start + self.chunk_size)
                        by (nonlinear_arith)
                        requires
                            start == self.issued * self.chunk_size,
                    ;
                }
                let end = if self.chunk_size <= self.len - start {
                    start + self.chunk_size
                } else {
                    self.len
                };
                Some((start, end))
            },
            None => None,
        }
    }

    /// Notes how the call for the pending chunk went.
    pub fn record(&mut self, ok: bool)
        requires
            old(self)@.wf(),
            old(self)@.pending() is Some,
        ensures
            final(self)@.wf(),
            final(self)@ == old(self)@.after(ok),
    {
        proof {
            lemma_chunk_index(self.len as nat, self.chunk_size as nat, self.issued as nat);
            assert(self.issued * self.chunk_size >= self.issued) by (nonlinear_arith)
                requires
                    self.chunk_size > 0,
            ;
        }
        let ghost before = self.failed@;
        assert(before == self@.failed);
        assert(forall|i: int| 0 <= i < before.len() ==> before[i] < self.issued);
        if !ok {
            self.failed.push(self.issued);
            assert forall|i: int, j: int|
                0 <= i < j < self.failed@.len() implies self.failed@[i] < self.failed@[j] by {
                if j == before.len() {
                    assert(self.failed@[i] == before[i]);
                } else {
                    assert(self.failed@[i] == before[i] && self.failed@[j] == before[j]);
                }
            }
        }
        self.issued = self.issued + 1;
    }

    /// Chunks whose call failed, in order.
    pub fn failed(&self) -> (r: &Vec<usize>)
        ensures
            r@ == self@.failed,
    {
        &self.failed
    }

    /// Whether every call succeeded.
    pub fn all_succeeded(&self) -> (r: bool)
        ensures
            r == (self@.failed.len() == 0),
    {
        self.failed.len() == 0
    }
}

/// The chunks of a batch of `m` updates with chunk size `c` are
/// `ceil(m / c)` non-empty ranges that follow each other and cover the
/// batch, from 0 to `m`.
pub proof fn lemma_chunks_tile(m: nat, c: nat)
    requires
        c > 0,
    ensures
        chunk_count(m, c) == (m + c - 1) as nat / c,
        (chunk_count(m, c) == 0) == (m == 0),
        chunk_count(m, c) > 0 ==> chunk_range(m, c, 0).0 == 0,
        chunk_count(m, c) > 0 ==> chunk_range(m, c, (chunk_count(m, c) - 1) as nat).1 == m,
        forall|k: nat|
            k < chunk_count(m, c) ==> (#[trigger] chunk_range(m, c, k)).0 < chunk_range(
                m,
                c,
                k,
            ).1 <= m,
        forall|k: nat|
            k + 1 < chunk_count(m, c) ==> (#[trigger] chunk_range(m, c, k)).1 == chunk_range(
                m,
                c,
                k + 1,
            ).0,
{
    let n = chunk_count(m, c);
    lemma_chunk_index(m, c, 0);
    lemma_chunk_index(m, c, n);
    assert forall|k: nat| k < chunk_count(m, c) implies (#[trigger] chunk_range(m, c, k)).0
        < chunk_range(m, c, k).1 <= m by {
        lemma_chunk_index(m, c, k);
        assert(k * c < (k + 1) * c) by (nonlinear_arith)
            requires
                c > 0,
        ;
    }
    assert forall|k: nat| k + 1 < chunk_count(m, c) implies (#[trigger] chunk_range(
        m,
        c,
        k,
    )).1 == chunk_range(m, c, k + 1).0 by {
        lemma_chunk_index(m, c, k + 1);
    }
    if n > 0 {
        assert(((n - 1) as nat + 1) * c == n * c);
    }
}

/// The writer's state after the calls whose outcomes are `oks`, in order.
pub open spec fn run_writer(w: WriterView, oks: Seq<bool>) -> WriterView
    decreases oks.len(),
{
    if oks.len() == 0 {
        w
    } else {
        run_writer(w.after(oks[0]), oks.drop_first())
    }
}

/// Whatever the outcome of each call, every call moves the writer on by one
/// chunk: after a failed chunk the next chunk is still pending, so a batch
/// takes exactly `chunk_count` calls.
pub proof fn lemma_every_chunk_submitted(w: WriterView, oks: Seq<bool>)
    requires
        w.wf(),
        w.issued + oks.len() <= chunk_count(w.len, w.chunk_size),
    ensures
        run_writer(w, oks).issued == w.issued + oks.len(),
        run_writer(w, oks).wf(),
        w.issued + oks.len() < chunk_count(w.len, w.chunk_size) ==> run_writer(w, oks).pending()
            == Some(chunk_range(w.len, w.chunk_size, w.issued + oks.len())),
        w.issued + oks.len() == chunk_count(w.len, w.chunk_size) ==> run_writer(
            w,
            oks,
        ).pending() is None,
    decreases oks.len(),
{
    if oks.len() > 0 {
        lemma_chunk_index(w.len, w.chunk_size, w.len);
        assert(w.len * w.chunk_size >= w.len) by (nonlinear_arith)
            requires
                w.chunk_size > 0,
        ;
        let v = w.after(oks[0]);
        assert(v.wf()) by {
            if !oks[0] {
                assert forall|i: int, j: int|
                    0 <= i < j < v.failed.len() implies v.failed[i] < v.failed[j] by {
                    if j == w.failed.len() {
                        assert(v.failed[i] == w.failed[i]);
                        assert(v.failed[j] == w.issued as usize);
                    } else {
                        assert(v.failed[i] == w.failed[i] && v.failed[j] == w.failed[j]);
                    }
                }
            }
        }
        lemma_every_chunk_submitted(v, oks.drop_first());
    }
}

/// A failed call leaves the writer with the same next chunk as a successful
/// one; it only adds the chunk to the failure list.
pub proof fn lemma_failure_continues(w: WriterView)
    requires
        w.wf(),
        w.pending() is Some,
    ensures
        w.after(false).pending() == w.after(true).pending(),
        w.after(false).failed == w.failed.push(w.issued as usize),
        w.issued + 1 < chunk_count(w.len, w.chunk_size) ==> w.after(false).pending() == Some(
            chunk_range(w.len, w.chunk_size, w.issued + 1),
        ),
{
}

} // verus!
