//! Chunked execution: which instances run together, in which order, and
//! how the outcomes of each chunk are gathered.
use vstd::prelude::*;
use crate::progress::CommandStatus;
use crate::wildfly::AdminContainer;

verus! {

/// The number of chunks for `n` instances and chunk size `c`: one chunk
/// with everything when `c` is 0, else `ceil(n / c)`.
pub open spec fn chunk_count(n: nat, c: nat) -> nat {
    if c == 0 {
        1
    } else {
        ((n + c - 1) as int / c as int) as nat
    }
}

/// Chunk `k` as a half-open range of positions: `[0, n)` when `c` is 0,
/// else `[k * c, min((k + 1) * c, n))`.
pub open spec fn chunk_bounds(n: nat, c: nat, k: nat) -> (nat, nat) {
    if c == 0 {
        (0, n)
    } else {
        let end = (k + 1) * c;
        (k * c, if end < n { end } else { n })
    }
}

/// Whether `ranges` is the chunk plan for `n` instances and chunk size `c`.
pub open spec fn is_chunk_plan(ranges: Seq<(usize, usize)>, n: nat, c: nat) -> bool {
    &&& ranges.len() == chunk_count(n, c)
    &&& forall|k: int|
        0 <= k < ranges.len() ==> ((#[trigger] ranges[k]).0 as nat, ranges[k].1 as nat)
            == chunk_bounds(n, c, k as nat)
}

proof fn lemma_chunk_count(n: int, c: int, k: int)
    requires
        c > 0,
        k >= 1,
        (k - 1) * c < n,
        n <= k * c,
    ensures
        (n + c - 1) / c == k,
{
    assert((k - 1) * c == k * c - c) by (nonlinear_arith);
    vstd::arithmetic::div_mod::lemma_fundamental_div_mod_converse(
        n + c - 1,
        c,
        k,
        n + c - 1 - k * c,
    );
}

/// Splits positions `0 .. n` into contiguous chunks of at most
/// `chunk_size`, in order; a chunk size of 0 gives one chunk.
pub fn chunk_ranges(n: usize, chunk_size: u16) -> (r: Vec<(usize, usize)>)
    ensures
        is_chunk_plan(r@, n as nat, chunk_size as nat),
        forall|k: int| 0 <= k < r.len() ==> (#[trigger] r@[k]).0 <= r@[k].1,
{
    let mut r: Vec<(usize, usize)> = Vec::new();
    if chunk_size == 0 {
        r.push((0, n));
        return r;
    }
    let c = chunk_size as usize;
    let mut start: usize = 0;
    assert(r.len() * c == 0) by (nonlinear_arith)
        requires
            r.len() == 0,
    ;
    while start < n
        invariant
            c == chunk_size as nat,
            c > 0,
            start <= n,
            r.len() * c <= n ==> start == r.len() * c,
            r.len() * c > n ==> start == n,
            r.len() == 0 || (r.len() - 1) * c < n,
            forall|k: int|
                0 <= k < r.len() ==> ((#[trigger] r@[k]).0 as nat, r@[k].1 as nat)
                    == chunk_bounds(n as nat, c as nat, k as nat),
            forall|k: int| 0 <= k < r.len() ==> (#[trigger] r@[k]).0 <= r@[k].1,
        decreases n - start,
    {
        let k = r.len();
        assert(start == k * c);
        let end: usize = if n - start > c {
            start + c
        } else {
            n
        };
        r.push((start, end));
        proof {
            assert((k + 1) * c == k * c + c) by (nonlinear_arith);
            assert(r@[k as int] == (start, end));
        }
        start = end;
    }
    proof {
        if n == 0 {
            if r.len() > 0 {
                assert((r.len() - 1) * c >= 0) by (nonlinear_arith)
                    requires
                        r.len() >= 1,
                        c > 0,
                ;
            }
            assert(r.len() == 0);
            vstd::arithmetic::div_mod::lemma_fundamental_div_mod_converse(
                c as int - 1,
                c as int,
                0,
                c as int - 1,
            );
        } else {
            assert(r.len() >= 1);
            lemma_chunk_count(n as int, c as int, r.len() as int);
        }
    }
    r
}

/// The positions `start .. end`, in order.
pub open spec fn positions(start: nat, end: nat) -> Seq<nat> {
    Seq::new((end - start) as nat, |j: int| (start + j) as nat)
}

/// Whether the instance at a position runs: it is not a development build.
pub open spec fn runs(items: Seq<AdminContainer>) -> spec_fn(nat) -> bool {
    |i: nat| !items[i as int].wildfly_container.development
}

/// The positions of `start .. end` whose instance runs.
pub open spec fn runnable_spec(items: Seq<AdminContainer>, start: nat, end: nat) -> Seq<nat> {
    positions(start, end).filter(runs(items))
}

/// The positions in `start .. end` whose instance runs: development builds
/// are skipped and get no outcome.
pub fn runnable_in(items: &Vec<AdminContainer>, start: usize, end: usize) -> (r: Vec<usize>)
    requires
        start <= end <= items.len(),
    ensures
        r@.map_values(|i: usize| i as nat) == runnable_spec(items@, start as nat, end as nat),
{
    let mut r: Vec<usize> = Vec::new();
    for i in start..end
        invariant
            start <= end <= items.len(),
            r@.map_values(|x: usize| x as nat) == runnable_spec(items@, start as nat, i as nat),
    {
        let ghost before = positions(start as nat, i as nat);
        proof {
            assert(positions(start as nat, (i + 1) as nat) =~= before.push(i as nat));
            before.lemma_filter_push(i as nat, runs(items@));
        }
        if !items[i].wildfly_container.development {
            r.push(i);
        }
        assert(r@.map_values(|x: usize| x as nat) =~= runnable_spec(
            items@,
            start as nat,
            (i + 1) as nat,
        ));
    }
    r
}

/// Why a whole chunk gave no outcomes: its driver failed, not one of its
/// instances.
#[derive(Clone, Copy, Debug, PartialEq, Eq, Structural)]
pub struct ChunkFailure;

/// Positions `a .. b` followed by `b .. c` are positions `a .. c`, and so
/// are the runnable ones among them.
proof fn lemma_runnable_split(items: Seq<AdminContainer>, a: nat, b: nat, c: nat)
    requires
        a <= b <= c,
    ensures
        runnable_spec(items, a, c) == runnable_spec(items, a, b) + runnable_spec(items, b, c),
{
    assert(positions(a, c) =~= positions(a, b) + positions(b, c));
    Seq::filter_distributes_over_add(positions(a, b), positions(b, c), runs(items));
}

/// Fewer positions run than there are when one of them is a development
/// build.
proof fn lemma_runnable_strictly_fewer(items: Seq<AdminContainer>, n: nat, d: nat)
    requires
        d < n,
        items[d as int].wildfly_container.development,
    ensures
        runnable_spec(items, 0, n).len() < n,
{
    lemma_runnable_split(items, 0, d, n);
    lemma_runnable_split(items, d, d + 1, n);
    positions(0, d).lemma_filter_len(runs(items));
    positions(d + 1, n).lemma_filter_len(runs(items));
    assert(positions(d, d + 1) =~= Seq::<nat>::empty().push(d));
    Seq::<nat>::empty().lemma_filter_push(d, runs(items));
    assert(Seq::<nat>::empty().filter(runs(items)) =~= Seq::<nat>::empty()) by {
        reveal(Seq::filter);
    }
}

/// A chunked run over `total` instances: chunks run strictly one after
/// the other; the outcomes of a chunk are appended once it completes, and
/// a chunk that fails as a whole is dropped and counted.
pub struct ChunkedRun {
    pub total: usize,
    pub chunk_size: u16,
    pub ranges: Vec<(usize, usize)>,
    pub next: usize,
    pub outcomes: Vec<CommandStatus>,
    pub dropped: usize,
    /// The instances that the run goes over.
    pub items: Ghost<Seq<AdminContainer>>,
}

impl ChunkedRun {
    /// Where the chunks that have run end.
    pub open spec fn done_end(&self) -> nat {
        if self.next == 0 {
            0
        } else {
            self.ranges@[self.next - 1].1 as nat
        }
    }

    pub open spec fn wf(&self) -> bool {
        &&& self.items@.len() == self.total
        &&& is_chunk_plan(self.ranges@, self.total as nat, self.chunk_size as nat)
        &&& forall|k: int| 0 <= k < self.ranges.len() ==> (#[trigger] self.ranges@[k]).0 <= self.ranges@[k].1
        &&& self.next <= self.ranges.len()
        &&& self.done_end() <= self.total
        &&& self.outcomes.len() <= runnable_spec(self.items@, 0, self.done_end()).len()
        &&& self.dropped <= self.next
    }

    /// The number of instances of the current chunk that run.
    pub open spec fn current_runnable(&self) -> nat {
        let r = self.ranges@[self.next as int];
        runnable_spec(self.items@, r.0 as nat, r.1 as nat).len()
    }

    /// A run over `items` that has not started.
    pub fn new(items: &Vec<AdminContainer>, chunk_size: u16) -> (r: ChunkedRun)
        ensures
            r.wf(),
            r.items@ == items@,
            r.total == items.len(),
            r.chunk_size == chunk_size,
            r.ranges.len() == chunk_count(items.len() as nat, chunk_size as nat),
            r.next == 0,
            r.outcomes@ == Seq::<CommandStatus>::empty(),
            r.dropped == 0,
    {
        ChunkedRun {
            total: items.len(),
            chunk_size,
            ranges: chunk_ranges(items.len(), chunk_size),
            next: 0,
            outcomes: Vec::new(),
            dropped: 0,
            items: Ghost(items@),
        }
    }

    /// The chunk to run next, or `None` once every chunk has run.
    pub fn next_chunk(&self) -> (r: Option<(usize, usize)>)
        requires
            self.wf(),
        ensures
            self.next < self.ranges.len() ==> r == Some(self.ranges@[self.next as int]),
            self.next >= self.ranges.len() ==> r is None,
    {
        if self.next < self.ranges.len() {
            Some(self.ranges[self.next])
        } else {
            None
        }
    }

    /// Records the result of the current chunk, which yields at most one
    /// outcome per instance that runs, and moves on to the next chunk.
    pub fn record(&mut self, result: Result<Vec<CommandStatus>, ChunkFailure>)
        requires
            old(self).wf(),
            old(self).next < old(self).ranges.len(),
            result matches Ok(v) ==> v.len() <= old(self).current_runnable(),
        ensures
            final(self).wf(),
            final(self).items == old(self).items,
            final(self).total == old(self).total,
            final(self).chunk_size == old(self).chunk_size,
            final(self).ranges == old(self).ranges,
            final(self).next == old(self).next + 1,
            result matches Ok(v) ==> final(self).outcomes@ == old(self).outcomes@ + v@
                && final(self).dropped == old(self).dropped,
            result is Err ==> final(self).outcomes@ == old(self).outcomes@ && final(self).dropped
                == old(self).dropped + 1,
    {
        let ghost k = self.next as int;
        let ghost n = self.total as nat;
        let ghost c = self.chunk_size as nat;
        let ghost old_end = self.done_end();
        proof {
            let b = chunk_bounds(n, c, k as nat);
            assert(self.ranges@[k].0 == b.0 && self.ranges@[k].1 == b.1);
            if k > 0 {
                let p = chunk_bounds(n, c, (k - 1) as nat);
                assert(self.ranges@[k - 1].1 == p.1);
                if c > 0 {
                    assert(k * c == (k - 1) * c + c) by (nonlinear_arith);
                }
            }
            assert(self.ranges@[k].0 >= old_end);
            lemma_runnable_split(self.items@, 0, old_end, self.ranges@[k].1 as nat);
            lemma_runnable_split(
                self.items@,
                old_end,
                self.ranges@[k].0 as nat,
                self.ranges@[k].1 as nat,
            );
        }
        match result {
            Ok(v) => {
                let mut v = v;
                self.outcomes.append(&mut v);
            },
            Err(_) => {
                self.dropped = self.dropped + 1;
            },
        }
        self.next = self.next + 1;
    }

    /// Whether every chunk has run.
    pub fn is_done(&self) -> (r: bool)
        requires
            self.wf(),
        ensures
            r == (self.next >= self.ranges.len()),
    {
        self.next >= self.ranges.len()
    }
}

/// A run's chunk plan has `ceil(n / c)` chunks, or one when the chunk size
/// is 0; it gathers at most one outcome per instance, and fewer outcomes
/// than instances when one of them is a development build.
pub proof fn lemma_run_bounds(run: ChunkedRun)
    requires
        run.wf(),
    ensures
        run.ranges.len() == chunk_count(run.total as nat, run.chunk_size as nat),
        run.outcomes.len() <= run.total,
        (exists|d: int| 0 <= d < run.total && #[trigger] run.items@[d].wildfly_container.development)
            ==> run.outcomes.len() < run.total,
{
    let n = run.total as nat;
    lemma_runnable_split(run.items@, 0, run.done_end(), n);
    positions(0, n).lemma_filter_len(runs(run.items@));
    if exists|d: int| 0 <= d < run.total && #[trigger] run.items@[d].wildfly_container.development {
        let d = choose|d: int| 0 <= d < run.total && #[trigger] run.items@[d].wildfly_container.development;
        lemma_runnable_strictly_fewer(run.items@, n, d as nat);
    }
}

} // verus!
