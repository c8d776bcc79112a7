//! Running a batch of tool calls: the calls and outcomes, the outcome of a
//! call by what its tool gave (or that no tool answers it), how outcomes of
//! calls run out of order are put back in the order of the calls, and the
//! outcome of a call that never ran.
use vstd::prelude::*;
use vstd::string::StringExecFns;

verus! {

/// A tool call to run, with its arguments as a JSON object text.
pub struct ToolCallExecution {
    pub id: String,
    pub name: String,
    pub args: String,
}

/// What running one tool call gave; `result` is JSON text.
#[derive(Debug, Clone)]
pub struct ToolCallOutcome {
    pub id: String,
    pub name: String,
    pub ok: bool,
    pub result: Option<String>,
    pub error: Option<String>,
    pub duration_ms: u64,
}

/// An equal copy of an outcome.
pub fn copy_outcome(o: &ToolCallOutcome) -> (c: ToolCallOutcome)
    ensures
        c == *o,
{
    ToolCallOutcome {
        id: o.id.clone(),
        name: o.name.clone(),
        ok: o.ok,
        result: match &o.result {
            Some(r) => Some(r.clone()),
            None => None,
        },
        error: match &o.error {
            Some(e) => Some(e.clone()),
            None => None,
        },
        duration_ms: o.duration_ms,
    }
}

/// The outcome of a call skipped because its batch was cancelled.
pub fn aborted_outcome(call: &ToolCallExecution) -> (o: ToolCallOutcome)
    ensures
        o.id == call.id,
        o.name == call.name,
        !o.ok,
        o.result is None,
        o.error matches Some(e) && e@ == "Tool batch aborted"@,
        o.duration_ms == 0,
{
    ToolCallOutcome {
        id: call.id.clone(),
        name: call.name.clone(),
        ok: false,
        result: None,
        error: Some(String::from_str("Tool batch aborted")),
        duration_ms: 0,
    }
}

/// The text `format!("{:?}", s)` gives for a string: the string in double
/// quotes, with the escapes of `Debug`.
pub uninterp spec fn str_debug(s: Seq<char>) -> Seq<char>;

/// Formats a string with `{:?}`; named `str_debug`.
#[verifier::external_body]
fn debug_str(s: &str) -> (r: String)
    ensures
        r@ == str_debug(s@),
{
    format!("{:?}", s)
}

/// The outcome of a call that no tool answers to, found after `duration_ms`.
pub fn not_found_outcome(call: &ToolCallExecution, duration_ms: u64) -> (o: ToolCallOutcome)
    ensures
        o.id == call.id,
        o.name == call.name,
        !o.ok,
        o.result is None,
        o.error matches Some(e) && e@ == "Tool "@ + str_debug(call.name@) + " not found"@,
        o.duration_ms == duration_ms,
{
    let mut e = String::from_str("Tool ");
    e.append(debug_str(call.name.as_str()).as_str());
    e.append(" not found");
    ToolCallOutcome { id: call.id.clone(), name: call.name.clone(), ok: false, result: None, error: Some(e), duration_ms }
}

/// The outcome of a call its tool ran for `duration_ms`: successful exactly
/// when the tool gave a result (its JSON text), else carrying the tool's error.
pub fn finished_outcome(call: &ToolCallExecution, result: Result<String, String>, duration_ms: u64) -> (o:
    ToolCallOutcome)
    ensures
        o.id == call.id,
        o.name == call.name,
        o.duration_ms == duration_ms,
        match result {
            Ok(r) => o.ok && o.result == Some(r) && o.error is None,
            Err(e) => !o.ok && o.result is None && o.error == Some(e),
        },
{
    match result {
        Ok(r) => ToolCallOutcome {
            id: call.id.clone(),
            name: call.name.clone(),
            ok: true,
            result: Some(r),
            error: None,
            duration_ms,
        },
        Err(e) => ToolCallOutcome {
            id: call.id.clone(),
            name: call.name.clone(),
            ok: false,
            result: None,
            error: Some(e),
            duration_ms,
        },
    }
}

/// Runs calls one at a time, in order.
#[derive(Debug, Clone, Copy)]
pub struct SerialToolRunner;

impl Default for SerialToolRunner {
    fn default() -> (r: Self) {
        SerialToolRunner
    }
}

/// Runs calls concurrently, at most `max_concurrency` at once.
#[derive(Debug, Clone, Copy)]
pub struct ParallelToolRunner {
    pub max_concurrency: usize,
}

impl ParallelToolRunner {
    /// A runner with the given bound, which must be at least one.
    pub fn new(max_concurrency: usize) -> (r: Self)
        requires
            max_concurrency >= 1,
        ensures
            r.max_concurrency == max_concurrency,
    {
        ParallelToolRunner { max_concurrency }
    }
}

impl Default for ParallelToolRunner {
    /// Four at once.
    fn default() -> (r: Self)
        ensures
            r.max_concurrency == 4,
    {
        ParallelToolRunner { max_concurrency: 4 }
    }
}

/// Each of the `n` call positions has exactly one outcome.
pub open spec fn is_index_permutation(indexed: Seq<(usize, ToolCallOutcome)>, n: nat) -> bool {
    &&& indexed.len() == n
    &&& forall|k: int| 0 <= k < indexed.len() ==> (#[trigger] indexed[k]).0 < n
    &&& forall|k: int, l: int|
        0 <= k < l < indexed.len() ==> (#[trigger] indexed[k]).0 != (#[trigger] indexed[l]).0
}

/// Outcomes gathered in the order the calls finished, put back in the order
/// of the calls: the outcome tagged with position `i` comes `i`-th.
pub fn order_by_index(indexed: Vec<(usize, ToolCallOutcome)>, n: usize) -> (out: Vec<ToolCallOutcome>)
    requires
        is_index_permutation(indexed@, n as nat),
    ensures
        out@.len() == n,
        forall|k: int| 0 <= k < n ==> out@[(#[trigger] indexed@[k]).0 as int] == indexed@[k].1,
{
    let mut slots: Vec<Option<ToolCallOutcome>> = Vec::new();
    let mut i: usize = 0;
    while i < n
        invariant
            i <= n,
            slots@.len() == i,
            forall|j: int| 0 <= j < i ==> slots@[j] is None,
        decreases n - i,
    {
        slots.push(None);
        i = i + 1;
    }
    let mut k: usize = 0;
    while k < indexed.len()
        invariant
            is_index_permutation(indexed@, n as nat),
            k <= indexed@.len(),
            slots@.len() == n,
            forall|j: int| 0 <= j < k ==> slots@[(#[trigger] indexed@[j]).0 as int] == Some(indexed@[j].1),
            forall|p: int|
                0 <= p < n ==> (slots@[p] is Some <==> exists|j: int|
                    0 <= j < k && (#[trigger] indexed@[j]).0 == p),
        decreases indexed@.len() - k,
    {
        let pos = indexed[k].0;
        let o = copy_outcome(&indexed[k].1);
        let ghost before = slots@;
        slots.set(pos, Some(o));
        proof {
            assert forall|j: int| 0 <= j < k + 1 implies slots@[(#[trigger] indexed@[j]).0 as int]
                == Some(indexed@[j].1) by {
                if j < k {
                    assert(indexed@[j].0 != indexed@[k as int].0);
                }
            }
            assert forall|p: int|
                0 <= p < n implies (slots@[p] is Some <==> exists|j: int|
                0 <= j < k + 1 && (#[trigger] indexed@[j]).0 == p) by {
                if p == pos as int {
                    assert(indexed@[k as int].0 == p);
                } else {
                    assert(slots@[p] == before[p]);
                    if exists|j: int| 0 <= j < k + 1 && (#[trigger] indexed@[j]).0 == p {
                        let j = choose|j: int| 0 <= j < k + 1 && (#[trigger] indexed@[j]).0 == p;
                        assert(j < k);
                    }
                }
            }
        }
        k = k + 1;
    }
    let mut out: Vec<ToolCallOutcome> = Vec::new();
    let mut p: usize = 0;
    while p < n
        invariant
            is_index_permutation(indexed@, n as nat),
            p <= n,
            slots@.len() == n,
            out@.len() == p,
            forall|j: int| 0 <= j < n ==> slots@[(#[trigger] indexed@[j]).0 as int] == Some(indexed@[j].1),
            forall|q: int|
                0 <= q < n ==> (slots@[q] is Some <==> exists|j: int|
                    0 <= j < n && (#[trigger] indexed@[j]).0 == q),
            forall|q: int| 0 <= q < p ==> slots@[q] == Some(#[trigger] out@[q]),
        decreases n - p,
    {
        proof {
            let q = p as int;
            assert(exists|j: int| 0 <= j < n && (#[trigger] indexed@[j]).0 == q) by {
                // every position is taken: n outcomes, distinct positions below n
                crate::tool_runner::lemma_positions_cover(indexed@, n as nat, q);
            }
        }
        let o = match &slots[p] {
            Some(o) => copy_outcome(o),
            None => {
                assert(false);
                aborted_outcome(&ToolCallExecution { id: String::new(), name: String::new(), args: String::new() })
            },
        };
        out.push(o);
        p = p + 1;
    }
    proof {
        assert forall|k: int| 0 <= k < n implies out@[(#[trigger] indexed@[k]).0 as int] == indexed@[k].1 by {
            let q = indexed@[k].0 as int;
            assert(slots@[q] == Some(out@[q]));
        }
    }
    out
}

/// `n` distinct positions below `n` take every position below `n`.
pub proof fn lemma_positions_cover(indexed: Seq<(usize, ToolCallOutcome)>, n: nat, q: int)
    requires
        is_index_permutation(indexed, n),
        0 <= q < n,
    ensures
        exists|j: int| 0 <= j < n && (#[trigger] indexed[j]).0 == q,
{
    let positions = indexed.map_values(|e: (usize, ToolCallOutcome)| e.0 as int);
    let s = positions.to_set();
    assert(positions.no_duplicates()) by {
        assert forall|a: int, b: int| 0 <= a < positions.len() && 0 <= b < positions.len() && a != b implies positions[a] != positions[b] by {
            if a < b {
                assert(indexed[a].0 != indexed[b].0);
            } else {
                assert(indexed[b].0 != indexed[a].0);
            }
        }
    }
    positions.unique_seq_to_set();
    assert(s.len() == n);
    let full = Set::new(|x: int| 0 <= x < n);
    assert(s.subset_of(full));
    vstd::set_lib::lemma_int_range(0, n as int);
    assert(full =~= vstd::set_lib::set_int_range(0, n as int));
    if !s.contains(q) {
        vstd::set_lib::lemma_len_subset(s, full.remove(q));
        assert(full.remove(q).len() == n - 1);
        assert(false);
    }
    let j = choose|j: int| 0 <= j < positions.len() && positions[j] == q;
    assert(indexed[j].0 == q);
}

} // verus!
