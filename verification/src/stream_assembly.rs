//! Turning the lines of a streamed chat response into text chunks and
//! complete tool calls: the OpenAI server-sent events, where tool calls
//! arrive in fragments keyed by position, and Ollama's JSON lines.
use vstd::prelude::*;
use vstd::string::StringExecFns;
use crate::broker::StreamChunk;
use crate::json_text::{check_json_object, json_object_error};
use crate::models::LlmToolCall;
use crate::stream_events::{as_str, field_view, probe_json, str_value, text_vec, texts_view, json_fields, FieldView, JsonField};
use crate::text::{chars_of, decimal, decimal_string, occurs_at, starts_with_chars, trim, trim_ws, str_eq};

verus! {

/// A piece of a tool call in an OpenAI stream.
pub struct ToolCallFragment {
    pub index: Option<u64>,
    pub id: Option<String>,
    pub name: Option<String>,
    pub arguments: Option<String>,
}

/// What a stream event says of its first choice.
pub struct ChoiceDelta {
    pub content: Option<String>,
    pub finish_reason: Option<String>,
    pub tool_calls: Vec<ToolCallFragment>,
}

/// The text of an optional string.
pub open spec fn opt_view(s: Option<String>) -> Option<Seq<char>> {
    match s {
        Some(x) => Some(x@),
        None => None,
    }
}

/// A fragment's content.
pub struct FragmentView {
    pub index: Option<u64>,
    pub id: Option<Seq<char>>,
    pub name: Option<Seq<char>>,
    pub arguments: Option<Seq<char>>,
}

/// A first choice's content.
pub struct DeltaView {
    pub content: Option<Seq<char>>,
    pub finish_reason: Option<Seq<char>>,
    pub tool_calls: Seq<FragmentView>,
}

pub open spec fn fragment_view(f: ToolCallFragment) -> FragmentView {
    FragmentView { index: f.index, id: opt_view(f.id), name: opt_view(f.name), arguments: opt_view(f.arguments) }
}

pub open spec fn delta_view(d: Option<ChoiceDelta>) -> Option<DeltaView> {
    match d {
        Some(c) => Some(
            DeltaView {
                content: opt_view(c.content),
                finish_reason: opt_view(c.finish_reason),
                tool_calls: c.tool_calls@.map_values(|f: ToolCallFragment| fragment_view(f)),
            },
        ),
        None => None,
    }
}

/// A value that is a number fitting a `u64`.
pub open spec fn as_u64(f: FieldView) -> Option<u64> {
    match f {
        FieldView::Number(n, _) => n,
        _ => None,
    }
}

/// Where an OpenAI stream event is read: its choices, and the first
/// choice's text, finish reason and tool call fragments.
pub open spec fn choice_pointers() -> Seq<Seq<char>> {
    seq!["/choices"@, "/choices/0/delta/content"@, "/choices/0/finish_reason"@, "/choices/0/delta/tool_calls"@]
}

/// Where the `k`-th tool call fragment of the first choice is read.
pub open spec fn fragment_pointers(k: nat) -> Seq<Seq<char>> {
    let base = "/choices/0/delta/tool_calls/"@ + decimal(k);
    seq![base + "/index"@, base + "/id"@, base + "/function/name"@, base + "/function/arguments"@]
}

/// The `k`-th tool call fragment of an event: its `index`, `id`,
/// `function.name` and `function.arguments` where they have the expected
/// JSON types.
pub open spec fn fragment_at(data: Seq<char>, k: nat) -> FragmentView {
    match json_fields(data, fragment_pointers(k)) {
        Ok(f) => FragmentView { index: as_u64(f[0]), id: as_str(f[1]), name: as_str(f[2]), arguments: as_str(f[3]) },
        Err(_) => FragmentView { index: None, id: None, name: None, arguments: None },
    }
}

/// The first `m` tool call fragments of an event.
pub open spec fn fragments(data: Seq<char>, m: nat) -> Seq<FragmentView>
    decreases m,
{
    if m == 0 {
        Seq::empty()
    } else {
        fragments(data, (m - 1) as nat).push(fragment_at(data, (m - 1) as nat))
    }
}

/// What an OpenAI stream event says of its first choice: nothing when it is
/// not JSON or has no choice; else the choice's text, finish reason and tool
/// call fragments.
pub open spec fn openai_choice_delta(data: Seq<char>) -> Option<DeltaView> {
    match json_fields(data, choice_pointers()) {
        Err(_) => None,
        Ok(f) => match f[0] {
            FieldView::Array(n, _) => if n > 0 {
                Some(
                    DeltaView {
                        content: as_str(f[1]),
                        finish_reason: as_str(f[2]),
                        tool_calls: match f[3] {
                            FieldView::Array(m, _) => fragments(data, m as nat),
                            _ => Seq::empty(),
                        },
                    },
                )
            } else {
                None
            },
            _ => None,
        },
    }
}

/// A JSON pointer made of a base, a position and a suffix.
fn pointer(base: &str, k: usize, suffix: &str) -> (r: String)
    ensures
        r@ == base@ + decimal(k as nat) + suffix@,
{
    let mut r = String::from_str(base);
    r.append(decimal_string(k as u64).as_str());
    r.append(suffix);
    r
}

fn fragment_of(data: &str, k: usize) -> (f: ToolCallFragment)
    ensures
        fragment_view(f) == fragment_at(data@, k as nat),
{
    let ptrs = vec![
        pointer("/choices/0/delta/tool_calls/", k, "/index"),
        pointer("/choices/0/delta/tool_calls/", k, "/id"),
        pointer("/choices/0/delta/tool_calls/", k, "/function/name"),
        pointer("/choices/0/delta/tool_calls/", k, "/function/arguments"),
    ];
    proof {
        assert(texts_view(ptrs@) =~= fragment_pointers(k as nat));
    }
    match probe_json(data, &ptrs) {
        Ok(f) => {
            let ghost fv = f@.map_values(|x: JsonField| field_view(x));
            assert(field_view(f@[0]) == fv[0]);
            assert(field_view(f@[1]) == fv[1]);
            assert(field_view(f@[2]) == fv[2]);
            assert(field_view(f@[3]) == fv[3]);
            let index = match &f[0] {
                JsonField::Number(n, _) => *n,
                _ => None,
            };
            ToolCallFragment { index, id: str_value(&f[1]), name: str_value(&f[2]), arguments: str_value(&f[3]) }
        },
        Err(_) => ToolCallFragment { index: None, id: None, name: None, arguments: None },
    }
}

/// Reads the first choice of an OpenAI stream event, as
/// `openai_choice_delta` says.
fn parse_choice_delta(data: &str) -> (r: Option<ChoiceDelta>)
    ensures
        delta_view(r) == openai_choice_delta(data@),
{
    let ptrs = text_vec(&["/choices", "/choices/0/delta/content", "/choices/0/finish_reason", "/choices/0/delta/tool_calls"]);
    proof {
        reveal_strlit("/choices");
        reveal_strlit("/choices/0/delta/content");
        reveal_strlit("/choices/0/finish_reason");
        reveal_strlit("/choices/0/delta/tool_calls");
        assert(texts_view(ptrs@) =~= choice_pointers());
    }
    let f = match probe_json(data, &ptrs) {
        Err(_) => {
            return None;
        },
        Ok(f) => f,
    };
    let ghost fv = f@.map_values(|x: JsonField| field_view(x));
    assert(field_view(f@[0]) == fv[0]);
    assert(field_view(f@[1]) == fv[1]);
    assert(field_view(f@[2]) == fv[2]);
    assert(field_view(f@[3]) == fv[3]);
    let has_choice = match &f[0] {
        JsonField::Array(n, _) => *n > 0,
        _ => false,
    };
    if !has_choice {
        return None;
    }
    let m = match &f[3] {
        JsonField::Array(m, _) => *m,
        _ => 0,
    };
    let ghost expected = match fv[3] {
        FieldView::Array(m, _) => fragments(data@, m as nat),
        _ => Seq::empty(),
    };
    assert(expected.len() == m) by {
        lemma_fragments_len(data@, m as nat);
    }
    let mut calls: Vec<ToolCallFragment> = Vec::new();
    let mut k: usize = 0;
    while k < m
        invariant
            k <= m,
            calls@.map_values(|x: ToolCallFragment| fragment_view(x)) == fragments(data@, k as nat),
        decreases m - k,
    {
        let frag = fragment_of(data, k);
        let ghost before = calls@;
        calls.push(frag);
        assert(calls@.map_values(|x: ToolCallFragment| fragment_view(x)) =~= before.map_values(
            |x: ToolCallFragment| fragment_view(x),
        ).push(fragment_view(frag)));
        k = k + 1;
    }
    Some(ChoiceDelta { content: str_value(&f[1]), finish_reason: str_value(&f[2]), tool_calls: calls })
}

proof fn lemma_fragments_len(data: Seq<char>, m: nat)
    ensures
        fragments(data, m).len() == m,
    decreases m,
{
    if m > 0 {
        lemma_fragments_len(data, (m - 1) as nat);
    }
}

/// A tool call being gathered from fragments.
pub struct CallAccumulator {
    pub index: usize,
    pub id: Option<String>,
    pub name: Option<String>,
    pub arguments: String,
}

/// Its content: position, id, name and arguments so far.
pub struct AccView {
    pub index: usize,
    pub id: Option<Seq<char>>,
    pub name: Option<Seq<char>>,
    pub arguments: Seq<char>,
}

pub open spec fn acc_view(a: CallAccumulator) -> AccView {
    AccView { index: a.index, id: opt_view(a.id), name: opt_view(a.name), arguments: a.arguments@ }
}

pub open spec fn accs_view(v: Seq<CallAccumulator>) -> Seq<AccView> {
    v.map_values(|a: CallAccumulator| acc_view(a))
}

/// The accumulators are in strictly increasing position order.
pub open spec fn sorted_accs(v: Seq<AccView>) -> bool {
    forall|i: int, j: int| 0 <= i < j < v.len() ==> (#[trigger] v[i]).index < (#[trigger] v[j]).index
}

/// A fragment merged into a call: a given id or name replaces the one
/// before, argument text is appended.
pub open spec fn merged(a: AccView, f: FragmentView) -> AccView {
    AccView {
        index: a.index,
        id: if f.id is Some { f.id } else { a.id },
        name: if f.name is Some { f.name } else { a.name },
        arguments: a.arguments + match f.arguments {
            Some(x) => x,
            None => Seq::empty(),
        },
    }
}

/// A call at a position nothing arrived for yet.
pub open spec fn fresh_acc(i: usize) -> AccView {
    AccView { index: i, id: None, name: None, arguments: Seq::empty() }
}

/// The fragment for position `i` merged into the sorted accumulators.
pub open spec fn upsert_at(v: Seq<AccView>, i: usize, f: FragmentView) -> Seq<AccView>
    decreases v.len(),
{
    if v.len() == 0 {
        seq![merged(fresh_acc(i), f)]
    } else if v[0].index == i {
        seq![merged(v[0], f)] + v.drop_first()
    } else if v[0].index > i {
        seq![merged(fresh_acc(i), f)] + v
    } else {
        seq![v[0]] + upsert_at(v.drop_first(), i, f)
    }
}

/// A fragment with a position is merged; one without is ignored.
pub open spec fn apply_fragment(v: Seq<AccView>, f: FragmentView) -> Seq<AccView> {
    match f.index {
        Some(i) => upsert_at(v, i as usize, f),
        None => v,
    }
}

/// The fragments applied in order.
pub open spec fn apply_fragments(v: Seq<AccView>, fs: Seq<FragmentView>) -> Seq<AccView>
    decreases fs.len(),
{
    if fs.len() == 0 {
        v
    } else {
        apply_fragment(apply_fragments(v, fs.drop_last()), fs.last())
    }
}

/// A tool call's content: id, name and arguments (JSON object text).
pub struct CallView {
    pub id: Option<Seq<char>>,
    pub name: Seq<char>,
    pub arguments: Seq<char>,
}

pub open spec fn call_view(c: LlmToolCall) -> CallView {
    CallView { id: opt_view(c.id), name: c.name@, arguments: c.arguments@ }
}

/// Arguments that `serde_json` reads as an object are kept; others become
/// the empty object.
pub open spec fn object_or_empty(a: Seq<char>) -> Seq<char> {
    if json_object_error(a) is None {
        a
    } else {
        "{}"@
    }
}

/// The complete calls, in position order: those that got a name.
pub open spec fn built_calls(v: Seq<AccView>) -> Seq<CallView>
    decreases v.len(),
{
    if v.len() == 0 {
        Seq::empty()
    } else {
        let rest = built_calls(v.drop_last());
        match v.last().name {
            Some(n) => rest.push(
                CallView { id: v.last().id, name: n, arguments: object_or_empty(v.last().arguments) },
            ),
            None => rest,
        }
    }
}

/// A chunk's content.
pub enum ChunkView {
    Content(Seq<char>),
    ToolCalls(Seq<CallView>),
}

pub open spec fn chunk_view(c: StreamChunk) -> ChunkView {
    match c {
        StreamChunk::Content(s) => ChunkView::Content(s@),
        StreamChunk::ToolCalls(v) => ChunkView::ToolCalls(v@.map_values(|t: LlmToolCall| call_view(t))),
    }
}

pub open spec fn chunks_view(v: Seq<StreamChunk>) -> Seq<ChunkView> {
    v.map_values(|c: StreamChunk| chunk_view(c))
}

/// The tool calls chunk for the accumulators, when one is complete.
pub open spec fn calls_chunk(v: Seq<AccView>) -> Seq<ChunkView> {
    if v.len() > 0 && built_calls(v).len() > 0 {
        seq![ChunkView::ToolCalls(built_calls(v))]
    } else {
        Seq::empty()
    }
}

/// What one line of an OpenAI stream does: lines other than `data: ` events
/// do nothing; `[DONE]` hands out the calls gathered; an event hands out its
/// text, gathers its fragments, and with the finish reason `tool_calls`
/// hands out the calls and starts over.
pub open spec fn openai_line_step(v: Seq<AccView>, line: Seq<char>) -> (Seq<AccView>, Seq<ChunkView>) {
    let t = trim_ws(line);
    if !occurs_at(t, "data: "@, 0) {
        (v, Seq::empty())
    } else {
        let data = t.skip(6);
        if data == "[DONE]"@ {
            (v, calls_chunk(v))
        } else {
            match openai_choice_delta(data) {
                None => (v, Seq::empty()),
                Some(d) => {
                    let text = match d.content {
                        Some(c) => if c.len() > 0 {
                            seq![ChunkView::Content(c)]
                        } else {
                            Seq::empty()
                        },
                        None => Seq::empty(),
                    };
                    let v2 = apply_fragments(v, d.tool_calls);
                    if d.finish_reason == Some("tool_calls"@) && v2.len() > 0 {
                        (Seq::empty(), text + calls_chunk(v2))
                    } else {
                        (v2, text)
                    }
                },
            }
        }
    }
}

/// Gathers the tool call fragments of an OpenAI stream, line by line.
pub struct OpenAIStreamAssembler {
    pub accumulators: Vec<CallAccumulator>,
}

proof fn lemma_upsert_prefix(v: Seq<AccView>, i: usize, f: FragmentView, p: int)
    requires
        0 <= p <= v.len(),
        forall|k: int| 0 <= k < p ==> (#[trigger] v[k]).index < i,
    ensures
        upsert_at(v, i, f) == v.take(p) + upsert_at(v.skip(p), i, f),
    decreases p,
{
    if p == 0 {
        assert(v.take(0) + upsert_at(v.skip(0), i, f) =~= upsert_at(v, i, f)) by {
            assert(v.skip(0) =~= v);
        }
    } else {
        assert(v.len() > 0);
        assert(v[0].index < i);
        let w = v.drop_first();
        lemma_upsert_prefix(w, i, f, p - 1);
        assert(w.skip(p - 1) =~= v.skip(p));
        assert(seq![v[0]] + w.take(p - 1) =~= v.take(p));
    }
}

proof fn lemma_upsert_sorted(v: Seq<AccView>, i: usize, f: FragmentView)
    requires
        sorted_accs(v),
    ensures
        sorted_accs(upsert_at(v, i, f)),
        upsert_at(v, i, f).len() >= 1,
        forall|k: int| 0 <= k < upsert_at(v, i, f).len() ==> (#[trigger] upsert_at(v, i, f)[k]).index == i || exists|m: int| 0 <= m < v.len() && v[m].index == upsert_at(v, i, f)[k].index,
    decreases v.len(),
{
    if v.len() > 0 && v[0].index < i {
        let w = v.drop_first();
        lemma_upsert_sorted(w, i, f);
        let u = upsert_at(w, i, f);
        let r = upsert_at(v, i, f);
        assert(r =~= seq![v[0]] + u);
        assert forall|k: int| 0 <= k < r.len() implies (#[trigger] r[k]).index == i || exists|m: int| 0 <= m < v.len() && v[m].index == r[k].index by {
            if k == 0 {
                assert(v[0].index == r[0].index);
            } else {
                assert(r[k] == u[k - 1]);
                if u[k - 1].index != i {
                    let m = choose|m: int| 0 <= m < w.len() && w[m].index == u[k - 1].index;
                    assert(v[m + 1] == w[m]);
                }
            }
        }
        assert forall|a: int, b: int| 0 <= a < b < r.len() implies (#[trigger] r[a]).index < (#[trigger] r[b]).index by {
            if a == 0 {
                assert(r[b] == u[b - 1]);
                if u[b - 1].index != i {
                    let m = choose|m: int| 0 <= m < w.len() && w[m].index == u[b - 1].index;
                    assert(v[m + 1] == w[m]);
                    assert(v[0].index < v[m + 1].index);
                }
            } else {
                assert(r[a] == u[a - 1]);
                assert(r[b] == u[b - 1]);
            }
        }
    } else if v.len() > 0 && v[0].index == i {
        let r = upsert_at(v, i, f);
        assert forall|a: int, b: int| 0 <= a < b < r.len() implies (#[trigger] r[a]).index < (#[trigger] r[b]).index by {
            assert(r[b] == v[b]);
            if a > 0 {
                assert(r[a] == v[a]);
            }
        }
        assert forall|k: int| 0 <= k < r.len() implies (#[trigger] r[k]).index == i || exists|m: int| 0 <= m < v.len() && v[m].index == r[k].index by {
            if k > 0 {
                assert(r[k] == v[k]);
            }
        }
    } else if v.len() > 0 {
        let r = upsert_at(v, i, f);
        assert forall|a: int, b: int| 0 <= a < b < r.len() implies (#[trigger] r[a]).index < (#[trigger] r[b]).index by {
            assert(r[b] == v[b - 1]);
            if a > 0 {
                assert(r[a] == v[a - 1]);
            } else {
                assert(v[0].index <= v[b - 1].index);
            }
        }
        assert forall|k: int| 0 <= k < r.len() implies (#[trigger] r[k]).index == i || exists|m: int| 0 <= m < v.len() && v[m].index == r[k].index by {
            if k > 0 {
                assert(r[k] == v[k - 1]);
            }
        }
    }
}

proof fn lemma_upsert_closed(v: Seq<AccView>, i: usize, f: FragmentView, p: int)
    requires
        sorted_accs(v),
        0 <= p <= v.len(),
        forall|k: int| 0 <= k < p ==> (#[trigger] v[k]).index < i,
        p < v.len() ==> v[p].index >= i,
    ensures
        sorted_accs(upsert_at(v, i, f)),
        p < v.len() && v[p].index == i ==> upsert_at(v, i, f) == v.take(p) + seq![merged(v[p], f)]
            + v.skip(p + 1),
        !(p < v.len() && v[p].index == i) ==> upsert_at(v, i, f) == v.take(p) + seq![
            merged(fresh_acc(i), f),
        ] + v.skip(p),
{
    lemma_upsert_prefix(v, i, f, p);
    lemma_upsert_sorted(v, i, f);
    if p < v.len() {
        assert(v.skip(p)[0] == v[p]);
        assert(v.skip(p).drop_first() =~= v.skip(p + 1));
        if v[p].index == i {
            assert(v.take(p) + upsert_at(v.skip(p), i, f) =~= v.take(p) + seq![merged(v[p], f)] + v.skip(
                p + 1,
            ));
        } else {
            assert(v.take(p) + upsert_at(v.skip(p), i, f) =~= v.take(p) + seq![
                merged(fresh_acc(i), f),
            ] + v.skip(p));
        }
    } else {
        assert(v.skip(p) =~= Seq::<AccView>::empty());
        assert(v.take(p) + upsert_at(v.skip(p), i, f) =~= v.take(p) + seq![merged(fresh_acc(i), f)]
            + v.skip(p));
    }
}

impl OpenAIStreamAssembler {
    /// The calls gathered so far.
    pub open spec fn state(&self) -> Seq<AccView> {
        accs_view(self.accumulators@)
    }

    /// The gathered calls are in position order.
    pub open spec fn wf(&self) -> bool {
        sorted_accs(self.state())
    }

    /// Nothing gathered.
    pub fn new() -> (a: Self)
        ensures
            a.wf(),
            a.state().len() == 0,
    {
        OpenAIStreamAssembler { accumulators: Vec::new() }
    }

    fn apply(&mut self, f: ToolCallFragment)
        requires
            old(self).wf(),
        ensures
            final(self).wf(),
            final(self).state() == apply_fragment(old(self).state(), fragment_view(f)),
    {
        let idx: usize = match f.index {
            None => {
                return;
            },
            Some(i) => i as usize,
        };
        let ghost fv = fragment_view(f);
        let ghost v = self.state();
        let mut p: usize = 0;
        while p < self.accumulators.len() && self.accumulators[p].index < idx
            invariant
                p <= self.accumulators@.len(),
                v == self.state(),
                forall|k: int| 0 <= k < p ==> (#[trigger] v[k]).index < idx,
            decreases self.accumulators@.len() - p,
        {
            p = p + 1;
        }
        proof {
            lemma_upsert_closed(v, idx, fv, p as int);
        }
        let ToolCallFragment { index: _, id, name, arguments } = f;
        if p < self.accumulators.len() && self.accumulators[p].index == idx {
            let mut acc = self.accumulators.remove(p);
            match id {
                Some(x) => {
                    acc.id = Some(x);
                },
                None => {},
            }
            match name {
                Some(x) => {
                    acc.name = Some(x);
                },
                None => {},
            }
            match arguments {
                Some(x) => {
                    acc.arguments.append(x.as_str());
                },
                None => {},
            }
            self.accumulators.insert(p, acc);
            proof {
                assert(self.state() =~= v.take(p as int) + seq![merged(v[p as int], fv)] + v.skip(p + 1));
            }
        } else {
            let acc = CallAccumulator {
                index: idx,
                id,
                name,
                arguments: match arguments {
                    Some(x) => x,
                    None => String::new(),
                },
            };
            self.accumulators.insert(p, acc);
            proof {
                assert(self.state() =~= v.take(p as int) + seq![merged(fresh_acc(idx), fv)] + v.skip(
                    p as int,
                ));
            }
        }
    }

    fn apply_all(&mut self, fs: Vec<ToolCallFragment>)
        requires
            old(self).wf(),
        ensures
            final(self).wf(),
            final(self).state() == apply_fragments(
                old(self).state(),
                fs@.map_values(|f: ToolCallFragment| fragment_view(f)),
            ),
    {
        let ghost v0 = self.state();
        let ghost fvs = fs@.map_values(|f: ToolCallFragment| fragment_view(f));
        let mut rest = fs;
        let ghost total = rest@;
        let mut k: usize = 0;
        let n = rest.len();
        assert(total.skip(0) =~= total);
        while k < n
            invariant
                self.wf(),
                n == total.len(),
                k <= n,
                rest@ == total.skip(k as int),
                fvs == total.map_values(|f: ToolCallFragment| fragment_view(f)),
                self.state() == apply_fragments(v0, fvs.take(k as int)),
            decreases n - k,
        {
            let f = rest.remove(0);
            assert(f == total[k as int]);
            assert(rest@ =~= total.skip(k + 1));
            self.apply(f);
            proof {
                assert(fvs.take(k + 1).drop_last() =~= fvs.take(k as int));
                assert(fvs.take(k + 1).last() == fragment_view(total[k as int]));
            }
            k = k + 1;
        }
        assert(fvs.take(n as int) =~= fvs);
    }

    /// The complete calls gathered so far, in position order: those that got
    /// a name, with their arguments kept when they read as a JSON object.
    pub fn build_complete_tool_calls(&self) -> (calls: Vec<LlmToolCall>)
        ensures
            calls@.map_values(|t: LlmToolCall| call_view(t)) == built_calls(self.state()),
    {
        let mut calls: Vec<LlmToolCall> = Vec::new();
        let mut k: usize = 0;
        while k < self.accumulators.len()
            invariant
                k <= self.accumulators@.len(),
                calls@.map_values(|t: LlmToolCall| call_view(t)) == built_calls(self.state().take(k as int)),
            decreases self.accumulators@.len() - k,
        {
            let ghost before = calls@.map_values(|t: LlmToolCall| call_view(t));
            let a = &self.accumulators[k];
            proof {
                assert(self.state().take(k + 1).drop_last() =~= self.state().take(k as int));
                assert(self.state().take(k + 1).last() == acc_view(*a));
            }
            match &a.name {
                Some(nm) => {
                    let arguments = match check_json_object(a.arguments.as_str()) {
                        None => a.arguments.clone(),
                        Some(_) => String::from_str("{}"),
                    };
                    let id = match &a.id {
                        Some(x) => Some(x.clone()),
                        None => None,
                    };
                    calls.push(LlmToolCall { id, name: nm.clone(), arguments });
                    assert(calls@.map_values(|t: LlmToolCall| call_view(t)) =~= before.push(
                        call_view(calls@.last()),
                    ));
                },
                None => {},
            }
            k = k + 1;
        }
        assert(self.state().take(self.accumulators@.len() as int) =~= self.state());
        calls
    }

    fn calls_chunk(&self) -> (out: Vec<StreamChunk>)
        ensures
            chunks_view(out@) == calls_chunk(self.state()),
    {
        let mut out: Vec<StreamChunk> = Vec::new();
        if self.accumulators.len() > 0 {
            let calls = self.build_complete_tool_calls();
            if calls.len() > 0 {
                out.push(StreamChunk::ToolCalls(calls));
            }
        }
        assert(chunks_view(out@) =~= calls_chunk(self.state()));
        out
    }

    /// Takes one line of the stream, as `openai_line_step` says.
    pub fn process_line(&mut self, line: &str) -> (out: Vec<StreamChunk>)
        requires
            old(self).wf(),
        ensures
            final(self).wf(),
            (final(self).state(), chunks_view(out@)) == openai_line_step(old(self).state(), line@),
    {
        let t = trim(line);
        let tc = chars_of(t.as_str());
        let prefix = chars_of("data: ");
        proof {
            reveal_strlit("data: ");
        }
        if !starts_with_chars(tc.as_slice(), prefix.as_slice()) {
            let out: Vec<StreamChunk> = Vec::new();
            assert(chunks_view(out@) =~= Seq::<ChunkView>::empty());
            return out;
        }
        let mut data = String::new();
        let mut i: usize = 6;
        while i < tc.len()
            invariant
                6 <= i <= tc@.len(),
                data@ == tc@.subrange(6, i as int),
            decreases tc@.len() - i,
        {
            crate::text::push_char(&mut data, tc[i]);
            assert(tc@.subrange(6, i + 1) =~= tc@.subrange(6, i as int).push(tc@[i as int]));
            i = i + 1;
        }
        assert(data@ =~= t@.skip(6));
        if str_eq(data.as_str(), "[DONE]") {
            return self.calls_chunk();
        }
        match parse_choice_delta(data.as_str()) {
            None => {
                let out: Vec<StreamChunk> = Vec::new();
                assert(chunks_view(out@) =~= Seq::<ChunkView>::empty());
                out
            },
            Some(d) => {
                let ChoiceDelta { content, finish_reason, tool_calls } = d;
                let mut out: Vec<StreamChunk> = Vec::new();
                match content {
                    Some(c) => {
                        if c.unicode_len() > 0 {
                            out.push(StreamChunk::Content(c));
                        }
                    },
                    None => {},
                }
                let ghost text = chunks_view(out@);
                self.apply_all(tool_calls);
                let finished = match &finish_reason {
                    Some(r) => str_eq(r.as_str(), "tool_calls"),
                    None => false,
                };
                if finished && self.accumulators.len() > 0 {
                    let mut more = self.calls_chunk();
                    let ghost m = chunks_view(more@);
                    out.append(&mut more);
                    self.accumulators = Vec::new();
                    assert(chunks_view(out@) =~= text + m);
                    assert(self.state() =~= Seq::<AccView>::empty());
                }
                out
            },
        }
    }
}

/// A tool call in an Ollama stream: its id, name and arguments as JSON text.
pub struct OllamaCallFrame {
    pub id: Option<String>,
    pub name: String,
    pub arguments: String,
}

/// What an Ollama stream line says.
pub struct OllamaFrame {
    /// `done` is true.
    pub done: bool,
    /// The `message` object, when there is one: its text, and its tool calls
    /// that have a name and an object of arguments.
    pub message: Option<(Option<String>, Vec<OllamaCallFrame>)>,
}

pub struct OllamaFrameView {
    pub done: bool,
    pub message: Option<(Option<Seq<char>>, Seq<CallView>)>,
}

pub open spec fn ollama_call_view(c: OllamaCallFrame) -> CallView {
    CallView { id: opt_view(c.id), name: c.name@, arguments: c.arguments@ }
}

pub open spec fn ollama_frame_view(f: Option<OllamaFrame>) -> Option<OllamaFrameView> {
    match f {
        Some(x) => Some(
            OllamaFrameView {
                done: x.done,
                message: match x.message {
                    Some(m) => Some((opt_view(m.0), m.1@.map_values(|c: OllamaCallFrame| ollama_call_view(c)))),
                    None => None,
                },
            },
        ),
        None => None,
    }
}

/// Where an Ollama stream line is read: whether it is done, and its
/// message, the message's text and its tool calls.
pub open spec fn frame_pointers() -> Seq<Seq<char>> {
    seq!["/done"@, "/message"@, "/message/content"@, "/message/tool_calls"@]
}

/// Where the `k`-th tool call of a message is read.
pub open spec fn call_pointers(k: nat) -> Seq<Seq<char>> {
    let base = "/message/tool_calls/"@ + decimal(k);
    seq![base + "/function/name"@, base + "/id"@, base + "/function/arguments"@]
}

/// The `k`-th tool call of a message, when it has a string name and an
/// object of arguments: its `id`, name and the arguments' JSON text.
pub open spec fn call_at(line: Seq<char>, k: nat) -> Option<CallView> {
    match json_fields(line, call_pointers(k)) {
        Ok(f) => match (as_str(f[0]), f[2]) {
            (Some(n), FieldView::Object(t)) => Some(CallView { id: as_str(f[1]), name: n, arguments: t }),
            _ => None,
        },
        Err(_) => None,
    }
}

/// The well-formed tool calls among the first `m` of a message, in order.
pub open spec fn frame_calls(line: Seq<char>, m: nat) -> Seq<CallView>
    decreases m,
{
    if m == 0 {
        Seq::empty()
    } else {
        let before = frame_calls(line, (m - 1) as nat);
        match call_at(line, (m - 1) as nat) {
            Some(c) => before.push(c),
            None => before,
        }
    }
}

/// What an Ollama stream line says: nothing when it is not JSON; else
/// whether it is done, and when it has a message object, the message's text
/// and its well-formed tool calls.
pub open spec fn ollama_frame(line: Seq<char>) -> Option<OllamaFrameView> {
    match json_fields(line, frame_pointers()) {
        Err(_) => None,
        Ok(f) => Some(
            OllamaFrameView {
                done: f[0] == FieldView::Bool(true),
                message: if f[1] is Object {
                    Some(
                        (
                            as_str(f[2]),
                            match f[3] {
                                FieldView::Array(m, _) => frame_calls(line, m as nat),
                                _ => Seq::empty(),
                            },
                        ),
                    )
                } else {
                    None
                },
            },
        ),
    }
}

fn call_of(line: &str, k: usize) -> (r: Option<OllamaCallFrame>)
    ensures
        match r {
            Some(c) => call_at(line@, k as nat) == Some(ollama_call_view(c)),
            None => call_at(line@, k as nat) is None,
        },
{
    let ptrs = vec![
        pointer("/message/tool_calls/", k, "/function/name"),
        pointer("/message/tool_calls/", k, "/id"),
        pointer("/message/tool_calls/", k, "/function/arguments"),
    ];
    proof {
        assert(texts_view(ptrs@) =~= call_pointers(k as nat));
    }
    match probe_json(line, &ptrs) {
        Ok(f) => {
            let ghost fv = f@.map_values(|x: JsonField| field_view(x));
            assert(field_view(f@[0]) == fv[0]);
            assert(field_view(f@[1]) == fv[1]);
            assert(field_view(f@[2]) == fv[2]);
            let arguments = match &f[2] {
                JsonField::Object(t) => Some(t.clone()),
                _ => None,
            };
            match (str_value(&f[0]), arguments) {
                (Some(name), Some(arguments)) => Some(OllamaCallFrame { id: str_value(&f[1]), name, arguments }),
                _ => None,
            }
        },
        Err(_) => None,
    }
}

/// Reads an Ollama stream line, as `ollama_frame` says.
fn parse_ollama_frame(line: &str) -> (r: Option<OllamaFrame>)
    ensures
        ollama_frame_view(r) == ollama_frame(line@),
{
    let ptrs = text_vec(&["/done", "/message", "/message/content", "/message/tool_calls"]);
    proof {
        reveal_strlit("/done");
        reveal_strlit("/message");
        reveal_strlit("/message/content");
        reveal_strlit("/message/tool_calls");
        assert(texts_view(ptrs@) =~= frame_pointers());
    }
    let f = match probe_json(line, &ptrs) {
        Err(_) => {
            return None;
        },
        Ok(f) => f,
    };
    let ghost fv = f@.map_values(|x: JsonField| field_view(x));
    assert(field_view(f@[0]) == fv[0]);
    assert(field_view(f@[1]) == fv[1]);
    assert(field_view(f@[2]) == fv[2]);
    assert(field_view(f@[3]) == fv[3]);
    let done = match &f[0] {
        JsonField::Bool(b) => *b,
        _ => false,
    };
    let is_object = match &f[1] {
        JsonField::Object(_) => true,
        _ => false,
    };
    if !is_object {
        return Some(OllamaFrame { done, message: None });
    }
    let m = match &f[3] {
        JsonField::Array(m, _) => *m,
        _ => 0,
    };
    let mut calls: Vec<OllamaCallFrame> = Vec::new();
    let mut k: usize = 0;
    while k < m
        invariant
            k <= m,
            calls@.map_values(|c: OllamaCallFrame| ollama_call_view(c)) == frame_calls(line@, k as nat),
        decreases m - k,
    {
        let ghost before = calls@;
        match call_of(line, k) {
            Some(c) => {
                calls.push(c);
                assert(calls@.map_values(|c: OllamaCallFrame| ollama_call_view(c)) =~= before.map_values(
                    |c: OllamaCallFrame| ollama_call_view(c),
                ).push(ollama_call_view(c)));
            },
            None => {},
        }
        k = k + 1;
    }
    Some(OllamaFrame { done, message: Some((str_value(&f[2]), calls)) })
}

/// What one line of an Ollama stream does: blank lines and lines that are
/// not JSON do nothing; a done line hands out the calls gathered so far; a
/// message hands out its text and gathers its calls.
pub open spec fn ollama_line_step(calls: Seq<CallView>, line: Seq<char>) -> (Seq<CallView>, Seq<ChunkView>) {
    let t = trim_ws(line);
    if t.len() == 0 {
        (calls, Seq::empty())
    } else {
        match ollama_frame(t) {
            None => (calls, Seq::empty()),
            Some(f) => if f.done {
                (
                    calls,
                    if calls.len() > 0 {
                        seq![ChunkView::ToolCalls(calls)]
                    } else {
                        Seq::empty()
                    },
                )
            } else {
                match f.message {
                    None => (calls, Seq::empty()),
                    Some(m) => (
                        calls + m.1,
                        match m.0 {
                            Some(c) => if c.len() > 0 {
                                seq![ChunkView::Content(c)]
                            } else {
                                Seq::empty()
                            },
                            None => Seq::empty(),
                        },
                    ),
                }
            },
        }
    }
}

/// Gathers the tool calls of an Ollama stream, line by line.
pub struct OllamaStreamAssembler {
    pub calls: Vec<LlmToolCall>,
}

impl OllamaStreamAssembler {
    /// The calls gathered so far.
    pub open spec fn state(&self) -> Seq<CallView> {
        self.calls@.map_values(|t: LlmToolCall| call_view(t))
    }

    /// Nothing gathered.
    pub fn new() -> (a: Self)
        ensures
            a.state().len() == 0,
    {
        OllamaStreamAssembler { calls: Vec::new() }
    }

    /// Takes one line of the stream, as `ollama_line_step` says.
    pub fn process_line(&mut self, line: &str) -> (out: Vec<StreamChunk>)
        ensures
            (final(self).state(), chunks_view(out@)) == ollama_line_step(old(self).state(), line@),
    {
        let t = trim(line);
        let mut out: Vec<StreamChunk> = Vec::new();
        if t.unicode_len() == 0 {
            assert(chunks_view(out@) =~= Seq::<ChunkView>::empty());
            return out;
        }
        match parse_ollama_frame(t.as_str()) {
            None => {},
            Some(f) => {
                if f.done {
                    if self.calls.len() > 0 {
                        let mut copy: Vec<LlmToolCall> = Vec::new();
                        let mut k: usize = 0;
                        while k < self.calls.len()
                            invariant
                                k <= self.calls@.len(),
                                copy@.len() == k,
                                forall|j: int| 0 <= j < k ==> copy@[j] == self.calls@[j],
                            decreases self.calls@.len() - k,
                        {
                            copy.push(crate::broker::copy_tool_call(&self.calls[k]));
                            k = k + 1;
                        }
                        assert(copy@ =~= self.calls@);
                        out.push(StreamChunk::ToolCalls(copy));
                    }
                } else {
                    match f.message {
                        None => {},
                        Some((content, frames)) => {
                            match content {
                                Some(c) => {
                                    if c.unicode_len() > 0 {
                                        out.push(StreamChunk::Content(c));
                                    }
                                },
                                None => {},
                            }
                            let ghost before = self.state();
                            let ghost fv = frames@.map_values(|c: OllamaCallFrame| ollama_call_view(c));
                            let mut k: usize = 0;
                            let mut rest = frames;
                            let ghost all = rest@;
                            let ghost total = fv;
                            let n = rest.len();
                            assert(all.skip(0) =~= all);
                            assert(before + total.take(0) =~= before);
                            while k < n
                                invariant
                                    n == total.len(),
                                    n == all.len(),
                                    k <= n,
                                    rest@ == all.skip(k as int),
                                    total == all.map_values(|c: OllamaCallFrame| ollama_call_view(c)),
                                    self.state() == before + total.take(k as int),
                                decreases n - k,
                            {
                                let c = rest.remove(0);
                                assert(c == all[k as int]);
                                assert(rest@ =~= all.skip(k + 1));
                                let OllamaCallFrame { id, name, arguments } = c;
                                let ghost prev_state = self.state();
                                self.calls.push(LlmToolCall { id, name, arguments });
                                proof {
                                    assert(self.state() =~= prev_state.push(call_view(self.calls@.last())));
                                    assert(call_view(self.calls@.last()) == total[k as int]);
                                    assert(total.take(k + 1) =~= total.take(k as int).push(total[k as int]));
                                    assert(self.state() =~= before + total.take(k + 1));
                                }
                                k = k + 1;
                            }
                            assert(total.take(n as int) =~= total);
                        },
                    }
                }
            },
        }
        assert(chunks_view(out@) =~= ollama_line_step(old(self).state(), line@).1);
        out
    }
}


/// What a response says of one tool call: its `id`, `function.name` and
/// `function.arguments`, where they are strings.
pub struct ToolCallFields {
    pub id: Option<String>,
    pub name: Option<String>,
    pub arguments: Option<String>,
}

/// The calls of a response that have a name, in order, with their arguments
/// (`{}` when absent) kept when they read as a JSON object and empty
/// otherwise.
pub open spec fn converted_calls(fs: Seq<ToolCallFields>) -> Seq<CallView>
    decreases fs.len(),
{
    if fs.len() == 0 {
        Seq::empty()
    } else {
        let rest = converted_calls(fs.drop_last());
        let f = fs.last();
        match f.name {
            Some(n) => rest.push(
                CallView {
                    id: opt_view(f.id),
                    name: n@,
                    arguments: object_or_empty(
                        match f.arguments {
                            Some(a) => a@,
                            None => "{}"@,
                        },
                    ),
                },
            ),
            None => rest,
        }
    }
}

/// The tool calls of a response, as `converted_calls` says.
pub fn convert_tool_calls(calls: Vec<ToolCallFields>) -> (r: Vec<LlmToolCall>)
    ensures
        r@.map_values(|t: LlmToolCall| call_view(t)) == converted_calls(calls@),
{
    let ghost all = calls@;
    let mut rest = calls;
    let mut r: Vec<LlmToolCall> = Vec::new();
    let n = rest.len();
    let mut k: usize = 0;
    assert(all.skip(0) =~= all);
    while k < n
        invariant
            n == all.len(),
            k <= n,
            rest@ == all.skip(k as int),
            r@.map_values(|t: LlmToolCall| call_view(t)) == converted_calls(all.take(k as int)),
        decreases n - k,
    {
        let f = rest.remove(0);
        assert(f == all[k as int]);
        assert(rest@ =~= all.skip(k + 1));
        assert(all.take(k + 1).drop_last() =~= all.take(k as int));
        assert(all.take(k + 1).last() == f);
        let ghost before = r@.map_values(|t: LlmToolCall| call_view(t));
        let ToolCallFields { id, name, arguments } = f;
        match name {
            Some(nm) => {
                let text = match arguments {
                    Some(a) => a,
                    None => String::from_str("{}"),
                };
                let args = match check_json_object(text.as_str()) {
                    None => text,
                    Some(_) => String::from_str("{}"),
                };
                r.push(LlmToolCall { id, name: nm, arguments: args });
                assert(r@.map_values(|t: LlmToolCall| call_view(t)) =~= before.push(call_view(r@.last())));
            },
            None => {},
        }
        k = k + 1;
    }
    assert(all.take(n as int) =~= all);
    r
}
} // verus!
