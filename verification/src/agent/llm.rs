//! The agent's chat loop, minus the transport: assembling streamed tool calls
//! and deciding what a turn does next.
pub use crate::llm::StreamEvent;

use vstd::prelude::*;


verus! {

/// Upper bound on tool-call rounds in a single turn, guarding against a model
/// that loops on tool calls without ever producing a final answer.
pub const MAX_TOOL_ROUNDS: usize = 5;

/// One streamed fragment of a tool call: the model sends a call's id, name and
/// arguments in pieces across many chunks, keyed by `index`.
pub struct ToolCallDelta {
    pub index: u32,
    pub id: Option<String>,
    pub name: Option<String>,
    pub arguments: Option<String>,
}

/// A tool call assembled from streamed deltas.
pub struct ToolCallAccum {
    pub id: String,
    pub name: String,
    pub arguments: String,
}

/// The text of a tool call's id, name and arguments.
pub open spec fn accum_view(a: ToolCallAccum) -> (Seq<char>, Seq<char>, Seq<char>) {
    (a.id@, a.name@, a.arguments@)
}

pub open spec fn accums_view(v: Seq<ToolCallAccum>) -> Seq<(Seq<char>, Seq<char>, Seq<char>)> {
    v.map_values(|a: ToolCallAccum| accum_view(a))
}

/// A string's text, or nothing.
pub open spec fn opt_text(o: Option<String>) -> Seq<char> {
    match o {
        Some(s) => s@,
        None => Seq::empty(),
    }
}

/// The calls after merging one delta: the list grows with empty calls up to
/// the delta's index, and that call's id, name and arguments are extended by
/// the delta's fragments.
pub open spec fn merge_delta(acc: Seq<(Seq<char>, Seq<char>, Seq<char>)>, d: ToolCallDelta) -> Seq<
    (Seq<char>, Seq<char>, Seq<char>),
> {
    let idx = d.index as int;
    let grown = if idx >= acc.len() {
        acc + Seq::new((idx + 1 - acc.len()) as nat, |i: int| (Seq::<char>::empty(), Seq::<char>::empty(), Seq::<char>::empty()))
    } else {
        acc
    };
    let e = grown[idx];
    grown.update(
        idx,
        (
            e.0 + opt_text(d.id),
            e.1 + match d.name {
                Some(n) => n@,
                None => Seq::empty(),
            },
            e.2 + opt_text(d.arguments),
        ),
    )
}

/// The calls after merging `deltas` in order.
pub open spec fn merge_deltas(acc: Seq<(Seq<char>, Seq<char>, Seq<char>)>, deltas: Seq<ToolCallDelta>) -> Seq<
    (Seq<char>, Seq<char>, Seq<char>),
>
    decreases deltas.len(),
{
    if deltas.len() == 0 {
        acc
    } else {
        merge_delta(merge_deltas(acc, deltas.drop_last()), deltas.last())
    }
}

fn opt_push(s: &mut String, o: &Option<String>)
    ensures
        final(s)@ == old(s)@ + opt_text(*o),
{
    match o {
        Some(t) => s.append(t.as_str()),
        None => {
            assert(old(s)@ + Seq::<char>::empty() =~= old(s)@);
        },
    }
}

/// Merge streamed tool-call fragments into `acc`, keyed by their `index`.
pub fn accumulate_tool_calls(acc: &mut Vec<ToolCallAccum>, deltas: &[ToolCallDelta])
    ensures
        accums_view(final(acc)@) == merge_deltas(accums_view(old(acc)@), deltas@),
{
    let mut k: usize = 0;
    while k < deltas.len()
        invariant
            k <= deltas.len(),
            accums_view(acc@) == merge_deltas(accums_view(old(acc)@), deltas@.take(k as int)),
        decreases deltas.len() - k,
    {
        let d = &deltas[k];
        let idx = d.index as usize;
        let ghost before = accums_view(acc@);
        while acc.len() <= idx
            invariant
                before.len() <= acc.len(),
                acc.len() > before.len() ==> acc.len() <= idx + 1,
                accums_view(acc@) == before + Seq::new(
                    (acc.len() - before.len()) as nat,
                    |i: int| (Seq::<char>::empty(), Seq::<char>::empty(), Seq::<char>::empty()),
                ),
            decreases idx + 1 - acc.len(),
        {
            let ghost pre = acc@;
            acc.push(ToolCallAccum { id: String::new(), name: String::new(), arguments: String::new() });
            assert(accums_view(acc@) =~= accums_view(pre).push(
                (Seq::<char>::empty(), Seq::<char>::empty(), Seq::<char>::empty()),
            ));
            assert(accums_view(acc@) =~= before + Seq::new(
                (acc.len() - before.len()) as nat,
                |i: int| (Seq::<char>::empty(), Seq::<char>::empty(), Seq::<char>::empty()),
            ));
        }
        let ghost grown = accums_view(acc@);
        assert(grown =~= if idx >= before.len() {
            before + Seq::new(
                (idx + 1 - before.len()) as nat,
                |i: int| (Seq::<char>::empty(), Seq::<char>::empty(), Seq::<char>::empty()),
            )
        } else {
            before
        });
        let mut id = acc[idx].id.clone();
        let mut name = acc[idx].name.clone();
        let mut arguments = acc[idx].arguments.clone();
        opt_push(&mut id, &d.id);
        opt_push(&mut name, &d.name);
        opt_push(&mut arguments, &d.arguments);
        let ghost pre = acc@;
        acc.set(idx, ToolCallAccum { id, name, arguments });
        proof {
            assert(accums_view(acc@) =~= accums_view(pre).update(idx as int, accum_view(acc@[idx as int])));
            assert(deltas@.take(k + 1).drop_last() == deltas@.take(k as int));
            assert(deltas@.take(k + 1).last() == deltas@[k as int]);
        }
        k += 1;
    }
    assert(deltas@.take(deltas.len() as int) == deltas@);
}

/// Fragments may arrive in any number of chunks: merging two chunks one after
/// the other is the same as merging them as one.
pub proof fn law_merge_in_chunks(
    acc: Seq<(Seq<char>, Seq<char>, Seq<char>)>,
    first: Seq<ToolCallDelta>,
    second: Seq<ToolCallDelta>,
)
    ensures
        merge_deltas(merge_deltas(acc, first), second) == merge_deltas(acc, first + second),
    decreases second.len(),
{
    if second.len() == 0 {
        assert(first + second =~= first);
    } else {
        law_merge_in_chunks(acc, first, second.drop_last());
        assert((first + second).drop_last() =~= first + second.drop_last());
        assert((first + second).last() == second.last());
    }
}

/// Outcome of streaming one assistant turn.
pub enum TurnOutcome {
    /// The model produced its final answer; tokens were already forwarded.
    Finished,
    /// The model asked to call these tools; run them and loop.
    ToolCalls(Vec<ToolCallAccum>),
    /// The receiver was dropped (UI closed); stop silently.
    Aborted,
}

/// The calls that have a name, in order; a call with no name is noise from a
/// stray delta.
pub open spec fn named_calls(calls: Seq<ToolCallAccum>) -> Seq<ToolCallAccum>
    decreases calls.len(),
{
    if calls.len() == 0 {
        seq![]
    } else {
        let r = named_calls(calls.drop_last());
        if calls.last().name@.len() > 0 {
            r.push(calls.last())
        } else {
            r
        }
    }
}

/// Once the stream has drained, the turn asked for tools exactly when some
/// accumulated call has a name; the nameless ones are dropped.
pub fn finish_turn(calls: Vec<ToolCallAccum>) -> (outcome: TurnOutcome)
    ensures
        match outcome {
            TurnOutcome::Finished => named_calls(calls@).len() == 0,
            TurnOutcome::ToolCalls(kept) => kept@ == named_calls(calls@) && kept@.len() > 0,
            TurnOutcome::Aborted => false,
        },
{
    let mut kept: Vec<ToolCallAccum> = Vec::new();
    let mut i: usize = 0;
    while i < calls.len()
        invariant
            i <= calls.len(),
            kept@ == named_calls(calls@.take(i as int)),
        decreases calls.len() - i,
    {
        let c = &calls[i];
        assert(calls@.take(i + 1).drop_last() == calls@.take(i as int));
        assert(calls@.take(i + 1).last() == calls@[i as int]);
        if c.name.as_str().unicode_len() > 0 {
            kept.push(ToolCallAccum { id: c.id.clone(), name: c.name.clone(), arguments: c.arguments.clone() });
        }
        i += 1;
    }
    assert(calls@.take(calls.len() as int) == calls@);
    if kept.len() == 0 {
        TurnOutcome::Finished
    } else {
        TurnOutcome::ToolCalls(kept)
    }
}

/// What the reply task does next.
pub enum TurnStep {
    /// Send `Done`: the answer is complete.
    Done,
    /// Stop without a word: nobody is listening any more.
    Stop,
    /// Run the requested tools, then see [`after_tools`].
    RunTools,
    /// Stream another turn with the tool results appended.
    Continue,
    /// Send `Error` with this message.
    Fail(String),
}

/// The message sent when the model keeps asking for tools.
pub open spec fn too_many_rounds_msg() -> Seq<char> {
    "the model kept requesting tools without answering"@
}

/// Decide what follows a streamed turn given how it ended (`Err` holds the
/// streaming error): a finished answer completes the reply, an abort stops
/// quietly, an error is reported, and requested tools are run.
pub fn after_turn(outcome: &Result<TurnOutcome, String>) -> (step: TurnStep)
    ensures
        match outcome {
            Ok(TurnOutcome::Finished) => step is Done,
            Ok(TurnOutcome::Aborted) => step is Stop,
            Ok(TurnOutcome::ToolCalls(_)) => step is RunTools,
            Err(e) => step matches TurnStep::Fail(m) && m@ == e@,
        },
{
    match outcome {
        Ok(TurnOutcome::Finished) => TurnStep::Done,
        Ok(TurnOutcome::Aborted) => TurnStep::Stop,
        Ok(TurnOutcome::ToolCalls(_)) => TurnStep::RunTools,
        Err(e) => TurnStep::Fail(e.clone()),
    }
}

/// Decide what follows the tool round of turn number `round` (counting from
/// 0), given whether it succeeded: a failure is reported; otherwise another
/// turn is streamed, unless this was the last of the [`MAX_TOOL_ROUNDS`]
/// allowed turns, in which case the reply fails. So no reply streams more
/// than [`MAX_TOOL_ROUNDS`] turns.
pub fn after_tools(round: usize, result: &Result<(), String>) -> (step: TurnStep)
    ensures
        match result {
            Err(e) => step matches TurnStep::Fail(m) && m@ == e@,
            Ok(()) => if round + 1 < MAX_TOOL_ROUNDS {
                step is Continue
            } else {
                step matches TurnStep::Fail(m) && m@ == too_many_rounds_msg()
            },
        },
{
    match result {
        Err(e) => TurnStep::Fail(e.clone()),
        Ok(()) => {
            if round < MAX_TOOL_ROUNDS - 1 {
                TurnStep::Continue
            } else {
                TurnStep::Fail(String::from_str("the model kept requesting tools without answering"))
            }
        },
    }
}

} // verus!
