//! Per-request streaming transform: the upstream body is cut into SSE
//! messages, each message is converted (or passed through), and the
//! formatted results are written downstream in order.
//!
//! Parsing and converting the messages is done by the protocol library,
//! outside this crate; what stands here is which converter a request uses
//! and how the per-message results make up the bytes sent downstream.

use crate::protocol::ConverterKind;
use vstd::prelude::*;

verus! {

/// What became of one upstream message.
pub enum MessageOutcome {
    /// The message gave these formatted messages, in order.
    Emitted(Vec<Vec<u8>>),
    /// The message could not be converted and is dropped.
    Dropped,
}

/// The bytes one message contributes downstream.
pub open spec fn outcome_bytes(o: MessageOutcome) -> Seq<u8> {
    match o {
        MessageOutcome::Emitted(parts) => parts@.map_values(|p: Vec<u8>| p@).flatten(),
        MessageOutcome::Dropped => Seq::empty(),
    }
}

/// The bytes a run of messages contributes downstream: each message's bytes,
/// in order.
pub open spec fn output_bytes(outcomes: Seq<MessageOutcome>) -> Seq<u8> {
    outcomes.map_values(|o: MessageOutcome| outcome_bytes(o)).flatten()
}

/// The state of the streaming transform of one request.
pub struct StreamingTransformCtx {
    /// The converter applied to each message; `None` passes messages through.
    pub converter: Option<ConverterKind>,
    /// The protocol the upstream speaks.
    pub source_protocol: String,
    /// The protocol sent downstream.
    pub target_protocol: String,
}

impl StreamingTransformCtx {
    /// A transform from `source` to `target` with the given converter.
    pub fn new(source: String, target: String, converter: Option<ConverterKind>) -> (c: Self)
        ensures
            c.source_protocol == source,
            c.target_protocol == target,
            c.converter == converter,
    {
        StreamingTransformCtx { converter, source_protocol: source, target_protocol: target }
    }

    /// Whether messages pass through unchanged.
    pub fn is_passthrough(&self) -> (b: bool)
        ensures
            b == self.converter is None,
    {
        self.converter.is_none()
    }
}

/// The bytes sent downstream for a run of messages: the formatted results of
/// every message in order, nothing for a dropped one.
pub fn assemble_output(outcomes: &Vec<MessageOutcome>) -> (out: Vec<u8>)
    ensures
        out@ == output_bytes(outcomes@),
{
    let mut out: Vec<u8> = Vec::new();
    let mut i: usize = 0;
    while i < outcomes.len()
        invariant
            i <= outcomes@.len(),
            out@ == output_bytes(outcomes@.take(i as int)),
        decreases outcomes.len() - i,
    {
        let ghost before = out@;
        match &outcomes[i] {
            MessageOutcome::Emitted(parts) => {
                let mut j: usize = 0;
                while j < parts.len()
                    invariant
                        j <= parts@.len(),
                        out@ == before + parts@.take(j as int).map_values(|p: Vec<u8>| p@).flatten(),
                    decreases parts.len() - j,
                {
                    let ghost mid = out@;
                    out.extend_from_slice(parts[j].as_slice());
                    proof {
                        assert(out@ =~= mid + parts@[j as int]@);
                        assert(parts@.take(j + 1).map_values(|p: Vec<u8>| p@) =~= parts@.take(
                            j as int,
                        ).map_values(|p: Vec<u8>| p@).push(parts@[j as int]@));
                        parts@.take(j as int).map_values(|p: Vec<u8>| p@).lemma_flatten_push(
                            parts@[j as int]@,
                        );
                    }
                    j = j + 1;
                }
                assert(parts@.take(parts@.len() as int) =~= parts@);
            },
            MessageOutcome::Dropped => {},
        }
        proof {
            let f = |o: MessageOutcome| outcome_bytes(o);
            assert(outcomes@.take(i + 1).map_values(f) =~= outcomes@.take(i as int).map_values(
                f,
            ).push(outcome_bytes(outcomes@[i as int])));
            outcomes@.take(i as int).map_values(f).lemma_flatten_push(
                outcome_bytes(outcomes@[i as int]),
            );
            assert(out@ =~= before + outcome_bytes(outcomes@[i as int]));
        }
        i = i + 1;
    }
    assert(outcomes@.take(outcomes@.len() as int) =~= outcomes@);
    out
}

/// What one upstream message becomes. `converted` is the converter's answer
/// when there is a converter: its formatted messages, or an error, in which
/// case the message is dropped. Without a converter (`None`) the message
/// passes through as `original`, its own formatting.
pub fn message_outcome(converted: Option<Result<Vec<Vec<u8>>, ()>>, original: Vec<u8>) -> (o:
    MessageOutcome)
    ensures
        match converted {
            None => o matches MessageOutcome::Emitted(parts) && parts@ == seq![original],
            Some(Ok(msgs)) => o matches MessageOutcome::Emitted(parts) && parts == msgs,
            Some(Err(_)) => o is Dropped,
        },
{
    match converted {
        None => {
            let mut parts: Vec<Vec<u8>> = Vec::new();
            parts.push(original);
            MessageOutcome::Emitted(parts)
        },
        Some(Ok(msgs)) => MessageOutcome::Emitted(msgs),
        Some(Err(_)) => MessageOutcome::Dropped,
    }
}

/// The total length of a sequence of byte strings.
pub open spec fn total_len(ps: Seq<Seq<u8>>) -> nat
    decreases ps.len(),
{
    if ps.len() == 0 {
        0
    } else {
        total_len(ps.drop_last()) + ps.last().len()
    }
}

/// Where the `j`-th byte string starts when the strings are laid end to end.
pub open spec fn part_start(ps: Seq<Seq<u8>>, j: int) -> nat {
    total_len(ps.take(j))
}

/// Laying byte strings end to end gives a string as long as all of them,
/// holding each one, byte for byte, at its place.
proof fn lemma_flatten_layout(ps: Seq<Seq<u8>>)
    ensures
        ps.flatten().len() == total_len(ps),
        forall|j: int|
            0 <= j < ps.len() ==> part_start(ps, j) + (#[trigger] ps[j]).len() <= total_len(ps),
        forall|j: int, q: int|
            0 <= j < ps.len() && 0 <= q < ps[j].len() ==> #[trigger] ps.flatten()[part_start(ps, j)
                + q] == #[trigger] ps[j][q],
    decreases ps.len(),
{
    if ps.len() > 0 {
        let init = ps.drop_last();
        let last = ps.last();
        lemma_flatten_layout(init);
        assert(ps =~= init.push(last));
        init.lemma_flatten_push(last);
        assert(ps.flatten() == init.flatten() + last);
        assert(total_len(ps) == total_len(init) + last.len());
        assert forall|j: int| 0 <= j < ps.len() implies part_start(ps, j) + (#[trigger] ps[j]).len()
            <= total_len(ps) by {
            if j < ps.len() - 1 {
                assert(ps.take(j) =~= init.take(j));
                assert(ps[j] == init[j]);
            } else {
                assert(ps.take(j) =~= init);
            }
        }
        assert forall|j: int, q: int|
            0 <= j < ps.len() && 0 <= q < ps[j].len() implies #[trigger] ps.flatten()[part_start(
            ps,
            j,
        ) + q] == #[trigger] ps[j][q] by {
            if j < ps.len() - 1 {
                assert(ps.take(j) =~= init.take(j));
                assert(ps[j] == init[j]);
                assert(part_start(init, j) + init[j].len() <= total_len(init));
                assert(init.flatten()[part_start(init, j) + q] == init[j][q]);
            } else {
                assert(ps.take(j) =~= init);
                assert(part_start(ps, j) == init.flatten().len());
                assert(ps[j] == last);
            }
        }
    }
}

/// The byte strings held by a list of byte vectors.
pub open spec fn part_views(parts: Seq<Vec<u8>>) -> Seq<Seq<u8>> {
    Seq::new(parts.len(), |i: int| parts[i]@)
}

/// The bytes a converted message contributes downstream are all of its
/// formatted messages laid end to end, in order: as long as all of them
/// together, with every byte of the `j`-th at its place. A dropped message
/// contributes nothing.
pub proof fn lemma_emitted_bytes(parts: Vec<Vec<u8>>)
    ensures
        outcome_bytes(MessageOutcome::Emitted(parts)).len() == total_len(part_views(parts@)),
        forall|j: int, q: int|
            0 <= j < parts@.len() && 0 <= q < parts@[j]@.len() ==> #[trigger] outcome_bytes(
                MessageOutcome::Emitted(parts),
            )[part_start(part_views(parts@), j) + q] == #[trigger] parts@[j]@[q],
        outcome_bytes(MessageOutcome::Dropped).len() == 0,
{
    let ps = parts@.map_values(|p: Vec<u8>| p@);
    assert(ps =~= part_views(parts@));
    lemma_flatten_layout(ps);
    assert forall|j: int, q: int|
        0 <= j < parts@.len() && 0 <= q < parts@[j]@.len() implies #[trigger] outcome_bytes(
            MessageOutcome::Emitted(parts),
        )[part_start(part_views(parts@), j) + q] == #[trigger] parts@[j]@[q] by {
        assert(ps[j] == parts@[j]@);
        assert(ps.flatten()[part_start(ps, j) + q] == ps[j][q]);
    }
}

/// The bytes of a run of messages followed by one more are the run's bytes
/// followed by that message's bytes.
pub proof fn lemma_output_appends(outcomes: Seq<MessageOutcome>, o: MessageOutcome)
    ensures
        output_bytes(outcomes.push(o)) == output_bytes(outcomes) + outcome_bytes(o),
{
    let f = |x: MessageOutcome| outcome_bytes(x);
    assert(outcomes.push(o).map_values(f) =~= outcomes.map_values(f).push(outcome_bytes(o)));
    outcomes.map_values(f).lemma_flatten_push(outcome_bytes(o));
}

} // verus!
