use vstd::prelude::*;
use crate::product::Product;

verus! {

/// The capability every format adapter offers: serialize one record to
/// bytes, and read a record back out of bytes this adapter produced.
pub trait FormatBenchmark<T> {
    fn encode(item: &T) -> Vec<u8>;

    fn decode(bytes: &[u8]) -> T;
}

/// Configuration threaded into the runner: whether each record's encoding is
/// decoded again and its id checked, or the decode step is skipped for every
/// adapter uniformly.
pub struct RunConfig {
    pub check_decode: bool,
}

/// What the measurement loop observed for one record.
#[derive(Clone, Copy)]
pub enum RecordEvent {
    /// The adapter could not encode the record.
    EncodeFailed,
    /// The record was encoded into `len` bytes; the decode step was skipped.
    Encoded { len: usize },
    /// The record was encoded into `len` bytes and the bytes were decoded
    /// again: `decoded_id` is the id read back, or `None` when the adapter
    /// could not decode its own output.
    EncodedChecked { len: usize, decoded_id: Option<u64> },
}

/// Why a run was abandoned: a benchmark cannot meaningfully report a format
/// that fails a cycle, so the first failure ends the run for that format.
pub enum RunError {
    /// The adapter failed to encode the record at `index`.
    EncodeFailed { index: usize },
    /// The adapter failed to decode its own encoding of the record at `index`.
    DecodeFailed { index: usize },
    /// The decoded id of the record at `index` differed from the source id.
    IdMismatch { index: usize, expected: u64, actual: u64 },
}

/// Accumulated result of a run: how many records were measured and the total
/// encoded size in bytes.
#[derive(Clone, Copy)]
pub struct RunState {
    pub processed: usize,
    pub total_bytes: u128,
}

impl RunState {
    /// Each processed record contributes at most one address space worth of
    /// bytes, so the running total never outgrows 128 bits.
    pub open spec fn wf(self) -> bool {
        self.total_bytes <= self.processed * usize::MAX
    }

    /// The state before any record has been measured.
    pub fn new() -> (r: RunState)
        ensures
            r.wf(),
            r.processed == 0,
            r.total_bytes == 0,
    {
        RunState { processed: 0, total_bytes: 0 }
    }
}

/// The byte count an event contributes to the total.
pub open spec fn ev_len(ev: RecordEvent) -> nat {
    match ev {
        RecordEvent::EncodeFailed => 0,
        RecordEvent::Encoded { len } => len as nat,
        RecordEvent::EncodedChecked { len, .. } => len as nat,
    }
}

/// Whether an event lets the run go on: encoding must have succeeded, and if
/// the bytes were decoded again the id read back must equal the source id.
pub open spec fn ev_ok(expected: u64, ev: RecordEvent) -> bool {
    match ev {
        RecordEvent::EncodeFailed => false,
        RecordEvent::Encoded { .. } => true,
        RecordEvent::EncodedChecked { decoded_id, .. } => decoded_id == Some(expected),
    }
}

/// The error a failing event turns into at position `index`.
pub open spec fn ev_error(expected: u64, ev: RecordEvent, index: usize) -> RunError {
    match ev {
        RecordEvent::EncodeFailed => RunError::EncodeFailed { index },
        RecordEvent::Encoded { .. } => arbitrary(),
        RecordEvent::EncodedChecked { decoded_id: None, .. } => RunError::DecodeFailed { index },
        RecordEvent::EncodedChecked { decoded_id: Some(id), .. } => RunError::IdMismatch {
            index,
            expected,
            actual: id,
        },
    }
}

/// Total encoded size of a run: the sum of the byte counts of its events.
pub open spec fn spec_run_total(evs: Seq<RecordEvent>) -> nat
    decreases evs.len(),
{
    if evs.len() == 0 {
        0
    } else {
        ev_len(evs[0]) + spec_run_total(evs.drop_first())
    }
}

/// Appending one event adds exactly its byte count.
pub proof fn lemma_run_total_push(evs: Seq<RecordEvent>, ev: RecordEvent)
    ensures
        spec_run_total(evs.push(ev)) == spec_run_total(evs) + ev_len(ev),
    decreases evs.len(),
{
    if evs.len() == 0 {
        assert(evs.push(ev).drop_first() =~= Seq::<RecordEvent>::empty());
        assert(spec_run_total(Seq::<RecordEvent>::empty()) == 0);
    } else {
        assert(evs.push(ev).drop_first() =~= evs.drop_first().push(ev));
        lemma_run_total_push(evs.drop_first(), ev);
    }
}

/// Every round of the run succeeded.
pub open spec fn run_ok(ids: Seq<u64>, evs: Seq<RecordEvent>) -> bool {
    forall|i: int| 0 <= i < evs.len() ==> ev_ok(ids[i], #[trigger] evs[i])
}

/// The ids of a dataset, record by record.
pub open spec fn ids_of(data: Seq<Product>) -> Seq<u64> {
    data.map_values(|p: Product| p.id)
}

/// An event sequence that fits the configuration: the decode step ran on
/// every encoded record, or on none.
pub open spec fn events_match_config(evs: Seq<RecordEvent>, check_decode: bool) -> bool {
    forall|i: int| 0 <= i < evs.len() ==> match #[trigger] evs[i] {
        RecordEvent::EncodeFailed => true,
        RecordEvent::Encoded { .. } => !check_decode,
        RecordEvent::EncodedChecked { .. } => check_decode,
    }
}

/// Folds one record's observation into the run: accumulates the encoded
/// size, and turns a failed cycle into the error that ends the run.
pub fn step(st: RunState, expected_id: u64, ev: RecordEvent, cfg: &RunConfig) -> (r: Result<
    RunState,
    RunError,
>)
    requires
        st.wf(),
        st.processed < usize::MAX,
        cfg.check_decode ==> !(ev is Encoded),
        !cfg.check_decode ==> !(ev is EncodedChecked),
    ensures
        r is Ok <==> ev_ok(expected_id, ev),
        r matches Ok(st2) ==> st2.wf() && st2.processed == st.processed + 1 && st2.total_bytes
            == st.total_bytes + ev_len(ev),
        r matches Err(e) ==> e == ev_error(expected_id, ev, st.processed),
{
    proof {
        assert((st.processed + 1) * (usize::MAX as int) == st.processed * (usize::MAX as int)
            + usize::MAX) by (nonlinear_arith);
        assert((st.processed + 1) * (usize::MAX as int) <= u128::MAX) by (nonlinear_arith)
            requires
                st.processed < usize::MAX,
                usize::MAX <= u64::MAX,
        ;
    }
    match ev {
        RecordEvent::EncodeFailed => Err(RunError::EncodeFailed { index: st.processed }),
        RecordEvent::Encoded { len } => Ok(
            RunState {
                processed: st.processed + 1,
                total_bytes: st.total_bytes + (len as u128),
            },
        ),
        RecordEvent::EncodedChecked { len, decoded_id } => match decoded_id {
            None => Err(RunError::DecodeFailed { index: st.processed }),
            Some(actual) => {
                if actual == expected_id {
                    Ok(
                        RunState {
                            processed: st.processed + 1,
                            total_bytes: st.total_bytes + (len as u128),
                        },
                    )
                } else {
                    Err(RunError::IdMismatch { index: st.processed, expected: expected_id, actual })
                }
            },
        },
    }
}

/// Drives a whole run from the recorded per-record observations: the result
/// is the accumulated size of every encoding, or the error of the first
/// record whose cycle failed.
pub fn run_events(data: &Vec<Product>, events: &Vec<RecordEvent>, cfg: &RunConfig) -> (r: Result<
    RunState,
    RunError,
>)
    requires
        data@.len() == events@.len(),
        events_match_config(events@, cfg.check_decode),
    ensures
        r is Ok <==> run_ok(ids_of(data@), events@),
        r matches Ok(st) ==> st.wf() && st.processed == data@.len() && st.total_bytes
            == spec_run_total(events@),
        r matches Err(e) ==> exists|i: int|
            0 <= i < events@.len() && !ev_ok(ids_of(data@)[i], #[trigger] events@[i]) && (forall|
                j: int,
            |
                0 <= j < i ==> ev_ok(ids_of(data@)[j], #[trigger] events@[j])) && e == ev_error(
                ids_of(data@)[i],
                events@[i],
                i as usize,
            ),
{
    let ghost ids = ids_of(data@);
    let mut st = RunState::new();
    let mut i: usize = 0;
    while i < events.len()
        invariant
            0 <= i <= events@.len(),
            data@.len() == events@.len(),
            events_match_config(events@, cfg.check_decode),
            ids == ids_of(data@),
            ids.len() == data@.len(),
            st.wf(),
            st.processed == i,
            st.total_bytes == spec_run_total(events@.take(i as int)),
            forall|j: int| 0 <= j < i ==> ev_ok(ids[j], #[trigger] events@[j]),
        decreases events@.len() - i,
    {
        let expected = data[i].id;
        proof {
            assert(ids[i as int] == data@[i as int].id);
            assert(events@.take(i + 1) =~= events@.take(i as int).push(events@[i as int]));
            lemma_run_total_push(events@.take(i as int), events@[i as int]);
        }
        st = match step(st, expected, events[i], cfg) {
            Ok(st2) => st2,
            Err(e) => {
                return Err(e);
            },
        };
        i += 1;
    }
    proof {
        assert(events@.take(events@.len() as int) =~= events@);
    }
    Ok(st)
}

/// A run in which every round succeeded certifies each record's round trip:
/// no record failed to encode, and every record whose bytes were decoded
/// again got its own id back. This is the guarantee behind a run that ends
/// in a result rather than an error.
pub proof fn lemma_ok_run_certifies_round_trips(ids: Seq<u64>, evs: Seq<RecordEvent>)
    requires
        run_ok(ids, evs),
    ensures
        forall|i: int| 0 <= i < evs.len() ==> !((#[trigger] evs[i]) is EncodeFailed),
        forall|i: int|
            0 <= i < evs.len() ==> match #[trigger] evs[i] {
                RecordEvent::EncodedChecked { decoded_id, .. } => decoded_id == Some(ids[i]),
                _ => true,
            },
{
    assert forall|i: int| 0 <= i < evs.len() implies !((#[trigger] evs[i]) is EncodeFailed) by {
        assert(ev_ok(ids[i], evs[i]));
    }
    assert forall|i: int| 0 <= i < evs.len() implies match #[trigger] evs[i] {
        RecordEvent::EncodedChecked { decoded_id, .. } => decoded_id == Some(ids[i]),
        _ => true,
    } by {
        assert(ev_ok(ids[i], evs[i]));
    }
}

/// Switches the decode step off in an already observed event: the encode
/// outcome and the byte count stay; only the decode information goes.
pub open spec fn without_decode(ev: RecordEvent) -> RecordEvent {
    match ev {
        RecordEvent::EncodeFailed => RecordEvent::EncodeFailed,
        RecordEvent::Encoded { len } => RecordEvent::Encoded { len },
        RecordEvent::EncodedChecked { len, .. } => RecordEvent::Encoded { len },
    }
}

/// Disabling the decode step changes no reported size: a run whose decode
/// information is dropped keeps the byte count of every record, hence the
/// same total; the records that failed to encode are the same ones; and a
/// run that succeeded with the check on still succeeds with it off.
pub proof fn lemma_decode_toggle_preserves_sizes(
    ids: Seq<u64>,
    evs: Seq<RecordEvent>,
    stripped: Seq<RecordEvent>,
)
    requires
        stripped.len() == evs.len(),
        forall|i: int| 0 <= i < evs.len() ==> stripped[i] == without_decode(#[trigger] evs[i]),
    ensures
        spec_run_total(stripped) == spec_run_total(evs),
        forall|i: int|
            0 <= i < evs.len() ==> ((#[trigger] stripped[i]) is EncodeFailed <==> evs[i] is EncodeFailed),
        run_ok(ids, evs) ==> run_ok(ids, stripped),
        events_match_config(stripped, false),
    decreases evs.len(),
{
    if evs.len() > 0 {
        assert(stripped[0] == without_decode(evs[0]));
        assert(forall|i: int|
            0 <= i < evs.drop_first().len() ==> stripped.drop_first()[i] == without_decode(
                #[trigger] evs.drop_first()[i],
            ));
        lemma_decode_toggle_preserves_sizes(ids.drop_first(), evs.drop_first(), stripped.drop_first());
        assert(ev_len(stripped[0]) == ev_len(evs[0]));
    }
    if run_ok(ids, evs) {
        assert forall|i: int| 0 <= i < stripped.len() implies ev_ok(
            ids[i],
            #[trigger] stripped[i],
        ) by {
            assert(ev_ok(ids[i], evs[i]));
            assert(stripped[i] == without_decode(evs[i]));
        }
    }
    assert forall|i: int| 0 <= i < stripped.len() implies match #[trigger] stripped[i] {
        RecordEvent::EncodeFailed => true,
        RecordEvent::Encoded { .. } => true,
        RecordEvent::EncodedChecked { .. } => false,
    } by {
        assert(stripped[i] == without_decode(evs[i]));
    }
}

/// Two runs over the same dataset whose encode step produced the same byte
/// count for every record report the same total size, whatever their decode
/// outcomes and whichever mode either run used: encoding is deterministic
/// input to the total, and nothing else enters it.
pub proof fn lemma_equal_lens_equal_total(evs1: Seq<RecordEvent>, evs2: Seq<RecordEvent>)
    requires
        evs1.len() == evs2.len(),
        forall|i: int| 0 <= i < evs1.len() ==> ev_len(#[trigger] evs1[i]) == ev_len(#[trigger] evs2[i]),
    ensures
        spec_run_total(evs1) == spec_run_total(evs2),
    decreases evs1.len(),
{
    if evs1.len() > 0 {
        assert(ev_len(evs1[0]) == ev_len(evs2[0]));
        lemma_equal_lens_equal_total(evs1.drop_first(), evs2.drop_first());
    }
}

} // verus!
