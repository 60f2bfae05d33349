//! The record-forwarding bridge: what happens to the stream when one record
//! fails to deliver, and when the connection itself is lost.
//!
//! The bridge decides and counts; its owner pulls records from the source and
//! pushes them to the sink transport. A record that the transport rejects is
//! dropped and noted, and the stream goes on. A lost connection, or a source
//! that fails, ends the stream.

use vstd::prelude::*;
use crate::record::{bytes_opt_view, copy_bytes, Record, RecordView};

verus! {

/// What the sink transport said of one delivery.
#[derive(Clone, Copy, Debug, PartialEq, Eq)]
pub enum DeliveryOutcome {
    /// The transport took the record.
    Enqueued,
    /// The transport refused this record; it can take others.
    Rejected,
    /// The transport can no longer be used.
    ConnectionLost,
}

/// Where a bridge stands.
#[derive(Clone, Copy, Debug, PartialEq, Eq)]
pub enum BridgeState {
    /// Forwarding records.
    Running,
    /// The source is exhausted: the stream ended as it should.
    Finished,
    /// The source failed or the connection was lost: the stream was cut.
    Failed,
}

/// What the owner of the bridge does after a delivery.
#[derive(Clone, Copy, Debug, PartialEq, Eq)]
pub enum Followup {
    /// Pull the next record.
    Continue,
    /// The record is lost: log the note, then pull the next record.
    ContinueAfterLoss(FailureNote),
    /// Leave the loop and report the failure.
    Abort,
}

/// What identifies a record that was lost: where the source had it.
#[derive(Clone, Copy, Debug, PartialEq, Eq)]
pub struct FailureNote {
    pub offset: i64,
    pub partition: i32,
}

/// A record as it is handed to the sink transport.
#[derive(Debug, Clone, PartialEq, Eq)]
pub struct OutgoingRecord {
    pub value: Vec<u8>,
    pub key: Option<Vec<u8>>,
    /// The partition to write to; `None` leaves the choice to the transport.
    pub partition: Option<i32>,
}

/// The mathematical content of an [`OutgoingRecord`].
pub struct OutgoingView {
    pub value: Seq<u8>,
    pub key: Option<Seq<u8>>,
    pub partition: Option<i32>,
}

impl View for OutgoingRecord {
    type V = OutgoingView;

    open spec fn view(&self) -> OutgoingView {
        OutgoingView {
            value: self.value@,
            key: bytes_opt_view(self.key),
            partition: self.partition,
        }
    }
}

/// The mathematical content of a [`StreamBridge`].
pub struct BridgeView {
    /// The partition that every outgoing record is pinned to, if any.
    pub partition: Option<i32>,
    pub state: BridgeState,
    /// How many records were handed to the transport.
    pub attempted: nat,
    /// How many of them the transport took.
    pub delivered: nat,
    /// How many of them the transport refused.
    pub lost: nat,
}

/// One more, as far as a counter can count.
pub open spec fn count_up(n: nat) -> nat {
    if n < u64::MAX {
        n + 1
    } else {
        n
    }
}

/// The record that goes out for `r`: its value and key, and the configured
/// partition in place of its own.
pub open spec fn outgoing_of(partition: Option<i32>, r: RecordView) -> OutgoingView {
    OutgoingView { value: r.value, key: r.key, partition }
}

/// The note that identifies `r` in a log.
pub open spec fn note_of(r: RecordView) -> FailureNote {
    FailureNote { offset: r.offset as i64, partition: r.partition as i32 }
}

/// The bridge after it prepared one more record for delivery.
pub open spec fn bridge_on_record(b: BridgeView) -> BridgeView {
    if b.state == BridgeState::Running {
        BridgeView { attempted: count_up(b.attempted), ..b }
    } else {
        b
    }
}

/// The bridge after the transport answered for the record `r`, and what its
/// owner does next.
pub open spec fn bridge_on_outcome(b: BridgeView, r: RecordView, outcome: DeliveryOutcome) -> (
    BridgeView,
    Followup,
) {
    if b.state != BridgeState::Running {
        (b, Followup::Abort)
    } else {
        match outcome {
            DeliveryOutcome::Enqueued => (
                BridgeView { delivered: count_up(b.delivered), ..b },
                Followup::Continue,
            ),
            DeliveryOutcome::Rejected => (
                BridgeView { lost: count_up(b.lost), ..b },
                Followup::ContinueAfterLoss(note_of(r)),
            ),
            DeliveryOutcome::ConnectionLost => (
                BridgeView { state: BridgeState::Failed, ..b },
                Followup::Abort,
            ),
        }
    }
}

/// The bridge after its source ended, cleanly or not.
pub open spec fn bridge_on_source_end(b: BridgeView, clean: bool) -> BridgeView {
    if b.state == BridgeState::Running {
        BridgeView {
            state: if clean {
                BridgeState::Finished
            } else {
                BridgeState::Failed
            },
            ..b
        }
    } else {
        b
    }
}

/// The loop between a record source and a sink transport.
#[derive(Debug)]
pub struct StreamBridge {
    partition: Option<i32>,
    state: BridgeState,
    attempted: u64,
    delivered: u64,
    lost: u64,
}

fn one_more(n: u64) -> (m: u64)
    ensures
        m == count_up(n as nat),
{
    if n < u64::MAX {
        n + 1
    } else {
        n
    }
}

impl StreamBridge {
    /// The configuration, the state and the counts.
    pub closed spec fn view(&self) -> BridgeView {
        BridgeView {
            partition: self.partition,
            state: self.state,
            attempted: self.attempted as nat,
            delivered: self.delivered as nat,
            lost: self.lost as nat,
        }
    }

    /// A running bridge that has forwarded nothing yet. With `Some(p)` every
    /// outgoing record is pinned to partition `p`; with `None` the transport
    /// chooses.
    pub fn new(partition: Option<i32>) -> (b: StreamBridge)
        ensures
            b@ == (BridgeView {
                partition,
                state: BridgeState::Running,
                attempted: 0,
                delivered: 0,
                lost: 0,
            }),
    {
        StreamBridge { partition, state: BridgeState::Running, attempted: 0, delivered: 0, lost: 0 }
    }

    /// The partition that outgoing records are pinned to, if any.
    pub fn partition(&self) -> (p: Option<i32>)
        ensures
            p == self@.partition,
    {
        self.partition
    }

    /// Where the bridge stands.
    pub fn state(&self) -> (s: BridgeState)
        ensures
            s == self@.state,
    {
        self.state
    }

    /// How many records were handed to the transport; the count stops at `u64::MAX`.
    pub fn attempted(&self) -> (n: u64)
        ensures
            n == self@.attempted,
    {
        self.attempted
    }

    /// How many records the transport took; the count stops at `u64::MAX`.
    pub fn delivered(&self) -> (n: u64)
        ensures
            n == self@.delivered,
    {
        self.delivered
    }

    /// How many records the transport refused; the count stops at `u64::MAX`.
    pub fn lost(&self) -> (n: u64)
        ensures
            n == self@.lost,
    {
        self.lost
    }

    /// Whether the stream was cut by a failure.
    pub fn failed(&self) -> (f: bool)
        ensures
            f == (self@.state == BridgeState::Failed),
    {
        match self.state {
            BridgeState::Failed => true,
            _ => false,
        }
    }

    /// Takes the next record of the source and returns what to hand to the
    /// transport: the record's value and key, pinned to the configured
    /// partition. A bridge that no longer runs returns `None`.
    pub fn prepare(&mut self, record: &Record) -> (out: Option<OutgoingRecord>)
        ensures
            final(self)@ == bridge_on_record(old(self)@),
            out is Some == (old(self)@.state == BridgeState::Running),
            out matches Some(o) ==> o@ == outgoing_of(old(self)@.partition, record@),
    {
        match self.state {
            BridgeState::Running => {
                self.attempted = one_more(self.attempted);
                let key = match &record.key {
                    Some(k) => Some(copy_bytes(k)),
                    None => None,
                };
                Some(
                    OutgoingRecord {
                        value: copy_bytes(&record.value),
                        key,
                        partition: self.partition,
                    },
                )
            },
            _ => None,
        }
    }

    /// Takes the transport's answer for `record` and says what to do next.
    ///
    /// A refused record is dropped: the bridge does not try it again. Only a
    /// lost connection ends the stream.
    pub fn settle(&mut self, record: &Record, outcome: DeliveryOutcome) -> (next: Followup)
        ensures
            (final(self)@, next) == bridge_on_outcome(old(self)@, record@, outcome),
    {
        match self.state {
            BridgeState::Running => match outcome {
                DeliveryOutcome::Enqueued => {
                    self.delivered = one_more(self.delivered);
                    Followup::Continue
                },
                DeliveryOutcome::Rejected => {
                    self.lost = one_more(self.lost);
                    Followup::ContinueAfterLoss(
                        FailureNote { offset: record.offset, partition: record.partition },
                    )
                },
                DeliveryOutcome::ConnectionLost => {
                    self.state = BridgeState::Failed;
                    Followup::Abort
                },
            },
            _ => Followup::Abort,
        }
    }

    /// Records that the source has no more records.
    pub fn source_exhausted(&mut self)
        ensures
            final(self)@ == bridge_on_source_end(old(self)@, true),
    {
        match self.state {
            BridgeState::Running => {
                self.state = BridgeState::Finished;
            },
            _ => {},
        }
    }

    /// Records that the source failed.
    pub fn source_failed(&mut self)
        ensures
            final(self)@ == bridge_on_source_end(old(self)@, false),
    {
        match self.state {
            BridgeState::Running => {
                self.state = BridgeState::Failed;
            },
            _ => {},
        }
    }
}

/// What a bridge has done after a run of records: where it stands, what it
/// handed to the transport, and which losses it noted, each in order.
pub struct BridgeTrace {
    pub bridge: BridgeView,
    pub sent: Seq<OutgoingView>,
    pub notes: Seq<FailureNote>,
}

/// How often `which` occurs in `outcomes`.
pub open spec fn count_of(outcomes: Seq<DeliveryOutcome>, which: DeliveryOutcome) -> nat
    decreases outcomes.len(),
{
    if outcomes.len() == 0 {
        0
    } else {
        count_of(outcomes.drop_last(), which) + if outcomes.last() == which {
            1nat
        } else {
            0nat
        }
    }
}

/// The bridge `b` after it was given `records` one by one and the transport
/// answered with `outcomes`, one for each record. A bridge that no longer
/// runs passes over the records that are left.
pub open spec fn bridge_run(
    b: BridgeView,
    records: Seq<RecordView>,
    outcomes: Seq<DeliveryOutcome>,
) -> BridgeTrace
    decreases records.len(),
{
    if records.len() == 0 || outcomes.len() == 0 {
        BridgeTrace { bridge: b, sent: Seq::empty(), notes: Seq::empty() }
    } else {
        let before = bridge_run(b, records.drop_last(), outcomes.drop_last());
        if before.bridge.state != BridgeState::Running {
            before
        } else {
            let (after, next) = bridge_on_outcome(
                bridge_on_record(before.bridge),
                records.last(),
                outcomes.last(),
            );
            BridgeTrace {
                bridge: after,
                sent: before.sent.push(outgoing_of(b.partition, records.last())),
                notes: match next {
                    Followup::ContinueAfterLoss(note) => before.notes.push(note),
                    _ => before.notes,
                },
            }
        }
    }
}

/// A record that the transport refuses does not end the stream: as long as
/// the connection holds, every record of the source is handed to the
/// transport, in the order of the source, each pinned to the configured
/// partition whatever partition it came from. The bridge still runs after
/// the last of them, has counted each record once, as delivered or as lost,
/// and has noted one loss for each refusal.
pub proof fn lemma_rejections_do_not_stop_the_stream(
    partition: Option<i32>,
    records: Seq<RecordView>,
    outcomes: Seq<DeliveryOutcome>,
)
    requires
        records.len() == outcomes.len(),
        records.len() <= u64::MAX,
        forall|i: int| 0 <= i < outcomes.len() ==> outcomes[i] != DeliveryOutcome::ConnectionLost,
    ensures
        ({
            let fresh = BridgeView {
                partition,
                state: BridgeState::Running,
                attempted: 0,
                delivered: 0,
                lost: 0,
            };
            let run = bridge_run(fresh, records, outcomes);
            &&& run.sent == Seq::new(records.len(), |i: int| outgoing_of(partition, records[i]))
            &&& run.bridge == (BridgeView {
                partition,
                state: BridgeState::Running,
                attempted: records.len(),
                delivered: count_of(outcomes, DeliveryOutcome::Enqueued),
                lost: count_of(outcomes, DeliveryOutcome::Rejected),
            })
            &&& run.bridge.delivered + run.bridge.lost == records.len()
            &&& run.notes.len() == run.bridge.lost
            &&& bridge_on_source_end(run.bridge, true).state == BridgeState::Finished
        }),
    decreases records.len(),
{
    let fresh = BridgeView {
        partition,
        state: BridgeState::Running,
        attempted: 0,
        delivered: 0,
        lost: 0,
    };
    let run = bridge_run(fresh, records, outcomes);
    let all = Seq::new(records.len(), |i: int| outgoing_of(partition, records[i]));
    if records.len() == 0 {
        assert(run.sent =~= all);
    } else {
        let front = records.drop_last();
        lemma_rejections_do_not_stop_the_stream(partition, front, outcomes.drop_last());
        let before = bridge_run(fresh, front, outcomes.drop_last());
        assert(outcomes.last() != DeliveryOutcome::ConnectionLost);
        assert(run.sent =~= all);
    }
}

/// With a partition configured, whatever is handed to the transport carries
/// that partition, and the record's value and key unchanged.
pub proof fn lemma_partition_is_pinned(b: BridgeView, p: i32, r: RecordView)
    requires
        b.partition == Some(p),
    ensures
        outgoing_of(b.partition, r).partition == Some(p),
        outgoing_of(b.partition, r).value == r.value,
        outgoing_of(b.partition, r).key == r.key,
{
}

/// A lost connection ends the stream: the record at which the transport
/// answers that the connection is lost is the last one handed to it, the
/// bridge has failed, and the records that follow are never attempted.
pub proof fn lemma_lost_connection_ends_the_stream(
    partition: Option<i32>,
    records: Seq<RecordView>,
    outcomes: Seq<DeliveryOutcome>,
    k: int,
)
    requires
        records.len() == outcomes.len(),
        records.len() <= u64::MAX,
        0 <= k < outcomes.len(),
        outcomes[k] == DeliveryOutcome::ConnectionLost,
        forall|i: int| 0 <= i < k ==> outcomes[i] != DeliveryOutcome::ConnectionLost,
    ensures
        ({
            let fresh = BridgeView {
                partition,
                state: BridgeState::Running,
                attempted: 0,
                delivered: 0,
                lost: 0,
            };
            let run = bridge_run(fresh, records, outcomes);
            &&& run.bridge.state == BridgeState::Failed
            &&& run.bridge.attempted == k + 1
            &&& run.sent == Seq::new((k + 1) as nat, |i: int| outgoing_of(partition, records[i]))
        }),
    decreases records.len(),
{
    let fresh = BridgeView {
        partition,
        state: BridgeState::Running,
        attempted: 0,
        delivered: 0,
        lost: 0,
    };
    let run = bridge_run(fresh, records, outcomes);
    let sent = Seq::new((k + 1) as nat, |i: int| outgoing_of(partition, records[i]));
    let front = records.drop_last();
    let answers = outcomes.drop_last();
    if records.len() == k + 1 {
        lemma_rejections_do_not_stop_the_stream(partition, front, answers);
        assert(run.sent =~= sent);
    } else {
        lemma_lost_connection_ends_the_stream(partition, front, answers, k);
        let before = bridge_run(fresh, front, answers);
        assert(before.sent =~= sent);
    }
}

} // verus!
