//! The consumer pipeline: what the poll loop does with each message, when it
//! stops, and where a restarted consumer resumes in a partition.
use vstd::prelude::*;
use crate::doc::DaaSDoc;
use crate::errors::daaserror::DaaSProcessingError;
use crate::eventing::broker::{DaaSKafkaBroker, topic_of};

verus! {

/// A message handed to a provisioning callback.
#[derive(Debug, Clone)]
pub struct DaaSProcessorMessage {
    /// The offset of the message in its partition.
    pub offset: i64,
    /// The key of the message.
    pub key: Vec<u8>,
    /// The record the message carries.
    pub doc: DaaSDoc,
    /// The topic the message came from.
    pub topic: String,
}

/// What a non-blocking look at the control channel found.
#[derive(Debug, Clone, Copy, PartialEq, Eq, Structural)]
pub enum ControlSignal {
    /// A stop was sent.
    Stop,
    /// Nothing was sent.
    Empty,
    /// The sending side is gone.
    Disconnected,
}

/// What the loop does with one polled message.
#[derive(Debug, Clone, Copy, PartialEq, Eq, Structural)]
pub enum Disposition {
    /// Commit the message's offset: it was processed.
    Commit,
    /// Leave the offset uncommitted: it is delivered again on restart.
    Withhold,
    /// The payload is not a record: log it and go on.
    Skip,
}

/// The position from which a restarted consumer reads one partition.
#[derive(Debug, Clone, Copy, PartialEq, Eq, Structural)]
pub struct PartitionCursor {
    /// The first offset not yet committed.
    pub committed: i64,
}

/// What the loop does with a message, by whether its payload decoded into a
/// record and what the callback returned.
pub open spec fn disposition_of(decoded: bool, outcome: Option<Result<i32, DaaSProcessingError>>) -> Disposition {
    if !decoded {
        Disposition::Skip
    } else if outcome matches Some(Ok(_)) {
        Disposition::Commit
    } else {
        Disposition::Withhold
    }
}

/// The cursor after the callback for the message at `offset` succeeded or
/// failed.
pub open spec fn cursor_after(c: PartitionCursor, offset: i64, succeeded: bool) -> PartitionCursor {
    if succeeded {
        PartitionCursor { committed: (offset + 1) as i64 }
    } else {
        c
    }
}

/// The consumer of the pipeline.
pub struct DaaSProcessor {}

impl DaaSProcessor {
    /// Whether the loop runs another iteration: only while no stop was sent
    /// and the control channel is still open.
    pub fn keep_listening(signal: ControlSignal) -> (r: bool)
        ensures
            r == (signal == ControlSignal::Empty),
    {
        match signal {
            ControlSignal::Empty => true,
            _ => false,
        }
    }

    /// What to do with a message, by whether its payload decoded into a record
    /// and, if it did, what the callback returned.
    pub fn dispose(decoded: bool, outcome: Option<Result<i32, DaaSProcessingError>>) -> (r: Disposition)
        ensures
            r == disposition_of(decoded, outcome),
            !decoded ==> r == Disposition::Skip,
            decoded && (outcome matches Some(Ok(_))) ==> r == Disposition::Commit,
            decoded && !(outcome matches Some(Ok(_))) ==> r == Disposition::Withhold,
    {
        if !decoded {
            Disposition::Skip
        } else {
            match outcome {
                Some(Ok(_)) => Disposition::Commit,
                _ => Disposition::Withhold,
            }
        }
    }
}

impl PartitionCursor {
    /// A cursor that resumes at `committed`.
    pub fn new(committed: i64) -> (r: PartitionCursor)
        ensures
            r.committed == committed,
    {
        PartitionCursor { committed }
    }

    /// Records the callback result for the message at `offset`; returns the
    /// offset to commit, if any. Success moves the cursor past the message;
    /// failure leaves it where it was.
    pub fn record(&mut self, offset: i64, outcome: &Result<i32, DaaSProcessingError>) -> (r: Option<i64>)
        requires
            0 <= offset < i64::MAX,
        ensures
            *final(self) == cursor_after(*old(self), offset, outcome is Ok),
            outcome is Ok ==> r == Some(offset),
            outcome is Err ==> r is None,
    {
        match outcome {
            Ok(_) => {
                self.committed = offset + 1;
                Some(offset)
            },
            Err(_) => None,
        }
    }

    /// The first offset a restarted consumer is delivered.
    pub fn resume_from(&self) -> (r: i64)
        ensures
            r == self.committed,
    {
        self.committed
    }
}

/// A record whose callback succeeded is committed and is not delivered again
/// after a restart; one whose callback failed, and that was not committed
/// before, is withheld and delivered again.
pub proof fn lemma_commit_only_on_success(c: PartitionCursor, offset: i64, code: i32, err: DaaSProcessingError)
    requires
        0 <= offset < i64::MAX,
        c.committed <= offset,
    ensures
        disposition_of(true, Some(Ok(code))) == Disposition::Commit,
        cursor_after(c, offset, true).committed > offset,
        disposition_of(true, Some(Err(err))) == Disposition::Withhold,
        cursor_after(c, offset, false).committed <= offset,
{
}

/// The processor that provisions records into long-term storage.
pub struct DaasGenesisProcessor {}

impl DaasGenesisProcessor {
    /// The topics a record is brokered to when none are given: its canonical
    /// topic, its category, its category and subcategory, and its source name.
    pub fn default_topics(doc: &DaaSDoc) -> (r: Vec<String>)
        ensures
            r@.len() == 4,
            r@[0]@ == topic_of(doc.category@, doc.subcategory@, doc.source_name@),
            r@[1]@ == doc.category@,
            r@[2]@ == doc.category@.push('.') + doc.subcategory@,
            r@[3]@ == doc.source_name@,
    {
        proof {
            reveal_strlit(".");
        }
        let mut topics: Vec<String> = Vec::new();
        topics.push(DaaSKafkaBroker::default_topic(doc));
        topics.push(doc.category.clone());
        let mut both = doc.category.clone();
        both.append(".");
        both.append(doc.subcategory.as_str());
        topics.push(both);
        topics.push(doc.source_name.clone());
        topics
    }

    /// The topics to broker to: those given, else the default ones.
    pub fn broker_targets(doc: &DaaSDoc, send_to: Option<Vec<String>>) -> (r: Vec<String>)
        ensures
            send_to matches Some(t) ==> r == t,
            send_to is None ==> r@.len() == 4,
            send_to is None ==> r@[0]@ == topic_of(doc.category@, doc.subcategory@, doc.source_name@),
            send_to is None ==> r@[1]@ == doc.category@,
            send_to is None ==> r@[2]@ == doc.category@.push('.') + doc.subcategory@,
            send_to is None ==> r@[3]@ == doc.source_name@,
    {
        match send_to {
            Some(t) => t,
            None => DaasGenesisProcessor::default_topics(doc),
        }
    }

    /// Where re-brokering to `total` topics stands after the deliveries made so
    /// far: failed at the first delivery that failed, done once every topic
    /// took the record, else not finished (`None`).
    pub fn rebroker_status(delivered: &Vec<bool>, total: usize) -> (r: Option<Result<i32, DaaSProcessingError>>)
        requires
            delivered@.len() <= total,
        ensures
            (exists|i: int| 0 <= i < delivered@.len() && !#[trigger] delivered@[i]) ==> r == Some(
                Err::<i32, DaaSProcessingError>(DaaSProcessingError::BrokerError),
            ),
            (forall|i: int| 0 <= i < delivered@.len() ==> #[trigger] delivered@[i]) ==> r == (if delivered@.len()
                == total {
                Some(Ok::<i32, DaaSProcessingError>(1))
            } else {
                None
            }),
    {
        let mut i: usize = 0;
        while i < delivered.len()
            invariant
                i <= delivered@.len(),
                forall|j: int| 0 <= j < i ==> #[trigger] delivered@[j],
            decreases delivered@.len() - i,
        {
            if !delivered[i] {
                return Some(Err(DaaSProcessingError::BrokerError));
            }
            i = i + 1;
        }
        if delivered.len() == total {
            Some(Ok(1))
        } else {
            None
        }
    }

    /// The key under which a record from `topic` is kept in blob storage.
    pub fn blob_key(topic: &str, doc_id: &str) -> (r: String)
        ensures
            r@ == (topic@.push('/') + doc_id@) + ".daas"@,
    {
        proof {
            reveal_strlit("/");
        }
        let mut k = String::from_str(topic);
        k.append("/");
        k.append(doc_id);
        k.append(".daas");
        k
    }

    /// The callback result of provisioning, by whether the upload succeeded
    /// and, when a broker client was at hand, whether every topic took the
    /// record.
    pub fn provision_result(uploaded: bool, brokered: Option<bool>) -> (r: Result<i32, DaaSProcessingError>)
        ensures
            !uploaded ==> r == Err::<i32, DaaSProcessingError>(DaaSProcessingError::UpsertError),
            uploaded && brokered == Some(false) ==> r == Err::<i32, DaaSProcessingError>(
                DaaSProcessingError::BrokerError,
            ),
            uploaded && brokered != Some(false) ==> r == Ok::<i32, DaaSProcessingError>(1),
    {
        if !uploaded {
            Err(DaaSProcessingError::UpsertError)
        } else {
            match brokered {
                Some(false) => Err(DaaSProcessingError::BrokerError),
                _ => Ok(1),
            }
        }
    }
}

} // verus!
