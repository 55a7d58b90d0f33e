//! The broker client: topic naming and the bounded wait for a topic to be
//! ready before a document is produced to it.
use vstd::prelude::*;
use crate::doc::DaaSDoc;
use crate::errors::{BrokerError, BrokerErrorKind};

verus! {

/// How many times the topic metadata is loaded before delivery gives up.
pub const METADATA_ATTEMPTS: usize = 3;

/// The pause between two metadata loads, in seconds.
pub const RETRY_PAUSE_SECS: u64 = 1;

/// How long the producer waits for an acknowledgement, in seconds.
pub const ACK_TIMEOUT_SECS: u64 = 1;

/// The canonical topic of a record: category, subcategory and source name
/// joined by dots.
pub open spec fn topic_of(cat: Seq<char>, sub: Seq<char>, src: Seq<char>) -> Seq<char> {
    (cat.push('.') + sub).push('.') + src
}

/// What the client does after a metadata load.
#[derive(Debug, Clone, Copy, PartialEq, Eq, Structural)]
pub enum DeliveryStep {
    /// The topic has a partition: produce the message.
    Send,
    /// The topic has no partition yet: pause, then load the metadata again.
    WaitAndRetry,
    /// The topic never showed a partition.
    Fail(BrokerError),
}

/// The step after metadata load number `attempt` (counting from one) found
/// `partitions` partitions.
pub open spec fn step_after(attempt: nat, partitions: nat) -> DeliveryStep {
    if partitions > 0 {
        DeliveryStep::Send
    } else if attempt < METADATA_ATTEMPTS {
        DeliveryStep::WaitAndRetry
    } else {
        DeliveryStep::Fail(BrokerError { kind: BrokerErrorKind::UnknownTopic })
    }
}

/// A cluster of brokers to deliver to.
#[derive(Debug, Clone)]
pub struct DaaSKafkaBroker {
    /// The host and port of each broker.
    pub brokers: Vec<String>,
}

impl DaaSKafkaBroker {
    /// A client for the given brokers.
    pub fn new(brokers: Vec<String>) -> (r: DaaSKafkaBroker)
        ensures
            r.brokers == brokers,
    {
        DaaSKafkaBroker { brokers }
    }

    /// A client for a broker on the local host.
    pub fn default() -> (r: DaaSKafkaBroker)
        ensures
            r.brokers@.len() == 1,
            r.brokers@[0]@ == "localhost:9092"@,
    {
        DaaSKafkaBroker { brokers: vec![String::from_str("localhost:9092")] }
    }

    /// The canonical topic of a record.
    pub fn default_topic(doc: &DaaSDoc) -> (r: String)
        ensures
            r@ == topic_of(doc.category@, doc.subcategory@, doc.source_name@),
    {
        proof {
            reveal_strlit(".");
        }
        let mut t = doc.category.clone();
        t.append(".");
        t.append(doc.subcategory.as_str());
        t.append(".");
        t.append(doc.source_name.as_str());
        t
    }

    /// The canonical topic of a record, taking the record.
    pub fn make_topic(doc: DaaSDoc) -> (r: String)
        ensures
            r@ == topic_of(doc.category@, doc.subcategory@, doc.source_name@),
    {
        DaaSKafkaBroker::default_topic(&doc)
    }

    /// Decides what follows metadata load number `attempt` (counting from one)
    /// that found `partitions` partitions for the topic.
    pub fn delivery_step(attempt: usize, partitions: usize) -> (r: DeliveryStep)
        requires
            attempt >= 1,
        ensures
            r == step_after(attempt as nat, partitions as nat),
    {
        if partitions > 0 {
            DeliveryStep::Send
        } else if attempt < METADATA_ATTEMPTS {
            DeliveryStep::WaitAndRetry
        } else {
            DeliveryStep::Fail(BrokerError { kind: BrokerErrorKind::UnknownTopic })
        }
    }
}

/// A topic that shows no partition on three loads in a row makes delivery
/// fail with an unknown topic after exactly two pauses; delivery never pauses
/// after the third load, so it neither fails at once nor waits without end.
pub proof fn lemma_unready_topic_fails()
    ensures
        step_after(1, 0) == DeliveryStep::WaitAndRetry,
        step_after(2, 0) == DeliveryStep::WaitAndRetry,
        step_after(3, 0) == DeliveryStep::Fail(BrokerError { kind: BrokerErrorKind::UnknownTopic }),
        forall|attempt: nat, partitions: nat|
            attempt >= METADATA_ATTEMPTS ==> #[trigger] step_after(attempt, partitions)
                != DeliveryStep::WaitAndRetry,
        forall|attempt: nat, partitions: nat|
            partitions > 0 ==> #[trigger] step_after(attempt, partitions) == DeliveryStep::Send,
{
}

} // verus!
