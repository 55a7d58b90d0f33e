//! The ingestion orchestrator: builds a record from a request, validates and
//! stages it, answers the caller, and then, off the caller's path, brokers the
//! record and marks it processed.
use vstd::prelude::*;
use crate::doc::{DaaSDoc, component_ok, id_of, meta_lookup};
use crate::eventing::broker::{DaaSKafkaBroker, topic_of};
use crate::errors::{UpsertError, UpsertErrorKind};
use crate::provenance::{ProvenanceChain, chain_valid};
use crate::storage::local::{
    LocalStorage, StagedDoc, id_well_formed, names_of, rev_view, staged_as, upsert_outcome, no_revision,
    lemma_latest_of_none, lemma_revision_sequence, lemma_rewrite_keeps_latest, latest_of, uuid_of,
};
use crate::decimal::decimal_of;
use crate::text::{contains_char, split_fields};

verus! {

/// The path parameters of an ingestion request.
#[derive(Debug, Clone)]
pub struct Info {
    pub category: String,
    pub subcategory: String,
    pub source_name: String,
    pub source_uid: usize,
}

/// Where a record stands in its ingestion.
#[derive(Debug, Clone, Copy, PartialEq, Eq, Structural)]
pub enum IngestState {
    /// Built from the request.
    Received,
    /// Its provenance chain verified.
    Validated,
    /// Staged in the local store; the caller is answered here.
    Persisted,
    /// Handed to the broker.
    Brokered,
    /// Its staged revision records that it was brokered.
    MarkedProcessed,
    /// Refused; nothing was staged.
    Rejected,
}

/// The state after the step taken in `s` succeeded or failed.
pub open spec fn next_state(s: IngestState, succeeded: bool) -> IngestState {
    match s {
        IngestState::Received => if succeeded { IngestState::Validated } else { IngestState::Rejected },
        IngestState::Validated => if succeeded { IngestState::Persisted } else { IngestState::Rejected },
        IngestState::Persisted => if succeeded { IngestState::Brokered } else { IngestState::Persisted },
        IngestState::Brokered => if succeeded { IngestState::MarkedProcessed } else { IngestState::Brokered },
        _ => s,
    }
}

impl IngestState {
    /// Moves past the step taken in this state. Failures after the record is
    /// staged leave it where it is, for reconciliation out of band.
    pub fn advance(self, succeeded: bool) -> (r: IngestState)
        ensures
            r == next_state(self, succeeded),
            r == IngestState::Brokered ==> self == IngestState::Persisted || self == IngestState::Brokered,
            r == IngestState::Rejected ==> self == IngestState::Received || self == IngestState::Validated
                || self == IngestState::Rejected,
    {
        match self {
            IngestState::Received => if succeeded { IngestState::Validated } else { IngestState::Rejected },
            IngestState::Validated => if succeeded { IngestState::Persisted } else { IngestState::Rejected },
            IngestState::Persisted => if succeeded { IngestState::Brokered } else { IngestState::Persisted },
            IngestState::Brokered => if succeeded { IngestState::MarkedProcessed } else { IngestState::Brokered },
            other => other,
        }
    }

    /// Whether the caller has been told that the record was received.
    pub fn acknowledged(self) -> (r: bool)
        ensures
            r == (self == IngestState::Persisted || self == IngestState::Brokered || self
                == IngestState::MarkedProcessed),
    {
        match self {
            IngestState::Persisted | IngestState::Brokered | IngestState::MarkedProcessed => true,
            _ => false,
        }
    }
}

/// A record accepted on the caller's path, with the topic it goes to.
#[derive(Debug, Clone)]
pub struct Accepted {
    /// The planned write of its first staged revision.
    pub staged: StagedDoc,
    /// The topic the record is brokered to.
    pub topic: String,
}

/// Whether a record may go past validation: its chain verifies, it declares
/// a usage agreement, and its identity has its four components.
pub open spec fn admissible(doc: DaaSDoc) -> bool {
    &&& chain_valid(doc.data_tracker.links@)
    &&& doc.data_usage_agreements@.len() > 0
    &&& id_well_formed(doc._id@)
}

/// The service that receives data objects.
pub struct DaaSListener {}

impl DaaSListener {
    /// The route of the health check.
    pub fn get_service_health_path() -> (r: String)
        ensures
            r@ == "/health"@,
    {
        String::from_str("/health")
    }

    /// The route that receives data objects.
    pub fn get_service_path() -> (r: String)
        ensures
            r@ == "/{category}/{subcategory}/{source_name}/{source_uid}"@,
    {
        String::from_str("/{category}/{subcategory}/{source_name}/{source_uid}")
    }

    /// The status and body that answer a health check.
    pub fn health() -> (r: (u16, &'static str))
        ensures
            r.0 == 200,
            r.1@ == "{\"status\":\"OK\"}"@,
    {
        (200, "{\"status\":\"OK\"}")
    }

    /// The status and body that answer an ingestion request, by whether the
    /// record was staged.
    pub fn respond(staged: bool) -> (r: (u16, &'static str))
        ensures
            staged ==> r.0 == 200 && r.1@ == "{\"status\":\"ok\"}"@,
            !staged ==> r.0 == 422 && r.1@ == "{\"error\":\"unable to process data\"}"@,
    {
        if staged {
            (200, "{\"status\":\"ok\"}")
        } else {
            (422, "{\"error\":\"unable to process data\"}")
        }
    }

    /// Builds the record for a request. The content type, or `unknown`, is
    /// recorded under `content-type`. Components that hold the delimiter are
    /// refused, so that every identity names one component tuple.
    pub fn build_doc(
        params: Info,
        author: String,
        duas: Vec<pbd::dua::DUA>,
        tracker: ProvenanceChain,
        body: Vec<u8>,
        content_type: Option<String>,
    ) -> (r: Result<DaaSDoc, UpsertError>)
        ensures
            r is Ok <==> component_ok(params.category@) && component_ok(params.subcategory@)
                && component_ok(params.source_name@),
            r matches Err(e) ==> e.kind == UpsertErrorKind::Rejected,
            r matches Ok(d) ==> {
                &&& d._id@ == id_of(
                    params.category@,
                    params.subcategory@,
                    params.source_name@,
                    params.source_uid as nat,
                )
                &&& d._rev is None
                &&& !d.process_ind
                &&& d.author@ == author@
                &&& d.category@ == params.category@
                &&& d.subcategory@ == params.subcategory@
                &&& d.source_name@ == params.source_name@
                &&& d.source_uid == params.source_uid
                &&& d.data_usage_agreements@ == duas@
                &&& d.data_tracker == tracker
                &&& d.data_obj@ == body@
                &&& meta_lookup(d.meta_data@, "content-type"@) == Some(
                    match content_type {
                        Some(c) => c@,
                        None => "unknown"@,
                    },
                )
            },
    {
        if contains_char(params.category.as_str(), '~') || contains_char(params.subcategory.as_str(), '~')
            || contains_char(params.source_name.as_str(), '~') {
            return Err(UpsertError { kind: UpsertErrorKind::Rejected });
        }
        let mut doc = DaaSDoc::new(
            params.source_name,
            params.source_uid,
            params.category,
            params.subcategory,
            author,
            duas,
            tracker,
            body,
        );
        let ct = match content_type {
            Some(c) => c,
            None => String::from_str("unknown"),
        };
        doc.add_meta(String::from_str("content-type"), ct);
        Ok(doc)
    }

    /// The caller's path of an ingestion: validates the record, requires a
    /// usage agreement, and plans its write as the next revision given the
    /// file names of its directory. The topic is `broker_topic`, or the
    /// record's canonical topic.
    pub fn process_data(
        doc: DaaSDoc,
        broker_topic: Option<String>,
        storage: &LocalStorage,
        names: &Vec<String>,
    ) -> (r: Result<Accepted, UpsertError>)
        ensures
            r is Ok <==> admissible(doc) && upsert_outcome(doc._id@, names_of(names@), rev_view(doc._rev)) is Ok,
            r matches Err(e) ==> (if admissible(doc) {
                upsert_outcome(doc._id@, names_of(names@), rev_view(doc._rev)) == Err::<nat, UpsertErrorKind>(
                    e.kind,
                )
            } else {
                e.kind == UpsertErrorKind::Rejected
            }),
            r matches Ok(a) ==> staged_as(
                a.staged,
                storage.path@,
                doc,
                upsert_outcome(doc._id@, names_of(names@), rev_view(doc._rev))->Ok_0,
            ),
            r matches Ok(a) ==> a.topic@ == match broker_topic {
                Some(t) => t@,
                None => topic_of(doc.category@, doc.subcategory@, doc.source_name@),
            },
    {
        let doc = match doc.validate() {
            Ok(d) => d,
            Err(_) => {
                return Err(UpsertError { kind: UpsertErrorKind::Rejected });
            },
        };
        if doc.data_usage_agreements.len() == 0 {
            return Err(UpsertError { kind: UpsertErrorKind::Rejected });
        }
        let fields = split_fields(doc._id.as_str(), '~');
        if fields.len() != 4 {
            return Err(UpsertError { kind: UpsertErrorKind::Rejected });
        }
        let topic = match broker_topic {
            Some(t) => t,
            None => DaaSKafkaBroker::default_topic(&doc),
        };
        match storage.upsert_daas_doc(doc, names) {
            Ok(staged) => Ok(Accepted { staged, topic }),
            Err(e) => Err(e),
        }
    }
}

/// A new record whose chain verifies, that declares a usage agreement and
/// whose identity has no revision yet is staged as revision 0, unchanged but
/// for its revision and write time.
pub proof fn lemma_fresh_record_staged(doc: DaaSDoc, names: Seq<Seq<char>>)
    requires
        admissible(doc),
        doc._rev is None,
        no_revision(doc._id@, names),
    ensures
        upsert_outcome(doc._id@, names, rev_view(doc._rev)) == Ok::<nat, UpsertErrorKind>(0),
{
    lemma_latest_of_none(doc._id@, names);
}

/// Ingesting a new record into an identity with no revision stages it as
/// revision 0 in the file `id~0`; marking it processed afterwards rewrites
/// that same listed file, so the identity still has exactly revision 0.
pub proof fn lemma_ingest_then_mark(doc: DaaSDoc, names: Seq<Seq<char>>)
    requires
        admissible(doc),
        doc._rev is None,
        !doc.process_ind,
        no_revision(doc._id@, names),
    ensures
        upsert_outcome(doc._id@, names, rev_view(doc._rev)) == Ok::<nat, UpsertErrorKind>(0),
        ({
            let staged = names.push(uuid_of(doc._id@, decimal_of(0)));
            &&& staged.contains(uuid_of(doc._id@, decimal_of(0)))
            &&& latest_of(doc._id@, staged) == Some(0nat)
            &&& latest_of(doc._id@, staged.push(uuid_of(doc._id@, decimal_of(0)))) == Some(0nat)
        }),
{
    lemma_revision_sequence(doc._id@, names);
    let staged = names.push(uuid_of(doc._id@, decimal_of(0)));
    assert(staged[names.len() as int] == uuid_of(doc._id@, decimal_of(0)));
    crate::storage::local::lemma_upsert_advances(doc._id@, names, None);
    lemma_rewrite_keeps_latest(doc._id@, staged, names.len() as int);
}

} // verus!
