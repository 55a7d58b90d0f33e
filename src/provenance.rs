//! The tamper-evident provenance chain carried by every document.
//!
//! Each link binds the identity of the data, its position in the chain, a
//! timestamp, the actor that touched the data and the hash of the link before
//! it. A link is sealed by a proof-of-work hash over those fields.
use vstd::prelude::*;

verus! {

/// The proof-of-work hash that seals a link with the given fields.
pub uninterp spec fn marker_hash(
    data_id: Seq<char>,
    index: usize,
    timestamp: u64,
    actor_id: Seq<char>,
    previous_hash: Seq<char>,
) -> Seq<char>;

/// Relies on `pbd::dtc::Marker::new`: it seals a marker with the hash of its
/// identifier fields, a digest that depends on those fields alone.
#[verifier::external_body]
fn seal(data_id: &String, index: usize, timestamp: u64, actor_id: &String, previous_hash: &String) -> (r: String)
    ensures
        r@ == marker_hash(data_id@, index, timestamp, actor_id@, previous_hash@),
{
    pbd::dtc::Marker::new(index, timestamp, actor_id.clone(), data_id.clone(), previous_hash.clone()).hash
}

/// One step in the lineage of a document.
#[derive(Debug, Clone)]
pub struct ChainLink {
    /// The identity of the data being tracked.
    pub data_id: String,
    /// The position of the link in its chain.
    pub index: usize,
    /// When the actor came into possession of the data (Unix seconds).
    pub timestamp: u64,
    /// The actor that touched the data.
    pub actor_id: String,
    /// The stored hash of the link before this one.
    pub previous_hash: String,
    /// The stored hash of this link.
    pub hash: String,
}

/// Whether the stored hash of a link is the hash of its fields.
pub open spec fn link_sealed(l: ChainLink) -> bool {
    l.hash@ == marker_hash(l.data_id@, l.index, l.timestamp, l.actor_id@, l.previous_hash@)
}

/// Whether every link is sealed and names the stored hash of its predecessor.
pub open spec fn chain_valid(links: Seq<ChainLink>) -> bool {
    forall|i: int|
        0 <= i < links.len() ==> {
            &&& link_sealed(#[trigger] links[i])
            &&& i > 0 ==> links[i].previous_hash@ == links[i - 1].hash@
        }
}

/// A chain of links recording the lineage of one document.
#[derive(Debug, Clone)]
pub struct ProvenanceChain {
    pub links: Vec<ChainLink>,
}

impl ProvenanceChain {
    /// Starts a chain for `data_id` with its genesis link.
    pub fn new(data_id: String) -> (r: ProvenanceChain)
        ensures
            r.links@.len() == 1,
            r.links@[0].data_id@ == data_id@,
            r.links@[0].index == 0,
            r.links@[0].timestamp == 0,
            r.links@[0].actor_id@ == Seq::<char>::empty(),
            r.links@[0].previous_hash@ == seq!['0'],
            chain_valid(r.links@),
    {
        let actor = String::new();
        let previous = String::from_str("0");
        proof {
            reveal_strlit("0");
        }
        let hash = seal(&data_id, 0, 0, &actor, &previous);
        let link = ChainLink {
            data_id,
            index: 0,
            timestamp: 0,
            actor_id: actor,
            previous_hash: previous,
            hash,
        };
        let mut links = Vec::new();
        links.push(link);
        ProvenanceChain { links }
    }

    /// Appends a link for an actor that touched the data at `timestamp`; it
    /// takes the next index and names the hash of the last link.
    pub fn add(&mut self, timestamp: u64, actor_id: String, data_id: String)
        requires
            old(self).links@.len() > 0,
        ensures
            final(self).links@.len() == old(self).links@.len() + 1,
            final(self).links@.drop_last() == old(self).links@,
            final(self).links@.last().index == old(self).links@.len(),
            final(self).links@.last().timestamp == timestamp,
            final(self).links@.last().actor_id@ == actor_id@,
            final(self).links@.last().data_id@ == data_id@,
            final(self).links@.last().previous_hash@ == old(self).links@.last().hash@,
            link_sealed(final(self).links@.last()),
            chain_valid(old(self).links@) ==> chain_valid(final(self).links@),
    {
        let n = self.links.len();
        let previous = self.links[n - 1].hash.clone();
        let hash = seal(&data_id, n, timestamp, &actor_id, &previous);
        let link = ChainLink { data_id, index: n, timestamp, actor_id, previous_hash: previous, hash };
        self.links.push(link);
        proof {
            assert(self.links@.drop_last() =~= old(self).links@);
            let l = self.links@;
            if chain_valid(old(self).links@) {
                assert forall|i: int| 0 <= i < l.len() implies {
                    &&& link_sealed(#[trigger] l[i])
                    &&& i > 0 ==> l[i].previous_hash@ == l[i - 1].hash@
                } by {
                    if i < n {
                        assert(l[i] == old(self).links@[i]);
                        if i > 0 {
                            assert(l[i - 1] == old(self).links@[i - 1]);
                        }
                    }
                }
            }
        }
    }

    /// The number of links.
    pub fn len(&self) -> (r: usize)
        ensures
            r == self.links@.len(),
    {
        self.links.len()
    }

    /// Checks every link against its stored hash and its predecessor.
    pub fn is_valid(&self) -> (r: bool)
        ensures
            r == chain_valid(self.links@),
    {
        let n = self.links.len();
        let mut i: usize = 0;
        while i < n
            invariant
                n == self.links@.len(),
                i <= n,
                forall|j: int|
                    0 <= j < i ==> {
                        &&& link_sealed(#[trigger] self.links@[j])
                        &&& j > 0 ==> self.links@[j].previous_hash@ == self.links@[j - 1].hash@
                    },
            decreases n - i,
        {
            let l = &self.links[i];
            let h = seal(&l.data_id, l.index, l.timestamp, &l.actor_id, &l.previous_hash);
            if h != l.hash {
                proof {
                    assert(!link_sealed(self.links@[i as int]));
                }
                return false;
            }
            if i > 0 && l.previous_hash != self.links[i - 1].hash {
                return false;
            }
            i = i + 1;
        }
        true
    }
}

/// Altering the stored hash of any single link of a valid chain makes the
/// chain fail validation.
pub proof fn lemma_altered_hash_breaks_chain(links: Seq<ChainLink>, k: int, altered: String)
    requires
        chain_valid(links),
        0 <= k < links.len(),
        altered@ != links[k].hash@,
    ensures
        !chain_valid(links.update(k, (ChainLink { hash: altered, ..links[k] }))),
{
    let t = links.update(k, ChainLink { hash: altered, ..links[k] });
    assert(link_sealed(links[k]));
    assert(!link_sealed(t[k]));
}

} // verus!
