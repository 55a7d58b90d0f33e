//! The data object record: identity, consent and provenance metadata, and
//! the opaque payload.
use vstd::prelude::*;
use crate::DELIMITER;
use crate::decimal::{decimal_of, to_decimal, lemma_decimal_round_trip, lemma_decimal_injective, is_digit};
use crate::errors::{ValidationError, ValidationErrorKind};
use crate::provenance::{ProvenanceChain, chain_valid};
use crate::text::{has_char, split_on, lemma_split_join, lemma_split_single};

verus! {

/// Declares `pbd::dua::DUA`, a usage agreement, which records carry as is.
#[verifier::external_type_specification]
#[verifier::external_body]
pub struct ExDUA(pbd::dua::DUA);

/// The identity of a record: its four components joined by the delimiter.
pub open spec fn id_of(cat: Seq<char>, sub: Seq<char>, src: Seq<char>, uid: nat) -> Seq<char> {
    ((cat.push('~') + sub).push('~') + src).push('~') + decimal_of(uid)
}

/// Whether a text can stand as an identity component: it holds no delimiter.
pub open spec fn component_ok(s: Seq<char>) -> bool {
    !has_char(s, '~')
}

/// The value of the metadata entry for `key`: the last entry with that key.
pub open spec fn meta_lookup(m: Seq<(String, String)>, key: Seq<char>) -> Option<Seq<char>>
    decreases m.len(),
{
    if m.len() == 0 {
        None
    } else if m.last().0@ == key {
        Some(m.last().1@)
    } else {
        meta_lookup(m.drop_last(), key)
    }
}

/// A versioned unit of ingested data with its provenance and consent metadata.
#[derive(Debug, Clone)]
pub struct DaaSDoc {
    /// The identity: category, subcategory, source name and source uid.
    pub _id: String,
    /// The revision; absent until the record is first persisted.
    pub _rev: Option<String>,
    /// The name of the data source.
    pub source_name: String,
    /// The identifier that the data source gave the data.
    pub source_uid: usize,
    /// The category of the data (e.g. order).
    pub category: String,
    /// The subcategory of the data (e.g. clothing).
    pub subcategory: String,
    /// The author that submitted the data.
    pub author: String,
    /// Whether the record has been handed to the broker.
    pub process_ind: bool,
    /// When the record was last written (Unix seconds).
    pub last_updated: u64,
    /// The usage agreements that accompany the data.
    pub data_usage_agreements: Vec<pbd::dua::DUA>,
    /// The lineage of the data.
    pub data_tracker: ProvenanceChain,
    /// Free-form annotations, as key and value.
    pub meta_data: Vec<(String, String)>,
    /// Free-form labels.
    pub tags: Vec<String>,
    /// The payload, stored and forwarded byte for byte.
    pub data_obj: Vec<u8>,
}

/// Relies on `std::time::SystemTime::now`: the current time in whole seconds
/// since the Unix epoch. Nothing is known of its value.
#[verifier::external_body]
pub(crate) fn unix_now() -> (r: u64) {
    match std::time::SystemTime::now().duration_since(std::time::UNIX_EPOCH) {
        Ok(d) => d.as_secs(),
        Err(_) => 0,
    }
}

impl DaaSDoc {
    /// A new, not yet persisted record: no revision, not processed, no
    /// metadata and no tags, stamped with the current time.
    pub fn new(
        src_name: String,
        src_uid: usize,
        cat: String,
        subcat: String,
        auth: String,
        duas: Vec<pbd::dua::DUA>,
        dtc: ProvenanceChain,
        data: Vec<u8>,
    ) -> (r: DaaSDoc)
        requires
            component_ok(cat@),
            component_ok(subcat@),
            component_ok(src_name@),
        ensures
            r._id@ == id_of(cat@, subcat@, src_name@, src_uid as nat),
            r._rev is None,
            r.source_name@ == src_name@,
            r.source_uid == src_uid,
            r.category@ == cat@,
            r.subcategory@ == subcat@,
            r.author@ == auth@,
            !r.process_ind,
            r.data_usage_agreements@ == duas@,
            r.data_tracker == dtc,
            r.meta_data@.len() == 0,
            r.tags@.len() == 0,
            r.data_obj@ == data@,
    {
        let id = DaaSDoc::make_id(cat.clone(), subcat.clone(), src_name.clone(), src_uid);
        DaaSDoc {
            _id: id,
            _rev: None,
            source_name: src_name,
            source_uid: src_uid,
            category: cat,
            subcategory: subcat,
            author: auth,
            process_ind: false,
            last_updated: unix_now(),
            data_usage_agreements: duas,
            data_tracker: dtc,
            meta_data: Vec::new(),
            tags: Vec::new(),
            data_obj: data,
        }
    }

    /// The identity for the four components.
    pub fn make_id(cat: String, subcat: String, src_name: String, src_uid: usize) -> (r: String)
        ensures
            r@ == id_of(cat@, subcat@, src_name@, src_uid as nat),
    {
        proof {
            reveal_strlit("~");
        }
        let mut id = cat;
        id.append(DELIMITER);
        id.append(subcat.as_str());
        id.append(DELIMITER);
        id.append(src_name.as_str());
        id.append(DELIMITER);
        let uid = to_decimal(src_uid);
        id.append(uid.as_str());
        id
    }

    /// The record itself when its provenance chain verifies.
    pub fn validate(self) -> (r: Result<DaaSDoc, ValidationError>)
        ensures
            r is Ok <==> chain_valid(self.data_tracker.links@),
            r matches Ok(d) ==> d == self,
            r matches Err(e) ==> e.kind == ValidationErrorKind::TamperedData,
    {
        if self.data_tracker.is_valid() {
            Ok(self)
        } else {
            Err(ValidationError { kind: ValidationErrorKind::TamperedData })
        }
    }

    /// Sets the metadata entry for `key`, replacing any earlier value.
    pub fn add_meta(&mut self, key: String, value: String)
        ensures
            meta_lookup(final(self).meta_data@, key@) == Some(value@),
            forall|k: Seq<char>|
                k != key@ ==> #[trigger] meta_lookup(final(self).meta_data@, k) == meta_lookup(
                    old(self).meta_data@,
                    k,
                ),
            *final(self) == (DaaSDoc { meta_data: final(self).meta_data, ..*old(self) }),
    {
        let n = self.meta_data.len();
        let mut i: usize = n;
        while i > 0
            invariant
                i <= n == self.meta_data@.len(),
                *self == *old(self),
                forall|j: int| i <= j < n ==> (#[trigger] self.meta_data@[j]).0@ != key@,
            decreases i,
        {
            if self.meta_data[i - 1].0 == key {
                let ghost before = self.meta_data@;
                self.meta_data.set(i - 1, (key, value));
                proof {
                    lemma_meta_set(before, (i - 1) as int, self.meta_data@);
                }
                return;
            }
            i = i - 1;
        }
        proof {
            lemma_meta_absent(self.meta_data@, key@);
        }
        self.meta_data.push((key, value));
        proof {
            assert(self.meta_data@.drop_last() =~= old(self).meta_data@);
        }
    }

    /// The value of the metadata entry for `key`.
    pub fn get_meta(&self, key: String) -> (r: String)
        requires
            meta_lookup(self.meta_data@, key@) is Some,
        ensures
            Some(r@) == meta_lookup(self.meta_data@, key@),
    {
        let n = self.meta_data.len();
        let mut i: usize = n;
        assert(self.meta_data@.subrange(0, n as int) =~= self.meta_data@);
        while i > 0
            invariant
                i <= n == self.meta_data@.len(),
                meta_lookup(self.meta_data@, key@) == meta_lookup(self.meta_data@.subrange(0, i as int), key@),
            decreases i,
        {
            let ghost p = self.meta_data@.subrange(0, i as int);
            assert(p.drop_last() =~= self.meta_data@.subrange(0, i - 1));
            if self.meta_data[i - 1].0 == key {
                return self.meta_data[i - 1].1.clone();
            }
            i = i - 1;
        }
        proof {
            assert(self.meta_data@.subrange(0, 0).len() == 0);
        }
        String::new()
    }

    /// Adds a label.
    pub fn add_tag(&mut self, tag: String)
        ensures
            final(self).tags@ == old(self).tags@.push(tag),
            *final(self) == (DaaSDoc { tags: final(self).tags, ..*old(self) }),
    {
        self.tags.push(tag);
    }

    /// A copy of the labels, in the order they were added.
    pub fn get_tags(&self) -> (r: Vec<String>)
        ensures
            r@ == self.tags@,
    {
        let mut out: Vec<String> = Vec::new();
        let mut i: usize = 0;
        while i < self.tags.len()
            invariant
                i <= self.tags@.len(),
                out@ == self.tags@.subrange(0, i as int),
            decreases self.tags@.len() - i,
        {
            out.push(self.tags[i].clone());
            assert(out@ =~= self.tags@.subrange(0, i as int + 1));
            i = i + 1;
        }
        assert(out@ =~= self.tags@);
        out
    }

    /// Whether some label equals `tag` exactly.
    pub fn has_tag(&self, tag: String) -> (r: bool)
        ensures
            r == exists|i: int| 0 <= i < self.tags@.len() && (#[trigger] self.tags@[i])@ == tag@,
    {
        let mut i: usize = 0;
        while i < self.tags.len()
            invariant
                i <= self.tags@.len(),
                forall|j: int| 0 <= j < i ==> (#[trigger] self.tags@[j])@ != tag@,
            decreases self.tags@.len() - i,
        {
            if self.tags[i] == tag {
                return true;
            }
            i = i + 1;
        }
        false
    }

    /// The payload, for reading or changing in place.
    pub fn data_obj_as_ref(&mut self) -> (r: &mut Vec<u8>)
        ensures
            *r == old(self).data_obj,
            *final(self) == (DaaSDoc { data_obj: *final(r), ..*old(self) }),
    {
        &mut self.data_obj
    }
}

proof fn lemma_meta_set(before: Seq<(String, String)>, i: int, after: Seq<(String, String)>)
    requires
        0 <= i < before.len(),
        after.len() == before.len(),
        forall|j: int| 0 <= j < before.len() && j != i ==> after[j] == before[j],
        before[i].0@ == after[i].0@,
        forall|j: int| i < j < before.len() ==> (#[trigger] before[j]).0@ != before[i].0@,
    ensures
        meta_lookup(after, after[i].0@) == Some(after[i].1@),
        forall|k: Seq<char>|
            k != before[i].0@ ==> #[trigger] meta_lookup(after, k) == meta_lookup(before, k),
    decreases before.len(),
{
    let key = before[i].0@;
    assert(after.last() == after[after.len() - 1]);
    assert(before.last() == before[before.len() - 1]);
    if i < before.len() - 1 {
        lemma_meta_set(before.drop_last(), i, after.drop_last());
        assert(after.last() == before.last());
        assert(after.drop_last()[i] == after[i]);
        assert forall|k: Seq<char>| k != key implies #[trigger] meta_lookup(after, k) == meta_lookup(
            before,
            k,
        ) by {
            assert(before.drop_last()[i].0@ == key);
            assert(meta_lookup(after.drop_last(), k) == meta_lookup(before.drop_last(), k));
        }
    } else {
        assert(after.drop_last() =~= before.drop_last());
        assert forall|k: Seq<char>| k != key implies #[trigger] meta_lookup(after, k) == meta_lookup(
            before,
            k,
        ) by {
        }
    }
}

proof fn lemma_meta_absent(m: Seq<(String, String)>, key: Seq<char>)
    requires
        forall|j: int| 0 <= j < m.len() ==> (#[trigger] m[j]).0@ != key,
    ensures
        meta_lookup(m, key) is None,
    decreases m.len(),
{
    if m.len() > 0 {
        assert(m.last() == m[m.len() - 1]);
        lemma_meta_absent(m.drop_last(), key);
    }
}

/// The identity determines its four components: records built from different
/// component tuples never share an identity.
pub proof fn lemma_identity_unique(
    cat1: Seq<char>, sub1: Seq<char>, src1: Seq<char>, uid1: nat,
    cat2: Seq<char>, sub2: Seq<char>, src2: Seq<char>, uid2: nat,
)
    requires
        component_ok(cat1),
        component_ok(sub1),
        component_ok(src1),
        component_ok(cat2),
        component_ok(sub2),
        component_ok(src2),
        id_of(cat1, sub1, src1, uid1) == id_of(cat2, sub2, src2, uid2),
    ensures
        cat1 == cat2,
        sub1 == sub2,
        src1 == src2,
        uid1 == uid2,
{
    lemma_identity_fields(cat1, sub1, src1, uid1);
    lemma_identity_fields(cat2, sub2, src2, uid2);
    let f1 = split_on(id_of(cat1, sub1, src1, uid1), '~');
    assert(f1[0] == cat1 && f1[0] == cat2);
    assert(f1[3] == decimal_of(uid1) && f1[3] == decimal_of(uid2));
    lemma_decimal_injective(uid1, uid2);
}

/// The canonical text of a number holds no delimiter.
pub proof fn lemma_decimal_component(n: nat)
    ensures
        component_ok(decimal_of(n)),
{
    lemma_decimal_round_trip(n);
    let s = decimal_of(n);
    if has_char(s, '~') {
        let i = choose|i: int| 0 <= i < s.len() && s[i] == '~';
        assert(is_digit(s[i]));
    }
}

/// Splitting an identity at its delimiters gives back its four components.
pub proof fn lemma_identity_fields(cat: Seq<char>, sub: Seq<char>, src: Seq<char>, uid: nat)
    requires
        component_ok(cat),
        component_ok(sub),
        component_ok(src),
    ensures
        split_on(id_of(cat, sub, src, uid), '~') == seq![cat, sub, src, decimal_of(uid)],
{
    lemma_decimal_component(uid);
    lemma_split_single(cat, '~');
    lemma_split_single(sub, '~');
    lemma_split_single(src, '~');
    lemma_split_single(decimal_of(uid), '~');
    lemma_split_join(cat, sub, '~');
    lemma_split_join(cat.push('~') + sub, src, '~');
    lemma_split_join((cat.push('~') + sub).push('~') + src, decimal_of(uid), '~');
    assert(split_on(id_of(cat, sub, src, uid), '~') =~= seq![cat, sub, src, decimal_of(uid)]);
}

} // verus!
