//! The revisioned local staging store.
//!
//! Every revision of a document is an immutable file named by its identity,
//! the delimiter and the revision, in a directory nested by the four identity
//! components. The latest revision of an identity is the numerically greatest
//! revision among the file names of its directory. This module decides what
//! is read and written; the listing of the directory and the file contents
//! are handed in and out as plain values.
use vstd::prelude::*;
use crate::DELIMITER;
use crate::decimal::{decimal_of, parsed, to_decimal, parse_decimal, lemma_decimal_round_trip};
use crate::doc::{DaaSDoc, unix_now};
use crate::errors::{DaaSDocError, RetrieveError, RetrieveErrorKind, UpsertError, UpsertErrorKind};
use crate::text::{split_on, split_fields, lemma_split_join, lemma_split_nonempty};

verus! {

/// The name of the file that holds revision `rev` of identity `id`.
pub open spec fn uuid_of(id: Seq<char>, rev: Seq<char>) -> Seq<char> {
    id.push('~') + rev
}

/// The directory for a file whose name splits into `f`, under `root`.
pub open spec fn dir_path_of(root: Seq<char>, f: Seq<Seq<char>>) -> Seq<char> {
    (((root.push('/') + f[0]).push('/') + f[1]).push('/') + f[2]).push('/') + f[3]
}

/// Whether a name splits at the delimiter into at least four fields.
pub open spec fn has_shard_fields(name: Seq<char>) -> bool {
    split_on(name, '~').len() >= 4
}

/// The texts of a listing.
pub open spec fn names_of(v: Seq<String>) -> Seq<Seq<char>> {
    v.map_values(|s: String| s@)
}

/// The revision that a file name records for identity `id`, if any.
pub open spec fn rev_of_name(id: Seq<char>, name: Seq<char>) -> Option<nat> {
    if name.len() > id.len() && name.subrange(0, id.len() as int + 1) == id.push('~') {
        parsed(name.subrange(id.len() as int + 1, name.len() as int))
    } else {
        None
    }
}

/// Whether `v` is a revision of `id` present in the listing and no revision
/// present is greater.
pub open spec fn is_latest(id: Seq<char>, names: Seq<Seq<char>>, v: nat) -> bool {
    &&& exists|i: int| 0 <= i < names.len() && rev_of_name(id, #[trigger] names[i]) == Some(v)
    &&& forall|i: int|
        0 <= i < names.len() ==> (#[trigger] rev_of_name(id, names[i]) matches Some(q) ==> q <= v)
}

/// Whether no file of the listing records a revision of `id`.
pub open spec fn no_revision(id: Seq<char>, names: Seq<Seq<char>>) -> bool {
    forall|i: int| 0 <= i < names.len() ==> #[trigger] rev_of_name(id, names[i]) is None
}

/// The latest revision of `id` in the listing.
pub open spec fn latest_of(id: Seq<char>, names: Seq<Seq<char>>) -> Option<nat> {
    if exists|v: nat| is_latest(id, names, v) {
        Some(choose|v: nat| is_latest(id, names, v))
    } else {
        None
    }
}

/// What writing a document with revision `rev` over the listing comes to:
/// the revision to assign, or why the write is refused.
pub open spec fn upsert_outcome(id: Seq<char>, names: Seq<Seq<char>>, rev: Option<Seq<char>>) -> Result<
    nat,
    UpsertErrorKind,
> {
    let latest = latest_of(id, names);
    if rev is Some && (latest is None || rev.unwrap() != decimal_of(latest.unwrap())) {
        Err(UpsertErrorKind::StaleRevision)
    } else if latest == Some(usize::MAX as nat) {
        Err(UpsertErrorKind::RevisionOverflow)
    } else if latest is Some {
        Ok(latest.unwrap() + 1)
    } else {
        Ok(0)
    }
}

/// The view of an optional text.
pub open spec fn rev_view(o: Option<String>) -> Option<Seq<char>> {
    match o {
        Some(s) => Some(s@),
        None => None,
    }
}

/// The full path of the file named `name` under `root`.
pub open spec fn doc_path_of(root: Seq<char>, name: Seq<char>) -> Seq<char> {
    dir_path_of(root, split_on(name, '~')).push('/') + name
}

/// Whether an identity splits into exactly its four components.
pub open spec fn id_well_formed(id: Seq<char>) -> bool {
    split_on(id, '~').len() == 4
}

/// Whether `p` writes `doc` as revision `v` under `root`, with nothing else
/// of the document changed but the write time.
pub open spec fn staged_as(p: StagedDoc, root: Seq<char>, doc: DaaSDoc, v: nat) -> bool {
    &&& p.doc == (DaaSDoc { _rev: p.doc._rev, last_updated: p.doc.last_updated, ..doc })
    &&& rev_view(p.doc._rev) == Some(decimal_of(v))
    &&& p.file_name@ == uuid_of(doc._id@, decimal_of(v))
    &&& p.dir_path@ == dir_path_of(root, split_on(p.file_name@, '~'))
    &&& p.doc_path@ == doc_path_of(root, p.file_name@)
}

/// A planned write of one revision file.
#[derive(Debug, Clone)]
pub struct StagedDoc {
    /// The document as it is to be written.
    pub doc: DaaSDoc,
    /// The name of the revision file.
    pub file_name: String,
    /// The directory that holds the file.
    pub dir_path: String,
    /// The full path of the file.
    pub doc_path: String,
}

/// A document store under a root directory.
#[derive(Debug, Clone)]
pub struct LocalStorage {
    /// The directory under which the documents are kept.
    pub path: String,
}

impl Default for LocalStorage {
    /// A store rooted at the working directory.
    fn default() -> (r: LocalStorage)
        ensures
            r.path@ == seq!['.'],
    {
        proof {
            reveal_strlit(".");
        }
        LocalStorage { path: String::from_str(".") }
    }
}

/// Whether `name` is in the listing.
fn listed(names: &Vec<String>, name: &String) -> (r: bool)
    ensures
        r == names_of(names@).contains(name@),
{
    let mut i: usize = 0;
    while i < names.len()
        invariant
            i <= names@.len(),
            forall|j: int| 0 <= j < i ==> (#[trigger] names@[j])@ != name@,
        decreases names@.len() - i,
    {
        if names[i] == *name {
            proof {
                assert(names_of(names@)[i as int] == name@);
            }
            return true;
        }
        i = i + 1;
    }
    proof {
        assert forall|j: int| 0 <= j < names@.len() implies #[trigger] names_of(names@)[j] != name@ by {
            assert(names_of(names@)[j] == names@[j]@);
        }
    }
    false
}

/// The revision a file name records for `id`.
fn rev_in_name(id: &str, name: &str) -> (r: Option<usize>)
    ensures
        r matches Some(v) ==> rev_of_name(id@, name@) == Some(v as nat),
        r is None ==> rev_of_name(id@, name@) is None,
{
    let il = id.unicode_len();
    let nl = name.unicode_len();
    if nl <= il {
        return None;
    }
    let mut j: usize = 0;
    while j < il
        invariant
            il == id@.len(),
            nl == name@.len(),
            il < nl,
            j <= il,
            forall|k: int| 0 <= k < j ==> name@[k] == id@[k],
        decreases il - j,
    {
        if name.get_char(j) != id.get_char(j) {
            proof {
                assert(name@.subrange(0, il as int + 1)[j as int] != id@.push('~')[j as int]);
            }
            return None;
        }
        j = j + 1;
    }
    if name.get_char(il) != '~' {
        proof {
            assert(name@.subrange(0, il as int + 1)[il as int] != id@.push('~')[il as int]);
        }
        return None;
    }
    proof {
        assert(name@.subrange(0, il as int + 1) =~= id@.push('~'));
    }
    parse_decimal(name.substring_char(il + 1, nl))
}

impl LocalStorage {
    /// A store rooted at `dir_path`.
    pub fn new(dir_path: String) -> (r: LocalStorage)
        ensures
            r.path == dir_path,
    {
        LocalStorage { path: dir_path }
    }

    /// The name of the file for revision `rev` of `doc_id`.
    pub fn make_doc_uuid(doc_id: String, rev: String) -> (r: String)
        ensures
            r@ == uuid_of(doc_id@, rev@),
    {
        proof {
            reveal_strlit("~");
        }
        let mut r = doc_id;
        r.append(DELIMITER);
        r.append(rev.as_str());
        r
    }

    /// The directory nested by the first four fields of a file name.
    pub fn get_dir_path(&self, doc_uuid: String) -> (r: String)
        requires
            has_shard_fields(doc_uuid@),
        ensures
            r@ == dir_path_of(self.path@, split_on(doc_uuid@, '~')),
    {
        let f = split_fields(doc_uuid.as_str(), '~');
        proof {
            reveal_strlit("/");
            assert(f@[0]@ == f@.map_values(|s: String| s@)[0]);
            assert(f@[1]@ == f@.map_values(|s: String| s@)[1]);
            assert(f@[2]@ == f@.map_values(|s: String| s@)[2]);
            assert(f@[3]@ == f@.map_values(|s: String| s@)[3]);
        }
        let mut r = self.path.clone();
        r.append("/");
        r.append(f[0].as_str());
        r.append("/");
        r.append(f[1].as_str());
        r.append("/");
        r.append(f[2].as_str());
        r.append("/");
        r.append(f[3].as_str());
        r
    }

    /// The full path of a file in its nested directory.
    pub fn get_doc_path(&self, doc_uuid: String) -> (r: String)
        requires
            has_shard_fields(doc_uuid@),
        ensures
            r@ == doc_path_of(self.path@, doc_uuid@),
    {
        proof {
            reveal_strlit("/");
        }
        let mut r = self.get_dir_path(doc_uuid.clone());
        r.append("/");
        r.append(doc_uuid.as_str());
        r
    }

    /// The revision after `revision`: `0` when there is none, else one more
    /// than the number it holds.
    pub fn next_rev(revision: Option<String>) -> (r: Result<String, DaaSDocError>)
        ensures
            revision is None ==> (r matches Ok(s) && s@ == decimal_of(0)),
            revision matches Some(s) ==> (r is Ok <==> (parsed(s@) matches Some(v) && v < usize::MAX)),
            revision matches Some(s) ==> (r matches Ok(t) ==> t@ == decimal_of(parsed(s@)->Some_0 + 1)),
    {
        match revision {
            None => Ok(to_decimal(0)),
            Some(rev) => match parse_decimal(rev.as_str()) {
                Some(v) => {
                    if v < usize::MAX {
                        Ok(to_decimal(v + 1))
                    } else {
                        Err(DaaSDocError)
                    }
                },
                None => Err(DaaSDocError),
            },
        }
    }

    /// The numerically greatest revision of `doc_id` among the file names of
    /// its directory.
    pub fn latest_rev(doc_id: &String, names: &Vec<String>) -> (r: Option<usize>)
        ensures
            r matches Some(v) ==> latest_of(doc_id@, names_of(names@)) == Some(v as nat),
            r is None ==> latest_of(doc_id@, names_of(names@)) is None,
    {
        let mut best: Option<usize> = None;
        let mut i: usize = 0;
        proof {
            assert(names_of(names@.subrange(0, 0)) =~= Seq::<Seq<char>>::empty());
            lemma_latest_of_none(doc_id@, names_of(names@.subrange(0, 0)));
        }
        while i < names.len()
            invariant
                i <= names@.len(),
                best matches Some(v) ==> latest_of(doc_id@, names_of(names@.subrange(0, i as int)))
                    == Some(v as nat),
                best is None ==> latest_of(doc_id@, names_of(names@.subrange(0, i as int))) is None,
            decreases names@.len() - i,
        {
            let found = rev_in_name(doc_id.as_str(), names[i].as_str());
            proof {
                assert(names_of(names@.subrange(0, i as int + 1)) =~= names_of(
                    names@.subrange(0, i as int),
                ).push(names@[i as int]@));
                lemma_latest_push(doc_id@, names_of(names@.subrange(0, i as int)), names@[i as int]@);
            }
            match found {
                Some(v) => {
                    match best {
                        Some(b) => {
                            if b < v {
                                best = Some(v);
                            }
                        },
                        None => {
                            best = Some(v);
                        },
                    }
                },
                None => {},
            }
            i = i + 1;
        }
        proof {
            assert(names@.subrange(0, names@.len() as int) =~= names@);
        }
        best
    }
}

impl LocalStorage {
    /// Plans the write of `doc` as the next revision of its identity, given the
    /// file names in the identity's directory. A document that carries a
    /// revision must carry the latest one; the file planned is always new.
    pub fn upsert_daas_doc(&self, doc: DaaSDoc, names: &Vec<String>) -> (r: Result<StagedDoc, UpsertError>)
        requires
            id_well_formed(doc._id@),
        ensures
            r is Ok <==> upsert_outcome(doc._id@, names_of(names@), rev_view(doc._rev)) is Ok,
            r matches Err(e) ==> upsert_outcome(doc._id@, names_of(names@), rev_view(doc._rev)) == Err::<
                nat,
                UpsertErrorKind,
            >(e.kind),
            r matches Ok(p) ==> staged_as(
                p,
                self.path@,
                doc,
                upsert_outcome(doc._id@, names_of(names@), rev_view(doc._rev))->Ok_0,
            ),
            r matches Ok(p) ==> !names_of(names@).contains(p.file_name@),
    {
        let latest = LocalStorage::latest_rev(&doc._id, names);
        let ghost out = upsert_outcome(doc._id@, names_of(names@), rev_view(doc._rev));
        match &doc._rev {
            Some(r) => match latest {
                None => {
                    return Err(UpsertError { kind: UpsertErrorKind::StaleRevision });
                },
                Some(v) => {
                    let current = to_decimal(v);
                    if !(*r == current) {
                        return Err(UpsertError { kind: UpsertErrorKind::StaleRevision });
                    }
                },
            },
            None => {},
        }
        let new_rev: usize = match latest {
            None => 0,
            Some(v) => {
                if v == usize::MAX {
                    return Err(UpsertError { kind: UpsertErrorKind::RevisionOverflow });
                }
                v + 1
            },
        };
        assert(out == Ok::<nat, UpsertErrorKind>(new_rev as nat));
        let rev_str = to_decimal(new_rev);
        let file_name = LocalStorage::make_doc_uuid(doc._id.clone(), rev_str.clone());
        proof {
            lemma_uuid_fields(doc._id@, rev_str@);
            lemma_fresh_name(doc._id@, names_of(names@), new_rev as nat);
        }
        let dir_path = self.get_dir_path(file_name.clone());
        let doc_path = self.get_doc_path(file_name.clone());
        let mut doc = doc;
        doc._rev = Some(rev_str);
        doc.last_updated = unix_now();
        Ok(StagedDoc { doc, file_name, dir_path, doc_path })
    }

    /// The path of the file to read for revision `doc_rev` of `doc_id`, or of
    /// its latest revision when none is given.
    pub fn locate_doc(&self, doc_id: String, doc_rev: Option<String>, names: &Vec<String>) -> (r: Result<
        String,
        RetrieveError,
    >)
        requires
            id_well_formed(doc_id@),
        ensures
            doc_rev matches Some(v) ==> (r is Ok <==> names_of(names@).contains(uuid_of(doc_id@, v@))),
            doc_rev matches Some(v) ==> (r matches Ok(p) ==> p@ == doc_path_of(
                self.path@,
                uuid_of(doc_id@, v@),
            )),
            doc_rev is None ==> (r is Ok <==> latest_of(doc_id@, names_of(names@)) is Some),
            doc_rev is None ==> (r matches Ok(p) ==> p@ == doc_path_of(
                self.path@,
                uuid_of(doc_id@, decimal_of(latest_of(doc_id@, names_of(names@))->Some_0)),
            )),
            r matches Err(e) ==> e.kind == RetrieveErrorKind::NotFound,
    {
        let rev = match doc_rev {
            Some(v) => {
                let name = LocalStorage::make_doc_uuid(doc_id.clone(), v.clone());
                if !listed(names, &name) {
                    return Err(RetrieveError { kind: RetrieveErrorKind::NotFound });
                }
                v
            },
            None => match LocalStorage::latest_rev(&doc_id, names) {
                Some(v) => to_decimal(v),
                None => {
                    return Err(RetrieveError { kind: RetrieveErrorKind::NotFound });
                },
            },
        };
        let file_name = LocalStorage::make_doc_uuid(doc_id, rev);
        proof {
            lemma_uuid_fields(doc_id@, rev@);
        }
        Ok(self.get_doc_path(file_name))
    }

    /// Marks a stored revision as handed to the broker, given the file names
    /// of its identity's directory. The planned write replaces that same,
    /// listed revision file; no new revision is made, and the write time never
    /// goes back.
    pub fn mark_doc_as_processed(&self, stored: DaaSDoc, names: &Vec<String>) -> (r: Result<StagedDoc, UpsertError>)
        requires
            id_well_formed(stored._id@),
        ensures
            r is Ok <==> (stored._rev matches Some(v) && names_of(names@).contains(uuid_of(stored._id@, v@))),
            r matches Err(e) ==> e.kind == UpsertErrorKind::IOFailure,
            r matches Ok(p) ==> p.doc == (DaaSDoc {
                process_ind: true,
                last_updated: p.doc.last_updated,
                ..stored
            }),
            r matches Ok(p) ==> p.doc.last_updated >= stored.last_updated,
            r matches Ok(p) ==> p.file_name@ == uuid_of(stored._id@, rev_view(stored._rev)->Some_0),
            r matches Ok(p) ==> p.dir_path@ == dir_path_of(self.path@, split_on(p.file_name@, '~')),
            r matches Ok(p) ==> p.doc_path@ == doc_path_of(self.path@, p.file_name@),
    {
        let rev = match &stored._rev {
            Some(v) => v.clone(),
            None => {
                return Err(UpsertError { kind: UpsertErrorKind::IOFailure });
            },
        };
        let file_name = LocalStorage::make_doc_uuid(stored._id.clone(), rev);
        if !listed(names, &file_name) {
            return Err(UpsertError { kind: UpsertErrorKind::IOFailure });
        }
        proof {
            lemma_uuid_fields(stored._id@, rev@);
        }
        let dir_path = self.get_dir_path(file_name.clone());
        let doc_path = self.get_doc_path(file_name.clone());
        let now = unix_now();
        let mut doc = stored;
        doc.process_ind = true;
        if now > doc.last_updated {
            doc.last_updated = now;
        }
        Ok(StagedDoc { doc, file_name, dir_path, doc_path })
    }
}

/// The file name of a revision of a well-formed identity splits into the four
/// identity fields followed by the fields of the revision.
proof fn lemma_uuid_fields(id: Seq<char>, rev: Seq<char>)
    requires
        id_well_formed(id),
    ensures
        has_shard_fields(uuid_of(id, rev)),
        split_on(uuid_of(id, rev), '~').subrange(0, 4) == split_on(id, '~'),
{
    lemma_split_join(id, rev, '~');
    lemma_split_nonempty(rev, '~');
    assert(split_on(uuid_of(id, rev), '~').subrange(0, 4) =~= split_on(id, '~'));
}

/// The file for the revision that follows the latest is not yet listed.
proof fn lemma_fresh_name(id: Seq<char>, names: Seq<Seq<char>>, v: nat)
    requires
        v <= usize::MAX,
        match latest_of(id, names) {
            None => v == 0,
            Some(w) => v == w + 1,
        },
    ensures
        !names.contains(uuid_of(id, decimal_of(v))),
{
    lemma_rev_of_uuid(id, v);
    if names.contains(uuid_of(id, decimal_of(v))) {
        let i = choose|i: int| 0 <= i < names.len() && names[i] == uuid_of(id, decimal_of(v));
        match latest_of(id, names) {
            None => {
                assert(!no_revision(id, names)) by {
                    assert(rev_of_name(id, names[i]) is Some);
                }
                lemma_some_revision_has_latest(id, names);
            },
            Some(w) => {
                assert(is_latest(id, names, w)) by {
                    assert(exists|u: nat| is_latest(id, names, u));
                }
                assert(rev_of_name(id, names[i]) matches Some(q) ==> q <= w);
            },
        }
    }
}

proof fn lemma_latest_unique(id: Seq<char>, names: Seq<Seq<char>>, a: nat, b: nat)
    requires
        is_latest(id, names, a),
        is_latest(id, names, b),
    ensures
        a == b,
{
    let i = choose|i: int| 0 <= i < names.len() && rev_of_name(id, #[trigger] names[i]) == Some(a);
    let j = choose|j: int| 0 <= j < names.len() && rev_of_name(id, #[trigger] names[j]) == Some(b);
    assert(rev_of_name(id, names[i]) matches Some(q) ==> q <= b);
    assert(rev_of_name(id, names[j]) matches Some(q) ==> q <= a);
}

pub proof fn lemma_latest_of_is(id: Seq<char>, names: Seq<Seq<char>>, v: nat)
    requires
        is_latest(id, names, v),
    ensures
        latest_of(id, names) == Some(v),
{
    let w = choose|w: nat| is_latest(id, names, w);
    lemma_latest_unique(id, names, v, w);
}

pub proof fn lemma_latest_of_none(id: Seq<char>, names: Seq<Seq<char>>)
    requires
        no_revision(id, names),
    ensures
        latest_of(id, names) is None,
{
    if exists|v: nat| is_latest(id, names, v) {
        let v = choose|v: nat| is_latest(id, names, v);
        let i = choose|i: int| 0 <= i < names.len() && rev_of_name(id, #[trigger] names[i]) == Some(v);
        assert(rev_of_name(id, names[i]) is None);
    }
}

/// The revision file of a revision of `id` names that revision.
pub proof fn lemma_rev_of_uuid(id: Seq<char>, v: nat)
    requires
        v <= usize::MAX,
    ensures
        rev_of_name(id, uuid_of(id, decimal_of(v))) == Some(v),
{
    lemma_decimal_round_trip(v);
    let name = uuid_of(id, decimal_of(v));
    assert(name.subrange(0, id.len() as int + 1) =~= id.push('~'));
    assert(name.subrange(id.len() as int + 1, name.len() as int) =~= decimal_of(v));
}

/// Adding a file to a listing makes the latest revision the greater of the
/// latest before and the revision the file records.
pub proof fn lemma_latest_push(id: Seq<char>, names: Seq<Seq<char>>, name: Seq<char>)
    ensures
        latest_of(id, names.push(name)) == match (latest_of(id, names), rev_of_name(id, name)) {
            (None, r) => r,
            (Some(a), None) => Some(a),
            (Some(a), Some(b)) => Some(if a < b { b } else { a }),
        },
    decreases names.len(), 1nat,
{
    let t = names.push(name);
    assert(t[names.len() as int] == name);
    assert forall|i: int| 0 <= i < names.len() implies #[trigger] t[i] == names[i] by {}
    match latest_of(id, names) {
        None => {
            if !no_revision(id, names) {
                lemma_some_revision_has_latest(id, names);
            }
            match rev_of_name(id, name) {
                None => {
                    assert(no_revision(id, t));
                    lemma_latest_of_none(id, t);
                }
                Some(b) => {
                    assert(is_latest(id, t, b));
                    lemma_latest_of_is(id, t, b);
                }
            }
        }
        Some(a) => {
            assert(is_latest(id, names, a));
            let i = choose|i: int| 0 <= i < names.len() && rev_of_name(id, #[trigger] names[i]) == Some(a);
            assert(t[i] == names[i]);
            match rev_of_name(id, name) {
                None => {
                    assert(is_latest(id, t, a));
                    lemma_latest_of_is(id, t, a);
                }
                Some(b) => {
                    let m = if a < b { b } else { a };
                    assert(is_latest(id, t, m));
                    lemma_latest_of_is(id, t, m);
                }
            }
        }
    }
}

/// A listing in which some file records a revision has a latest revision.
proof fn lemma_some_revision_has_latest(id: Seq<char>, names: Seq<Seq<char>>)
    requires
        !no_revision(id, names),
    ensures
        latest_of(id, names) is Some,
    decreases names.len(), 0nat,
{
    let p = names.drop_last();
    assert(names =~= p.push(names.last()));
    if no_revision(id, p) {
        lemma_latest_of_none(id, p);
        lemma_latest_push(id, p, names.last());
        let i = choose|i: int| 0 <= i < names.len() && !(#[trigger] rev_of_name(id, names[i]) is None);
        if i < p.len() {
            assert(names[i] == p[i]);
        }
    } else {
        lemma_some_revision_has_latest(id, p);
        lemma_latest_push(id, p, names.last());
    }
}

/// A latest revision is a revision that some listed file records.
proof fn lemma_latest_fits(id: Seq<char>, names: Seq<Seq<char>>)
    requires
        latest_of(id, names) is Some,
    ensures
        latest_of(id, names)->Some_0 <= usize::MAX,
{
    let w = latest_of(id, names)->Some_0;
    assert(is_latest(id, names, w)) by {
        assert(exists|u: nat| is_latest(id, names, u));
    }
    let i = choose|i: int| 0 <= i < names.len() && rev_of_name(id, #[trigger] names[i]) == Some(w);
    let name = names[i];
    assert(parsed(name.subrange(id.len() as int + 1, name.len() as int)) == Some(w));
}

/// Once a planned revision file is written, its revision is the latest of the
/// identity.
pub proof fn lemma_upsert_advances(id: Seq<char>, names: Seq<Seq<char>>, rev: Option<Seq<char>>)
    requires
        upsert_outcome(id, names, rev) is Ok,
    ensures
        latest_of(id, names.push(uuid_of(id, decimal_of(upsert_outcome(id, names, rev)->Ok_0))))
            == Some(upsert_outcome(id, names, rev)->Ok_0),
{
    let v = upsert_outcome(id, names, rev)->Ok_0;
    if latest_of(id, names) is Some {
        lemma_latest_fits(id, names);
    }
    lemma_rev_of_uuid(id, v);
    lemma_latest_push(id, names, uuid_of(id, decimal_of(v)));
}

/// A fresh identity is written as revision 0; a write that carries revision 0
/// then becomes revision 1; once revision 1 is written, a write that still
/// carries revision 0 is refused as stale.
pub proof fn lemma_revision_sequence(id: Seq<char>, names: Seq<Seq<char>>)
    requires
        no_revision(id, names),
    ensures
        upsert_outcome(id, names, None) == Ok::<nat, UpsertErrorKind>(0),
        upsert_outcome(id, names.push(uuid_of(id, decimal_of(0))), Some(decimal_of(0))) == Ok::<
            nat,
            UpsertErrorKind,
        >(1),
        upsert_outcome(
            id,
            names.push(uuid_of(id, decimal_of(0))).push(uuid_of(id, decimal_of(1))),
            Some(decimal_of(0)),
        ) == Err::<nat, UpsertErrorKind>(UpsertErrorKind::StaleRevision),
{
    lemma_latest_of_none(id, names);
    let n1 = names.push(uuid_of(id, decimal_of(0)));
    lemma_rev_of_uuid(id, 0);
    lemma_latest_push(id, names, uuid_of(id, decimal_of(0)));
    assert(latest_of(id, n1) == Some(0nat));
    lemma_rev_of_uuid(id, 1);
    lemma_latest_push(id, n1, uuid_of(id, decimal_of(1)));
    assert(decimal_of(0)[0] != decimal_of(1)[0]);
}

/// Rewriting a file that is already listed leaves the latest revision as it was.
pub proof fn lemma_rewrite_keeps_latest(id: Seq<char>, names: Seq<Seq<char>>, i: int)
    requires
        0 <= i < names.len(),
    ensures
        latest_of(id, names.push(names[i])) == latest_of(id, names),
{
    lemma_latest_push(id, names, names[i]);
    match latest_of(id, names) {
        None => {
            if rev_of_name(id, names[i]) is Some {
                lemma_some_revision_has_latest(id, names);
            }
        },
        Some(a) => {
            assert(is_latest(id, names, a)) by {
                assert(exists|u: nat| is_latest(id, names, u));
            }
            assert(rev_of_name(id, names[i]) matches Some(q) ==> q <= a);
        },
    }
}

} // verus!
