use daas::doc::DaaSDoc;
use daas::errors::{DaaSDocError, RetrieveErrorKind, UpsertErrorKind};
use daas::provenance::ProvenanceChain;
use daas::storage::local::LocalStorage;
use pbd::dua::DUA;

fn get_dua() -> Vec<DUA> {
    vec![DUA {
        agreement_name: "billing".to_string(),
        location: "www.dua.org/billing.pdf".to_string(),
        agreed_dtm: 1553988607,
    }]
}

fn get_daas_doc() -> DaaSDoc {
    let src = "iStore".to_string();
    let uid = 6000;
    let cat = "order".to_string();
    let sub = "clothing".to_string();
    let auth = "istore_app".to_string();
    let dtc = ProvenanceChain::new(DaaSDoc::make_id(cat.clone(), sub.clone(), src.clone(), uid));
    let data = String::from(r#"{"status": "new"}"#).as_bytes().to_vec();
    DaaSDoc::new(src, uid, cat, sub, auth, get_dua(), dtc, data)
}

fn listing(names: &[&str]) -> Vec<String> {
    names.iter().map(|n| n.to_string()).collect()
}

#[test]
fn test_make_doc_uuid() {
    let doc_id = "order~clothing~iStore~5000".to_string();
    let rev = "0".to_string();
    let expected = format!("{}~{}", doc_id.clone(), rev.clone());

    assert_eq!(LocalStorage::make_doc_uuid(doc_id, rev), expected);
}

#[test]
fn test_default() {
    let loc = LocalStorage::default();
    assert_eq!(loc.path, ".".to_string());
}

#[test]
fn test_get_doc_path() {
    let loc = LocalStorage::new("./tmp".to_string());
    assert_eq!(
        loc.get_doc_path("order~clothing~iStore~5000~0".to_string()),
        "./tmp/order/clothing/iStore/5000/order~clothing~iStore~5000~0".to_string()
    )
}

#[test]
fn test_get_dir_path() {
    let loc = LocalStorage::new("./tmp".to_string());
    assert_eq!(
        loc.get_dir_path("order~clothing~iStore~5000~0".to_string()),
        "./tmp/order/clothing/iStore/5000".to_string()
    )
}

#[test]
fn test_new_ok() {
    let _loc = LocalStorage::new("./tmp".to_string());
    assert!(true);
}

#[test]
fn test_next_rev() {
    assert_eq!(LocalStorage::next_rev(Some("1".to_string())).unwrap(), "2".to_string());
}

#[test]
fn next_rev_edges() {
    assert_eq!(LocalStorage::next_rev(None).unwrap(), "0");
    assert_eq!(LocalStorage::next_rev(Some("9".to_string())).unwrap(), "10");
    assert_eq!(LocalStorage::next_rev(Some("abc".to_string())).unwrap_err(), DaaSDocError);
    assert_eq!(LocalStorage::next_rev(Some("".to_string())).unwrap_err(), DaaSDocError);
    assert_eq!(LocalStorage::next_rev(Some(usize::MAX.to_string())).unwrap_err(), DaaSDocError);
}

#[test]
fn test_upsert_new() {
    let loc = LocalStorage::new("./tests".to_string());
    let doc = get_daas_doc();
    let file_name = LocalStorage::make_doc_uuid(doc._id.clone(), 0.to_string());

    let staged = loc.upsert_daas_doc(doc, &Vec::new()).expect("a fresh identity is accepted");
    assert_eq!(staged.file_name, file_name);
    assert_eq!(staged.doc_path, format!("{}/order/clothing/iStore/6000/{}", loc.path, file_name));
    assert_eq!(staged.dir_path, "./tests/order/clothing/iStore/6000");
}

#[test]
fn test_upsert_bad_revision() {
    let loc = LocalStorage::new("./tmp".to_string());
    let mut doc = get_daas_doc();
    doc._rev = Some("4".to_string());

    assert!(loc.upsert_daas_doc(doc, &Vec::new()).is_err());
}

#[test]
fn upsert_assigns_revisions_in_sequence() {
    let loc = LocalStorage::new("./tmp".to_string());
    let first = loc.upsert_daas_doc(get_daas_doc(), &Vec::new()).unwrap();
    assert_eq!(first.doc._rev, Some("0".to_string()));
    assert_eq!(first.file_name, "order~clothing~iStore~6000~0");

    let names = vec![first.file_name.clone()];
    let second = loc.upsert_daas_doc(first.doc.clone(), &names).unwrap();
    assert_eq!(second.doc._rev, Some("1".to_string()));
    assert_eq!(second.file_name, "order~clothing~iStore~6000~1");

    let names = vec![first.file_name.clone(), second.file_name.clone()];
    let stale = loc.upsert_daas_doc(first.doc.clone(), &names).unwrap_err();
    assert_eq!(stale.kind, UpsertErrorKind::StaleRevision);
}

#[test]
fn upsert_with_revision_on_fresh_identity_is_stale() {
    let loc = LocalStorage::new("./tmp".to_string());
    let mut doc = get_daas_doc();
    doc._rev = Some("0".to_string());

    assert_eq!(loc.upsert_daas_doc(doc, &Vec::new()).unwrap_err().kind, UpsertErrorKind::StaleRevision);
}

#[test]
fn upsert_follows_numeric_latest_and_ignores_other_files() {
    let loc = LocalStorage::new("./tmp".to_string());
    let names = listing(&[
        "order~clothing~iStore~6000~9",
        "order~clothing~iStore~6000~10",
        "order~clothing~iStore~6000~2",
        "order~clothing~iStore~60000~50",
        "order~clothing~iStore~6000~x",
        "notes.txt",
    ]);
    let mut doc = get_daas_doc();
    doc._rev = Some("10".to_string());

    let staged = loc.upsert_daas_doc(doc, &names).unwrap();
    assert_eq!(staged.doc._rev, Some("11".to_string()));
    assert_eq!(staged.file_name, "order~clothing~iStore~6000~11");
}

#[test]
fn upsert_refuses_when_revisions_are_exhausted() {
    let loc = LocalStorage::new("./tmp".to_string());
    let names = vec![format!("order~clothing~iStore~6000~{}", usize::MAX)];

    assert_eq!(
        loc.upsert_daas_doc(get_daas_doc(), &names).unwrap_err().kind,
        UpsertErrorKind::RevisionOverflow
    );
}

#[test]
fn latest_rev_is_numeric() {
    let id = "order~clothing~iStore~5000".to_string();
    let names = listing(&[
        "order~clothing~iStore~5000~0",
        "order~clothing~iStore~5000~1",
        "order~clothing~iStore~5000~10",
        "order~clothing~iStore~5000~3",
    ]);

    assert_eq!(LocalStorage::latest_rev(&id, &names), Some(10));
    assert_eq!(LocalStorage::latest_rev(&id, &Vec::new()), None);
    assert_eq!(LocalStorage::latest_rev(&id, &listing(&["order~clothing~iStore~50000~4"])), None);
}

#[test]
fn test_get_doc_by_id_latest() {
    let loc = LocalStorage::new("./tests".to_string());
    let names = listing(&[
        "order~clothing~iStore~5000~0",
        "order~clothing~iStore~5000~1",
        "order~clothing~iStore~5000~2",
        "order~clothing~iStore~5000~3",
    ]);

    let path = loc.locate_doc("order~clothing~iStore~5000".to_string(), None, &names).unwrap();
    assert_eq!(path, "./tests/order/clothing/iStore/5000/order~clothing~iStore~5000~3");
}

#[test]
fn test_get_doc_by_id_rev_found() {
    let loc = LocalStorage::new("./tests".to_string());
    let names = listing(&[
        "order~clothing~iStore~5000~0",
        "order~clothing~iStore~5000~1",
        "order~clothing~iStore~5000~2",
        "order~clothing~iStore~5000~3",
    ]);

    let rslt = match loc.locate_doc("order~clothing~iStore~5000".to_string(), Some("2".to_string()), &names) {
        Err(_e) => false,
        _ => true,
    };
    assert!(rslt);
}

#[test]
fn test_get_doc_by_id_rev_not_found() {
    let loc = LocalStorage::new("./tests".to_string());
    let names = listing(&[
        "order~clothing~iStore~5000~0",
        "order~clothing~iStore~5000~1",
        "order~clothing~iStore~5000~2",
        "order~clothing~iStore~5000~3",
    ]);

    let rslt = match loc.locate_doc("order~clothing~iStore~5000".to_string(), Some("15".to_string()), &names) {
        Err(e) => e.kind == RetrieveErrorKind::NotFound,
        _ => false,
    };
    assert!(rslt);
}

#[test]
fn locate_unknown_identity_is_not_found() {
    let loc = LocalStorage::new("./tests".to_string());
    let err = loc.locate_doc("order~clothing~iStore~7000".to_string(), None, &Vec::new()).unwrap_err();
    assert_eq!(err.kind, RetrieveErrorKind::NotFound);
}

#[test]
fn locate_latest_prefers_numeric_order() {
    let loc = LocalStorage::new("root".to_string());
    let names = listing(&["a~b~c~1~9", "a~b~c~1~10", "a~b~c~1~2"]);
    assert_eq!(loc.locate_doc("a~b~c~1".to_string(), None, &names).unwrap(), "root/a/b/c/1/a~b~c~1~10");
}

#[test]
fn mark_as_processed_rewrites_same_revision() {
    let loc = LocalStorage::new("./tmp".to_string());
    let first = loc.upsert_daas_doc(get_daas_doc(), &Vec::new()).unwrap();
    assert!(!first.doc.process_ind);

    let listed = vec![first.file_name.clone()];
    let marked = loc.mark_doc_as_processed(first.doc.clone(), &listed).unwrap();
    assert!(marked.doc.last_updated >= first.doc.last_updated);
    assert!(marked.doc.process_ind);
    assert_eq!(marked.doc._rev, Some("0".to_string()));
    assert_eq!(marked.file_name, first.file_name);
    assert_eq!(marked.doc_path, first.doc_path);
    assert_eq!(marked.doc._id, first.doc._id);

    let names = vec![first.file_name.clone(), marked.file_name.clone()];
    assert_eq!(LocalStorage::latest_rev(&first.doc._id, &names), Some(0));
}

#[test]
fn mark_without_revision_fails() {
    let loc = LocalStorage::new("./tmp".to_string());
    let err = loc.mark_doc_as_processed(get_daas_doc(), &Vec::new()).unwrap_err();
    assert_eq!(err.kind, UpsertErrorKind::IOFailure);
}

#[test]
fn mark_of_unlisted_revision_fails() {
    let loc = LocalStorage::new("./tmp".to_string());
    let mut doc = get_daas_doc();
    doc._rev = Some("3".to_string());
    let names = listing(&["order~clothing~iStore~6000~0", "order~clothing~iStore~6000~1"]);
    assert_eq!(loc.mark_doc_as_processed(doc, &names).unwrap_err().kind, UpsertErrorKind::IOFailure);
}

#[test]
fn mark_never_moves_write_time_back() {
    let loc = LocalStorage::new("./tmp".to_string());
    let mut doc = get_daas_doc();
    doc._rev = Some("0".to_string());
    doc.last_updated = u64::MAX;
    let names = listing(&["order~clothing~iStore~6000~0"]);
    let marked = loc.mark_doc_as_processed(doc, &names).unwrap();
    assert_eq!(marked.doc.last_updated, u64::MAX);
    assert!(marked.doc.process_ind);
}
