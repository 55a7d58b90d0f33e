use daas::errors::MissingAuthorError;
use daas::service::extractor::{author_from_header, remove_occurrences, user_of_credentials, Author, Base64Author};

#[test]
fn test_base64auth_new() {
    let auth = Base64Author::new();
    assert_eq!(auth.get_name(), "Anonymous".to_string());
}

#[test]
fn test_base64auth_display() {
    let auth = Base64Author::new();
    assert_eq!(format!("{:?}", auth), "Base64Author { name: \"Anonymous\" }");
}

#[test]
fn test_base64auth_set_name() {
    match Base64Author::new().set_name("myname".to_string()) {
        Ok(auth) => {
            assert_eq!(auth.get_name(), "myname".to_string());
        }
        _ => {
            assert!(false);
        }
    }
}

#[test]
fn test_base64auth_from_request_pass() {
    let author = Base64Author::new();
    assert_eq!(author.extract_author(Some("bXluYW1l")).unwrap(), "myname".to_string());
}

#[test]
fn test_base64auth_from_request_noencode() {
    let author = Base64Author::new();
    match author.extract_author(Some("myname")) {
        Err(MissingAuthorError) => assert!(true),
        Ok(_) => assert!(false),
    }
}

#[test]
fn test_base64auth_from_request_missing() {
    let author = Base64Author::new();
    match author.extract_author(None) {
        Err(MissingAuthorError) => assert!(true),
        Ok(_) => assert!(false),
    }
}

#[test]
fn basic_scheme_and_password_are_dropped() {
    // "myself:password"
    assert_eq!(author_from_header(Some("Basic bXlzZWxmOnBhc3N3b3Jk")).unwrap(), "myself");
    let author = Author::new();
    assert_eq!(author.get_name(), "Anonymous");
    assert_eq!(author.extract_author(Some("bXlzZWxmOnBhc3N3b3Jk")).unwrap(), "myself");
}

#[test]
fn author_set_name_changes_the_author() {
    let mut author = Author::new();
    let copy = author.set_name("someone".to_string()).unwrap();
    assert_eq!(author.get_name(), "someone");
    assert_eq!(copy.name, "someone");
}

#[test]
fn credentials_name_the_user_before_the_colon() {
    assert_eq!(user_of_credentials(b"me:pw".to_vec()).unwrap(), "me");
    assert_eq!(user_of_credentials(b"solo".to_vec()).unwrap(), "solo");
    assert_eq!(user_of_credentials(b":x".to_vec()).unwrap(), "");
    assert!(user_of_credentials(vec![0xff, 0xfe]).is_err());
}

#[test]
fn every_occurrence_is_removed() {
    assert_eq!(remove_occurrences("Basic abc", "Basic "), "abc");
    assert_eq!(remove_occurrences("aXaXa", "X"), "aaa");
    assert_eq!(remove_occurrences("aaa", "aa"), "a");
    assert_eq!(remove_occurrences("abc", ""), "abc");
}
