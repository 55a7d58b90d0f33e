//! Resolving the author of a request from its `Authorization` header.
use vstd::prelude::*;
use vstd::utf8::{valid_utf8, decode_utf8};
use crate::errors::MissingAuthorError;
use crate::text::{split_on, split_fields};

verus! {

/// The bytes that a text decodes to under the standard base64 alphabet, with
/// padding, if it is valid base64.
pub uninterp spec fn base64_decoded(s: Seq<char>) -> Option<Seq<u8>>;

/// Relies on `base64::Engine::decode` with the `STANDARD` engine: the bytes a
/// text decodes to, or an error when it is not valid padded base64. The
/// result depends on the text alone.
#[verifier::external_body]
fn decode_base64(s: &str) -> (r: Option<Vec<u8>>)
    ensures
        r matches Some(b) ==> base64_decoded(s@) == Some(b@),
        r is None ==> base64_decoded(s@) is None,
{
    base64::Engine::decode(&base64::engine::general_purpose::STANDARD, s).ok()
}

/// Relies on `String::from_utf8`: the text the bytes encode when they are
/// valid UTF-8, else an error.
#[verifier::external_body]
fn utf8_text(b: Vec<u8>) -> (r: Option<String>)
    ensures
        r is Some <==> valid_utf8(b@),
        r matches Some(s) ==> s@ == decode_utf8(b@),
{
    String::from_utf8(b).ok()
}

/// `s` with every non-overlapping occurrence of `pat` removed, left to right.
pub open spec fn remove_all(s: Seq<char>, pat: Seq<char>) -> Seq<char>
    decreases s.len(),
{
    if pat.len() == 0 || s.len() < pat.len() {
        s
    } else if s.subrange(0, pat.len() as int) == pat {
        remove_all(s.subrange(pat.len() as int, s.len() as int), pat)
    } else {
        seq![s[0]] + remove_all(s.subrange(1, s.len() as int), pat)
    }
}

/// The scheme word that precedes basic credentials.
pub open spec fn basic_scheme() -> Seq<char> {
    seq!['B', 'a', 's', 'i', 'c', ' ']
}

/// The user named by decoded credentials: the text before the first colon.
pub open spec fn user_of(decoded: Seq<u8>) -> Option<Seq<char>> {
    if valid_utf8(decoded) {
        Some(split_on(decode_utf8(decoded), ':')[0])
    } else {
        None
    }
}

/// The author that an `Authorization` header names.
pub open spec fn author_of_header(header: Option<Seq<char>>) -> Option<Seq<char>> {
    match header {
        None => None,
        Some(h) => match base64_decoded(remove_all(h, basic_scheme())) {
            None => None,
            Some(b) => user_of(b),
        },
    }
}

/// Whether `pat` occurs in `s` at position `i`.
fn occurs_at(s: &str, n: usize, i: usize, pat: &str, m: usize) -> (r: bool)
    requires
        n == s@.len(),
        m == pat@.len(),
        i + m <= n,
    ensures
        r == (s@.subrange(i as int, i + m) == pat@),
{
    let mut j: usize = 0;
    while j < m
        invariant
            n == s@.len(),
            m == pat@.len(),
            i + m <= n,
            j <= m,
            forall|k: int| 0 <= k < j ==> s@[i + k] == pat@[k],
        decreases m - j,
    {
        if s.get_char(i + j) != pat.get_char(j) {
            proof {
                assert(s@.subrange(i as int, i + m)[j as int] != pat@[j as int]);
            }
            return false;
        }
        j = j + 1;
    }
    assert(s@.subrange(i as int, i + m) =~= pat@);
    true
}

/// `s` with every non-overlapping occurrence of `pat` removed, left to right.
pub fn remove_occurrences(s: &str, pat: &str) -> (r: String)
    ensures
        r@ == remove_all(s@, pat@),
{
    let n = s.unicode_len();
    let m = pat.unicode_len();
    if m == 0 {
        return String::from_str(s);
    }
    let mut out = String::new();
    let mut run: usize = 0;
    let mut i: usize = 0;
    assert(s@.subrange(0, n as int) =~= s@);
    while m <= n - i
        invariant
            n == s@.len(),
            m == pat@.len(),
            m > 0,
            run <= i <= n,
            (out@ + s@.subrange(run as int, i as int)) + remove_all(s@.subrange(i as int, n as int), pat@)
                == remove_all(s@, pat@),
        decreases n - i,
    {
        let ghost rest = s@.subrange(i as int, n as int);
        assert(rest.subrange(0, m as int) =~= s@.subrange(i as int, i + m));
        if occurs_at(s, n, i, pat, m) {
            assert(rest.subrange(m as int, rest.len() as int) =~= s@.subrange(i + m, n as int));
            let ghost before = out@;
            out.append(s.substring_char(run, i));
            assert(out@ + s@.subrange((i + m) as int, (i + m) as int) =~= before + s@.subrange(
                run as int,
                i as int,
            ));
            i = i + m;
            run = i;
        } else {
            assert(rest.subrange(1, rest.len() as int) =~= s@.subrange(i + 1, n as int));
            assert(s@.subrange(run as int, i + 1) =~= s@.subrange(run as int, i as int) + seq![rest[0]]);
            i = i + 1;
        }
    }
    let ghost rest = s@.subrange(i as int, n as int);
    assert(remove_all(rest, pat@) == rest);
    out.append(s.substring_char(run, n));
    assert(s@.subrange(run as int, i as int) + rest =~= s@.subrange(run as int, n as int));
    out
}

/// The user that decoded credentials name: the text before the first colon.
pub fn user_of_credentials(decoded: Vec<u8>) -> (r: Result<String, MissingAuthorError>)
    ensures
        r is Ok <==> user_of(decoded@) is Some,
        r matches Ok(u) ==> Some(u@) == user_of(decoded@),
{
    match utf8_text(decoded) {
        Some(text) => {
            let fields = split_fields(text.as_str(), ':');
            proof {
                crate::text::lemma_split_nonempty(text@, ':');
                assert(fields@[0]@ == fields@.map_values(|f: String| f@)[0]);
            }
            Ok(fields[0].clone())
        },
        None => Err(MissingAuthorError),
    }
}

/// Resolves the author named by an `Authorization` header holding basic
/// credentials in base64, with or without the `Basic ` scheme word.
pub fn author_from_header(header: Option<&str>) -> (r: Result<String, MissingAuthorError>)
    ensures
        r is Ok <==> author_of_header(match header { Some(h) => Some(h@), None => None }) is Some,
        r matches Ok(u) ==> Some(u@) == author_of_header(match header { Some(h) => Some(h@), None => None }),
{
    match header {
        None => Err(MissingAuthorError),
        Some(h) => {
            proof {
                reveal_strlit("Basic ");
                assert("Basic "@ =~= basic_scheme());
            }
            let encoded = remove_occurrences(h, "Basic ");
            match decode_base64(encoded.as_str()) {
                Some(bytes) => user_of_credentials(bytes),
                None => Err(MissingAuthorError),
            }
        },
    }
}

/// An author resolved from the request.
#[derive(Debug, Clone)]
pub struct Author {
    pub name: String,
}

/// An author resolved from basic credentials in base64.
#[derive(Debug, Clone)]
pub struct Base64Author {
    pub name: String,
}

impl Author {
    /// An author not yet resolved.
    pub fn new() -> (r: Author)
        ensures
            r.name@ == "Anonymous"@,
    {
        Author { name: String::from_str("Anonymous") }
    }

    pub fn get_name(&self) -> (r: String)
        ensures
            r == self.name,
    {
        self.name.clone()
    }

    /// Renames the author and returns a copy of it.
    pub fn set_name(&mut self, name: String) -> (r: Result<Author, MissingAuthorError>)
        ensures
            final(self).name == name,
            r matches Ok(a) ==> a.name == name,
            r is Ok,
    {
        self.name = name;
        Ok(Author { name: self.name.clone() })
    }

    /// The author named by the request's `Authorization` header.
    pub fn extract_author(&self, header: Option<&str>) -> (r: Result<String, MissingAuthorError>)
        ensures
            r is Ok <==> author_of_header(match header { Some(h) => Some(h@), None => None }) is Some,
            r matches Ok(u) ==> Some(u@) == author_of_header(match header { Some(h) => Some(h@), None => None }),
    {
        author_from_header(header)
    }
}

impl Base64Author {
    /// An author not yet resolved.
    pub fn new() -> (r: Base64Author)
        ensures
            r.name@ == "Anonymous"@,
    {
        Base64Author { name: String::from_str("Anonymous") }
    }

    pub fn get_name(&self) -> (r: String)
        ensures
            r == self.name,
    {
        self.name.clone()
    }

    /// Renames the author and returns a copy of it.
    pub fn set_name(&mut self, name: String) -> (r: Result<Base64Author, MissingAuthorError>)
        ensures
            final(self).name == name,
            r matches Ok(a) ==> a.name == name,
            r is Ok,
    {
        self.name = name;
        Ok(Base64Author { name: self.name.clone() })
    }

    /// The author named by the request's `Authorization` header.
    pub fn extract_author(&self, header: Option<&str>) -> (r: Result<String, MissingAuthorError>)
        ensures
            r is Ok <==> author_of_header(match header { Some(h) => Some(h@), None => None }) is Some,
            r matches Ok(u) ==> Some(u@) == author_of_header(match header { Some(h) => Some(h@), None => None }),
    {
        author_from_header(header)
    }
}

} // verus!
