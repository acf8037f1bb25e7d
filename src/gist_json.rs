use lite_json::JsonValue;
use vstd::prelude::*;

verus! {

/// lite_json's number: declared with its public fields, as the crate
/// defines them, so that values holding it can be read.
#[verifier::external_type_specification]
pub struct ExNumberValue(lite_json::NumberValue);

/// lite_json's parsed value: declared with its variants, as the crate
/// defines them, so that verified code can match on what the parser gave.
#[verifier::external_type_specification]
pub struct ExJsonValue(lite_json::JsonValue);

/// Why the content of a gist could not be read as a claim.
#[derive(Clone, Copy, Debug, PartialEq, Eq, Structural)]
pub enum ParseError {
    /// The body is not UTF-8, not JSON, or a value on the path has the wrong kind.
    Malformed,
    /// A key on the path, or the first file, is absent.
    MissingField,
}

/// The low byte of a character, as the content's file names and logins are
/// compared byte by byte.
pub open spec fn char_byte(c: char) -> u8 {
    (c as u32 % 256) as u8
}

pub open spec fn chars_bytes(s: Seq<char>) -> Seq<u8> {
    s.map_values(|c: char| char_byte(c))
}

/// The value under the first entry whose key is `key`.
pub open spec fn lookup(obj: Seq<(Vec<char>, JsonValue)>, key: Seq<char>) -> Option<JsonValue>
    decreases obj.len(),
{
    if obj.len() == 0 {
        None
    } else if obj[0].0@ == key {
        Some(obj[0].1)
    } else {
        lookup(obj.drop_first(), key)
    }
}

fn chars_eq(a: &Vec<char>, b: &Vec<char>) -> (r: bool)
    ensures
        r == (a@ == b@),
{
    if a.len() != b.len() {
        return false;
    }
    let mut i: usize = 0;
    while i < a.len()
        invariant
            i <= a@.len(),
            a@.len() == b@.len(),
            forall|j: int| 0 <= j < i ==> a@[j] == b@[j],
        decreases a@.len() - i,
    {
        if a[i] != b[i] {
            return false;
        }
        i += 1;
    }
    assert(a@ =~= b@);
    true
}

/// The value stored under `key` in an object.
pub fn find_key<'a>(obj: &'a Vec<(Vec<char>, JsonValue)>, key: &Vec<char>) -> (r: Result<
    &'a JsonValue,
    ParseError,
>)
    ensures
        match lookup(obj@, key@) {
            Some(v) => r == Ok::<&JsonValue, ParseError>(&v),
            None => r == Err::<&JsonValue, ParseError>(ParseError::MissingField),
        },
{
    let mut i: usize = 0;
    assert(obj@.subrange(0, obj@.len() as int) =~= obj@);
    while i < obj.len()
        invariant
            i <= obj@.len(),
            lookup(obj@, key@) == lookup(obj@.subrange(i as int, obj@.len() as int), key@),
        decreases obj@.len() - i,
    {
        let ghost rest = obj@.subrange(i as int, obj@.len() as int);
        assert(rest.drop_first() =~= obj@.subrange(i + 1, obj@.len() as int));
        if chars_eq(&obj[i].0, key) {
            return Ok(&obj[i].1);
        }
        i += 1;
    }
    Err(ParseError::MissingField)
}

/// What the worker reads from a gist: the name of its first file and the
/// login of its owner, both as bytes.
pub struct Claim {
    pub filename: Vec<u8>,
    pub username: Vec<u8>,
}

pub open spec fn files_key() -> Seq<char> {
    seq!['f', 'i', 'l', 'e', 's']
}

pub open spec fn owner_key() -> Seq<char> {
    seq!['o', 'w', 'n', 'e', 'r']
}

pub open spec fn login_key() -> Seq<char> {
    seq!['l', 'o', 'g', 'i', 'n']
}

/// The object stored under `key` in the object `v`.
pub open spec fn object_at(v: JsonValue, key: Seq<char>) -> Result<
    Seq<(Vec<char>, JsonValue)>,
    ParseError,
> {
    match v {
        JsonValue::Object(obj) => match lookup(obj@, key) {
            Some(JsonValue::Object(inner)) => Ok(inner@),
            Some(_) => Err(ParseError::Malformed),
            None => Err(ParseError::MissingField),
        },
        _ => Err(ParseError::Malformed),
    }
}

/// The string stored under `key` in an object, as bytes.
pub open spec fn string_at(obj: Seq<(Vec<char>, JsonValue)>, key: Seq<char>) -> Result<
    Seq<u8>,
    ParseError,
> {
    match lookup(obj, key) {
        Some(JsonValue::String(cs)) => Ok(chars_bytes(cs@)),
        Some(_) => Err(ParseError::Malformed),
        None => Err(ParseError::MissingField),
    }
}

/// The claim that a gist's content makes: the key of the first entry of its
/// `files` object, and the `login` string of its `owner` object.
pub open spec fn claim_of(v: JsonValue) -> Result<(Seq<u8>, Seq<u8>), ParseError> {
    match object_at(v, files_key()) {
        Err(e) => Err(e),
        Ok(files) => if files.len() == 0 {
            Err(ParseError::MissingField)
        } else {
            match object_at(v, owner_key()) {
                Err(e) => Err(e),
                Ok(owner) => match string_at(owner, login_key()) {
                    Err(e) => Err(e),
                    Ok(login) => Ok((chars_bytes(files[0].0@), login)),
                },
            }
        },
    }
}

fn to_bytes(cs: &Vec<char>) -> (r: Vec<u8>)
    ensures
        r@ == chars_bytes(cs@),
{
    let mut out: Vec<u8> = Vec::new();
    let mut i: usize = 0;
    while i < cs.len()
        invariant
            i <= cs@.len(),
            out@ =~= chars_bytes(cs@.subrange(0, i as int)),
        decreases cs@.len() - i,
    {
        let c = cs[i];
        out.push(((c as u32) % 256) as u8);
        assert(cs@.subrange(0, i + 1) =~= cs@.subrange(0, i as int).push(c));
        i += 1;
    }
    assert(cs@.subrange(0, cs@.len() as int) =~= cs@);
    out
}

/// The object stored under `key` in the object `val`.
pub fn get_object<'a>(val: &'a JsonValue, key: &Vec<char>) -> (r: Result<
    &'a Vec<(Vec<char>, JsonValue)>,
    ParseError,
>)
    ensures
        match object_at(*val, key@) {
            Ok(s) => r is Ok && r->Ok_0@ == s,
            Err(e) => r == Err::<&Vec<(Vec<char>, JsonValue)>, ParseError>(e),
        },
{
    match val {
        JsonValue::Object(obj) => match find_key(obj, key) {
            Ok(JsonValue::Object(inner)) => Ok(inner),
            Ok(_) => Err(ParseError::Malformed),
            Err(e) => Err(e),
        },
        _ => Err(ParseError::Malformed),
    }
}

/// The string stored under `key` in an object, as bytes.
pub fn get_string(obj: &Vec<(Vec<char>, JsonValue)>, key: &Vec<char>) -> (r: Result<
    Vec<u8>,
    ParseError,
>)
    ensures
        match string_at(obj@, key@) {
            Ok(s) => r is Ok && r->Ok_0@ == s,
            Err(e) => r == Err::<Vec<u8>, ParseError>(e),
        },
{
    match find_key(obj, key) {
        Ok(JsonValue::String(cs)) => Ok(to_bytes(cs)),
        Ok(_) => Err(ParseError::Malformed),
        Err(e) => Err(e),
    }
}

/// Reads the claim out of a gist's parsed content.
pub fn extract_claim(val: &JsonValue) -> (r: Result<Claim, ParseError>)
    ensures
        match claim_of(*val) {
            Ok((filename, username)) => r is Ok && r->Ok_0.filename@ == filename
                && r->Ok_0.username@ == username,
            Err(e) => r is Err && r->Err_0 == e,
        },
{
    let files_k: Vec<char> = vec!['f', 'i', 'l', 'e', 's'];
    let owner_k: Vec<char> = vec!['o', 'w', 'n', 'e', 'r'];
    let login_k: Vec<char> = vec!['l', 'o', 'g', 'i', 'n'];
    assert(files_k@ =~= files_key());
    assert(owner_k@ =~= owner_key());
    assert(login_k@ =~= login_key());
    let files = match get_object(val, &files_k) {
        Ok(f) => f,
        Err(e) => return Err(e),
    };
    if files.len() == 0 {
        return Err(ParseError::MissingField);
    }
    let filename = to_bytes(&files[0].0);
    let owner = match get_object(val, &owner_k) {
        Ok(o) => o,
        Err(e) => return Err(e),
    };
    let username = match get_string(owner, &login_k) {
        Ok(u) => u,
        Err(e) => return Err(e),
    };
    Ok(Claim { filename, username })
}

} // verus!
