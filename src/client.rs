use vstd::prelude::*;
use crate::errors::ConsulXError;
use crate::json::{json_error, json_string_array, string_array_of};
use crate::text::{decimal, parse_u64, trim_end_slashes, u64_of, u64_text, views, without_trailing_slashes};

verus! {

/// Where the store's HTTP API is reached; the base address has no trailing `/`.
#[derive(Debug)]
pub struct ConsulXClient {
    pub base: String,
}

impl ConsulXClient {
    /// The base address ends in no `/`.
    pub open spec fn wf(&self) -> bool {
        trim_end_slashes(self.base@) == self.base@
    }
}

/// Removing trailing `/` twice removes no more than once.
pub proof fn lemma_trim_end_slashes_idempotent(s: Seq<char>)
    ensures
        trim_end_slashes(trim_end_slashes(s)) == trim_end_slashes(s),
    decreases s.len(),
{
    if s.len() > 0 && s.last() == '/' {
        lemma_trim_end_slashes_idempotent(s.drop_last());
    }
}

/// The address that is used where none is configured.
pub const DEFAULT_ADDRESS: &'static str = "http://127.0.0.1:8500";

/// The path of a key: `{base}/v1/kv/{key}`.
pub open spec fn key_url(base: Seq<char>, key: Seq<char>) -> Seq<char> {
    base + "/v1/kv/"@ + key
}

/// The blocking part of a query: `&index={i}` where an index is known, then `&wait=10s`.
pub open spec fn blocking_suffix(index: Option<u64>) -> Seq<char> {
    match index {
        Some(i) => "&index="@ + decimal(i as nat) + "&wait=10s"@,
        None => "&wait=10s"@,
    }
}

/// Whether a status code reports success.
pub open spec fn is_success(status: u16) -> bool {
    200 <= status && status <= 299
}

/// The status code that reports an absent key.
pub const NOT_FOUND: u16 = 404;

/// What a read of a key comes to: its value on success, nothing on "not found", an error
/// that carries the status otherwise.
pub open spec fn read_spec(status: u16, body: Seq<char>) -> Result<Option<Seq<char>>, u16> {
    if is_success(status) {
        Ok(Some(body))
    } else if status == NOT_FOUND {
        Ok(None)
    } else {
        Err(status)
    }
}

/// The index that the `x-consul-index` header carries: 0 where it is absent or no number.
pub open spec fn index_spec(header: Option<Seq<char>>) -> u64 {
    match header {
        Some(h) => match u64_of(h) {
            Some(n) => n,
            None => 0,
        },
        None => 0,
    }
}

/// Whether a read result matches its model.
pub open spec fn read_matches(
    r: Result<Option<String>, ConsulXError>,
    m: Result<Option<Seq<char>>, u16>,
) -> bool {
    match m {
        Ok(Some(b)) => r matches Ok(Some(v)) && v@ == b,
        Ok(None) => r matches Ok(None),
        Err(c) => r matches Err(ConsulXError::Http(d)) && d == c,
    }
}

/// `a + b + c` as one string.
fn concat3(a: &str, b: &str, c: &str) -> (r: String)
    ensures
        r@ == a@ + b@ + c@,
{
    let mut s = String::from_str(a);
    s.append(b);
    s.append(c);
    s
}

/// The query of a blocking read.
fn blocking(index: Option<u64>) -> (r: String)
    ensures
        r@ == blocking_suffix(index),
{
    match index {
        Some(i) => {
            let digits = u64_text(i);
            concat3("&index=", digits.as_str(), "&wait=10s")
        },
        None => String::from_str("&wait=10s"),
    }
}

impl ConsulXClient {
    /// A client for the store at `base`; trailing `/` are dropped.
    pub fn new(base: &str) -> (r: Result<ConsulXClient, ConsulXError>)
        ensures
            r matches Ok(c) && c.base@ == trim_end_slashes(base@) && c.wf(),
    {
        proof {
            lemma_trim_end_slashes_idempotent(base@);
        }
        Ok(ConsulXClient { base: without_trailing_slashes(base) })
    }

    /// A client for the store that the address variable names, given its value if it is set,
    /// or for the default address otherwise.
    pub fn from_env(address: Option<String>) -> (r: Result<ConsulXClient, ConsulXError>)
        ensures
            r matches Ok(c) && c.wf() && c.base@ == trim_end_slashes(
                match address {
                    Some(a) => a@,
                    None => DEFAULT_ADDRESS@,
                },
            ),
    {
        match address {
            Some(a) => ConsulXClient::new(a.as_str()),
            None => ConsulXClient::new(DEFAULT_ADDRESS),
        }
    }

    /// `{base}/v1/kv/{key}`: where a key is written or deleted.
    pub fn key_url(&self, key: &str) -> (r: String)
        ensures
            r@ == key_url(self.base@, key@),
    {
        concat3(self.base.as_str(), "/v1/kv/", key)
    }

    /// `{base}/v1/kv/{key}?raw=true`: where a key's raw value is read.
    pub fn get_raw_url(&self, key: &str) -> (r: String)
        ensures
            r@ == key_url(self.base@, key@) + "?raw=true"@,
    {
        let mut u = self.key_url(key);
        u.append("?raw=true");
        u
    }

    /// `{base}/v1/kv/{prefix}?keys`: where the keys under a prefix are listed.
    pub fn list_url(&self, prefix: &str) -> (r: String)
        ensures
            r@ == key_url(self.base@, prefix@) + "?keys"@,
    {
        let mut u = self.key_url(prefix);
        u.append("?keys");
        u
    }

    /// The blocking read of a key that waits for a change past `index`.
    pub fn watch_url(&self, key: &str, index: Option<u64>) -> (r: String)
        ensures
            r@ == key_url(self.base@, key@) + "?raw=true"@ + blocking_suffix(index),
    {
        let mut u = self.get_raw_url(key);
        let b = blocking(index);
        u.append(b.as_str());
        u
    }

    /// The blocking listing of a prefix that waits for a change past `index`.
    pub fn watch_prefix_url(&self, prefix: &str, index: Option<u64>) -> (r: String)
        ensures
            r@ == key_url(self.base@, prefix@) + "?keys"@ + blocking_suffix(index),
    {
        let mut u = self.list_url(prefix);
        let b = blocking(index);
        u.append(b.as_str());
        u
    }
}

/// Whether a status code reports success.
pub fn success(status: u16) -> (r: bool)
    ensures
        r == is_success(status),
{
    200 <= status && status <= 299
}

/// What a read of a key returned, given the status and the body of the answer.
pub fn read_result(status: u16, body: String) -> (r: Result<Option<String>, ConsulXError>)
    ensures
        read_matches(r, read_spec(status, body@)),
{
    if success(status) {
        Ok(Some(body))
    } else if status == NOT_FOUND {
        Ok(None)
    } else {
        Err(ConsulXError::Http(status))
    }
}

/// What a write or a delete returned: success on a success status, else an error with it.
pub fn write_result(status: u16) -> (r: Result<(), ConsulXError>)
    ensures
        is_success(status) ==> r is Ok,
        !is_success(status) ==> (r matches Err(ConsulXError::Http(c)) && c == status),
{
    if success(status) {
        Ok(())
    } else {
        Err(ConsulXError::Http(status))
    }
}

/// The keys of a listing. A failed status counts as no keys at all; a body that is not a
/// JSON array of strings, on success, is an error.
pub fn list_result(status: u16, body: &str) -> (r: Result<Vec<String>, ConsulXError>)
    ensures
        !is_success(status) ==> (r matches Ok(v) && v@.len() == 0),
        is_success(status) ==> match string_array_of(body@) {
            Some(keys) => r matches Ok(v) && views(v@) == keys,
            None => r matches Err(ConsulXError::Json(_)),
        },
{
    if success(status) {
        match json_string_array(body) {
            Ok(keys) => Ok(keys),
            Err(e) => Err(json_error(e)),
        }
    } else {
        Ok(Vec::new())
    }
}

/// The keys of a listing, given its answer, or none where the request brought no answer.
/// A listing that failed, before or after the store answered, counts as no keys.
pub fn list_answer(answer: Option<(u16, String)>) -> (r: Result<Vec<String>, ConsulXError>)
    ensures
        match answer {
            None => r matches Ok(v) && v@.len() == 0,
            Some((status, body)) => if !is_success(status) {
                r matches Ok(v) && v@.len() == 0
            } else {
                match string_array_of(body@) {
                    Some(keys) => r matches Ok(v) && views(v@) == keys,
                    None => r matches Err(ConsulXError::Json(_)),
                }
            },
        },
{
    match answer {
        None => Ok(Vec::new()),
        Some((status, body)) => list_result(status, body.as_str()),
    }
}

/// The index that an `x-consul-index` header carries; 0 where it is absent or no number.
pub fn index_from_header(header: Option<&str>) -> (r: u64)
    ensures
        r == index_spec(
            match header {
                Some(h) => Some(h@),
                None => None,
            },
        ),
{
    match header {
        Some(h) => match parse_u64(h) {
            Some(n) => n,
            None => 0,
        },
        None => 0,
    }
}

/// What a blocking read of a key returned: the next index, with the value as a read gives it.
pub fn watch_result(status: u16, header: Option<&str>, body: String) -> (r: Result<
    (u64, Option<String>),
    ConsulXError,
>)
    ensures
        read_matches(
            match r {
                Ok((_, v)) => Ok(v),
                Err(e) => Err(e),
            },
            read_spec(status, body@),
        ),
        r matches Ok((i, _)) ==> i == index_spec(
            match header {
                Some(h) => Some(h@),
                None => None,
            },
        ),
{
    let index = index_from_header(header);
    match read_result(status, body) {
        Ok(v) => Ok((index, v)),
        Err(e) => Err(e),
    }
}

/// The keys that a successful blocking listing carries: those of the body, or none where the
/// body is no JSON array of strings.
pub open spec fn watched_keys(body: Seq<char>) -> Seq<Seq<char>> {
    match string_array_of(body) {
        Some(keys) => keys,
        None => seq![],
    }
}

/// What a blocking listing returned: the next index and the keys on success, the index and no
/// keys on "not found", and an error that carries the status otherwise, which ends the watch.
pub fn watch_prefix_result(status: u16, header: Option<&str>, body: &str) -> (r: Result<
    (u64, Vec<String>),
    ConsulXError,
>)
    ensures
        r matches Ok((i, _)) ==> i == index_spec(
            match header {
                Some(h) => Some(h@),
                None => None,
            },
        ),
        is_success(status) ==> (r matches Ok((_, keys)) && views(keys@) == watched_keys(body@)),
        status == NOT_FOUND ==> (r matches Ok((_, keys)) && keys@.len() == 0),
        !is_success(status) && status != NOT_FOUND ==> (r matches Err(ConsulXError::Http(c)) && c
            == status),
{
    let index = index_from_header(header);
    if success(status) {
        match json_string_array(body) {
            Ok(keys) => Ok((index, keys)),
            Err(_) => {
                let none: Vec<String> = Vec::new();
                assert(views(none@) =~= seq![]);
                Ok((index, none))
            },
        }
    } else if status == NOT_FOUND {
        Ok((index, Vec::new()))
    } else {
        Err(ConsulXError::Http(status))
    }
}

} // verus!
