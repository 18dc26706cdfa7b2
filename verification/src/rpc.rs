//! The computations of the JSON-RPC client: the `Authorization` header, the endpoint URL
//! and the reading of a `submitblock` answer.

use crate::hexcode::text_bytes;
use base64::Engine;
use vstd::prelude::*;

verus! {

/// The base64 digit (standard alphabet) for a value below 64.
pub open spec fn b64_digit(v: int) -> char {
    if v < 26 {
        (0x41 + v) as char
    } else if v < 52 {
        (0x61 + v - 26) as char
    } else if v < 62 {
        (0x30 + v - 52) as char
    } else if v == 62 {
        '+'
    } else {
        '/'
    }
}

/// Standard base64 with padding (RFC 4648, section 4): every 3 bytes become 4 digits; a
/// final group of 1 or 2 bytes becomes 2 or 3 digits padded with `=` to 4.
pub open spec fn base64_spec(d: Seq<u8>) -> Seq<char>
    decreases d.len(),
{
    let b0 = d[0] as int;
    let b1 = d[1] as int;
    let b2 = d[2] as int;
    if d.len() == 0 {
        Seq::empty()
    } else if d.len() == 1 {
        seq![b64_digit(b0 / 4), b64_digit((b0 % 4) * 16), '=', '=']
    } else if d.len() == 2 {
        seq![b64_digit(b0 / 4), b64_digit((b0 % 4) * 16 + b1 / 16), b64_digit((b1 % 16) * 4), '=']
    } else {
        seq![
            b64_digit(b0 / 4),
            b64_digit((b0 % 4) * 16 + b1 / 16),
            b64_digit((b1 % 16) * 4 + b2 / 64),
            b64_digit(b2 % 64),
        ] + base64_spec(d.skip(3))
    }
}

/// `base64::engine::general_purpose::STANDARD.encode`: standard-alphabet base64 with `=`
/// padding. It panics when the encoded length overflows `usize`, which `requires` rules out.
#[verifier::external_body]
fn base64_encode(data: &[u8]) -> (text: String)
    requires
        4 * ((data@.len() + 2) / 3) <= usize::MAX,
    ensures
        text@ == base64_spec(data@),
{
    base64::engine::general_purpose::STANDARD.encode(data)
}

/// The credentials `user:password` as bytes.
pub open spec fn credentials_spec(user: Seq<char>, password: Seq<char>) -> Seq<u8> {
    text_bytes(user) + seq![0x3au8] + text_bytes(password)
}

/// The credentials carry the whole user name and the whole password: the user's UTF-8
/// bytes, one `:` byte, then every UTF-8 byte of the password, and nothing else.
pub proof fn lemma_credentials_carry_user_and_password(user: Seq<char>, password: Seq<char>)
    ensures
        ({
            let c = credentials_spec(user, password);
            let u = text_bytes(user);
            &&& c.len() == u.len() + 1 + text_bytes(password).len()
            &&& c.take(u.len() as int) == u
            &&& c[u.len() as int] == 0x3au8
            &&& c.skip(u.len() as int + 1) == text_bytes(password)
        }),
{
    let c = credentials_spec(user, password);
    let u = text_bytes(user);
    assert(c.take(u.len() as int) =~= u);
    assert(c.skip(u.len() as int + 1) =~= text_bytes(password));
}

/// Whether the credentials are short enough for their base64 encoding's length to fit
/// in a `usize`.
pub fn credentials_len_ok(user: &str, password: &str) -> (r: bool)
    ensures
        r == (4 * ((credentials_spec(user@, password@).len() + 2) / 3) <= usize::MAX),
{
    let a = user.as_bytes().len();
    let b = password.as_bytes().len();
    proof {
        assert(credentials_spec(user@, password@).len() == a + 1 + b);
    }
    if a >= usize::MAX - b {
        return false;
    }
    let n = a + 1 + b;
    let groups = n / 3 + if n % 3 > 0 { 1 } else { 0 };
    assert(groups == (n + 2) / 3);
    groups <= usize::MAX / 4
}

/// The HTTP basic `Authorization` header value for `user` and `password`.
pub fn basic_auth_header(user: &str, password: &str) -> (header: String)
    requires
        4 * ((credentials_spec(user@, password@).len() + 2) / 3) <= usize::MAX,
    ensures
        header@ == "Basic "@ + base64_spec(credentials_spec(user@, password@)),
{
    let mut credentials: Vec<u8> = Vec::new();
    crate::bytes::append_bytes(&mut credentials, user.as_bytes());
    credentials.push(0x3a);
    crate::bytes::append_bytes(&mut credentials, password.as_bytes());
    assert(credentials@ =~= credentials_spec(user@, password@));
    let encoded = base64_encode(credentials.as_slice());
    let mut header = "Basic ".to_string();
    header.append(encoded.as_str());
    header
}

/// A text without its trailing `/` characters.
pub open spec fn trim_trailing_slashes(s: Seq<char>) -> Seq<char>
    decreases s.len(),
{
    if s.len() > 0 && s.last() == '/' {
        trim_trailing_slashes(s.drop_last())
    } else {
        s
    }
}

/// The RPC endpoint URL without trailing slashes.
pub fn normalize_url(url: &str) -> (r: String)
    ensures
        r@ == trim_trailing_slashes(url@),
{
    let n = url.unicode_len();
    let mut k = n;
    assert(url@.take(k as int) =~= url@);
    while k > 0 && url.get_char(k - 1) == '/'
        invariant
            k <= n,
            n == url@.len(),
            trim_trailing_slashes(url@.take(k as int)) == trim_trailing_slashes(url@),
        decreases k,
    {
        assert(url@.take(k as int).drop_last() =~= url@.take(k - 1));
        k = k - 1;
    }
    proof {
        if k > 0 {
            assert(url@.take(k as int).last() == url@[k - 1]);
        }
    }
    url.substring_char(0, k).to_string()
}

/// What the node answered to `submitblock`.
pub enum SubmitReply {
    /// JSON `null`.
    Null,
    /// A JSON string.
    Text(String),
    /// Any other JSON value, as its JSON text.
    Other(String),
}

/// The rejection reason of a `submitblock` answer: none for `null` or an empty string,
/// the string itself, or the JSON text of any other value.
pub fn submit_outcome(reply: SubmitReply) -> (r: Option<String>)
    ensures
        match reply {
            SubmitReply::Null => r is None,
            SubmitReply::Text(s) => if s@.len() == 0 {
                r is None
            } else {
                r matches Some(t) && t@ == s@
            },
            SubmitReply::Other(s) => r matches Some(t) && t@ == s@,
        },
{
    match reply {
        SubmitReply::Null => None,
        SubmitReply::Text(s) => {
            if s.as_str().unicode_len() == 0 {
                None
            } else {
                Some(s)
            }
        },
        SubmitReply::Other(s) => Some(s),
    }
}

/// Why a JSON-RPC call gave no result.
pub enum RpcReplyError {
    /// The node answered with a non-null `error`, given as its JSON text.
    Node(String),
    /// The answer has no `result` field.
    MissingResult,
}

/// Reads a JSON-RPC answer: a non-null `error` (its JSON text, `None` when absent or null)
/// makes the call fail; otherwise the `result` field is the answer, and its absence is an
/// error too.
pub fn rpc_reply<T>(error: Option<String>, result: Option<T>) -> (r: Result<T, RpcReplyError>)
    ensures
        match error {
            Some(e) => r matches Err(RpcReplyError::Node(t)) && t@ == e@,
            None => match result {
                Some(v) => r == Ok::<T, RpcReplyError>(v),
                None => r matches Err(RpcReplyError::MissingResult),
            },
        },
{
    match error {
        Some(e) => Err(RpcReplyError::Node(e)),
        None => match result {
            Some(v) => Ok(v),
            None => Err(RpcReplyError::MissingResult),
        },
    }
}

/// What a miner does after submitting a block.
pub enum AfterSubmit {
    /// The node took the block: stop mining.
    Stop,
    /// The block was rejected or never reached the node: go on mining.
    KeepMining,
}

/// The step after a `submitblock` call: `submitted` is the call's outcome, `Ok(None)` when
/// the node accepted the block, `Ok(Some(reason))` when it rejected it, and `Err(message)`
/// when the call failed. Only an accepted block stops the miner.
pub fn after_submit(submitted: &Result<Option<String>, String>) -> (a: AfterSubmit)
    ensures
        a is Stop <==> submitted matches Ok(None),
        a is KeepMining <==> !(submitted matches Ok(None)),
{
    match submitted {
        Ok(None) => AfterSubmit::Stop,
        _ => AfterSubmit::KeepMining,
    }
}

} // verus!
