use crate::status::Status;
use vstd::prelude::*;

verus! {

/// Read-only data shared with the demo endpoints.
pub struct ShareData {
    pub msg: String,
}

/// A JSON body holding one message.
pub struct JsonString {
    pub message: String,
}

/// A mirrored message together with the server's own.
pub struct JsonRespond {
    pub message: String,
    pub server_msg: String,
}

/// Query parameters of the demo query endpoint.
pub struct QueryItems {
    pub message: String,
    pub id: usize,
}

/// The value of the `msg` request header, passed on by middleware.
pub struct HeadMsg(pub String);

/// A fixed JSON document.
pub struct Data {
    pub msg: String,
    pub acount: usize,
    pub username: String,
}

/// Credentials checked on arrival: the username must be an e-mail address
/// and the password at least eight characters long.
pub struct RequestUser {
    pub username: String,
    pub password: String,
}

/// What `validator::validate_email` says of a string (the HTML5 rule for
/// e-mail addresses).
pub uninterp spec fn email_accepted(s: Seq<char>) -> bool;

/// Relies on `validator::validate_email`: a function of the text alone; an
/// empty text or one without `@` is refused.
#[verifier::external_body]
fn check_email(s: &str) -> (r: bool)
    ensures
        r == email_accepted(s@),
        (s@.len() == 0 || !s@.contains('@')) ==> !r,
{
    validator::validate_email(s)
}

/// Relies on `validator::validate_length` with only a minimum: whether the
/// text has at least `min` characters.
#[verifier::external_body]
fn check_min_length(s: &str, min: u64) -> (r: bool)
    ensures
        r == (s@.len() >= min),
{
    validator::validate_length(s, Some(min), None, None)
}

/// The least number of characters of a password.
pub const MIN_PASSWORD_CHARS: u64 = 8;

impl RequestUser {
    /// Accepts the credentials when the username is an e-mail address and the
    /// password is long enough; anything else is a bad request.
    pub fn validate(&self) -> (r: Result<(), Status>)
        ensures
            r is Ok <==> (email_accepted(self.username@) && self.password@.len() >= MIN_PASSWORD_CHARS),
            r is Err ==> r == Err::<(), Status>(Status::BadRequest),
    {
        let email_ok = check_email(self.username.as_str());
        let length_ok = check_min_length(self.password.as_str(), MIN_PASSWORD_CHARS);
        if email_ok && length_ok {
            Ok(())
        } else {
            Err(Status::BadRequest)
        }
    }
}

impl ShareData {
    pub fn new() -> (r: ShareData)
        ensures
            r.msg@ == "hello data"@,
    {
        ShareData { msg: "hello data".to_owned() }
    }
}

pub fn hello_world() -> (r: String)
    ensures
        r@ == "Hello World from my own file"@,
{
    "Hello World from my own file".to_owned()
}

/// Hands the body back unchanged.
pub fn mirror_body_string(body: String) -> (r: String)
    ensures
        r == body,
{
    body
}

/// Answers a message with itself and the server's message `server`.
pub fn mirror_body_json(body: JsonString) -> (r: JsonRespond)
    ensures
        r.message == body.message,
        r.server_msg@ == "server"@,
{
    JsonRespond { message: body.message, server_msg: "server".to_owned() }
}

/// Hands the query parameters back unchanged.
pub fn query_params(params: QueryItems) -> (r: QueryItems)
    ensures
        r == params,
{
    params
}

/// The shared message.
pub fn mw_msg(share_data: ShareData) -> (r: String)
    ensures
        r == share_data.msg,
{
    share_data.msg
}

/// Reads the `msg` header for the routes behind it; a missing (or
/// unreadable) header is a bad request.
pub fn custom_header_msg(value: Option<&str>) -> (r: Result<HeadMsg, Status>)
    ensures
        value is None ==> r == Err::<HeadMsg, Status>(Status::BadRequest),
        value is Some ==> r is Ok && r->Ok_0.0@ == value->0@,
{
    match value {
        None => Err(Status::BadRequest),
        Some(v) => Ok(HeadMsg(v.to_owned())),
    }
}

/// The message that the header middleware passed on.
pub fn mw_custom_header(msg: HeadMsg) -> (r: String)
    ensures
        r == msg.0,
{
    msg.0
}

/// Always fails, with the teapot status.
pub fn always_errors() -> (r: Result<(), Status>)
    ensures
        r == Err::<(), Status>(Status::ImATeapot),
{
    Err(Status::ImATeapot)
}

/// A created status with a fixed body.
pub fn return_201() -> (r: (Status, String))
    ensures
        r.0 == Status::Created,
        r.1@ == "This is 201"@,
{
    (Status::Created, "This is 201".to_owned())
}

/// A fixed JSON document.
pub fn get_json() -> (r: Data)
    ensures
        r.msg@ == "abc"@,
        r.acount == 32,
        r.username@ == "name"@,
{
    Data { msg: "abc".to_owned(), acount: 32, username: "name".to_owned() }
}

} // verus!
