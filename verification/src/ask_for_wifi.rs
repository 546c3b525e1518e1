use vstd::prelude::*;
use vstd::string::*;

verus! {

/// The credentials of the Wi-Fi network the user asked the device to join.
#[derive(Debug)]
pub struct WifiCreds {
    pub ssid: String,
    pub password: String,
}

/// The largest form body, in bytes, that the set-up page accepts.
pub const MAX_REQUEST_LEN: usize = 2048;

/// The status of a successful reply.
pub const STATUS_OK: u16 = 200;

/// The status of the reply to a form body over [`MAX_REQUEST_LEN`].
pub const STATUS_TOO_BIG: u16 = 413;

/// An HTTP reply: its status and its text.
pub struct Reply {
    pub status: u16,
    pub body: String,
}

/// What to do with the body of a posted form, decided from its announced
/// length.
pub enum BodyPlan {
    /// Read exactly this many bytes, then parse them.
    Read(usize),
    /// Do not read; answer with this reply.
    Reject(Reply),
}

/// What answering a parsed form gives: the reply, and the credentials to
/// hand on when the form parsed.
pub struct FormOutcome {
    pub reply: Reply,
    pub creds: Option<WifiCreds>,
}

/// The announced length of a form body, with none announced counting as
/// empty.
pub open spec fn announced_len(content_len: Option<u64>) -> u64 {
    match content_len {
        Some(len) => len,
        None => 0,
    }
}

/// The reply text to a form that named the network `ssid`.
pub open spec fn connecting_text(ssid: Seq<char>) -> Seq<char> {
    "Connecting to "@ + ssid + "..."@
}

/// Decides, from the announced length, whether to read a posted form body:
/// bodies over [`MAX_REQUEST_LEN`] are answered `413 Request too big`
/// unread.
pub fn plan_form_body(content_len: Option<u64>) -> (p: BodyPlan)
    ensures
        announced_len(content_len) > MAX_REQUEST_LEN ==> (p matches BodyPlan::Reject(r) && r.status
            == STATUS_TOO_BIG && r.body@ == "Request too big"@),
        announced_len(content_len) <= MAX_REQUEST_LEN ==> (p matches BodyPlan::Read(n) && n
            == announced_len(content_len)),
        content_len is None ==> (p matches BodyPlan::Read(n) && n == 0),
        forall|l: u64|
            content_len == Some(l) && l <= 2048 ==> (p matches BodyPlan::Read(n) && n == l),
        forall|l: u64|
            content_len == Some(l) && l > 2048 ==> (p matches BodyPlan::Reject(r) && r.status == 413
                && r.body@ == "Request too big"@),
{
    let len: u64 = match content_len {
        Some(len) => len,
        None => 0,
    };
    if len > 2048 {
        BodyPlan::Reject(Reply { status: STATUS_TOO_BIG, body: String::from_str("Request too big") })
    } else {
        BodyPlan::Read(len as usize)
    }
}

/// Answers a posted form, given the SSID and password it held, or `None`
/// when it was not the expected JSON: a form names the network being joined
/// and hands on its credentials; anything else is answered `JSON error`.
pub fn form_reply(form: Option<(String, String)>) -> (o: FormOutcome)
    ensures
        o.reply.status == STATUS_OK,
        o.reply.status == 200,
        form matches Some(f) ==> o.reply.body@ == "Connecting to "@ + f.0@ + "..."@,
        form matches Some(f) ==> {
            &&& o.reply.body@ == connecting_text(f.0@)
            &&& (o.creds matches Some(c) && c.ssid@ == f.0@ && c.password@ == f.1@)
        },
        form is None ==> o.reply.body@ == "JSON error"@ && o.creds is None,
{
    match form {
        Some((ssid, password)) => {
            let mut body = String::from_str("Connecting to ");
            body.append(ssid.as_str());
            body.append("...");
            FormOutcome {
                reply: Reply { status: STATUS_OK, body },
                creds: Some(WifiCreds { ssid, password }),
            }
        },
        None => FormOutcome {
            reply: Reply { status: STATUS_OK, body: String::from_str("JSON error") },
            creds: None,
        },
    }
}

} // verus!
