//! Accepting an invitation: the request's authorization, reading the reply,
//! and judging a configuration by the reply it gets.
use vstd::prelude::*;
use crate::json::{field_str, json_document_bytes, parse_json_slice, JsonDocView, JsonDocument};
use crate::text::{occurs_in, str_contains};

verus! {

/// Where the answers to invitations are sent.
pub const ACCEPT_URL_BASE: &'static str = "https://api.spond.com/core/v1/sponds/";

/// A character that an HTTP header value may hold: a tab, or any character
/// from the space on except DEL (characters beyond ASCII are encoded in bytes
/// that are all accepted).
pub open spec fn header_char_ok(c: char) -> bool {
    c == '\t' || (c as u32 >= 32 && c as u32 != 127)
}

/// Every character of `s` may stand in an HTTP header value.
pub open spec fn header_text_ok(s: Seq<char>) -> bool {
    forall|i: int| 0 <= i < s.len() ==> header_char_ok(#[trigger] s[i])
}

/// Calls `reqwest::header::HeaderValue::from_str` and reports whether it
/// accepted the text. The contract claims what the `http` crate's source
/// checks: every byte is a tab, or at least 32 and not 127.
#[verifier::external_body]
fn header_value_ok(value: &str) -> (r: bool)
    ensures
        r == header_text_ok(value@),
{
    reqwest::header::HeaderValue::from_str(value).is_ok()
}

/// Why accepting an invitation failed.
#[derive(Debug, PartialEq, Eq)]
pub enum AcceptError {
    /// The bearer token cannot stand in an HTTP header.
    InvalidHeaderValue,
    /// A successful reply was not JSON.
    Decode,
    /// The request could not be sent or its reply not read; the reason.
    Request(String),
}

pub enum AcceptFailure {
    InvalidHeaderValue,
    Decode,
    Request(Seq<char>),
}

impl View for AcceptError {
    type V = AcceptFailure;

    open spec fn view(&self) -> AcceptFailure {
        match self {
            AcceptError::InvalidHeaderValue => AcceptFailure::InvalidHeaderValue,
            AcceptError::Decode => AcceptFailure::Decode,
            AcceptError::Request(m) => AcceptFailure::Request(m@),
        }
    }
}

pub open spec fn accept_failure_message(f: AcceptFailure) -> Seq<char> {
    match f {
        AcceptFailure::InvalidHeaderValue => "failed to parse header value"@,
        AcceptFailure::Decode => "error decoding response body"@,
        AcceptFailure::Request(m) => m,
    }
}

impl AcceptError {
    /// The message shown for this failure.
    pub fn message(&self) -> (r: String)
        ensures
            r@ == accept_failure_message(self@),
    {
        match self {
            AcceptError::InvalidHeaderValue => "failed to parse header value".to_owned(),
            AcceptError::Decode => "error decoding response body".to_owned(),
            AcceptError::Request(m) => m.clone(),
        }
    }
}

pub open spec fn accept_result_view(r: Result<String, AcceptError>) -> Result<Seq<char>, AcceptFailure> {
    match r {
        Ok(s) => Ok(s@),
        Err(e) => Err(e@),
    }
}

/// The `Authorization` header for a bearer token, when it may stand in a header.
pub open spec fn authorization_spec(token: Seq<char>) -> Result<Seq<char>, AcceptFailure> {
    let value = "Bearer "@ + token;
    if header_text_ok(value) {
        Ok(value)
    } else {
        Err(AcceptFailure::InvalidHeaderValue)
    }
}

/// Builds the `Authorization` header value "Bearer {token}".
pub fn authorization_header(token: &str) -> (r: Result<String, AcceptError>)
    ensures
        accept_result_view(r) == authorization_spec(token@),
{
    let mut value = "Bearer ".to_owned();
    value.append(token);
    if header_value_ok(value.as_str()) {
        Ok(value)
    } else {
        Err(AcceptError::InvalidHeaderValue)
    }
}

/// The URL at which a user answers an event's invitation.
pub open spec fn accept_url_spec(event_id: Seq<char>, user_id: Seq<char>) -> Seq<char> {
    ACCEPT_URL_BASE@ + "/"@ + event_id + "/responses/"@ + user_id
}

/// Builds the URL at which `user_id` answers the invitation of `event_id`.
pub fn accept_url(event_id: &str, user_id: &str) -> (r: String)
    ensures
        r@ == accept_url_spec(event_id@, user_id@),
{
    let mut url = ACCEPT_URL_BASE.to_owned();
    url.append("/");
    url.append(event_id);
    url.append("/responses/");
    url.append(user_id);
    url
}

/// The answer reported when the invitation was not open yet.
pub open spec fn too_fast_text() -> Seq<char> {
    "Invite was not accepted, due to being too fast."@
}

/// A successful reply says, by its `errorKey`, that the invitation was not
/// sent yet.
pub open spec fn invite_not_sent(doc: JsonDocView) -> bool {
    match doc {
        JsonDocView::Object(fields) => field_str(fields, "errorKey"@) == Some("inviteNotSent"@),
        _ => false,
    }
}

/// The reply to an acceptance.
#[derive(Debug, PartialEq, Eq)]
pub enum Reply {
    /// A successful status, with the body's raw bytes.
    Accepted(Vec<u8>),
    /// A failed status, with the body as text.
    Refused(String),
}

pub enum ReplyView {
    Accepted(Seq<u8>),
    Refused(Seq<char>),
}

impl View for Reply {
    type V = ReplyView;

    open spec fn view(&self) -> ReplyView {
        match self {
            Reply::Accepted(b) => ReplyView::Accepted(b@),
            Reply::Refused(t) => ReplyView::Refused(t@),
        }
    }
}

/// What accepting reports from the reply: a failed status gives
/// "Failed: {body}"; a successful one gives the too-fast answer when the body
/// says the invitation was not sent, "Success" otherwise, and a decoding
/// failure when the body is no JSON.
pub open spec fn accept_outcome_spec(reply: ReplyView) -> Result<Seq<char>, AcceptFailure> {
    match reply {
        ReplyView::Accepted(body) => match json_document_bytes(body) {
            Err(_) => Err(AcceptFailure::Decode),
            Ok(doc) => if invite_not_sent(doc) {
                Ok(too_fast_text())
            } else {
                Ok("Success"@)
            },
        },
        ReplyView::Refused(body) => Ok("Failed: "@ + body),
    }
}

/// Reads the reply to an acceptance.
pub fn accept_outcome(reply: &Reply) -> (r: Result<String, AcceptError>)
    ensures
        accept_result_view(r) == accept_outcome_spec(reply@),
{
    match reply {
        Reply::Accepted(body) => match parse_json_slice(body.as_slice()) {
            Err(_) => Err(AcceptError::Decode),
            Ok(doc) => {
                let not_sent = match &doc {
                    JsonDocument::Object(obj) => match obj.get_str("errorKey") {
                        Some(k) => k == "inviteNotSent".to_owned(),
                        None => false,
                    },
                    _ => false,
                };
                if not_sent {
                    Ok("Invite was not accepted, due to being too fast.".to_owned())
                } else {
                    Ok("Success".to_owned())
                }
            },
        },
        Reply::Refused(body) => {
            let mut s = "Failed: ".to_owned();
            s.append(body.as_str());
            Ok(s)
        },
    }
}

/// A configuration is judged by the answer to an acceptance: an answer that
/// says the invitation has not been sent out is correct, one that says
/// "Failed" otherwise is not, any other answer is; a failure is not.
pub open spec fn config_correct_spec(result: Result<Seq<char>, AcceptFailure>) -> bool {
    match result {
        Ok(answer) => if occurs_in(answer, "Invitation has not been sent out"@) {
            true
        } else {
            !occurs_in(answer, "Failed"@)
        },
        Err(_) => false,
    }
}

/// An answer marks the configuration as wrong: it says "Failed" and does
/// not say that the invitation has not been sent out.
pub open spec fn refusal_answer(result: Result<Seq<char>, AcceptFailure>) -> bool {
    match result {
        Ok(answer) => occurs_in(answer, "Failed"@) && !occurs_in(answer, "Invitation has not been sent out"@),
        Err(_) => false,
    }
}

/// The judgement of a configuration from an answer it got.
pub open spec fn is_config_correct_answer(answer: Seq<char>) -> bool {
    config_correct_spec(Ok(answer))
}

/// How a configuration fares when an acceptance is tried with it.
#[derive(Debug, PartialEq, Eq)]
pub enum ConfigCheck {
    /// The answer says the invitation has not been sent out: the
    /// configuration reached the right event.
    Confirmed,
    /// The answer says "Failed"; the answer.
    Refused(String),
    /// Any other answer.
    Passed,
    /// The acceptance failed; the failure's message.
    Unchecked(String),
}

pub enum ConfigCheckView {
    Confirmed,
    Refused(Seq<char>),
    Passed,
    Unchecked(Seq<char>),
}

impl View for ConfigCheck {
    type V = ConfigCheckView;

    open spec fn view(&self) -> ConfigCheckView {
        match self {
            ConfigCheck::Confirmed => ConfigCheckView::Confirmed,
            ConfigCheck::Refused(a) => ConfigCheckView::Refused(a@),
            ConfigCheck::Passed => ConfigCheckView::Passed,
            ConfigCheck::Unchecked(m) => ConfigCheckView::Unchecked(m@),
        }
    }
}

pub open spec fn config_check_spec(result: Result<Seq<char>, AcceptFailure>) -> ConfigCheckView {
    match result {
        Ok(answer) => if occurs_in(answer, "Invitation has not been sent out"@) {
            ConfigCheckView::Confirmed
        } else if occurs_in(answer, "Failed"@) {
            ConfigCheckView::Refused(answer)
        } else {
            ConfigCheckView::Passed
        },
        Err(f) => ConfigCheckView::Unchecked(accept_failure_message(f)),
    }
}

/// Classifies the answer to an acceptance made with a configuration.
pub fn config_check(result: &Result<String, AcceptError>) -> (r: ConfigCheck)
    ensures
        r@ == config_check_spec(accept_result_view(*result)),
        (r@ is Refused) <==> refusal_answer(accept_result_view(*result)),
        (r@ is Confirmed) <==> (result is Ok && occurs_in(result->Ok_0@, "Invitation has not been sent out"@)),
        (r@ is Unchecked) <==> result is Err,
        result is Ok ==> (r@ is Refused) == !is_config_correct_answer(result->Ok_0@),
{
    match result {
        Ok(answer) => {
            if str_contains(answer.as_str(), "Invitation has not been sent out") {
                ConfigCheck::Confirmed
            } else if str_contains(answer.as_str(), "Failed") {
                ConfigCheck::Refused(answer.clone())
            } else {
                ConfigCheck::Passed
            }
        },
        Err(e) => ConfigCheck::Unchecked(e.message()),
    }
}

/// Judges a configuration by the answer to an acceptance made with it.
pub fn is_config_correct(result: &Result<String, AcceptError>) -> (r: bool)
    ensures
        r == config_correct_spec(accept_result_view(*result)),
{
    match config_check(result) {
        ConfigCheck::Confirmed => true,
        ConfigCheck::Refused(_) => false,
        ConfigCheck::Passed => true,
        ConfigCheck::Unchecked(_) => false,
    }
}

/// A needle whose first character never appears in a text does not occur in it.
proof fn lemma_first_char_absent(hay: Seq<char>, needle: Seq<char>)
    requires
        needle.len() > 0,
        forall|i: int| 0 <= i < hay.len() ==> hay[i] != needle[0],
    ensures
        !occurs_in(hay, needle),
{
    if occurs_in(hay, needle) {
        let i = choose|i: int| 0 <= i && i + needle.len() <= hay.len()
            && #[trigger] hay.subrange(i, i + needle.len()) == needle;
        assert(hay.subrange(i, i + needle.len())[0] == hay[i]);
    }
}

/// A needle with a character that never appears in a text does not occur in it.
proof fn lemma_char_absent(hay: Seq<char>, needle: Seq<char>, j: int)
    requires
        0 <= j < needle.len(),
        forall|i: int| 0 <= i < hay.len() ==> hay[i] != needle[j],
    ensures
        !occurs_in(hay, needle),
{
    if occurs_in(hay, needle) {
        let i = choose|i: int| 0 <= i && i + needle.len() <= hay.len()
            && #[trigger] hay.subrange(i, i + needle.len()) == needle;
        assert(hay.subrange(i, i + needle.len())[j] == hay[i + j]);
    }
}

/// Putting a prefix without the needle's first character in front of a text
/// neither adds nor removes occurrences of the needle.
proof fn lemma_prefix_keeps_occurrence(prefix: Seq<char>, body: Seq<char>, needle: Seq<char>)
    requires
        needle.len() > 0,
        forall|i: int| 0 <= i < prefix.len() ==> prefix[i] != needle[0],
    ensures
        occurs_in(prefix + body, needle) == occurs_in(body, needle),
{
    let whole = prefix + body;
    if occurs_in(body, needle) {
        let j = choose|j: int| 0 <= j && j + needle.len() <= body.len()
            && #[trigger] body.subrange(j, j + needle.len()) == needle;
        let k = j + prefix.len();
        assert(whole.subrange(k, k + needle.len()) =~= body.subrange(j, j + needle.len()));
    }
    if occurs_in(whole, needle) {
        let k = choose|k: int| 0 <= k && k + needle.len() <= whole.len()
            && #[trigger] whole.subrange(k, k + needle.len()) == needle;
        assert(whole.subrange(k, k + needle.len())[0] == whole[k]);
        if k < prefix.len() {
            assert(whole[k] == prefix[k]);
        } else {
            let j = k - prefix.len();
            assert(body.subrange(j, j + needle.len()) =~= whole.subrange(k, k + needle.len()));
        }
    }
}

/// A configuration checked against an invitation whose request was refused
/// (a reply with a failed status) is judged correct exactly when the reply's
/// body says that the invitation has not been sent out.
pub proof fn law_refused_request_judged_by_body(body: Seq<char>)
    ensures
        config_correct_spec(accept_outcome_spec(ReplyView::Refused(body)))
            == occurs_in(body, "Invitation has not been sent out"@),
{
    reveal_strlit("Failed: ");
    reveal_strlit("Failed");
    reveal_strlit("Invitation has not been sent out");
    let prefix = "Failed: "@;
    let answer = prefix + body;
    let phrase = "Invitation has not been sent out"@;
    assert(phrase[0] == 'I');
    assert(forall|i: int| 0 <= i < prefix.len() ==> prefix[i] != phrase[0]);
    lemma_prefix_keeps_occurrence(prefix, body, phrase);
    let failed = "Failed"@;
    assert(answer.subrange(0, 0 + failed.len() as int) =~= failed);
    assert(occurs_in(answer, failed));
}

/// A configuration checked against an invitation whose request succeeded,
/// with a reply body that is JSON, is judged correct, whether the reply says
/// the invitation was not sent yet or not.
pub proof fn law_accepted_request_judged_correct(body: Seq<u8>)
    requires
        json_document_bytes(body) is Ok,
    ensures
        config_correct_spec(accept_outcome_spec(ReplyView::Accepted(body))),
{
    reveal_strlit("Success");
    reveal_strlit("Failed");
    reveal_strlit("Invite was not accepted, due to being too fast.");
    lemma_first_char_absent("Success"@, "Failed"@);
    lemma_first_char_absent(too_fast_text(), "Failed"@);
}

/// The classification of an acceptance agrees with the judgement: it is
/// `Refused` exactly when an answer came and the configuration is judged
/// incorrect by it, `Unchecked` exactly when no answer came, and `Confirmed`
/// or `Passed` for every answer that judges the configuration correct.
pub proof fn law_check_agrees_with_judgement(result: Result<Seq<char>, AcceptFailure>)
    ensures
        (config_check_spec(result) is Refused) <==> (result is Ok && !config_correct_spec(result)),
        (config_check_spec(result) is Unchecked) <==> result is Err,
        (config_check_spec(result) is Confirmed || config_check_spec(result) is Passed)
            <==> (result is Ok && config_correct_spec(result)),
{
}

/// A successful reply that is JSON ("Success" or the too-fast answer) never
/// makes the configuration look wrong: its check is `Passed`.
pub proof fn law_successful_reply_never_refused(body: Seq<u8>)
    requires
        json_document_bytes(body) is Ok,
    ensures
        config_check_spec(accept_outcome_spec(ReplyView::Accepted(body))) == ConfigCheckView::Passed,
{
    reveal_strlit("Success");
    reveal_strlit("Failed");
    reveal_strlit("Invitation has not been sent out");
    reveal_strlit("Invite was not accepted, due to being too fast.");
    lemma_first_char_absent("Success"@, "Failed"@);
    lemma_first_char_absent(too_fast_text(), "Failed"@);
    lemma_first_char_absent("Success"@, "Invitation has not been sent out"@);
    assert("Invitation has not been sent out"@[11] == 'h');
    lemma_char_absent(too_fast_text(), "Invitation has not been sent out"@, 11);
}

/// A configuration whose acceptance failed (no reply, or a successful reply
/// that is not JSON) is judged incorrect.
pub proof fn law_failed_acceptance_judged_incorrect(failure: AcceptFailure)
    ensures
        !config_correct_spec(Err(failure)),
{
}

} // verus!
