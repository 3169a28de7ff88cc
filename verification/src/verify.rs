//! The question whether a token is authorized, and the reading of its answer.

use crate::config::{Config, ConfigView};
use crate::json::{
    fields_view, find_text, json_members, opt_members, read_object, text_member, FieldView, JsonField,
};
use crate::request::{post, post_request, HttpRequest, RequestView};
use crate::text::{decimal, decimal_text, opt_text};
use vstd::prelude::*;

verus! {

/// What came of sending the question.
pub enum VerifyReply {
    /// There is no client to send it with.
    NoClient,
    /// It could not be sent, or no answer came in time.
    SendFailed(String),
    /// An answer with a status, and with its body where that was read.
    Answered { status: u16, body: Option<Vec<u8>> },
}

/// What an answer says: whether the token is authorized and, where the answer
/// names one, its user; or why there is no verdict.
pub type VerdictView = Result<(bool, Option<Seq<char>>), Seq<char>>;

/// A verdict, with texts as their characters.
pub open spec fn verdict_view(verdict: Result<(bool, Option<String>), String>) -> VerdictView {
    match verdict {
        Ok((authorized, user)) => Ok((authorized, opt_text(user))),
        Err(why) => Err(why@),
    }
}

/// The fields of the question.
pub open spec fn verify_fields(token: Seq<char>, ip: Seq<char>) -> Seq<
    (Seq<char>, Option<Seq<char>>),
> {
    seq![("token"@, Some(token)), ("ip"@, Some(ip))]
}

/// The question whether `token`, used from `ip`, is authorized.
pub open spec fn verify_request(config: ConfigView, token: Seq<char>, ip: Seq<char>) -> RequestView {
    post_request(config, "/tokens/verify"@, verify_fields(token, ip))
}

/// Whether `body` is a JSON object with exactly the members `token` and `ip`.
pub open spec fn asks_about(body: Seq<u8>, token: Seq<char>, ip: Seq<char>) -> bool {
    json_members(body) == Some(
        Map::<Seq<char>, FieldView>::empty().insert("token"@, FieldView::Text(token)).insert(
            "ip"@,
            FieldView::Text(ip),
        ),
    )
}

/// Writes the question whether a token is authorized.
pub fn ask_verify(config: &Config, token: &str, ip: &str) -> (request: HttpRequest)
    ensures
        request@ == verify_request(config@, token@, ip@),
        request.url@ == config.url@ + "/tokens/verify"@,
        asks_about(request.body@, token@, ip@),
{
    let fields: Vec<(String, Option<String>)> = vec![
        ("token".to_owned(), Some(token.to_owned())),
        ("ip".to_owned(), Some(ip.to_owned())),
    ];
    proof {
        let f = fields_view(fields@);
        assert(f =~= verify_fields(token@, ip@));
        reveal_strlit("token");
        reveal_strlit("ip");
        assert("token"@.len() != "ip"@.len());
        reveal_with_fuel(crate::json::written_members, 3);
    }
    post(config, "/tokens/verify", fields)
}

/// Whether the body of an answer with `status` is read.
pub open spec fn body_is_read(status: u16) -> bool {
    status == 200
}

/// Tells whether the body of an answer with this status is to be read.
pub fn needs_body(status: u16) -> (needed: bool)
    ensures
        needed == (status == 200),
        needed == body_is_read(status),
{
    status == 200
}

/// The verdict of an answer with `status`, whose body names `user`.
pub open spec fn status_verdict(status: u16, user: Option<Seq<char>>) -> VerdictView {
    if status == 200 {
        Ok((true, user))
    } else if status == 403 {
        Ok((false, None))
    } else {
        Err("unexpected status "@ + decimal_text(status as nat))
    }
}

/// The user that a body with these members names.
pub open spec fn named_user(members: Option<Map<Seq<char>, FieldView>>) -> Option<Seq<char>> {
    text_member(members, "user"@)
}

/// Reads the verdict off a status and the members of the body: 200 authorizes, for
/// the user that the body names, 403 does not, and any other status is no verdict.
pub fn read_verdict(status: u16, members: &Option<Vec<(String, JsonField)>>) -> (verdict: Result<
    (bool, Option<String>),
    String,
>)
    ensures
        verdict_view(verdict) == status_verdict(status, named_user(opt_members(*members))),
{
    match status {
        200 => Ok((true, find_text(members, "user"))),
        403 => Ok((false, None)),
        _ => {
            let mut why = "unexpected status ".to_owned();
            why.append(decimal(status as u64).as_str());
            Err(why)
        },
    }
}

/// The user that the body of an answer names, where the body was read.
pub open spec fn body_user(body: Option<Vec<u8>>) -> Option<Seq<char>> {
    match body {
        Some(bytes) => named_user(json_members(bytes@)),
        None => None,
    }
}

/// The verdict that a reply gives.
pub open spec fn reply_verdict(reply: VerifyReply) -> VerdictView {
    match reply {
        VerifyReply::NoClient => Err("http client unavailable"@),
        VerifyReply::SendFailed(why) => Err(why@),
        VerifyReply::Answered { status, body } => status_verdict(status, body_user(body)),
    }
}

/// Reads the verdict off what came of sending the question.
pub fn call_verify(reply: VerifyReply) -> (verdict: Result<(bool, Option<String>), String>)
    ensures
        verdict_view(verdict) == reply_verdict(reply),
{
    match reply {
        VerifyReply::NoClient => Err("http client unavailable".to_owned()),
        VerifyReply::SendFailed(why) => Err(why),
        VerifyReply::Answered { status, body } => {
            let members: Option<Vec<(String, JsonField)>> = match &body {
                Some(bytes) => if needs_body(status) {
                    read_object(bytes.as_slice())
                } else {
                    None
                },
                None => None,
            };
            read_verdict(status, &members)
        },
    }
}

/// The question reads back: its body names the token and the address that it is
/// about.
pub proof fn law_question_reads_back(body: Seq<u8>, token: Seq<char>, ip: Seq<char>)
    requires
        asks_about(body, token, ip),
    ensures
        text_member(json_members(body), "token"@) == Some(token),
        text_member(json_members(body), "ip"@) == Some(ip),
{
    reveal_strlit("token");
    reveal_strlit("ip");
    assert("token"@.len() != "ip"@.len());
}

/// Only an answer with status 200 or 403 is a verdict; a missing client, a failure to
/// send and every other status is none.
pub proof fn law_only_two_statuses_are_verdicts(reply: VerifyReply)
    ensures
        reply_verdict(reply) is Ok <==> match reply {
            VerifyReply::Answered { status, .. } => status == 200 || status == 403,
            _ => false,
        },
{
}

/// Status 200 authorizes whatever the body is, and status 403 refuses whatever the
/// body is.
pub proof fn law_status_decides(body: Option<Vec<u8>>)
    ensures
        reply_verdict(VerifyReply::Answered { status: 200, body }) == verdict_of(
            true,
            body_user(body),
        ),
        reply_verdict(VerifyReply::Answered { status: 403, body }) == verdict_of(false, None),
{
}

/// A verdict.
pub open spec fn verdict_of(authorized: bool, user: Option<Seq<char>>) -> VerdictView {
    Ok((authorized, user))
}

/// A verdict as characters is the verdict, whole.
pub proof fn law_verdicts_are_whole(authorized: bool, user: Option<String>, why: String)
    ensures
        verdict_view(Ok((authorized, user))) is Ok,
        verdict_view(Ok((authorized, user)))->Ok_0.0 == authorized,
        user is Some ==> verdict_view(Ok((authorized, user)))->Ok_0.1 == Some(user->0@),
        user is None ==> verdict_view(Ok((authorized, user)))->Ok_0.1 is None,
        verdict_view(Err(why)) is Err,
        verdict_view(Err(why))->Err_0 == why@,
{
}

/// The question has exactly two members, the token and the address, each a string with all
/// of its characters.
pub proof fn law_question_has_two_members(body: Seq<u8>, token: Seq<char>, ip: Seq<char>)
    ensures
        asks_about(body, token, ip) <==> {
            &&& json_members(body) is Some
            &&& forall|name: Seq<char>| #[trigger]
                json_members(body)->0.contains_key(name) <==> name == "token"@ || name == "ip"@
            &&& json_members(body)->0["token"@] == FieldView::Text(token)
            &&& json_members(body)->0["ip"@] == FieldView::Text(ip)
        },
{
    reveal_strlit("token");
    reveal_strlit("ip");
    assert("token"@.len() != "ip"@.len());
    let asked = Map::<Seq<char>, FieldView>::empty().insert("token"@, FieldView::Text(token)).insert(
        "ip"@,
        FieldView::Text(ip),
    );
    if json_members(body) is Some {
        let members = json_members(body)->0;
        if (forall|name: Seq<char>| #[trigger]
            members.contains_key(name) <==> name == "token"@ || name == "ip"@) && members["token"@]
            == FieldView::Text(token) && members["ip"@] == FieldView::Text(ip) {
            assert(members =~= asked);
        }
    }
}

/// An approval is for the user that the answer names, every character of the name: where the
/// members of the body hold a string under `user`, it is that string.
pub proof fn law_approval_is_for_the_named_user(
    members: Map<Seq<char>, FieldView>,
    name: Seq<char>,
    bytes: Vec<u8>,
)
    requires
        members.contains_key("user"@),
        members["user"@] == FieldView::Text(name),
    ensures
        named_user(Some(members)) == Some(name),
        status_verdict(200, named_user(Some(members))) == Ok::<(bool, Option<Seq<char>>), Seq<char>>(
            (true, Some(name)),
        ),
        json_members(bytes@) == Some(members) ==> reply_verdict(
            VerifyReply::Answered { status: 200, body: Some(bytes) },
        ) == Ok::<(bool, Option<Seq<char>>), Seq<char>>((true, Some(name))),
{
}

/// An approval is for nobody in particular where the answer names no user: where its body
/// was not read, is no object, holds no member `user`, or holds one that is no string.
pub proof fn law_approval_without_a_name(
    members: Option<Map<Seq<char>, FieldView>>,
    body: Option<Vec<u8>>,
)
    requires
        members is Some && members->0.contains_key("user"@) ==> !(members->0["user"@] is Text),
        body is Some ==> json_members(body->0@) == members,
    ensures
        named_user(members) is None,
        status_verdict(200, named_user(members)) == Ok::<(bool, Option<Seq<char>>), Seq<char>>(
            (true, None),
        ),
        reply_verdict(VerifyReply::Answered { status: 200, body }) == Ok::<
            (bool, Option<Seq<char>>),
            Seq<char>,
        >((true, None)),
{
}

/// Whatever is read of the body, status 403 refuses and names nobody, and every status but
/// 200 and 403 is no verdict, with the status as the reason.
pub proof fn law_other_statuses(status: u16, user: Option<Seq<char>>, body: Option<Vec<u8>>)
    requires
        status != 200,
    ensures
        body_is_read(200),
        !body_is_read(status),
        status == 403 ==> status_verdict(status, user) == Ok::<
            (bool, Option<Seq<char>>),
            Seq<char>,
        >((false, None)),
        status == 403 ==> reply_verdict(VerifyReply::Answered { status, body }) == Ok::<
            (bool, Option<Seq<char>>),
            Seq<char>,
        >((false, None)),
        status != 403 ==> status_verdict(status, user) == Err::<
            (bool, Option<Seq<char>>),
            Seq<char>,
        >("unexpected status "@ + decimal_text(status as nat)),
        status != 403 ==> reply_verdict(VerifyReply::Answered { status, body }) == Err::<
            (bool, Option<Seq<char>>),
            Seq<char>,
        >("unexpected status "@ + decimal_text(status as nat)),
{
}

/// Where no answer came the reason is handed on, word for word.
pub proof fn law_unsent_questions_say_why(why: String)
    ensures
        reply_verdict(VerifyReply::NoClient) == Err::<(bool, Option<Seq<char>>), Seq<char>>(
            "http client unavailable"@,
        ),
        reply_verdict(VerifyReply::SendFailed(why)) == Err::<(bool, Option<Seq<char>>), Seq<char>>(
            why@,
        ),
{
}

} // verus!
