//! The Robinhood login conversation: what a login asks for, how each
//! answer moves it on, and what the session remembers between steps.

use vstd::prelude::*;
use vstd::utf8::encode_utf8;
use crate::text::{owned, str_eq, join_with, join_strings, decimal, decimal_string};
use crate::accounts::views;
use crate::encoding::{form_text, form_urlencode};
use crate::signing::pair_views;
use crate::error::{AppError, error_text};

verus! {

/// The client id Robinhood's token endpoint expects from this desk.
pub const ROBINHOOD_CLIENT_ID: &'static str = "c82SH0WZOsabOXGP2sxqcj34FxkvfnWRZBKlBjFS";

/// What a Robinhood login remembers between its steps, as plain text.
pub struct LoginMemo {
    pub device_token: Seq<char>,
    pub challenge_id: Seq<char>,
    pub verification_id: Seq<char>,
    pub machine_id: Seq<char>,
    pub sheriff_challenge_id: Seq<char>,
    pub mfa_required: bool,
    pub mfa_type: Seq<char>,
    pub pending_username: Seq<char>,
    pub pending_password: Seq<char>,
}

/// What a Robinhood login remembers between its steps.
pub struct RobinhoodLogin {
    pub device_token: String,
    pub challenge_id: String,
    pub verification_id: String,
    pub machine_id: String,
    pub sheriff_challenge_id: String,
    pub mfa_required: bool,
    pub mfa_type: String,
    pub pending_username: String,
    pub pending_password: String,
}

impl View for RobinhoodLogin {
    type V = LoginMemo;

    open spec fn view(&self) -> LoginMemo {
        LoginMemo {
            device_token: self.device_token@,
            challenge_id: self.challenge_id@,
            verification_id: self.verification_id@,
            machine_id: self.machine_id@,
            sheriff_challenge_id: self.sheriff_challenge_id@,
            mfa_required: self.mfa_required,
            mfa_type: self.mfa_type@,
            pending_username: self.pending_username@,
            pending_password: self.pending_password@,
        }
    }
}

/// The first step of a login.
pub enum LoginRoute {
    /// Ask the token endpoint with these credentials and MFA code (empty
    /// for none).
    Attempt { username: String, password: String, mfa_code: String },
    /// Answer the verification challenge with this code.
    AnswerChallenge(String),
    /// Stop with this error.
    Refuse(AppError),
}

/// The verification workflow a token reply carries.
pub struct WorkflowField {
    pub status: Option<String>,
    pub id: Option<String>,
}

/// The legacy MFA challenge a token reply carries.
pub struct ChallengeField {
    pub id: Option<String>,
    pub kind: Option<String>,
}

/// The fields of a token endpoint reply that a login reads; each is
/// present only when the reply holds it with the expected type.
pub struct LoginReply {
    pub workflow: Option<WorkflowField>,
    pub challenge: Option<ChallengeField>,
    pub mfa_required: Option<bool>,
    pub mfa_type: Option<String>,
    pub access_token: Option<String>,
    pub token_type: Option<String>,
    pub refresh_token: Option<String>,
    pub detail: Option<String>,
    pub error: Option<String>,
    pub error_description: Option<String>,
    /// The reply's body as text.
    pub body: String,
}

/// How a token reply moves a login on.
pub enum LoginStep {
    /// Run the verification workflow with this id.
    Verify(String),
    /// Logged in: the access token, and the token type and refresh token
    /// when the reply gives them.
    Tokens { access_token: String, token_type: Option<String>, refresh_token: Option<String> },
    /// The login stops here with this error.
    Stop(AppError),
}

/// What one look at a verification challenge says.
pub enum ChallengeStep {
    /// Wait for the user to approve on the app; the id is the challenge's.
    AwaitPrompt(String),
    /// A code was sent (or the challenge is already validated); its kind.
    Issued(String),
    /// Nothing usable yet; look again.
    KeepPolling,
}

/// An optional text as plain text, empty when absent.
pub open spec fn text_or_empty(t: Option<String>) -> Seq<char> {
    match t {
        Some(s) => s@,
        None => Seq::<char>::empty(),
    }
}

/// The fields of a password login, in the order the endpoint receives
/// them: the fixed ones, then the MFA code, challenge id and verification
/// id when a code is given and they are known.
pub open spec fn login_fields(
    device_token: Seq<char>,
    username: Seq<char>,
    password: Seq<char>,
    mfa_code: Seq<char>,
    challenge_id: Seq<char>,
    verification_id: Seq<char>,
) -> Seq<(Seq<char>, Seq<char>)> {
    seq![
        ("client_id"@, ROBINHOOD_CLIENT_ID@),
        ("expires_in"@, "86400"@),
        ("grant_type"@, "password"@),
        ("password"@, password),
        ("scope"@, "internal"@),
        ("username"@, username),
        ("device_token"@, device_token),
        ("try_passkeys"@, "false"@),
        ("token_request_path"@, "/login"@),
        ("create_read_only_secondary_token"@, "true"@),
    ] + (if mfa_code.len() > 0 {
        seq![("mfa_code"@, mfa_code)]
    } else {
        Seq::empty()
    }) + (if challenge_id.len() > 0 && mfa_code.len() > 0 {
        seq![("challenge_id"@, challenge_id)]
    } else {
        Seq::empty()
    }) + (if verification_id.len() > 0 && mfa_code.len() > 0 {
        seq![("verification_id"@, verification_id)]
    } else {
        Seq::empty()
    })
}

/// Form fields encoded as a request body: `key=value` pairs, each side
/// form-encoded, joined by `&`.
pub open spec fn form_body_text(fields: Seq<(Seq<char>, Seq<char>)>) -> Seq<char> {
    join_with(
        fields.map_values(
            |p: (Seq<char>, Seq<char>)|
                form_text(encode_utf8(p.0)) + "="@ + form_text(encode_utf8(p.1)),
        ),
        "&"@,
    )
}

/// Encodes form fields as a request body.
pub fn form_body(fields: &Vec<(String, String)>) -> (r: String)
    ensures
        r@ == form_body_text(pair_views(fields@)),
{
    let ghost f = |p: (Seq<char>, Seq<char>)|
        form_text(encode_utf8(p.0)) + "="@ + form_text(encode_utf8(p.1));
    let mut parts: Vec<String> = Vec::new();
    let mut i: usize = 0;
    while i < fields.len()
        invariant
            i <= fields.len(),
            f == (|p: (Seq<char>, Seq<char>)|
                form_text(encode_utf8(p.0)) + "="@ + form_text(encode_utf8(p.1))),
            views(parts@) == pair_views(fields@).take(i as int).map_values(f),
        decreases fields.len() - i,
    {
        let ghost before = views(parts@);
        let mut t = form_urlencode(fields[i].0.as_str());
        t.append("=");
        t.append(form_urlencode(fields[i].1.as_str()).as_str());
        parts.push(t);
        assert(pair_views(fields@)[i as int] == (fields@[i as int].0@, fields@[i as int].1@));
        assert(pair_views(fields@).take(i + 1).map_values(f) =~= pair_views(fields@).take(
            i as int,
        ).map_values(f).push(f(pair_views(fields@)[i as int])));
        assert(views(parts@) =~= before.push(t@));
        i = i + 1;
    }
    assert(pair_views(fields@).take(fields.len() as int) =~= pair_views(fields@));
    let r = join_strings(&parts, "&");
    assert(parts@.map_values(|p: String| p@) =~= views(parts@));
    r
}

/// The verification workflow a reply asks for: one not yet approved whose
/// id is present and not empty.
pub open spec fn pending_workflow(reply: LoginReply) -> Option<Seq<char>> {
    match reply.workflow {
        Some(w) => if text_or_empty(w.status) != "workflow_status_approved"@ && (w.id matches Some(
            id,
        ) && id@.len() > 0) {
            Some(text_or_empty(w.id))
        } else {
            None
        },
        None => None,
    }
}

/// The access token a reply grants: present and not empty.
pub open spec fn granted_token(reply: LoginReply) -> Option<Seq<char>> {
    match reply.access_token {
        Some(t) => if t@.len() > 0 {
            Some(t@)
        } else {
            None
        },
        None => None,
    }
}

/// The error a reply that grants nothing reads as.
pub open spec fn refusal_text(reply: LoginReply) -> Seq<char> {
    match reply.detail {
        Some(d) => "login failed: "@ + d@,
        None => match reply.error {
            Some(e) => "login failed: "@ + e@ + " - "@ + text_or_empty(reply.error_description),
            None => "login failed: unexpected response: "@ + reply.body@,
        },
    }
}

/// The memo once a login has completed: no MFA pending and no
/// verification or pending credentials left.
pub open spec fn settled(m: LoginMemo) -> LoginMemo {
    LoginMemo {
        challenge_id: Seq::empty(),
        verification_id: Seq::empty(),
        machine_id: Seq::empty(),
        sheriff_challenge_id: Seq::empty(),
        mfa_required: false,
        pending_username: Seq::empty(),
        pending_password: Seq::empty(),
        ..m
    }
}

impl RobinhoodLogin {
    /// A login with nothing remembered but the device token.
    pub fn new(device_token: String) -> (r: Self)
        ensures
            r@ == (LoginMemo {
                device_token: device_token@,
                challenge_id: Seq::empty(),
                verification_id: Seq::empty(),
                machine_id: Seq::empty(),
                sheriff_challenge_id: Seq::empty(),
                mfa_required: false,
                mfa_type: Seq::empty(),
                pending_username: Seq::empty(),
                pending_password: Seq::empty(),
            }),
    {
        RobinhoodLogin {
            device_token,
            challenge_id: String::new(),
            verification_id: String::new(),
            machine_id: String::new(),
            sheriff_challenge_id: String::new(),
            mfa_required: false,
            mfa_type: String::new(),
            pending_username: String::new(),
            pending_password: String::new(),
        }
    }

    /// Starts a login with `code` for `email`: while MFA is pending the code
    /// answers it (through the verification challenge when there is one,
    /// else by logging in again with the code); otherwise the code is the
    /// password, and the credentials are kept for the MFA step.
    pub fn route_login(&mut self, code: &str, email: &str) -> (r: LoginRoute)
        ensures
            old(self).mfa_required && (old(self).pending_username@.len() == 0
                || old(self).pending_password@.len() == 0) ==> (r matches LoginRoute::Refuse(
                AppError::AuthFailed(m),
            ) && m@ == "no pending login to complete MFA"@ && final(self)@ == old(self)@),
            old(self).mfa_required && old(self).pending_username@.len() > 0
                && old(self).pending_password@.len() > 0 && old(self).sheriff_challenge_id@.len()
                > 0 ==> (r matches LoginRoute::AnswerChallenge(c) && c@ == code@ && final(self)@
                == old(self)@),
            old(self).mfa_required && old(self).pending_username@.len() > 0
                && old(self).pending_password@.len() > 0 && old(self).sheriff_challenge_id@.len()
                == 0 ==> (r matches LoginRoute::Attempt { username, password, mfa_code }
                && username@ == old(self).pending_username@ && password@
                == old(self).pending_password@ && mfa_code@ == code@ && final(self)@
                == old(self)@),
            !old(self).mfa_required ==> (r matches LoginRoute::Attempt {
                username,
                password,
                mfa_code,
            } && username@ == email@ && password@ == code@ && mfa_code@.len() == 0
                && final(self)@ == (LoginMemo {
                pending_username: email@,
                pending_password: code@,
                ..old(self)@
            })),
    {
        if self.mfa_required {
            if self.pending_username.as_str().is_empty() || self.pending_password.as_str().is_empty() {
                return LoginRoute::Refuse(
                    AppError::AuthFailed(owned("no pending login to complete MFA")),
                );
            }
            if !self.sheriff_challenge_id.as_str().is_empty() {
                return LoginRoute::AnswerChallenge(owned(code));
            }
            return LoginRoute::Attempt {
                username: self.pending_username.clone(),
                password: self.pending_password.clone(),
                mfa_code: owned(code),
            };
        }
        self.pending_username = owned(email);
        self.pending_password = owned(code);
        LoginRoute::Attempt { username: owned(email), password: owned(code), mfa_code: String::new() }
    }

    /// The fields a password login sends.
    pub fn login_fields(&self, username: &str, password: &str, mfa_code: &str) -> (r: Vec<
        (String, String),
    >)
        ensures
            pair_views(r@) == login_fields(
                self.device_token@,
                username@,
                password@,
                mfa_code@,
                self.challenge_id@,
                self.verification_id@,
            ),
    {
        let mut r: Vec<(String, String)> = Vec::new();
        r.push((owned("client_id"), owned(ROBINHOOD_CLIENT_ID)));
        r.push((owned("expires_in"), owned("86400")));
        r.push((owned("grant_type"), owned("password")));
        r.push((owned("password"), owned(password)));
        r.push((owned("scope"), owned("internal")));
        r.push((owned("username"), owned(username)));
        r.push((owned("device_token"), self.device_token.clone()));
        r.push((owned("try_passkeys"), owned("false")));
        r.push((owned("token_request_path"), owned("/login")));
        r.push((owned("create_read_only_secondary_token"), owned("true")));
        let ghost fixed = pair_views(r@);
        let with_code = !mfa_code.is_empty();
        if with_code {
            r.push((owned("mfa_code"), owned(mfa_code)));
        }
        let ghost after_code = pair_views(r@);
        if !self.challenge_id.as_str().is_empty() && with_code {
            r.push((owned("challenge_id"), self.challenge_id.clone()));
        }
        let ghost after_challenge = pair_views(r@);
        if !self.verification_id.as_str().is_empty() && with_code {
            r.push((owned("verification_id"), self.verification_id.clone()));
        }
        assert(pair_views(r@) =~= login_fields(
            self.device_token@,
            username@,
            password@,
            mfa_code@,
            self.challenge_id@,
            self.verification_id@,
        ));
        r
    }

    /// Reads the token endpoint's reply, in this order: a pending
    /// verification workflow; a legacy MFA challenge; an MFA demand; a
    /// granted token; else a refusal.
    pub fn read_reply(&mut self, reply: &LoginReply) -> (step: LoginStep)
        ensures
            pending_workflow(*reply) matches Some(id) ==> (step matches LoginStep::Verify(w) && w@
                == id && final(self)@ == (LoginMemo { verification_id: id, ..old(self)@ })),
            pending_workflow(*reply) is None ==> (reply.challenge matches Some(c) ==> (
            step matches LoginStep::Stop(AppError::MfaRequired(k)) && k@ == text_or_empty(c.kind)
                && final(self)@ == (LoginMemo {
                challenge_id: text_or_empty(c.id),
                mfa_required: true,
                mfa_type: text_or_empty(c.kind),
                ..old(self)@
            }))),
            pending_workflow(*reply) is None && reply.challenge is None && reply.mfa_required
                == Some(true) ==> ({
                let kind = match reply.mfa_type {
                    Some(t) => t@,
                    None => old(self).mfa_type@,
                };
                &&& step matches LoginStep::Stop(AppError::MfaRequired(k)) && k@ == kind
                &&& final(self)@ == (LoginMemo { mfa_required: true, mfa_type: kind, ..old(self)@ })
            }),
            pending_workflow(*reply) is None && reply.challenge is None && reply.mfa_required
                != Some(true) ==> (granted_token(*reply) matches Some(t) ==> (
            step matches LoginStep::Tokens { access_token, token_type, refresh_token }
                && access_token@ == t && token_type == reply.token_type && refresh_token
                == reply.refresh_token && final(self)@ == settled(old(self)@))),
            pending_workflow(*reply) is None && reply.challenge is None && reply.mfa_required
                != Some(true) && granted_token(*reply) is None ==> (
            step matches LoginStep::Stop(AppError::AuthFailed(m)) && m@ == refusal_text(*reply)
                && final(self)@ == old(self)@),
    {
        match &reply.workflow {
            Some(w) => {
                let approved = match &w.status {
                    Some(s) => str_eq(s.as_str(), "workflow_status_approved"),
                    None => {
                        proof {
                            reveal_strlit("workflow_status_approved");
                        }
                        assert("workflow_status_approved"@.len() > 0);
                        false
                    },
                };
                if !approved {
                    match &w.id {
                        Some(id) => {
                            if !id.as_str().is_empty() {
                                assert(text_or_empty(w.status) != "workflow_status_approved"@);
                                assert(pending_workflow(*reply) == Some(id@));
                                self.verification_id = id.clone();
                                return LoginStep::Verify(id.clone());
                            }
                        },
                        None => {},
                    }
                }
            },
            None => {},
        }
        match &reply.challenge {
            Some(c) => {
                let id = match &c.id {
                    Some(i) => i.clone(),
                    None => String::new(),
                };
                let kind = match &c.kind {
                    Some(k) => k.clone(),
                    None => String::new(),
                };
                self.challenge_id = id;
                self.mfa_required = true;
                self.mfa_type = kind.clone();
                return LoginStep::Stop(AppError::MfaRequired(kind));
            },
            None => {},
        }
        if reply.mfa_required == Some(true) {
            self.mfa_required = true;
            match &reply.mfa_type {
                Some(t) => self.mfa_type = t.clone(),
                None => {},
            }
            return LoginStep::Stop(AppError::MfaRequired(self.mfa_type.clone()));
        }
        match &reply.access_token {
            Some(t) => {
                if !t.as_str().is_empty() {
                    self.mfa_required = false;
                    self.challenge_id = String::new();
                    self.verification_id = String::new();
                    self.machine_id = String::new();
                    self.sheriff_challenge_id = String::new();
                    self.pending_username = String::new();
                    self.pending_password = String::new();
                    return LoginStep::Tokens {
                        access_token: t.clone(),
                        token_type: reply.token_type.clone(),
                        refresh_token: reply.refresh_token.clone(),
                    };
                }
            },
            None => {},
        }
        let mut m = owned("login failed: ");
        match &reply.detail {
            Some(d) => m.append(d.as_str()),
            None => match &reply.error {
                Some(e) => {
                    m.append(e.as_str());
                    m.append(" - ");
                    match &reply.error_description {
                        Some(d) => m.append(d.as_str()),
                        None => {},
                    }
                },
                None => {
                    m.append("unexpected response: ");
                    m.append(reply.body.as_str());
                },
            },
        }
        proof {
            reveal_strlit("login failed: ");
            reveal_strlit("unexpected response: ");
            reveal_strlit("login failed: unexpected response: ");
        }
        assert(m@ =~= refusal_text(*reply));
        LoginStep::Stop(AppError::AuthFailed(m))
    }

    /// Takes the outcome of the verification workflow: approved on the app
    /// means logged in; a code sent means MFA is now pending with that
    /// kind; a failure stops the login.
    pub fn after_workflow(&mut self, outcome: Result<String, AppError>) -> (r: Result<(), AppError>)
        ensures
            outcome matches Err(e) ==> (r matches Err(AppError::AuthFailed(m)) && m@
                == "verification workflow failed: "@ + error_text(e) && final(self)@ == old(self)@),
            outcome matches Ok(k) ==> (if k@ == "prompt_approved"@ {
                r is Ok && final(self)@ == old(self)@
            } else {
                r matches Err(AppError::MfaRequired(t)) && t@ == k@ && final(self)@ == (LoginMemo {
                    mfa_required: true,
                    mfa_type: k@,
                    ..old(self)@
                })
            }),
    {
        match outcome {
            Err(e) => {
                let mut m = owned("verification workflow failed: ");
                m.append(e.to_string().as_str());
                Err(AppError::AuthFailed(m))
            },
            Ok(k) => {
                if str_eq(k.as_str(), "prompt_approved") {
                    Ok(())
                } else {
                    self.mfa_required = true;
                    self.mfa_type = k.clone();
                    Err(AppError::MfaRequired(k))
                }
            },
        }
    }

    /// Reads one look at the verification challenge: an issued app prompt
    /// is waited on; an issued text or e-mail code, or a challenge already
    /// validated, ends the wait with its kind; the challenge's id is kept in
    /// those cases; anything else means look again.
    pub fn read_challenge(&mut self, kind: &str, status: &str, id: &str) -> (r: ChallengeStep)
        ensures
            kind@ == "prompt"@ && status@ == "issued"@ ==> (r matches ChallengeStep::AwaitPrompt(c)
                && c@ == id@ && final(self)@ == (LoginMemo {
                sheriff_challenge_id: id@,
                ..old(self)@
            })),
            !(kind@ == "prompt"@ && status@ == "issued"@) && (((kind@ == "sms"@ || kind@
                == "email"@) && status@ == "issued"@) || status@ == "validated"@) ==> (
            r matches ChallengeStep::Issued(k) && k@ == kind@ && final(self)@ == (LoginMemo {
                sheriff_challenge_id: id@,
                ..old(self)@
            })),
            !(kind@ == "prompt"@ && status@ == "issued"@) && !(((kind@ == "sms"@ || kind@
                == "email"@) && status@ == "issued"@) || status@ == "validated"@) ==> (
            r is KeepPolling && final(self)@ == old(self)@),
    {
        let issued = str_eq(status, "issued");
        if str_eq(kind, "prompt") && issued {
            self.sheriff_challenge_id = owned(id);
            return ChallengeStep::AwaitPrompt(owned(id));
        }
        if ((str_eq(kind, "sms") || str_eq(kind, "email")) && issued) || str_eq(status, "validated") {
            self.sheriff_challenge_id = owned(id);
            return ChallengeStep::Issued(owned(kind));
        }
        ChallengeStep::KeepPolling
    }

    /// Ends the verification so that the login can be tried again: MFA is
    /// no longer pending and the verification ids are forgotten; gives back
    /// the credentials kept for the retry.
    pub fn finish_verification(&mut self) -> (r: (String, String))
        ensures
            r.0@ == old(self).pending_username@,
            r.1@ == old(self).pending_password@,
            final(self)@ == (LoginMemo {
                mfa_required: false,
                sheriff_challenge_id: Seq::empty(),
                machine_id: Seq::empty(),
                verification_id: Seq::empty(),
                ..old(self)@
            }),
    {
        self.mfa_required = false;
        self.sheriff_challenge_id = String::new();
        self.machine_id = String::new();
        self.verification_id = String::new();
        (self.pending_username.clone(), self.pending_password.clone())
    }

    /// Keeps the verification machine the workflow created; an empty id is
    /// an error.
    pub fn keep_machine(&mut self, machine_id: &str) -> (r: Result<(), AppError>)
        ensures
            machine_id@.len() == 0 ==> (r matches Err(AppError::AuthFailed(m)) && m@
                == "no machine ID returned from pathfinder"@ && final(self)@ == old(self)@),
            machine_id@.len() > 0 ==> (r is Ok && final(self)@ == (LoginMemo {
                machine_id: machine_id@,
                ..old(self)@
            })),
    {
        if machine_id.is_empty() {
            return Err(AppError::AuthFailed(owned("no machine ID returned from pathfinder")));
        }
        self.machine_id = owned(machine_id);
        Ok(())
    }
}

/// Whether an answer to the verification's confirmation says the workflow
/// is approved, in its type context or in its workflow status.
pub fn workflow_approved(context_result: &Option<String>, workflow_status: &Option<String>) -> (r:
    bool)
    ensures
        r == ((context_result matches Some(c) && c@ == "workflow_status_approved"@) || (
        workflow_status matches Some(w) && w@ == "workflow_status_approved"@)),
{
    let by_context = match context_result {
        Some(c) => str_eq(c.as_str(), "workflow_status_approved"),
        None => false,
    };
    let by_status = match workflow_status {
        Some(w) => str_eq(w.as_str(), "workflow_status_approved"),
        None => false,
    };
    by_context || by_status
}

/// Whether the answer to a verification code accepted it: its status must
/// be `validated`.
pub fn check_code_answer(status: &str) -> (r: Result<(), AppError>)
    ensures
        status@ == "validated"@ ==> r is Ok,
        status@ != "validated"@ ==> (r matches Err(AppError::AuthFailed(m)) && m@
            == "verification code rejected (status: "@ + status@ + ")"@),
{
    if str_eq(status, "validated") {
        return Ok(());
    }
    let mut m = owned("verification code rejected (status: ");
    m.append(status);
    m.append(")");
    Err(AppError::AuthFailed(m))
}

/// A token endpoint reply must have a body.
pub fn check_reply_body(body_len: usize, status: u16) -> (r: Result<(), AppError>)
    ensures
        body_len > 0 ==> r is Ok,
        body_len == 0 ==> (r matches Err(AppError::ApiError(m)) && m@
            == "empty response from Robinhood API (status "@ + decimal(status as nat) + ")"@),
{
    if body_len > 0 {
        return Ok(());
    }
    let mut m = owned("empty response from Robinhood API (status ");
    m.append(decimal_string(status as u64).as_str());
    m.append(")");
    Err(AppError::ApiError(m))
}

/// How many looks at the verification inquiry a login waits for a
/// challenge.
pub const INQUIRY_POLLS: u32 = 12;

/// How many looks at an app prompt a login waits for its approval.
pub const PROMPT_POLLS: u32 = 24;

/// How many times a login asks the workflow to continue before going on.
pub const CONFIRM_TRIES: u32 = 5;

/// One look at the verification inquiry.
pub enum InquiryReply {
    /// The look failed.
    Failed(AppError),
    /// The inquiry holds no challenge yet.
    NoChallenge,
    /// The challenge: its type, status and id, each empty when absent.
    Challenge { kind: String, status: String, id: String },
}

/// What follows one look at the verification inquiry.
pub enum InquiryStep {
    /// Look again.
    Wait,
    /// Wait for the user to approve the app prompt with this challenge id.
    AwaitPrompt(String),
    /// The workflow ends: with the kind of code that was sent, or an error.
    Finish(Result<String, AppError>),
}

/// What follows one look at an app prompt.
pub enum PromptStep {
    /// The user approved.
    Approved,
    /// Look again.
    Wait,
    /// The wait ends with this error.
    Stop(AppError),
}

/// Whether a challenge is an app prompt that has been issued.
pub open spec fn prompt_issued(kind: Seq<char>, status: Seq<char>) -> bool {
    kind == "prompt"@ && status == "issued"@
}

/// Whether a challenge, not an issued prompt, is a code that was sent, or
/// one already validated.
pub open spec fn code_issued(kind: Seq<char>, status: Seq<char>) -> bool {
    !prompt_issued(kind, status) && (((kind == "sms"@ || kind == "email"@) && status == "issued"@)
        || status == "validated"@)
}

/// Whether a look at the inquiry ends the wait for a challenge.
pub open spec fn challenge_found(reply: InquiryReply) -> bool {
    match reply {
        InquiryReply::Challenge { kind, status, id } => prompt_issued(kind@, status@) || code_issued(
            kind@,
            status@,
        ),
        _ => false,
    }
}

impl RobinhoodLogin {
    /// Takes the `polls_done`-th look at the verification inquiry: an issued
    /// prompt is waited on, and a sent or validated code ends the workflow
    /// with its kind, the challenge's id being kept in both cases; anything
    /// else (a failed look, no challenge, a challenge not yet usable) means
    /// look again, until the twelfth look, after which the workflow times
    /// out.
    pub fn after_inquiry(&mut self, polls_done: u32, reply: &InquiryReply) -> (r: InquiryStep)
        requires
            1 <= polls_done <= INQUIRY_POLLS,
        ensures
            reply matches InquiryReply::Challenge { kind, status, id } ==> (prompt_issued(
                kind@,
                status@,
            ) ==> (r matches InquiryStep::AwaitPrompt(c) && c@ == id@ && final(self)@ == (
            LoginMemo { sheriff_challenge_id: id@, ..old(self)@ }))),
            reply matches InquiryReply::Challenge { kind, status, id } ==> (code_issued(
                kind@,
                status@,
            ) ==> (r matches InquiryStep::Finish(Ok(k)) && k@ == kind@ && final(self)@ == (
            LoginMemo { sheriff_challenge_id: id@, ..old(self)@ }))),
            !challenge_found(*reply) && polls_done < INQUIRY_POLLS ==> (r is Wait && final(self)@
                == old(self)@),
            !challenge_found(*reply) && polls_done == INQUIRY_POLLS ==> (r matches InquiryStep::Finish(
                Err(AppError::AuthFailed(m)),
            ) && m@ == "timed out waiting for verification challenge"@ && final(self)@
                == old(self)@),
    {
        match reply {
            InquiryReply::Challenge { kind, status, id } => {
                match self.read_challenge(kind.as_str(), status.as_str(), id.as_str()) {
                    ChallengeStep::AwaitPrompt(c) => {
                        return InquiryStep::AwaitPrompt(c);
                    },
                    ChallengeStep::Issued(k) => {
                        return InquiryStep::Finish(Ok(k));
                    },
                    ChallengeStep::KeepPolling => {},
                }
            },
            _ => {},
        }
        if polls_done < INQUIRY_POLLS {
            InquiryStep::Wait
        } else {
            InquiryStep::Finish(
                Err(AppError::AuthFailed(owned("timed out waiting for verification challenge"))),
            )
        }
    }
}

/// Takes the `polls_done`-th look at an app prompt, with the status it
/// read (none when the look failed): `validated` means approved; anything
/// else means look again, until the twenty-fourth look, after which the
/// wait fails.
pub fn after_prompt_poll(polls_done: u32, status: &Option<String>) -> (r: PromptStep)
    requires
        1 <= polls_done <= PROMPT_POLLS,
    ensures
        (status matches Some(t) && t@ == "validated"@) ==> r is Approved,
        !(status matches Some(t) && t@ == "validated"@) && polls_done < PROMPT_POLLS ==> r is Wait,
        !(status matches Some(t) && t@ == "validated"@) && polls_done == PROMPT_POLLS ==> (
        r matches PromptStep::Stop(AppError::AuthFailed(m)) && m@ == "prompt approval failed: "@
            + "Authentication failed: "@ + "timed out waiting for Robinhood app approval"@),
{
    let approved = match status {
        Some(t) => str_eq(t.as_str(), "validated"),
        None => false,
    };
    if approved {
        return PromptStep::Approved;
    }
    if polls_done < PROMPT_POLLS {
        return PromptStep::Wait;
    }
    let mut m = owned("prompt approval failed: ");
    m.append("Authentication failed: ");
    m.append("timed out waiting for Robinhood app approval");
    PromptStep::Stop(AppError::AuthFailed(m))
}

/// What the workflow gives back once the login tried again after an app
/// approval: `prompt_approved`, or the failure of that login.
pub fn after_prompt_login(outcome: Result<(), AppError>) -> (r: Result<String, AppError>)
    ensures
        outcome is Ok ==> (r matches Ok(k) && k@ == "prompt_approved"@),
        outcome matches Err(e) ==> (r matches Err(AppError::AuthFailed(m)) && m@
            == "post-prompt login failed: "@ + error_text(e)),
{
    match outcome {
        Ok(()) => Ok(owned("prompt_approved")),
        Err(e) => {
            let mut m = owned("post-prompt login failed: ");
            m.append(e.to_string().as_str());
            Err(AppError::AuthFailed(m))
        },
    }
}

/// Whether to ask the workflow to continue once more after `tries_done`
/// tries: only while it has not approved and fewer than five tries were
/// made.
pub fn keep_confirming(tries_done: u32, approved: bool) -> (r: bool)
    ensures
        r == (!approved && tries_done < CONFIRM_TRIES),
{
    !approved && tries_done < CONFIRM_TRIES
}

} // verus!
