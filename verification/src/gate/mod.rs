//! Execution gates: the checks that stand before a tool call.
//!
//! A gate allows a call, pauses it until input from outside resolves it, or denies
//! it. There is no fourth answer, so a gate that fails to decide cannot let a call
//! through.

use vstd::prelude::*;

use crate::json::{field_of, fields, json_str, lemma_object_view, one_field, Json, JsonView};
use crate::text::{clone_opt, opt_text, str_eq};
use crate::types::capability::ActionDef;
use crate::types::ids::ThreadId;

pub mod lease;
pub mod pipeline;
pub mod tool_tier;

verus! {

/// The outcome of evaluating an execution gate.
#[derive(Debug, PartialEq, Eq)]
pub enum GateDecision {
    /// Execution may proceed.
    Allow,
    /// Execution must pause until the user provides input.
    Pause { reason: String, resume_kind: ResumeKind },
    /// Execution is denied outright.
    Deny { reason: String },
}

/// What kind of input from outside resolves a paused gate.
#[derive(Debug, PartialEq, Eq)]
pub enum ResumeKind {
    /// The user must approve or deny the tool call.
    Approval {
        /// Whether "always approve this tool" is offered.
        allow_always: bool,
    },
    /// The user must provide a credential.
    Authentication {
        /// The name of the credential that is missing.
        credential_name: String,
        /// Setup instructions for the user.
        instructions: String,
        /// Where a browser-based flow starts.
        auth_url: Option<String>,
    },
    /// An external system must respond.
    External { callback_id: String },
}

/// What a resume kind holds.
pub enum ResumeView {
    Approval(bool),
    Authentication(Seq<char>, Seq<char>, Option<Seq<char>>),
    External(Seq<char>),
}

impl View for ResumeKind {
    type V = ResumeView;

    open spec fn view(&self) -> ResumeView {
        match self {
            ResumeKind::Approval { allow_always } => ResumeView::Approval(*allow_always),
            ResumeKind::Authentication { credential_name, instructions, auth_url } =>
                ResumeView::Authentication(credential_name@, instructions@, opt_text(*auth_url)),
            ResumeKind::External { callback_id } => ResumeView::External(callback_id@),
        }
    }
}

/// What a gate decision holds.
pub enum DecisionView {
    Allow,
    Pause(Seq<char>, ResumeView),
    Deny(Seq<char>),
}

impl View for GateDecision {
    type V = DecisionView;

    open spec fn view(&self) -> DecisionView {
        match self {
            GateDecision::Allow => DecisionView::Allow,
            GateDecision::Pause { reason, resume_kind } => DecisionView::Pause(
                reason@,
                resume_kind@,
            ),
            GateDecision::Deny { reason } => DecisionView::Deny(reason@),
        }
    }
}

impl Clone for ResumeKind {
    fn clone(&self) -> (r: ResumeKind)
        ensures
            r@ == self@,
    {
        match self {
            ResumeKind::Approval { allow_always } => ResumeKind::Approval {
                allow_always: *allow_always,
            },
            ResumeKind::Authentication { credential_name, instructions, auth_url } =>
                ResumeKind::Authentication {
                credential_name: credential_name.clone(),
                instructions: instructions.clone(),
                auth_url: clone_opt(auth_url),
            },
            ResumeKind::External { callback_id } => ResumeKind::External {
                callback_id: callback_id.clone(),
            },
        }
    }
}

/// The short label of a resume kind.
pub open spec fn kind_label(k: ResumeView) -> Seq<char> {
    match k {
        ResumeView::Approval(_) => "approval"@,
        ResumeView::Authentication(_, _, _) => "authentication"@,
        ResumeView::External(_) => "external confirmation"@,
    }
}

/// An optional text as JSON.
pub open spec fn opt_json(o: Option<Seq<char>>) -> JsonView {
    match o {
        Some(s) => JsonView::Str(s),
        None => JsonView::Null,
    }
}

/// A resume kind as JSON: an object with the variant's name over its fields.
pub open spec fn resume_json(k: ResumeView) -> JsonView {
    match k {
        ResumeView::Approval(b) => JsonView::Object(
            seq![
                (
                    "Approval"@,
                    JsonView::Object(seq![("allow_always"@, JsonView::Bool(b))]),
                ),
            ],
        ),
        ResumeView::Authentication(name, instructions, url) => JsonView::Object(
            seq![
                (
                    "Authentication"@,
                    JsonView::Object(
                        seq![
                            ("auth_url"@, opt_json(url)),
                            ("credential_name"@, JsonView::Str(name)),
                            ("instructions"@, JsonView::Str(instructions)),
                        ],
                    ),
                ),
            ],
        ),
        ResumeView::External(id) => JsonView::Object(
            seq![("External"@, JsonView::Object(seq![("callback_id"@, JsonView::Str(id))]))],
        ),
    }
}

/// The text of a field that may be absent or null; `None` where it is neither
/// that nor a string.
pub open spec fn opt_field(f: Seq<(Seq<char>, JsonView)>, key: Seq<char>) -> Option<
    Option<Seq<char>>,
> {
    match field_of(f, key) {
        None => Some(None),
        Some(JsonView::Null) => Some(None),
        Some(JsonView::Str(s)) => Some(Some(s)),
        Some(_) => None,
    }
}

/// The resume kind that a JSON value writes.
pub open spec fn resume_of(j: JsonView) -> Option<ResumeView> {
    match j {
        JsonView::Object(outer) if outer.len() == 1 => match outer[0].1 {
            JsonView::Object(f) => if outer[0].0 == "Approval"@ {
                match field_of(f, "allow_always"@) {
                    Some(JsonView::Bool(b)) => Some(ResumeView::Approval(b)),
                    _ => None,
                }
            } else if outer[0].0 == "Authentication"@ {
                match (
                    field_of(f, "credential_name"@),
                    field_of(f, "instructions"@),
                    opt_field(f, "auth_url"@),
                ) {
                    (Some(JsonView::Str(n)), Some(JsonView::Str(i)), Some(u)) => Some(
                        ResumeView::Authentication(n, i, u),
                    ),
                    _ => None,
                }
            } else if outer[0].0 == "External"@ {
                match field_of(f, "callback_id"@) {
                    Some(JsonView::Str(s)) => Some(ResumeView::External(s)),
                    _ => None,
                }
            } else {
                None
            },
            _ => None,
        },
        _ => None,
    }
}

/// A resume kind that was written as JSON is read back as it was.
pub proof fn resume_json_reads_back(k: ResumeView)
    ensures
        resume_of(resume_json(k)) == Some(k),
{
    reveal_with_fuel(field_of, 4);
    reveal_strlit("Approval");
    reveal_strlit("Authentication");
    reveal_strlit("External");
    reveal_strlit("allow_always");
    reveal_strlit("auth_url");
    reveal_strlit("credential_name");
    reveal_strlit("instructions");
    reveal_strlit("callback_id");
    assert("Approval"@.len() != "Authentication"@.len());
    assert("Approval"@[0] != "External"@[0]);
    assert("Authentication"@.len() != "External"@.len());
    assert("auth_url"@.len() != "credential_name"@.len());
    assert("auth_url"@.len() != "instructions"@.len());
    assert("credential_name"@.len() != "instructions"@.len());
    match k {
        ResumeView::Authentication(n, i, u) => {
            let f = resume_json(k)->Object_0[0].1->Object_0;
            assert(f.drop_first() =~= seq![
                ("credential_name"@, JsonView::Str(n)),
                ("instructions"@, JsonView::Str(i)),
            ]);
            assert(f.drop_first().drop_first() =~= seq![("instructions"@, JsonView::Str(i))]);
        },
        _ => {},
    }
}

impl ResumeKind {
    /// A short label for people.
    pub fn kind_name(&self) -> (r: &'static str)
        ensures
            r@ == kind_label(self@),
    {
        match self {
            ResumeKind::Approval { .. } => "approval",
            ResumeKind::Authentication { .. } => "authentication",
            ResumeKind::External { .. } => "external confirmation",
        }
    }

    /// The kind as JSON.
    pub fn to_json(&self) -> (r: Json)
        ensures
            r@ == resume_json(self@),
    {
        match self {
            ResumeKind::Approval { allow_always } => one_field(
                "Approval",
                one_field("allow_always", Json::Bool(*allow_always)),
            ),
            ResumeKind::Authentication { credential_name, instructions, auth_url } => {
                let url = match auth_url {
                    Some(u) => json_str(u.as_str()),
                    None => Json::Null,
                };
                let mut v: Vec<(String, Json)> = Vec::new();
                v.push(("auth_url".to_owned(), url));
                v.push(("credential_name".to_owned(), json_str(credential_name.as_str())));
                v.push(("instructions".to_owned(), json_str(instructions.as_str())));
                proof {
                    lemma_object_view(v);
                    assert(fields(v@) =~= resume_json(self@)->Object_0[0].1->Object_0);
                }
                one_field("Authentication", Json::Object(v))
            },
            ResumeKind::External { callback_id } => one_field(
                "External",
                one_field("callback_id", json_str(callback_id.as_str())),
            ),
        }
    }

    /// Reads a kind from JSON.
    pub fn from_json(j: &Json) -> (r: Option<ResumeKind>)
        ensures
            match r {
                Some(k) => resume_of(j@) == Some(k@),
                None => resume_of(j@) is None,
            },
    {
        match j {
            Json::Object(outer) => {
                proof {
                    lemma_object_view(*outer);
                }
                if outer.len() != 1 {
                    return None;
                }
                assert(j@->Object_0[0] == (outer@[0].0@, outer@[0].1@));
                let tag = outer[0].0.as_str();
                let body = &outer[0].1;
                match body {
                    Json::Object(_) => {},
                    _ => {
                        return None;
                    },
                }
                if str_eq(tag, "Approval") {
                    match body.bool_field("allow_always") {
                        Some(b) => Some(ResumeKind::Approval { allow_always: b }),
                        None => None,
                    }
                } else if str_eq(tag, "Authentication") {
                    let url = match body.get("auth_url") {
                        None => None,
                        Some(Json::Null) => None,
                        Some(Json::Str(s)) => Some(s.clone()),
                        Some(_) => {
                            return None;
                        },
                    };
                    match (body.str_field("credential_name"), body.str_field("instructions")) {
                        (Some(n), Some(i)) => Some(
                            ResumeKind::Authentication {
                                credential_name: n.to_owned(),
                                instructions: i.to_owned(),
                                auth_url: url,
                            },
                        ),
                        _ => None,
                    }
                } else if str_eq(tag, "External") {
                    match body.str_field("callback_id") {
                        Some(s) => Some(ResumeKind::External { callback_id: s.to_owned() }),
                        None => None,
                    }
                } else {
                    None
                }
            },
            _ => None,
        }
    }
}

/// How a paused gate is resolved by the user or an external system.
#[derive(Debug, PartialEq, Eq)]
pub enum GateResolution {
    /// The user approved the tool call.
    Approved { always: bool },
    /// The user denied the tool call.
    Denied { reason: Option<String> },
    /// The user provided a credential.
    CredentialProvided { token: String },
    /// The pending gate was cancelled.
    Cancelled,
    /// An external callback arrived.
    ExternalCallback { payload: Json },
}

/// The context in which a tool call is evaluated.
#[derive(Debug, Clone, Copy, PartialEq, Eq, Structural)]
pub enum ExecutionMode {
    /// A user can approve and authenticate.
    Interactive,
    /// As `Interactive`, and tools that need no approval of their own pass without
    /// prompting. Tools that always need it still pause; leases, rate limits,
    /// hooks, channel checks and authentication gates stay in force.
    InteractiveAutoApprove,
    /// A background job with no user: the leases determine what it can call.
    Autonomous,
    /// Execution in a container.
    Container,
}

/// Everything a gate needs to make a decision.
#[derive(Debug)]
pub struct GateContext<'a> {
    pub user_id: &'a str,
    pub thread_id: ThreadId,
    pub source_channel: &'a str,
    pub action_name: &'a str,
    pub call_id: &'a str,
    pub parameters: &'a Json,
    pub action_def: &'a ActionDef,
    pub execution_mode: ExecutionMode,
    /// The tools that the session has approved once and for all.
    pub auto_approved: &'a Vec<String>,
}

/// A resume kind is written under its name with all that it holds.
pub proof fn resume_kinds_are_written_whole(
    b: bool,
    name: Seq<char>,
    how: Seq<char>,
    url: Option<Seq<char>>,
)
    ensures
        resume_json(ResumeView::Approval(b)) matches JsonView::Object(o) && o.len() == 1 && o[0].0
            == "Approval"@ && (o[0].1 matches JsonView::Object(f) && f.contains(
            ("allow_always"@, JsonView::Bool(b)),
        )),
        resume_json(ResumeView::Authentication(name, how, url)) matches JsonView::Object(o)
            && o.len() == 1 && o[0].0 == "Authentication"@ && (o[0].1 matches JsonView::Object(f)
            && f.contains(("credential_name"@, JsonView::Str(name))) && f.contains(
            ("instructions"@, JsonView::Str(how)),
        ) && (url matches Some(u) ==> f.contains(("auth_url"@, JsonView::Str(u)))) && (url is None
            ==> f.contains(("auth_url"@, JsonView::Null)))),
        resume_json(ResumeView::External(name)) matches JsonView::Object(o) && o.len() == 1
            && o[0].0 == "External"@ && (o[0].1 matches JsonView::Object(f) && f.contains(
            ("callback_id"@, JsonView::Str(name)),
        )),
{
    let a = resume_json(ResumeView::Approval(b))->Object_0[0].1->Object_0;
    assert(a[0].0 == "allow_always"@);
    let c = resume_json(ResumeView::Authentication(name, how, url))->Object_0[0].1->Object_0;
    assert(c[0].0 == "auth_url"@ && c[1].0 == "credential_name"@ && c[2].0 == "instructions"@);
    let e = resume_json(ResumeView::External(name))->Object_0[0].1->Object_0;
    assert(e[0].0 == "callback_id"@);
}

/// The label of what resumes is its own.
pub proof fn resume_kinds_have_their_labels(
    b: bool,
    name: Seq<char>,
    how: Seq<char>,
    url: Option<Seq<char>>,
)
    ensures
        kind_label(ResumeView::Approval(b)) == "approval"@,
        kind_label(ResumeView::Authentication(name, how, url)) == "authentication"@,
        kind_label(ResumeView::External(name)) == "external confirmation"@,
{
}

} // verus!
