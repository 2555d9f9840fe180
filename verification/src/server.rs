//! The proxy server's decisions: bearer-token checks, the guard around each
//! request, and the storage choices it can be started with.
use vstd::prelude::*;
use crate::access::{apply_post_plan, after_post_plan, post_plan_for, verdict, AccessView, GuardEvaluation,
    PendingMutation, PostPlan, ProxyAccess, Verdict};
use crate::data::copy_string;
use crate::proxy::{ProxyRequest, ProxyResponse, ResultPayload};
use crate::text::{strip_prefix, trim, trimmed};

verus! {

/// The storage a proxy server serves.
#[derive(Clone, Debug, PartialEq, Eq)]
pub enum StorageCommand {
    /// In-memory storage (data resets on restart)
    Memory,
    /// File storage backend rooted at the given path
    File { path: String },
    /// redb single-file storage backend
    Redb { path: String },
    /// Git storage backend
    Git { path: String, remote: String, branch: String },
    /// MongoDB storage backend
    Mongo { conn_str: String, db_name: String },
}

/// Whether a request may pass the bearer-token check: preflight requests
/// always pass; others need an `Authorization` header that reads
/// `Bearer <token>`, with white space around the token ignored.
pub open spec fn bearer_passes(is_preflight: bool, authorization: Option<Seq<char>>, token: Seq<char>) -> bool {
    is_preflight || match authorization {
        Some(h) => "Bearer "@.is_prefix_of(h) && trimmed(h.skip(7)) == token,
        None => false,
    }
}

/// The bearer-token check. `authorization` is the header's value where it
/// is present and readable as text, `None` otherwise.
pub fn bearer_allows(is_preflight: bool, authorization: Option<&str>, token: &str) -> (ok: bool)
    ensures
        ok == bearer_passes(is_preflight, match authorization { Some(h) => Some(h@), None => None }, token@),
{
    if is_preflight {
        return true;
    }
    let value = match authorization {
        Some(value) => value,
        None => return false,
    };
    let provided = match strip_prefix(value, "Bearer ") {
        Some(rest) => trim(rest.as_str()),
        None => return false,
    };
    proof {
        reveal_strlit("Bearer ");
    }
    let expected = String::from_str(token);
    provided.eq(&expected)
}

/// What the server does next with a request.
#[derive(Debug)]
pub enum RequestStep {
    /// Answer at once, without reaching the store.
    Respond(ProxyResponse),
    /// Forward the request to the store; where `collect_removal` names a
    /// directory, list its subtree first and make `post_plan` a removal plan.
    Forward { post_plan: PostPlan, collect_removal: Option<String> },
}

/// The proxy server's guard state: the exposed subtree, if the server was
/// started with one.
#[derive(Debug)]
pub struct ServerState {
    access: Option<ProxyAccess>,
}

/// The step the server takes for `request`, given its subtree.
pub open spec fn step_matches(access: Option<AccessView>, request: ProxyRequest, step: RequestStep) -> bool {
    match access {
        None => step matches RequestStep::Forward { post_plan: PostPlan::Nothing, collect_removal: None },
        Some(a) => match verdict(a, request) {
            Verdict::ReturnRoot { root } => step matches RequestStep::Respond(
                ProxyResponse::Success(ResultPayload::Id(id)),
            ) && id@ == root,
            Verdict::Deny { message } => step matches RequestStep::Respond(ProxyResponse::Failure(m))
                && m@ == message,
            Verdict::Allow { collect } => step matches RequestStep::Forward { post_plan, collect_removal }
                && post_plan == post_plan_for(request) && match (collect, collect_removal) {
                (None, None) => true,
                (Some(c), Some(d)) => d@ == c,
                _ => false,
            },
        },
    }
}

impl ServerState {
    /// A server guarded by `access`, or unguarded.
    pub fn new(access: Option<ProxyAccess>) -> (s: ServerState)
        ensures
            s.access_view() == match access { Some(a) => Some(a@), None => None },
    {
        ServerState { access }
    }

    /// The exposed subtree, if any.
    pub closed spec fn access_view(&self) -> Option<AccessView> {
        match self.access {
            Some(a) => Some(a@),
            None => None,
        }
    }

    /// The first decision on a request: answer it here, or forward it.
    pub fn begin_request(&self, request: &ProxyRequest) -> (step: RequestStep)
        ensures
            step_matches(self.access_view(), *request, step),
    {
        match &self.access {
            None => RequestStep::Forward { post_plan: PostPlan::Nothing, collect_removal: None },
            Some(access) => {
                let post_plan = PostPlan::from_request(request);
                match access.evaluate(request) {
                    GuardEvaluation::ReturnRoot { root } => RequestStep::Respond(
                        ProxyResponse::Success(ResultPayload::Id(root)),
                    ),
                    GuardEvaluation::Deny { message } => RequestStep::Respond(ProxyResponse::Failure(message)),
                    GuardEvaluation::Allow { pending } => {
                        let collect_removal = match pending {
                            Some(PendingMutation::CollectRemoval { directory_id }) => Some(directory_id),
                            None => None,
                        };
                        RequestStep::Forward { post_plan, collect_removal }
                    },
                }
            },
        }
    }

    /// The last decision on a forwarded request: bring the subtree up to
    /// date with the store's answer.
    pub fn finish_request(&mut self, post_plan: PostPlan, response: &ProxyResponse)
        ensures
            final(self).access_view() == match old(self).access_view() {
                Some(a) => Some(after_post_plan(a, post_plan, *response)),
                None => None,
            },
    {
        match &mut self.access {
            Some(access) => apply_post_plan(access, post_plan, response),
            None => {},
        }
    }
}

} // verus!
