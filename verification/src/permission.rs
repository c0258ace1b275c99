//! Permission gate for tool execution.
//!
//! Read-only tools run freely. Mutating tools (write/shell) are checked against
//! the config allowlist, then delegated to an [`Approver`]: the CLI supplies an
//! interactive one; `--yes` supplies [`AlwaysAllow`]. This is the "no black box"
//! guarantee: nothing mutates the workspace without an explicit yes.
use vstd::prelude::*;

use crate::text::{has_prefix, same, starts_with, views};

verus! {

/// What the agent wants to do.
#[derive(Debug)]
pub struct ApprovalRequest {
    pub tool: String,
    pub mutating: bool,
    /// One-line human summary (e.g. the shell command or target path).
    pub summary: String,
}

/// The model of an [`ApprovalRequest`].
#[verifier::ext_equal]
pub struct ApprovalRequestModel {
    pub tool: Seq<char>,
    pub mutating: bool,
    pub summary: Seq<char>,
}

impl View for ApprovalRequest {
    type V = ApprovalRequestModel;

    open spec fn view(&self) -> ApprovalRequestModel {
        ApprovalRequestModel {
            tool: self.tool@,
            mutating: self.mutating,
            summary: self.summary@,
        }
    }
}

impl Clone for ApprovalRequest {
    fn clone(&self) -> (r: ApprovalRequest)
        ensures
            r@ == self@,
    {
        ApprovalRequest {
            tool: self.tool.clone(),
            mutating: self.mutating,
            summary: self.summary.clone(),
        }
    }
}

#[derive(Debug, Clone, Copy, PartialEq, Eq, Structural)]
pub enum Decision {
    Allow,
    Deny,
}

/// Asked to approve a mutating action not covered by the allowlist.
pub trait Approver: Send + Sync {
    /// `d` is a decision that the approver may come to on `req`: any, unless it says
    /// otherwise.
    open spec fn may(&self, req: ApprovalRequestModel, d: Decision) -> bool {
        true
    }

    fn approve(&self, req: &ApprovalRequest) -> (d: Decision)
        ensures
            self.may(req@, d),
    ;
}

/// Approves everything (used by `--yes`).
#[derive(Debug)]
pub struct AlwaysAllow;

impl Approver for AlwaysAllow {
    open spec fn may(&self, req: ApprovalRequestModel, d: Decision) -> bool {
        d == Decision::Allow
    }

    fn approve(&self, req: &ApprovalRequest) -> (d: Decision) {
        Decision::Allow
    }
}

/// Denies everything (safe default when no interactive terminal).
#[derive(Debug)]
pub struct AlwaysDeny;

impl Approver for AlwaysDeny {
    open spec fn may(&self, req: ApprovalRequestModel, d: Decision) -> bool {
        d == Decision::Deny
    }

    fn approve(&self, req: &ApprovalRequest) -> (d: Decision) {
        Decision::Deny
    }
}

/// An entry of the allowlist covers a request: it names the tool, or the summary
/// starts with it.
pub open spec fn covers(entry: Seq<char>, req: ApprovalRequestModel) -> bool {
    entry == req.tool || has_prefix(req.summary, entry)
}

/// A request that needs nobody's approval: it changes nothing, or the allowlist
/// covers it.
pub open spec fn free(allow: Seq<Seq<char>>, req: ApprovalRequestModel) -> bool {
    !req.mutating || exists|i: int| 0 <= i < allow.len() && covers(#[trigger] allow[i], req)
}

/// The decision on a request, given the approver's answer.
pub open spec fn settled(
    allow: Seq<Seq<char>>,
    req: ApprovalRequestModel,
    answer: Decision,
) -> Decision {
    if free(allow, req) {
        Decision::Allow
    } else {
        answer
    }
}

/// Combines the config allowlist with an interactive approver.
#[derive(Debug)]
pub struct PermissionGate<A: Approver> {
    allow: Vec<String>,
    approver: Box<A>,
}

impl<A: Approver> PermissionGate<A> {
    /// The allowlist.
    pub closed spec fn allowed(self) -> Seq<Seq<char>> {
        views(self.allow@)
    }

    /// Who is asked.
    pub closed spec fn asked(self) -> A {
        *self.approver
    }

    /// `d` is a decision that may be come to on `req`.
    pub open spec fn may(self, req: ApprovalRequestModel, d: Decision) -> bool {
        if free(self.allowed(), req) {
            d == Decision::Allow
        } else {
            self.asked().may(req, d)
        }
    }

    pub fn new(allow: Vec<String>, approver: Box<A>) -> (r: PermissionGate<A>)
        ensures
            r.allowed() == views(allow@),
            r.asked() == *approver,
    {
        PermissionGate { allow, approver }
    }

    /// Whether `req` may proceed without anybody being asked.
    pub fn passes(&self, req: &ApprovalRequest) -> (r: bool)
        ensures
            r == free(self.allowed(), req@),
    {
        if !req.mutating {
            return true;
        }
        let ghost all = views(self.allow@);
        let mut i: usize = 0;
        while i < self.allow.len()
            invariant
                all == views(self.allow@),
                i <= self.allow@.len(),
                req.mutating,
                forall|k: int| 0 <= k < i ==> !covers(#[trigger] all[k], req@),
            decreases self.allow@.len() - i,
        {
            let entry = self.allow[i].as_str();
            assert(all[i as int] == entry@);
            if same(entry, req.tool.as_str()) || starts_with(req.summary.as_str(), entry) {
                assert(covers(all[i as int], req@));
                return true;
            }
            i += 1;
        }
        false
    }

    /// The decision on `req`, given what the approver would answer.
    pub fn settle(&self, req: &ApprovalRequest, answer: Decision) -> (r: Decision)
        ensures
            r == settled(self.allowed(), req@, answer),
    {
        if self.passes(req) {
            Decision::Allow
        } else {
            answer
        }
    }

    /// Decide whether `req` may proceed. The approver is asked only where the
    /// allowlist does not cover it.
    pub fn check(&self, req: &ApprovalRequest) -> (r: Decision)
        ensures
            self.may(req@, r),
    {
        if self.passes(req) {
            Decision::Allow
        } else {
            self.approver.approve(req)
        }
    }
}

/// Reading is always free, whatever the allowlist.
pub proof fn law_reads_are_free(allow: Seq<Seq<char>>, req: ApprovalRequestModel, answer: Decision)
    requires
        !req.mutating,
    ensures
        settled(allow, req, answer) == Decision::Allow,
{
}

/// Nothing mutates without a yes: a mutating request that no entry of the allowlist
/// covers is allowed only if the approver says so.
pub proof fn law_explicit_yes(allow: Seq<Seq<char>>, req: ApprovalRequestModel, answer: Decision)
    requires
        req.mutating,
        settled(allow, req, answer) == Decision::Allow,
    ensures
        answer == Decision::Allow || exists|i: int|
            0 <= i < allow.len() && covers(#[trigger] allow[i], req),
{
}

/// A longer allowlist allows no less.
pub proof fn law_allowlist_grows(
    allow: Seq<Seq<char>>,
    more: Seq<Seq<char>>,
    req: ApprovalRequestModel,
)
    requires
        free(allow, req),
    ensures
        free(allow + more, req),
        free(more + allow, req),
{
    if req.mutating {
        let i = choose|i: int| 0 <= i < allow.len() && covers(#[trigger] allow[i], req);
        assert((allow + more)[i] == allow[i]);
        assert((more + allow)[more.len() + i] == allow[i]);
    }
}

} // verus!
