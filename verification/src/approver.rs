//! Asking the user: the approvers' memory and rules.
//!
//! On the command line, `y` allows once, `a` allows that tool for the rest of the
//! session, anything else denies. With `--yes` it allows everything. When there is
//! nobody to ask (EOF), it denies, as the safe default. In a window the same choices
//! are buttons, and each question has an id under which its answer comes back.
use vstd::prelude::*;

use crate::permission::{ApprovalRequest, ApprovalRequestModel, Decision};
use crate::text::{cat5, same, trim, trim_of, views};

verus! {

/// Tools that the user chose to allow for the rest of the session.
#[derive(Debug)]
pub struct SessionAllow {
    tools: Vec<String>,
}

impl View for SessionAllow {
    type V = Set<Seq<char>>;

    closed spec fn view(&self) -> Set<Seq<char>> {
        views(self.tools@).to_set()
    }
}

impl SessionAllow {
    pub fn new() -> (r: SessionAllow)
        ensures
            r@ == Set::<Seq<char>>::empty(),
    {
        let r = SessionAllow { tools: Vec::new() };
        assert(r@ =~= Set::empty());
        r
    }

    pub fn contains(&self, tool: &str) -> (r: bool)
        ensures
            r == self@.contains(tool@),
    {
        let ghost all = views(self.tools@);
        let mut i: usize = 0;
        while i < self.tools.len()
            invariant
                all == views(self.tools@),
                i <= self.tools@.len(),
                forall|k: int| 0 <= k < i ==> all[k] != tool@,
            decreases self.tools@.len() - i,
        {
            assert(all[i as int] == self.tools@[i as int]@);
            if same(self.tools[i].as_str(), tool) {
                assert(all.contains(tool@));
                return true;
            }
            i += 1;
        }
        assert(!all.contains(tool@));
        false
    }

    pub fn insert(&mut self, tool: &str)
        ensures
            final(self)@ == old(self)@.insert(tool@),
    {
        let ghost before = views(self.tools@);
        if !self.contains(tool) {
            self.tools.push(tool.to_owned());
            let ghost after = views(self.tools@);
            assert(after =~= before.push(tool@));
            assert forall|x: Seq<char>| after.contains(x) <==> before.contains(x) || x == tool@ by {
                if before.contains(x) {
                    let k = choose|k: int| 0 <= k < before.len() && before[k] == x;
                    assert(after[k] == x);
                }
                if x == tool@ {
                    assert(after[after.len() - 1] == x);
                }
            }
        }
        assert(self@ =~= old(self)@.insert(tool@));
    }
}

/// What the user answered.
#[derive(Debug, Clone, Copy, PartialEq, Eq, Structural)]
pub enum Choice {
    No,
    /// Allow this once.
    Once,
    /// Allow the tool for the rest of the session.
    Always,
}

/// The decision that a choice means.
pub open spec fn decision_of(c: Choice) -> Decision {
    match c {
        Choice::No => Decision::Deny,
        _ => Decision::Allow,
    }
}

/// The allowed tools after a choice on `tool`.
pub open spec fn allow_after(allowed: Set<Seq<char>>, tool: Seq<char>, c: Choice) -> Set<
    Seq<char>,
> {
    match c {
        Choice::Always => allowed.insert(tool),
        _ => allowed,
    }
}

/// What a typed line means; no line is a no.
pub open spec fn typed_choice(line: Option<Seq<char>>) -> Choice {
    match line {
        Some(s) => {
            let t = trim_of(s);
            if t == "y"@ || t == "Y"@ {
                Choice::Once
            } else if t == "a"@ || t == "A"@ {
                Choice::Always
            } else {
                Choice::No
            }
        },
        None => Choice::No,
    }
}

pub fn choice_typed(line: Option<&str>) -> (r: Choice)
    ensures
        r == typed_choice(
            match line {
                Some(s) => Some(s@),
                None => None,
            },
        ),
{
    match line {
        Some(s) => {
            let t = trim(s);
            if same(t.as_str(), "y") || same(t.as_str(), "Y") {
                Choice::Once
            } else if same(t.as_str(), "a") || same(t.as_str(), "A") {
                Choice::Always
            } else {
                Choice::No
            }
        },
        None => Choice::No,
    }
}

/// What a number from the window means: 1 allows once, 2 always. Anything else,
/// and a window that was closed, is a no.
pub open spec fn clicked_choice(n: Option<u8>) -> Choice {
    match n {
        Some(1) => Choice::Once,
        Some(2) => Choice::Always,
        _ => Choice::No,
    }
}

pub fn choice_clicked(n: Option<u8>) -> (r: Choice)
    ensures
        r == clicked_choice(n),
{
    match n {
        Some(1) => Choice::Once,
        Some(2) => Choice::Always,
        _ => Choice::No,
    }
}

fn settle(allowed: &mut SessionAllow, tool: &str, c: Choice) -> (r: Decision)
    ensures
        r == decision_of(c),
        final(allowed)@ == allow_after(old(allowed)@, tool@, c),
{
    match c {
        Choice::No => Decision::Deny,
        Choice::Once => Decision::Allow,
        Choice::Always => {
            allowed.insert(tool);
            Decision::Allow
        },
    }
}

/// Interactive permission approver for the CLI.
#[derive(Debug)]
pub struct InteractiveApprover {
    auto: bool,
    session_allow: SessionAllow,
}

/// The model of an [`InteractiveApprover`].
#[verifier::ext_equal]
pub struct InteractiveModel {
    /// Everything is allowed.
    pub auto: bool,
    pub allowed: Set<Seq<char>>,
}

impl View for InteractiveApprover {
    type V = InteractiveModel;

    closed spec fn view(&self) -> InteractiveModel {
        InteractiveModel { auto: self.auto, allowed: self.session_allow@ }
    }
}

impl InteractiveModel {
    /// No question has to be asked on the tool.
    pub open spec fn knows(self, tool: Seq<char>) -> bool {
        self.auto || self.allowed.contains(tool)
    }

    /// The decision on a request, and the approver behind it, if the user would type
    /// `line`.
    pub open spec fn approved(self, tool: Seq<char>, line: Option<Seq<char>>) -> (
        Decision,
        InteractiveModel,
    ) {
        if self.knows(tool) {
            (Decision::Allow, self)
        } else {
            let c = typed_choice(line);
            (
                decision_of(c),
                InteractiveModel { allowed: allow_after(self.allowed, tool, c), ..self },
            )
        }
    }
}

/// The question that is put to the user.
pub open spec fn question_of(req: ApprovalRequestModel) -> Seq<char> {
    "\n  permission: "@ + req.tool + " → "@ + req.summary
        + "\n  allow? [y]es / [a]lways / [N]o: "@
}

impl InteractiveApprover {
    pub fn new(auto: bool) -> (r: InteractiveApprover)
        ensures
            r@ == (InteractiveModel { auto, allowed: Set::empty() }),
    {
        InteractiveApprover { auto, session_allow: SessionAllow::new() }
    }

    /// Whether the request is allowed without a question.
    pub fn knows(&self, req: &ApprovalRequest) -> (r: bool)
        ensures
            r == self@.knows(req@.tool),
    {
        self.auto || self.session_allow.contains(req.tool.as_str())
    }

    /// The question that is put to the user.
    pub fn question(req: &ApprovalRequest) -> (r: String)
        ensures
            r@ == question_of(req@),
    {
        cat5(
            "\n  permission: ",
            req.tool.as_str(),
            " → ",
            req.summary.as_str(),
            "\n  allow? [y]es / [a]lways / [N]o: ",
        )
    }

    /// Decide on a request. `line` is what the user typed where a question was
    /// needed, and nothing at the end of the input.
    pub fn approve(&mut self, req: &ApprovalRequest, line: Option<&str>) -> (r: Decision)
        ensures
            (r, final(self)@) == old(self)@.approved(
                req@.tool,
                match line {
                    Some(s) => Some(s@),
                    None => None,
                },
            ),
    {
        if self.knows(req) {
            return Decision::Allow;
        }
        settle(&mut self.session_allow, req.tool.as_str(), choice_typed(line))
    }
}

/// Questions put to the user in a window, each under an id of its own.
#[derive(Debug)]
pub struct PermissionDesk {
    session_allow: SessionAllow,
    /// The questions that are still open.
    pending: Vec<u64>,
    next_id: u64,
}

/// The model of a [`PermissionDesk`].
#[verifier::ext_equal]
pub struct DeskModel {
    pub allowed: Set<Seq<char>>,
    pub pending: Seq<u64>,
    pub next_id: u64,
}

impl View for PermissionDesk {
    type V = DeskModel;

    closed spec fn view(&self) -> DeskModel {
        DeskModel {
            allowed: self.session_allow@,
            pending: self.pending@,
            next_id: self.next_id,
        }
    }
}

/// The open questions but for one.
pub open spec fn closed_question(s: Seq<u64>, id: u64) -> Seq<u64>
    decreases s.len(),
{
    if s.len() == 0 {
        s
    } else if s.last() == id {
        closed_question(s.drop_last(), id)
    } else {
        closed_question(s.drop_last(), id).push(s.last())
    }
}

impl DeskModel {
    pub open spec fn fresh() -> DeskModel {
        DeskModel { allowed: Set::empty(), pending: Seq::empty(), next_id: 1 }
    }

    /// Ids are given out in order: every open question has an earlier one.
    pub open spec fn in_order(self) -> bool {
        forall|i: int| 0 <= i < self.pending.len() ==> #[trigger] self.pending[i] < self.next_id
    }

    /// The desk after a question was put.
    pub open spec fn asked(self) -> DeskModel {
        DeskModel {
            pending: self.pending.push(self.next_id),
            next_id: (self.next_id + 1) as u64,
            ..self
        }
    }

    /// The desk after a question was answered.
    pub open spec fn responded(self, id: u64) -> DeskModel {
        DeskModel { pending: closed_question(self.pending, id), ..self }
    }

    /// The decision on a request for `tool`, and the desk behind it, from the number that
    /// came back.
    pub open spec fn decided(self, tool: Seq<char>, choice: Option<u8>) -> (Decision, DeskModel) {
        let c = clicked_choice(choice);
        (decision_of(c), DeskModel { allowed: allow_after(self.allowed, tool, c), ..self })
    }
}

impl PermissionDesk {
    pub fn new() -> (r: PermissionDesk)
        ensures
            r@ == DeskModel::fresh(),
            r@.in_order(),
    {
        PermissionDesk { session_allow: SessionAllow::new(), pending: Vec::new(), next_id: 1 }
    }

    /// Whether a tool is allowed without a question.
    pub fn knows(&self, tool: &str) -> (r: bool)
        ensures
            r == self@.allowed.contains(tool@),
    {
        self.session_allow.contains(tool)
    }

    /// The id that the next question gets.
    pub fn next_id(&self) -> (r: u64)
        ensures
            r == self@.next_id,
    {
        self.next_id
    }

    /// Open a question. Returns its id.
    pub fn ask(&mut self) -> (r: u64)
        requires
            old(self)@.next_id < u64::MAX,
        ensures
            r == old(self)@.next_id,
            final(self)@ == old(self)@.asked(),
            old(self)@.in_order() ==> !old(self)@.pending.contains(r) && final(self)@.in_order(),
    {
        let id: u64 = self.next_id;
        let ghost before = self@;
        self.pending.push(id);
        self.next_id = id + 1;
        proof {
            if before.in_order() {
                let now = self@;
                assert forall|i: int| 0 <= i < now.pending.len() implies #[trigger] now.pending[i]
                    < now.next_id by {
                    if i < before.pending.len() {
                        assert(now.pending[i] == before.pending[i]);
                    }
                }
            }
        }
        id
    }

    /// The user has answered a question. Returns whether it was open; the answer to
    /// any other goes nowhere.
    pub fn respond(&mut self, id: u64) -> (r: bool)
        ensures
            r == old(self)@.pending.contains(id),
            final(self)@ == old(self)@.responded(id),
            old(self)@.in_order() ==> final(self)@.in_order(),
    {
        let ghost all = self.pending@;
        let mut kept: Vec<u64> = Vec::new();
        let mut found = false;
        let mut i: usize = 0;
        assert(all.take(0) =~= Seq::empty());
        while i < self.pending.len()
            invariant
                all == self.pending@,
                self@ == old(self)@,
                i <= all.len(),
                kept@ == closed_question(all.take(i as int), id),
                found == exists|k: int| 0 <= k < i && all[k] == id,
            decreases all.len() - i,
        {
            assert(all.take(i + 1).drop_last() =~= all.take(i as int));
            if self.pending[i] == id {
                found = true;
                assert(all[i as int] == id);
            } else {
                kept.push(self.pending[i]);
            }
            i += 1;
        }
        assert(all.take(i as int) =~= all);
        self.pending = kept;
        proof {
            lemma_closed(all, id);
            assert forall|k: int| 0 <= k < kept@.len() implies all.contains(
                #[trigger] kept@[k],
            ) by {
                assert(kept@.contains(kept@[k]));
            }
        }
        found
    }

    /// Decide on a request for `tool`, from the number that came back for its
    /// question.
    pub fn settle(&mut self, tool: &str, choice: Option<u8>) -> (r: Decision)
        ensures
            (r, final(self)@) == old(self)@.decided(tool@, choice),
            old(self)@.in_order() ==> final(self)@.in_order(),
    {
        let d = settle(&mut self.session_allow, tool, choice_clicked(choice));
        assert(self@.pending == old(self)@.pending);
        d
    }
}

/// "Always" lasts: once a tool has been allowed for the session, no later request
/// for it is put to the user, and each is allowed whatever would be typed.
pub proof fn law_always_lasts(
    a: InteractiveModel,
    tool: Seq<char>,
    line: Seq<char>,
    other: Seq<char>,
    other_line: Option<Seq<char>>,
    later: Option<Seq<char>>,
)
    requires
        typed_choice(Some(line)) == Choice::Always,
    ensures
        ({
            let b = a.approved(tool, Some(line)).1;
            let c = b.approved(other, other_line).1;
            &&& b.knows(tool)
            &&& c.knows(tool)
            &&& c.approved(tool, later) == (Decision::Allow, c)
        }),
{
}

/// A yes for once, and a no, leave nothing behind: the next request is put to the
/// user again.
pub proof fn law_once_is_once(a: InteractiveModel, tool: Seq<char>, line: Option<Seq<char>>)
    requires
        typed_choice(line) != Choice::Always,
    ensures
        a.approved(tool, line).1 == a,
{
}

/// With nobody to ask, what is not allowed already is denied.
pub proof fn law_silence_denies(a: InteractiveModel, tool: Seq<char>)
    requires
        !a.knows(tool),
    ensures
        a.approved(tool, None).0 == Decision::Deny,
{
}

/// Allowing one tool for the session says nothing about another.
pub proof fn law_always_is_per_tool(
    a: InteractiveModel,
    tool: Seq<char>,
    line: Option<Seq<char>>,
    other: Seq<char>,
)
    requires
        other != tool,
    ensures
        a.approved(tool, line).1.knows(other) == a.knows(other),
{
}

/// A question gets an id that no open question has; an answered question is not open
/// any more, and all others stay open.
pub proof fn law_questions(d: DeskModel, id: u64)
    requires
        d.in_order(),
        d.next_id < u64::MAX,
    ensures
        !d.pending.contains(d.next_id),
        d.asked().pending.contains(d.next_id),
        d.asked().in_order(),
        !closed_question(d.pending, id).contains(id),
        forall|n: u64|
            n != id ==> (#[trigger] closed_question(d.pending, id).contains(n)
                <==> d.pending.contains(n)),
{
    assert(d.asked().pending[d.pending.len() as int] == d.next_id);
    lemma_closed(d.pending, id);
}

proof fn lemma_closed(s: Seq<u64>, id: u64)
    ensures
        !closed_question(s, id).contains(id),
        forall|n: u64|
            n != id ==> (#[trigger] closed_question(s, id).contains(n) <==> s.contains(n)),
    decreases s.len(),
{
    if s.len() > 0 {
        let t = s.drop_last();
        lemma_closed(t, id);
        let c = closed_question(t, id);
        let d = closed_question(s, id);
        assert forall|n: u64| n != id implies (#[trigger] d.contains(n) <==> s.contains(n)) by {
            if s.contains(n) {
                let k = choose|k: int| 0 <= k < s.len() && s[k] == n;
                if k < t.len() {
                    assert(t[k] == n);
                    assert(c.contains(n));
                    let j = choose|j: int| 0 <= j < c.len() && c[j] == n;
                    assert(d[j] == n);
                } else {
                    assert(d[d.len() - 1] == n);
                }
            }
            if d.contains(n) {
                let k = choose|k: int| 0 <= k < d.len() && d[k] == n;
                if k < c.len() {
                    assert(c[k] == n);
                    assert(c.contains(n));
                    let j = choose|j: int| 0 <= j < t.len() && t[j] == n;
                    assert(s[j] == n);
                } else {
                    assert(s[s.len() - 1] == n);
                }
            }
        }
        if d.contains(id) {
            let k = choose|k: int| 0 <= k < d.len() && d[k] == id;
            assert(k < c.len());
            assert(c[k] == id);
        }
    }
}

} // verus!
