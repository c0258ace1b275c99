//! What may be done without asking, and what an answer means.
use vstd::prelude::*;

use crate::approver::{
    allow_after, clicked_choice, closed_question, decision_of, question_of, typed_choice, Choice,
    DeskModel, InteractiveModel,
};
use crate::permission::{
    free, settled, AlwaysAllow, AlwaysDeny, ApprovalRequestModel, Approver, Decision,
    PermissionGate,
};
use crate::text::{is_space, occurs_at};

verus! {

/// An entry of the allowlist frees the tool that it names, and every action whose summary
/// starts with it.
pub proof fn law_entry_frees(allow: Seq<Seq<char>>, req: ApprovalRequestModel, i: int, more: Seq<char>)
    requires
        0 <= i < allow.len(),
    ensures
        allow[i] == req.tool ==> free(allow, req),
        req.summary == allow[i] + more ==> free(allow, req),
{
    if req.summary == allow[i] + more {
        assert(req.summary.subrange(0, allow[i].len() as int) =~= allow[i]);
        assert(occurs_at(req.summary, allow[i], 0));
    }
    assert(crate::permission::covers(allow[i], req) ==> free(allow, req));
}

/// An entry frees nothing else: where no entry names the tool or starts the summary, a
/// change is allowed exactly if the answer says so.
pub proof fn law_nothing_else_is_free(
    allow: Seq<Seq<char>>,
    req: ApprovalRequestModel,
    answer: Decision,
)
    requires
        req.mutating,
        forall|i: int|
            0 <= i < allow.len() ==> #[trigger] allow[i] != req.tool && (allow[i].len()
                > req.summary.len() || req.summary.take(allow[i].len() as int) != allow[i]),
    ensures
        !free(allow, req),
        settled(allow, req, answer) == answer,
{
    assert forall|i: int| 0 <= i < allow.len() implies !crate::permission::covers(
        #[trigger] allow[i],
        req,
    ) by {
        if allow[i].len() <= req.summary.len() {
            assert(req.summary.subrange(0, allow[i].len() as int) =~= req.summary.take(
                allow[i].len() as int,
            ));
        }
    }
}

/// What is free is allowed, whatever would be answered.
pub proof fn law_free_is_allowed(allow: Seq<Seq<char>>, req: ApprovalRequestModel, answer: Decision)
    requires
        free(allow, req),
    ensures
        settled(allow, req, answer) == Decision::Allow,
{
}

/// The line says the letter, in blanks or without.
pub open spec fn says(line: Seq<char>, c: char, before: Seq<char>, after: Seq<char>) -> bool {
    &&& line == before + seq![c] + after
    &&& forall|i: int| 0 <= i < before.len() ==> is_space(#[trigger] before[i])
    &&& forall|i: int| 0 <= i < after.len() ==> is_space(#[trigger] after[i])
}

proof fn lemma_says(line: Seq<char>, c: char, before: Seq<char>, after: Seq<char>)
    requires
        says(line, c, before, after),
        !is_space(c),
    ensures
        crate::text::trim_of(line) == seq![c],
{
    crate::laws::text::law_trim(line);
    let t = crate::text::trim_of(line);
    let k = line.len() - crate::text::trim_start_of(line).len();
    let n = before.len() as int;
    assert(line[n] == c);
    if k > n {
        assert(is_space(line[n]));
    }
    if k + t.len() <= n {
        assert(is_space(line[n]));
    }
    if k < n {
        assert(t[0] == line[k]);
        assert(line[k] == before[k]);
    }
    if k + t.len() > n + 1 {
        let last = k + t.len() - 1;
        assert(t.last() == line[last]);
        assert(line[last] == after[last - n - 1]);
    }
    assert(t =~= seq![c]);
}

/// `y` allows once and `a` allows from then on, in either case and with blanks around them.
pub proof fn law_yes_is_typed(line: Seq<char>, c: char, before: Seq<char>, after: Seq<char>)
    requires
        says(line, c, before, after),
    ensures
        c == 'y' || c == 'Y' ==> typed_choice(Some(line)) == Choice::Once,
        c == 'a' || c == 'A' ==> typed_choice(Some(line)) == Choice::Always,
{
    reveal_strlit("y");
    reveal_strlit("Y");
    reveal_strlit("a");
    reveal_strlit("A");
    assert("y"@ =~= seq!['y'] && "Y"@ =~= seq!['Y']);
    assert("a"@ =~= seq!['a'] && "A"@ =~= seq!['A']);
    if c == 'y' || c == 'Y' || c == 'a' || c == 'A' {
        lemma_says(line, c, before, after);
        assert(seq![c][0] == c);
        assert(c == 'a' ==> seq![c] != "y"@ && seq![c] != "Y"@) by {
            assert("y"@[0] == 'y' && "Y"@[0] == 'Y');
        }
        assert(c == 'A' ==> seq![c] != "y"@ && seq![c] != "Y"@) by {
            assert("y"@[0] == 'y' && "Y"@[0] == 'Y');
        }
    }
}

/// Whatever else is typed, and nothing, is a no.
pub proof fn law_else_is_no(line: Seq<char>)
    ensures
        crate::text::trim_of(line).len() != 1 ==> typed_choice(Some(line)) == Choice::No,
        crate::text::trim_of(line).len() == 1 && !seq!['y', 'Y', 'a', 'A'].contains(
            crate::text::trim_of(line)[0],
        ) ==> typed_choice(Some(line)) == Choice::No,
        typed_choice(None) == Choice::No,
{
    reveal_strlit("y");
    reveal_strlit("Y");
    reveal_strlit("a");
    reveal_strlit("A");
    let known = seq!['y', 'Y', 'a', 'A'];
    assert(known[0] == 'y' && known[1] == 'Y' && known[2] == 'a' && known[3] == 'A');
}

/// In a window the first button allows once, the second from then on, and everything else is
/// a no.
pub proof fn law_buttons(n: u8)
    ensures
        clicked_choice(Some(1)) == Choice::Once,
        clicked_choice(Some(2)) == Choice::Always,
        n != 1 && n != 2 ==> clicked_choice(Some(n)) == Choice::No,
        clicked_choice(None) == Choice::No,
{
}

/// A choice decides, and only "always" is remembered, for the one tool.
pub proof fn law_choice_decides(
    allowed: Set<Seq<char>>,
    tool: Seq<char>,
    other: Seq<char>,
    c: Choice,
)
    ensures
        decision_of(c) == Decision::Allow <==> c != Choice::No,
        allow_after(allowed, tool, c).contains(other) <==> allowed.contains(other) || (other == tool
            && c == Choice::Always),
{
}

/// What is known is allowed without a question; else the answer decides.
pub proof fn law_answer_decides(a: InteractiveModel, tool: Seq<char>, line: Option<Seq<char>>)
    ensures
        a.auto || a.allowed.contains(tool) ==> a.approved(tool, line).0 == Decision::Allow,
        !a.auto && !a.allowed.contains(tool) ==> (a.approved(tool, line).0 == Decision::Allow
            <==> typed_choice(line) != Choice::No),
        a.approved(tool, line).1.auto == a.auto,
        !a.auto && !a.allowed.contains(tool) ==> (a.approved(tool, line).1.allowed.contains(tool)
            <==> typed_choice(line) == Choice::Always),
{
}

/// The question shows the tool and what it is about to do.
pub proof fn law_question_shows(req: ApprovalRequestModel)
    ensures
        question_of(req) == "\n  permission: "@ + req.tool + " → "@ + req.summary
            + "\n  allow? [y]es / [a]lways / [N]o: "@,
{
}

/// A question is opened under the next number, and the one after it goes to the next
/// question.
pub proof fn law_question_numbers(d: DeskModel)
    requires
        d.next_id < u64::MAX,
    ensures
        DeskModel::fresh().next_id == 1,
        DeskModel::fresh().pending.len() == 0,
        DeskModel::fresh().allowed == Set::<Seq<char>>::empty(),
        d.asked().pending == d.pending.push(d.next_id),
        d.asked().next_id == d.next_id + 1,
        d.asked().allowed == d.allowed,
{
}

/// The answer to a question closes that question alone; the decision in a window is that of
/// the button, and "always" is remembered for the one tool.
pub proof fn law_desk(d: DeskModel, id: u64, tool: Seq<char>, other: Seq<char>, n: Option<u8>)
    ensures
        !d.responded(id).pending.contains(id),
        forall|k: u64|
            k != id ==> (#[trigger] d.responded(id).pending.contains(k) <==> d.pending.contains(k)),
        d.responded(id).allowed == d.allowed,
        d.responded(id).next_id == d.next_id,
        d.decided(tool, n).0 == Decision::Allow <==> n == Some(1u8) || n == Some(2u8),
        d.decided(tool, n).1.allowed.contains(other) <==> d.allowed.contains(other) || (other
            == tool && n == Some(2u8)),
        d.decided(tool, n).1.pending == d.pending,
        d.decided(tool, n).1.next_id == d.next_id,
{
    lemma_closed_alone(d.pending, id);
}

proof fn lemma_closed_alone(s: Seq<u64>, id: u64)
    ensures
        !closed_question(s, id).contains(id),
        forall|n: u64|
            n != id ==> (#[trigger] closed_question(s, id).contains(n) <==> s.contains(n)),
    decreases s.len(),
{
    if s.len() > 0 {
        let t = s.drop_last();
        lemma_closed_alone(t, id);
        assert(s =~= t.push(s.last()));
        assert forall|n: u64| n != id implies (#[trigger] closed_question(s, id).contains(n)
            <==> s.contains(n)) by {
            lemma_pushed(t, s.last(), n);
            lemma_pushed(closed_question(t, id), s.last(), n);
        }
        lemma_pushed(closed_question(t, id), s.last(), id);
    }
}

proof fn lemma_pushed(s: Seq<u64>, x: u64, n: u64)
    ensures
        s.push(x).contains(n) <==> n == x || s.contains(n),
{
    let p = s.push(x);
    assert(p[s.len() as int] == x);
    if s.contains(n) {
        let k = choose|k: int| 0 <= k < s.len() && s[k] == n;
        assert(p[k] == n);
    }
    if p.contains(n) && n != x {
        let k = choose|k: int| 0 <= k < p.len() && p[k] == n;
        assert(s[k] == n);
    }
}

/// Whoever allows everything says yes to everything, and whoever denies everything no.
pub proof fn law_constant_approvers(
    yes: AlwaysAllow,
    no: AlwaysDeny,
    req: ApprovalRequestModel,
    d: Decision,
)
    ensures
        yes.may(req, d) <==> d == Decision::Allow,
        no.may(req, d) <==> d == Decision::Deny,
{
}

/// A gate lets through what is free, and else nothing that whoever is asked does not allow.
pub proof fn law_gate<A: Approver>(
    gate: PermissionGate<A>,
    req: ApprovalRequestModel,
    d: Decision,
)
    ensures
        free(gate.allowed(), req) ==> (gate.may(req, d) <==> d == Decision::Allow),
        !free(gate.allowed(), req) ==> (gate.may(req, d) <==> gate.asked().may(req, d)),
        !req.mutating ==> free(gate.allowed(), req),
{
}

} // verus!
