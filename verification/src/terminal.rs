//! Integrated terminals: which are open, under which ids, and what runs in them.
use vstd::prelude::*;

use crate::json::{Json, JsonModel, Members};
use crate::provider::sse::{lossy, lossy_text};
use crate::text::opt_view;

verus! {

/// The program that a terminal runs.
pub open spec fn shell_of(windows: bool, shell: Option<Seq<char>>) -> Seq<char> {
    if windows {
        "cmd.exe"@
    } else {
        match shell {
            Some(s) => s,
            None => "/bin/bash"@,
        }
    }
}

/// The program that a terminal runs.
pub fn default_shell(windows: bool, shell: Option<&str>) -> (r: String)
    ensures
        r@ == shell_of(windows, opt_view(shell)),
{
    if windows {
        return "cmd.exe".to_owned();
    }
    match shell {
        Some(s) => s.to_owned(),
        None => "/bin/bash".to_owned(),
    }
}

/// The ids of the open terminals.
#[derive(Debug)]
pub struct Terminals {
    open: Vec<u64>,
    last: u64,
}

/// The model of [`Terminals`].
#[verifier::ext_equal]
pub struct TerminalsModel {
    pub open: Set<u64>,
    pub last: u64,
}

impl View for Terminals {
    type V = TerminalsModel;

    closed spec fn view(&self) -> TerminalsModel {
        TerminalsModel { open: self.open@.to_set(), last: self.last }
    }
}

impl TerminalsModel {
    /// Ids are given out in order, so that no id is used twice.
    pub open spec fn wf(self) -> bool {
        forall|id: u64| self.open.contains(id) ==> 0 < id <= self.last
    }

    /// No terminal was opened yet.
    pub open spec fn fresh() -> TerminalsModel {
        TerminalsModel { open: Set::empty(), last: 0 }
    }

    /// The terminals after another was opened, under the next id.
    pub open spec fn opened(self) -> TerminalsModel {
        let id = (self.last + 1) as u64;
        TerminalsModel { open: self.open.insert(id), last: id }
    }

    /// The terminals after one was closed.
    pub open spec fn closed(self, id: u64) -> TerminalsModel {
        TerminalsModel { open: self.open.remove(id), ..self }
    }
}

impl Terminals {
    pub fn new() -> (r: Terminals)
        ensures
            r@ == TerminalsModel::fresh(),
            r@.wf(),
    {
        let r = Terminals { open: Vec::new(), last: 0 };
        assert(r@.open =~= Set::empty());
        r
    }

    /// The last id that was given out; zero before the first.
    pub fn last(&self) -> (r: u64)
        ensures
            r == self@.last,
    {
        self.last
    }

    /// A terminal is opened. Returns its id.
    pub fn term_open(&mut self) -> (r: u64)
        requires
            old(self)@.last < u64::MAX,
        ensures
            r == old(self)@.last + 1,
            final(self)@ == old(self)@.opened(),
            old(self)@.wf() ==> final(self)@.wf() && !old(self)@.open.contains(r),
    {
        let ghost before = self.open@;
        self.last = self.last + 1;
        self.open.push(self.last);
        let ghost after = self.open@;
        assert forall|id: u64| after.contains(id) <==> before.contains(id) || id == self.last by {
            if before.contains(id) {
                let k = choose|k: int| 0 <= k < before.len() && before[k] == id;
                assert(after[k] == id);
            }
            if id == self.last {
                assert(after[after.len() - 1] == id);
            }
        }
        assert(self@.open =~= before.to_set().insert(self.last));
        self.last
    }

    pub fn is_open(&self, id: u64) -> (r: bool)
        ensures
            r == self@.open.contains(id),
    {
        let mut i: usize = 0;
        while i < self.open.len()
            invariant
                i <= self.open@.len(),
                forall|k: int| 0 <= k < i ==> self.open@[k] != id,
            decreases self.open@.len() - i,
        {
            if self.open[i] == id {
                assert(self.open@.contains(id));
                return true;
            }
            i += 1;
        }
        assert(!self.open@.contains(id));
        false
    }

    /// A terminal is closed, by the user or because its shell has ended.
    pub fn term_close(&mut self, id: u64)
        ensures
            final(self)@ == old(self)@.closed(id),
            old(self)@.wf() ==> final(self)@.wf(),
    {
        let ghost all = self.open@;
        let mut kept: Vec<u64> = Vec::new();
        let mut i: usize = 0;
        while i < self.open.len()
            invariant
                all == self.open@,
                i <= all.len(),
                self@ == old(self)@,
                forall|n: u64|
                    kept@.contains(n) <==> n != id && exists|k: int| 0 <= k < i && all[k] == n,
            decreases all.len() - i,
        {
            let ghost before = kept@;
            let n: u64 = self.open[i];
            if n != id {
                kept.push(n);
                assert forall|m: u64| kept@.contains(m) <==> before.contains(m) || m == n by {
                    if before.contains(m) {
                        let k = choose|k: int| 0 <= k < before.len() && before[k] == m;
                        assert(kept@[k] == m);
                    }
                    if m == n {
                        assert(kept@[kept@.len() - 1] == m);
                    }
                }
            }
            assert forall|m: u64|
                kept@.contains(m) <==> m != id && exists|k: int| 0 <= k < i + 1 && all[k] == m by {
                if m == n {
                    assert(all[i as int] == m);
                }
                if m != id && exists|k: int| 0 <= k < i + 1 && all[k] == m {
                    let k = choose|k: int| 0 <= k < i + 1 && all[k] == m;
                    if k < i {
                        assert(before.contains(m));
                    }
                }
                if before.contains(m) {
                    let k = choose|k: int| 0 <= k < i && all[k] == m;
                    assert(all[k] == m);
                }
            }
            i += 1;
        }
        self.open = kept;
        assert(kept@.to_set() =~= all.to_set().remove(id));
    }
}

/// The payload of a `term-output` event.
pub open spec fn output_payload(id: u64, data: Seq<char>) -> JsonModel {
    JsonModel::Obj(map!["id"@ => JsonModel::Int(id as int), "data"@ => JsonModel::Str(data)])
}

/// The payload of a `term-exit` event.
pub open spec fn exit_payload(id: u64) -> JsonModel {
    JsonModel::Obj(map!["id"@ => JsonModel::Int(id as int)])
}

/// The payload of a `term-output` event, from the bytes that a terminal printed.
pub fn output_event(id: u64, bytes: &Vec<u8>) -> (r: Json)
    ensures
        r@ == output_payload(id, lossy_text(bytes@)),
{
    let mut m = Members::new();
    m.put("id", Json::UInt(id));
    m.put_text("data", lossy(bytes).as_str());
    m.done()
}

/// The payload of a `term-exit` event.
pub fn exit_event(id: u64) -> (r: Json)
    ensures
        r@ == exit_payload(id),
{
    let mut m = Members::new();
    m.put("id", Json::UInt(id));
    m.done()
}

} // verus!
