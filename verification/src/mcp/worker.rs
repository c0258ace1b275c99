//! The worker behind the SSE transport.
//!
//! It reads the event stream line by line, learns the POST endpoint from the
//! `endpoint` event, posts commands once it knows where to, and hands each
//! response to the request it answers. It performs no I/O of its own: whoever
//! drives it feeds it bytes and commands, and carries out its actions in order.
use vstd::prelude::*;

use crate::error::{Error, ErrorModel};
use crate::json::{json_read, json_text, Json, JsonModel};
use crate::provider::sse::{lemma_newline_in, lossy, lossy_text, newline, newline_in};
use crate::provider::wire::{is_success, is_success_code};
use crate::text::{
    after_prefix, cat2, cat3, chars_of, find_in, has_prefix, lemma_find_from, opt_view, same,
    search_from, starts_with, strip_prefix, text_of, trim, trim_newlines, trim_newlines_of,
    trim_of, trim_start, trim_start_of, views,
};

verus! {

/// The length of what stands before the path, query and fragment of an address.
pub open spec fn authority_len(s: Seq<char>) -> int
    decreases s.len(),
{
    if s.len() == 0 || s[0] == '/' || s[0] == '?' || s[0] == '#' {
        0
    } else {
        1 + authority_len(s.skip(1))
    }
}

/// Origin (`scheme://host[:port]`) of a URL, for resolving relative endpoints.
pub open spec fn origin_of(url: Seq<char>) -> Seq<char> {
    match find_in(url, "://"@) {
        Some(i) => url.take(i + 3 + authority_len(url.skip(i + 3))),
        None => url,
    }
}

/// Origin (`scheme://host[:port]`) of a URL, for resolving relative endpoints.
pub fn origin(url: &str) -> (r: String)
    ensures
        r@ == origin_of(url@),
{
    let v = chars_of(url);
    let pat = chars_of("://");
    proof {
        reveal_strlit("://");
        lemma_find_from(v@, pat@, 0);
    }
    match search_from(&v, &pat, 0) {
        Some(i) => {
            assert(i + 3 <= v.len());
            let mut end: usize = i + 3;
            while end < v.len() && v[end] != '/' && v[end] != '?' && v[end] != '#'
                invariant
                    i + 3 <= end <= v@.len(),
                    i + 3 + authority_len(v@.skip(i + 3)) == end + authority_len(
                        v@.skip(end as int),
                    ),
                decreases v@.len() - end,
            {
                assert(v@.skip(end as int)[0] == v@[end as int]);
                assert(v@.skip(end as int).skip(1) =~= v@.skip(end + 1));
                end += 1;
            }
            if end < v.len() {
                assert(v@.skip(end as int)[0] == v@[end as int]);
            }
            assert(v@.subrange(0, end as int) =~= v@.take(end as int));
            text_of(&v, 0, end)
        },
        None => url.to_owned(),
    }
}

/// The address to post to: `data` itself where it is one, else `data` behind `base`.
pub open spec fn resolved_endpoint(base: Seq<char>, data: Seq<char>) -> Seq<char> {
    if has_prefix(data, "http://"@) || has_prefix(data, "https://"@) {
        data
    } else if data.len() > 0 && data[0] == '/' {
        base + data
    } else {
        base + "/"@ + data
    }
}

pub fn resolve_endpoint(base: &str, data: &str) -> (r: String)
    ensures
        r@ == resolved_endpoint(base@, data@),
{
    if starts_with(data, "http://") || starts_with(data, "https://") {
        return data.to_owned();
    }
    let v = chars_of(data);
    if v.len() > 0 && v[0] == '/' {
        cat2(base, data)
    } else {
        cat3(base, "/", data)
    }
}

/// A message to send. With an id it is a request that awaits its response.
#[derive(Debug)]
pub struct Command {
    pub id: Option<i64>,
    pub msg: Json,
}

/// The model of a [`Command`].
#[verifier::ext_equal]
pub struct CommandModel {
    pub id: Option<i64>,
    pub msg: JsonModel,
}

impl View for Command {
    type V = CommandModel;

    open spec fn view(&self) -> CommandModel {
        CommandModel { id: self.id, msg: self.msg@ }
    }
}

/// What is to be done for the worker.
#[derive(Debug)]
pub enum Action {
    /// Tell whoever waits for the connection that it stands.
    Ready,
    /// Tell whoever waits for the connection that it failed.
    NotReady(Error),
    /// Post a message.
    Post { url: String, command: Command },
    /// Hand the result of a request to its sender.
    Answer(i64, Json),
    /// Hand an error to the sender of a request.
    Refuse(i64, Error),
}

/// The model of an [`Action`].
#[verifier::ext_equal]
pub enum ActionModel {
    Ready,
    NotReady(ErrorModel),
    Post { url: Seq<char>, command: CommandModel },
    Answer(i64, JsonModel),
    Refuse(i64, ErrorModel),
}

impl View for Action {
    type V = ActionModel;

    open spec fn view(&self) -> ActionModel {
        match *self {
            Action::Ready => ActionModel::Ready,
            Action::NotReady(e) => ActionModel::NotReady(e@),
            Action::Post { url, command } => ActionModel::Post { url: url@, command: command@ },
            Action::Answer(id, v) => ActionModel::Answer(id, v@),
            Action::Refuse(id, e) => ActionModel::Refuse(id, e@),
        }
    }
}

/// The model of a [`Worker`].
#[verifier::ext_equal]
pub struct WorkerModel {
    /// The origin that relative endpoints are resolved against.
    pub base: Seq<char>,
    pub post_url: Option<Seq<char>>,
    /// The requests that were posted and await their response, oldest first.
    pub pending: Seq<i64>,
    /// The commands that are still to be posted, oldest first.
    pub queued: Seq<CommandModel>,
    pub ready_sent: bool,
    /// Bytes of a line that is not complete yet.
    pub held: Seq<u8>,
    /// The event that the lines so far make up.
    pub data: Seq<char>,
    pub event: Seq<char>,
}

/// A worker and what it wants done.
#[verifier::ext_equal]
pub struct Step {
    pub worker: WorkerModel,
    pub action: Option<ActionModel>,
}

/// The requests in `s` but for `id`.
pub open spec fn dropped(s: Seq<i64>, id: i64) -> Seq<i64>
    decreases s.len(),
{
    if s.len() == 0 {
        s
    } else if s.last() == id {
        dropped(s.drop_last(), id)
    } else {
        dropped(s.drop_last(), id).push(s.last())
    }
}

/// What a response says to its request.
pub open spec fn response_action(id: i64, v: JsonModel) -> ActionModel {
    match v.non_null("error"@) {
        Some(err) => ActionModel::Refuse(id, ErrorModel::Provider("mcp: "@ + json_text(err))),
        None => ActionModel::Answer(id, v.at("result"@)),
    }
}

impl WorkerModel {
    pub open spec fn started(url: Seq<char>) -> WorkerModel {
        WorkerModel {
            base: origin_of(url),
            post_url: None,
            pending: Seq::empty(),
            queued: Seq::empty(),
            ready_sent: false,
            held: Seq::empty(),
            data: Seq::empty(),
            event: Seq::empty(),
        }
    }

    /// A message event: a response to a pending request goes to it, and anything
    /// else is dropped.
    pub open spec fn messaged(self, v: JsonModel) -> Step {
        match v.at("id"@).sint() {
            Some(id) => if self.pending.contains(id) {
                Step {
                    worker: WorkerModel { pending: dropped(self.pending, id), ..self },
                    action: Some(response_action(id, v)),
                }
            } else {
                Step { worker: self, action: None }
            },
            None => Step { worker: self, action: None },
        }
    }

    /// The end of an event: an `endpoint` event says where to post, any other that
    /// holds JSON is a message.
    pub open spec fn event_ended(self) -> Step {
        let next = WorkerModel { data: Seq::empty(), event: Seq::empty(), ..self };
        if self.event == "endpoint"@ {
            Step {
                worker: WorkerModel {
                    post_url: Some(resolved_endpoint(self.base, trim_of(self.data))),
                    ready_sent: true,
                    ..next
                },
                action: if self.ready_sent {
                    None
                } else {
                    Some(ActionModel::Ready)
                },
            }
        } else if self.data.len() == 0 {
            Step { worker: next, action: None }
        } else {
            match json_read(trim_of(self.data)) {
                Ok(v) => next.messaged(v),
                Err(_) => Step { worker: next, action: None },
            }
        }
    }

    /// One line of the stream. An empty line ends the event; `data:` lines add up,
    /// an `event:` line names the event, and other lines are ignored.
    pub open spec fn lined(self, text: Seq<char>) -> Step {
        let line = trim_newlines_of(text);
        if line.len() == 0 {
            self.event_ended()
        } else {
            match after_prefix(line, "data:"@) {
                Some(rest) => {
                    let head = if self.data.len() == 0 {
                        self.data
                    } else {
                        self.data.push('\n')
                    };
                    Step {
                        worker: WorkerModel { data: head + trim_start_of(rest), ..self },
                        action: None,
                    }
                },
                None => match after_prefix(line, "event:"@) {
                    Some(rest) => Step {
                        worker: WorkerModel { event: trim_of(rest), ..self },
                        action: None,
                    },
                    None => Step { worker: self, action: None },
                },
            }
        }
    }

    /// The oldest command goes out; a request is pending from then on.
    pub open spec fn posted(self) -> Step
        recommends
            self.post_url is Some,
            self.queued.len() > 0,
    {
        let command = self.queued[0];
        Step {
            worker: WorkerModel {
                queued: self.queued.skip(1),
                pending: match command.id {
                    Some(id) => dropped(self.pending, id).push(id),
                    None => self.pending,
                },
                ..self
            },
            action: Some(ActionModel::Post { url: self.post_url->Some_0, command }),
        }
    }

    /// There is a command to post, and an address to post it to.
    pub open spec fn can_post(self) -> bool {
        self.post_url is Some && self.queued.len() > 0
    }

    /// The worker without its first complete line, and that line.
    pub open spec fn next_line(self) -> (WorkerModel, Seq<char>) {
        let i = newline_in(self.held);
        (
            WorkerModel { held: self.held.skip(i + 1), ..self },
            lossy_text(self.held.take(i + 1)),
        )
    }

    /// The next action, with the worker behind it: commands that can go out go
    /// first, then the lines that have come in are read up to one that calls for
    /// an action.
    pub open spec fn polled(self) -> Step
        decreases self.held.len(),
    {
        if self.can_post() {
            self.posted()
        } else if newline_in(self.held) >= self.held.len() {
            Step { worker: self, action: None }
        } else {
            let step = self.next_line().0.lined(self.next_line().1);
            proof {
                lemma_newline_in(self.held);
                lemma_lined_held(self.next_line().0, self.next_line().1);
            }
            if step.action is Some {
                step
            } else {
                step.worker.polled()
            }
        }
    }

    /// All that is to be done now, in order, and the worker behind it.
    pub open spec fn drained(self) -> (Seq<ActionModel>, WorkerModel)
        decreases self.held.len() + self.queued.len(),
    {
        let step = self.polled();
        match step.action {
            Some(action) => {
                proof {
                    lemma_polled_shrinks(self);
                }
                let rest = step.worker.drained();
                (seq![action] + rest.0, rest.1)
            },
            None => (Seq::empty(), step.worker),
        }
    }

    /// The worker after more bytes of the stream.
    pub open spec fn fed(self, chunk: Seq<u8>) -> WorkerModel {
        WorkerModel { held: self.held + chunk, ..self }
    }

    /// The worker after a further command.
    pub open spec fn commanded(self, c: CommandModel) -> WorkerModel {
        WorkerModel { queued: self.queued.push(c), ..self }
    }

    /// A post failed: its request is answered with the error, unless it has been
    /// answered already.
    pub open spec fn post_failed(self, id: Option<i64>, e: ErrorModel) -> Step {
        match id {
            Some(n) => if self.pending.contains(n) {
                Step {
                    worker: WorkerModel { pending: dropped(self.pending, n), ..self },
                    action: Some(ActionModel::Refuse(n, e)),
                }
            } else {
                Step { worker: self, action: None }
            },
            None => Step { worker: self, action: None },
        }
    }

    /// What is left to do when the stream has ended: nobody is left waiting.
    pub open spec fn closing(self) -> Seq<ActionModel> {
        let refusals = Seq::new(
            self.pending.len(),
            |i: int|
                ActionModel::Refuse(
                    self.pending[i],
                    ErrorModel::Provider("mcp sse: connection closed"@),
                ),
        );
        if self.ready_sent {
            refusals
        } else {
            seq![
                ActionModel::NotReady(ErrorModel::Provider("mcp sse: closed before endpoint"@)),
            ] + refusals
        }
    }
}

/// Reading a line does not touch the bytes behind it, nor the commands.
pub proof fn lemma_lined_held(w: WorkerModel, text: Seq<char>)
    ensures
        w.lined(text).worker.held == w.held,
        w.lined(text).worker.queued == w.queued,
        w.lined(text).worker.base == w.base,
{
}

/// Whatever is done uses up bytes or commands.
pub proof fn lemma_polled_shrinks(w: WorkerModel)
    ensures
        w.polled().action is Some ==> w.polled().worker.held.len() + w.polled().worker.queued.len()
            < w.held.len() + w.queued.len(),
    decreases w.held.len(),
{
    lemma_newline_in(w.held);
    if !w.can_post() && newline_in(w.held) < w.held.len() {
        let step = w.next_line().0.lined(w.next_line().1);
        lemma_lined_held(w.next_line().0, w.next_line().1);
        if step.action is None {
            lemma_polled_shrinks(step.worker);
        }
    }
}

/// The worker behind the SSE transport.
#[derive(Debug)]
pub struct Worker {
    base: String,
    post_url: Option<String>,
    pending: Vec<i64>,
    queued: Vec<Command>,
    ready_sent: bool,
    held: Vec<u8>,
    data: String,
    event: String,
}

impl View for Worker {
    type V = WorkerModel;

    closed spec fn view(&self) -> WorkerModel {
        WorkerModel {
            base: self.base@,
            post_url: opt_view(self.post_url),
            pending: self.pending@,
            queued: views(self.queued@),
            ready_sent: self.ready_sent,
            held: self.held@,
            data: self.data@,
            event: self.event@,
        }
    }
}

fn awaits(pending: &Vec<i64>, id: i64) -> (r: bool)
    ensures
        r == pending@.contains(id),
{
    let mut i: usize = 0;
    while i < pending.len()
        invariant
            i <= pending@.len(),
            forall|k: int| 0 <= k < i ==> pending@[k] != id,
        decreases pending@.len() - i,
    {
        if pending[i] == id {
            assert(pending@[i as int] == id);
            return true;
        }
        i += 1;
    }
    false
}

fn without(pending: &Vec<i64>, id: i64) -> (r: Vec<i64>)
    ensures
        r@ == dropped(pending@, id),
{
    let mut out: Vec<i64> = Vec::new();
    let mut i: usize = 0;
    assert(pending@.take(0) =~= Seq::empty());
    while i < pending.len()
        invariant
            i <= pending@.len(),
            out@ == dropped(pending@.take(i as int), id),
        decreases pending@.len() - i,
    {
        assert(pending@.take(i + 1).drop_last() =~= pending@.take(i as int));
        if pending[i] != id {
            out.push(pending[i]);
        }
        i += 1;
    }
    assert(pending@.take(i as int) =~= pending@);
    out
}

impl Worker {
    /// A worker for the stream at `url`.
    pub fn new(url: &str) -> (r: Worker)
        ensures
            r@ == WorkerModel::started(url@),
    {
        let r = Worker {
            base: origin(url),
            post_url: None,
            pending: Vec::new(),
            queued: Vec::new(),
            ready_sent: false,
            held: Vec::new(),
            data: String::new(),
            event: String::new(),
        };
        assert(r@.queued =~= Seq::empty());
        r
    }

    /// Take in bytes of the stream.
    pub fn feed(&mut self, chunk: &Vec<u8>)
        ensures
            final(self)@ == old(self)@.fed(chunk@),
    {
        let ghost start = self@;
        let mut i: usize = 0;
        assert(chunk@.take(0) =~= Seq::empty());
        assert(self@ =~= start.fed(chunk@.take(0)));
        while i < chunk.len()
            invariant
                i <= chunk@.len(),
                self@ == start.fed(chunk@.take(i as int)),
            decreases chunk@.len() - i,
        {
            self.held.push(chunk[i]);
            assert(self.held@ =~= start.held + chunk@.take(i + 1));
            i += 1;
        }
        assert(chunk@.take(i as int) =~= chunk@);
    }

    /// Take in a command.
    pub fn command(&mut self, c: Command)
        ensures
            final(self)@ == old(self)@.commanded(c@),
    {
        let ghost start = self@;
        self.queued.push(c);
        assert(self@.queued =~= start.queued.push(c@));
    }

    /// Take in a message event, already parsed.
    pub fn on_message(&mut self, v: &Json) -> (r: Option<Action>)
        ensures
            old(self)@.messaged(v@) == (Step { worker: final(self)@, action: opt_view(r) }),
    {
        let id = match v.at("id").sint() {
            Some(id) => id,
            None => return None,
        };
        if !awaits(&self.pending, id) {
            return None;
        }
        self.pending = without(&self.pending, id);
        match v.non_null("error") {
            Some(err) => Some(
                Action::Refuse(id, Error::Provider(cat2("mcp: ", err.render().as_str()))),
            ),
            None => Some(Action::Answer(id, v.at("result").clone())),
        }
    }

    fn end_event(&mut self) -> (r: Option<Action>)
        ensures
            old(self)@.event_ended() == (Step { worker: final(self)@, action: opt_view(r) }),
    {
        let is_endpoint = same(self.event.as_str(), "endpoint");
        let text = trim(self.data.as_str());
        let is_empty = self.data.as_str().is_empty();
        self.event = String::new();
        self.data = String::new();
        if is_endpoint {
            self.post_url = Some(resolve_endpoint(self.base.as_str(), text.as_str()));
            let first = !self.ready_sent;
            self.ready_sent = true;
            return if first {
                Some(Action::Ready)
            } else {
                None
            };
        }
        if is_empty {
            return None;
        }
        match Json::parse(text.as_str()) {
            Ok(v) => self.on_message(&v),
            Err(_) => None,
        }
    }

    /// Take in one line of the stream.
    pub fn on_line(&mut self, text: &str) -> (r: Option<Action>)
        ensures
            old(self)@.lined(text@) == (Step { worker: final(self)@, action: opt_view(r) }),
    {
        let line = trim_newlines(text);
        if line.as_str().is_empty() {
            return self.end_event();
        }
        if let Some(rest) = strip_prefix(line.as_str(), "data:") {
            if !self.data.as_str().is_empty() {
                crate::text::push_char(&mut self.data, '\n');
            }
            self.data.append(trim_start(rest.as_str()).as_str());
        } else if let Some(rest) = strip_prefix(line.as_str(), "event:") {
            self.event = trim(rest.as_str());
        }
        None
    }

    /// The next thing to do. With nothing to do, the worker waits for bytes or for
    /// a command.
    pub fn poll(&mut self) -> (r: Option<Action>)
        ensures
            old(self)@.polled() == (Step { worker: final(self)@, action: opt_view(r) }),
    {
        let ghost start = self@;
        loop
            invariant
                start == old(self)@,
                start.polled() == self@.polled(),
            decreases self@.held.len(),
        {
            let ghost now = self@;
            if self.queued.len() > 0 {
                if let Some(url) = &self.post_url {
                    let url = url.clone();
                    let command = self.queued.remove(0);
                    if let Some(id) = command.id {
                        self.pending = without(&self.pending, id);
                        self.pending.push(id);
                    }
                    assert(self@.queued =~= now.queued.skip(1));
                    return Some(Action::Post { url, command });
                }
            }
            let i = newline(&self.held);
            if i >= self.held.len() {
                return None;
            }
            let rest = self.held.split_off(i + 1);
            let text = lossy(&self.held);
            assert(self.held@ =~= now.held.take(i + 1));
            assert(rest@ =~= now.held.skip(i + 1));
            self.held = rest;
            assert(self@ =~= now.next_line().0);
            proof {
                lemma_lined_held(self@, text@);
            }
            let action = self.on_line(text.as_str());
            if action.is_some() {
                return action;
            }
        }
    }

    /// A post failed, for the request `id` or for a notification.
    pub fn on_post_failed(&mut self, id: Option<i64>, e: Error) -> (r: Option<Action>)
        ensures
            old(self)@.post_failed(id, e@) == (Step { worker: final(self)@, action: opt_view(r) }),
    {
        match id {
            Some(n) => {
                if !awaits(&self.pending, n) {
                    return None;
                }
                self.pending = without(&self.pending, n);
                Some(Action::Refuse(n, e))
            },
            None => None,
        }
    }

    /// The stream has ended: what is left to do.
    pub fn close(self) -> (r: Vec<Action>)
        ensures
            views(r@) == self@.closing(),
    {
        let mut out: Vec<Action> = Vec::new();
        if !self.ready_sent {
            out.push(
                Action::NotReady(Error::Provider("mcp sse: closed before endpoint".to_owned())),
            );
        }
        let first: usize = out.len();
        let mut i: usize = 0;
        while i < self.pending.len()
            invariant
                i <= self.pending@.len(),
                first == (if self.ready_sent { 0int } else { 1 }),
                out@.len() == first + i,
                first == 1 ==> out@[0]@ == ActionModel::NotReady(
                    ErrorModel::Provider("mcp sse: closed before endpoint"@),
                ),
                forall|k: int|
                    first <= k < out@.len() ==> (#[trigger] out@[k])@ == ActionModel::Refuse(
                        self.pending@[k - first],
                        ErrorModel::Provider("mcp sse: connection closed"@),
                    ),
            decreases self.pending@.len() - i,
        {
            out.push(
                Action::Refuse(
                    self.pending[i],
                    Error::Provider("mcp sse: connection closed".to_owned()),
                ),
            );
            i += 1;
        }
        assert(views(out@) =~= self@.closing());
        out
    }
}

/// What came of sending an HTTP request: the status code and the status in words,
/// or the message of the failure.
pub open spec fn opened(sent: Result<(u16, String), String>) -> Option<ErrorModel> {
    match sent {
        Ok((code, status)) => if is_success_code(code) {
            None
        } else {
            Some(ErrorModel::Provider("mcp sse status "@ + status@))
        },
        Err(e) => Some(ErrorModel::Provider("mcp sse connect: "@ + e@)),
    }
}

/// Whether the event stream could be opened.
pub fn open_stream(sent: Result<(u16, String), String>) -> (r: Result<(), Error>)
    ensures
        match opened(sent) {
            Some(e) => r is Err && r->Err_0@ == e,
            None => r is Ok,
        },
{
    match sent {
        Ok((code, status)) => if is_success(code) {
            Ok(())
        } else {
            Err(Error::Provider(cat2("mcp sse status ", status.as_str())))
        },
        Err(e) => Err(Error::Provider(cat2("mcp sse connect: ", e.as_str()))),
    }
}

pub open spec fn post_failure(sent: Result<(u16, String), String>) -> Option<ErrorModel> {
    match sent {
        Ok((code, status)) => if is_success_code(code) {
            None
        } else {
            Some(ErrorModel::Provider("mcp post status "@ + status@))
        },
        Err(e) => Some(ErrorModel::Provider("mcp post: "@ + e@)),
    }
}

/// Whether a message could be posted.
pub fn post_outcome(sent: Result<(u16, String), String>) -> (r: Result<(), Error>)
    ensures
        match post_failure(sent) {
            Some(e) => r is Err && r->Err_0@ == e,
            None => r is Ok,
        },
{
    match sent {
        Ok((code, status)) => if is_success(code) {
            Ok(())
        } else {
            Err(Error::Provider(cat2("mcp post status ", status.as_str())))
        },
        Err(e) => Err(Error::Provider(cat2("mcp post: ", e.as_str()))),
    }
}

/// The error for a worker that could not be set up.
pub open spec fn runtime_error(message: Seq<char>) -> ErrorModel {
    ErrorModel::Provider("mcp sse runtime: "@ + message)
}

/// The error for a worker that could not be set up.
pub fn runtime_failed(message: &str) -> (r: Error)
    ensures
        r@ == runtime_error(message@),
{
    Error::Provider(cat2("mcp sse runtime: ", message))
}

/// Why there is no connection, from what was heard of it: that it is ready, why it is not,
/// or nothing in time.
pub open spec fn not_connected(heard: Option<Result<(), Error>>) -> Option<ErrorModel> {
    match heard {
        Some(Ok(_)) => None,
        Some(Err(e)) => Some(e@),
        None => Some(ErrorModel::Provider("mcp sse: timed out waiting for endpoint"@)),
    }
}

/// What whoever starts a worker hears: that it is ready, why it is not, or nothing
/// in time.
pub fn connected(heard: Option<Result<(), Error>>) -> (r: Result<(), Error>)
    ensures
        match not_connected(heard) {
            Some(e) => r is Err && r->Err_0@ == e,
            None => r is Ok,
        },
{
    match heard {
        Some(Ok(_)) => Ok(()),
        Some(Err(e)) => Err(e),
        None => Err(Error::Provider("mcp sse: timed out waiting for endpoint".to_owned())),
    }
}

/// Bytes behind a complete line do not matter to what the line calls for.
proof fn lemma_poll_fed(w: WorkerModel, b: Seq<u8>)
    ensures
        w.polled().action is Some ==> w.fed(b).polled() == (Step {
            worker: w.polled().worker.fed(b),
            action: w.polled().action,
        }),
        w.polled().action is None ==> w.fed(b).polled() == w.polled().worker.fed(b).polled(),
    decreases w.held.len(),
{
    if w.can_post() {
        assert(w.fed(b).posted().worker =~= w.posted().worker.fed(b));
    } else {
        lemma_newline_in(w.held);
        lemma_newline_in(w.held + b);
        let i = newline_in(w.held);
        if i < w.held.len() {
            let j = newline_in(w.held + b);
            assert(j == i) by {
                assert((w.held + b)[i] == 10);
                if j < i {
                    assert((w.held + b)[j] == w.held[j]);
                }
            }
            assert((w.held + b).take(i + 1) =~= w.held.take(i + 1));
            assert((w.held + b).skip(i + 1) =~= w.held.skip(i + 1) + b);
            let (next, text) = w.next_line();
            assert(w.fed(b).next_line().0 =~= next.fed(b));
            lemma_lined_fed(next, text, b);
            lemma_lined_held(next, text);
            let step = next.lined(text);
            if step.action is None {
                lemma_poll_fed(step.worker, b);
            }
        }
    }
}

proof fn lemma_lined_fed(w: WorkerModel, text: Seq<char>, b: Seq<u8>)
    ensures
        w.fed(b).lined(text) == (Step {
            worker: w.lined(text).worker.fed(b),
            action: w.lined(text).action,
        }),
{
}

/// Where the stream is cut into chunks makes no difference: what is done for two
/// chunks is what is done for the joined chunk.
pub proof fn law_chunks_join(w: WorkerModel, a: Seq<u8>, b: Seq<u8>)
    ensures
        w.fed(a + b).drained() == ({
            let first = w.fed(a).drained();
            let second = first.1.fed(b).drained();
            (first.0 + second.0, second.1)
        }),
{
    assert(w.fed(a + b) =~= w.fed(a).fed(b));
    lemma_drain_fed(w.fed(a), b);
}

proof fn lemma_drain_fed(w: WorkerModel, b: Seq<u8>)
    ensures
        w.fed(b).drained() == ({
            let first = w.drained();
            let second = first.1.fed(b).drained();
            (first.0 + second.0, second.1)
        }),
    decreases w.held.len() + w.queued.len(),
{
    lemma_poll_fed(w, b);
    let step = w.polled();
    match step.action {
        Some(action) => {
            lemma_polled_shrinks(w);
            lemma_drain_fed(step.worker, b);
            let rest = step.worker.drained();
            let second = rest.1.fed(b).drained();
            assert((seq![action] + rest.0) + second.0 =~= seq![action] + (rest.0 + second.0));
        },
        None => {
            let second = step.worker.fed(b).drained();
            assert(Seq::<ActionModel>::empty() + second.0 =~= second.0);
            assert(w.fed(b).drained() == second);
        },
    }
}

proof fn lemma_dropped(s: Seq<i64>, id: i64)
    ensures
        !dropped(s, id).contains(id),
        forall|n: i64| n != id ==> (#[trigger] dropped(s, id).contains(n) <==> s.contains(n)),
        dropped(s, id).len() <= s.len(),
        s.no_duplicates() ==> dropped(s, id).no_duplicates(),
    decreases s.len(),
{
    if s.len() > 0 {
        let t = s.drop_last();
        lemma_dropped(t, id);
        let d = dropped(s, id);
        assert forall|n: i64| n != id implies (#[trigger] d.contains(n) <==> s.contains(n)) by {
            if s.contains(n) {
                let k = choose|k: int| 0 <= k < s.len() && s[k] == n;
                if k < t.len() {
                    assert(t[k] == n);
                    assert(t.contains(n));
                    assert(dropped(t, id).contains(n));
                    let j = choose|j: int| 0 <= j < dropped(t, id).len() && dropped(t, id)[j] == n;
                    assert(d[j] == n);
                } else {
                    assert(d[d.len() - 1] == n);
                }
            }
            if d.contains(n) {
                let k = choose|k: int| 0 <= k < d.len() && d[k] == n;
                if k < dropped(t, id).len() {
                    assert(dropped(t, id).contains(n));
                    assert(t.contains(n));
                    let j = choose|j: int| 0 <= j < t.len() && t[j] == n;
                    assert(s[j] == n);
                } else {
                    assert(s[s.len() - 1] == n);
                }
            }
        }
        if d.contains(id) {
            let k = choose|k: int| 0 <= k < d.len() && d[k] == id;
            if k < dropped(t, id).len() {
                assert(dropped(t, id).contains(id));
            }
        }
        if s.no_duplicates() {
            assert forall|a: int, b: int| 0 <= a < t.len() && 0 <= b < t.len() && a != b implies t[a]
                != t[b] by {
                assert(s[a] != s[b]);
            }
            assert forall|a: int, b: int| 0 <= a < d.len() && 0 <= b < d.len() && a != b implies d[a]
                != d[b] by {
                if s.last() != id {
                    assert forall|k: int| 0 <= k < dropped(t, id).len() implies dropped(t, id)[k]
                        != s.last() by {
                        if dropped(t, id)[k] == s.last() {
                            assert(dropped(t, id).contains(s.last()));
                            assert(t.contains(s.last()));
                            let j = choose|j: int| 0 <= j < t.len() && t[j] == s.last();
                            assert(s[j] == s[s.len() - 1]);
                        }
                    }
                }
            }
        }
    }
}

/// A request is pending from its post until its answer, and is answered once: an
/// answer goes out for a pending request only, which is pending no longer; a post
/// makes its request pending; and nothing else changes who is waiting.
pub proof fn law_pending(w: WorkerModel)
    ensures
        ({
            let step = w.polled();
            match step.action {
                Some(ActionModel::Answer(id, _)) => w.pending.contains(id)
                    && !step.worker.pending.contains(id) && forall|n: i64|
                    n != id ==> (#[trigger] step.worker.pending.contains(n) <==> w.pending.contains(
                        n,
                    )),
                Some(ActionModel::Refuse(id, _)) => w.pending.contains(id)
                    && !step.worker.pending.contains(id) && forall|n: i64|
                    n != id ==> (#[trigger] step.worker.pending.contains(n) <==> w.pending.contains(
                        n,
                    )),
                Some(ActionModel::Post { url, command }) => match command.id {
                    Some(id) => step.worker.pending.contains(id) && forall|n: i64|
                        n != id ==> (#[trigger] step.worker.pending.contains(n)
                            <==> w.pending.contains(n)),
                    None => step.worker.pending == w.pending,
                },
                _ => step.worker.pending == w.pending,
            }
        }),
        w.pending.no_duplicates() ==> w.polled().worker.pending.no_duplicates(),
    decreases w.held.len(),
{
    lemma_newline_in(w.held);
    if w.can_post() {
        if let Some(id) = w.queued[0].id {
            let d = dropped(w.pending, id);
            lemma_dropped(w.pending, id);
            let p = d.push(id);
            assert(p[p.len() - 1] == id);
            assert forall|n: i64| n != id implies (#[trigger] p.contains(n) <==> w.pending.contains(
                n,
            )) by {
                if d.contains(n) {
                    let k = choose|k: int| 0 <= k < d.len() && d[k] == n;
                    assert(p[k] == n);
                }
                if p.contains(n) {
                    let k = choose|k: int| 0 <= k < p.len() && p[k] == n;
                    assert(d[k] == n);
                    assert(d.contains(n));
                }
            }
            if w.pending.no_duplicates() {
                assert forall|a: int, b: int|
                    0 <= a < p.len() && 0 <= b < p.len() && a != b implies p[a] != p[b] by {
                    if p[a] == p[b] {
                        let k = if a < d.len() {
                            a
                        } else {
                            b
                        };
                        assert(d[k] == p[k]);
                        if a >= d.len() || b >= d.len() {
                            assert(d.contains(id));
                        }
                    }
                }
            }
        }
    } else if newline_in(w.held) < w.held.len() {
        let (next, text) = w.next_line();
        let step = next.lined(text);
        lemma_lined_held(next, text);
        match json_read(trim_of(next.data)) {
            Ok(v) => {
                if let Some(id) = v.at("id"@).sint() {
                    lemma_dropped(w.pending, id);
                }
            },
            Err(_) => {},
        }
        if step.action is None {
            assert(step.worker.pending == w.pending);
            law_pending(step.worker);
        }
    }
}

/// Nothing is posted before the endpoint is known, and commands are posted in the
/// order in which they came.
pub proof fn law_posts_in_order(w: WorkerModel)
    ensures
        match w.polled().action {
            Some(ActionModel::Post { url, command }) => w.queued.len() > 0 && command == w.queued[0]
                && w.polled().worker.queued == w.queued.skip(1) && w.polled().worker.post_url
                == Some(url),
            _ => w.polled().worker.queued == w.queued,
        },
    decreases w.held.len(),
{
    lemma_newline_in(w.held);
    if !w.can_post() && newline_in(w.held) < w.held.len() {
        let (next, text) = w.next_line();
        let step = next.lined(text);
        lemma_lined_held(next, text);
        if step.action is None {
            law_posts_in_order(step.worker);
        }
    }
}

/// Whoever waits for the connection hears that it stands once at most, and no
/// later than the first post.
pub proof fn law_ready_once(w: WorkerModel)
    requires
        w.post_url is Some ==> w.ready_sent,
    ensures
        ({
            let step = w.polled();
            &&& w.ready_sent ==> step.worker.ready_sent
            &&& step.action == Some(ActionModel::Ready) ==> !w.ready_sent && step.worker.ready_sent
            &&& step.action != Some(ActionModel::Ready) ==> step.worker.ready_sent == w.ready_sent
            &&& step.action is Some && step.action->Some_0 is Post ==> step.worker.ready_sent
            &&& step.worker.post_url is Some ==> step.worker.ready_sent
        }),
    decreases w.held.len(),
{
    lemma_newline_in(w.held);
    if !w.can_post() && newline_in(w.held) < w.held.len() {
        let (next, text) = w.next_line();
        let step = next.lined(text);
        lemma_lined_held(next, text);
        if step.action is None {
            law_ready_once(step.worker);
        }
    }
}

/// When the stream ends, every request that still waits is refused, once, and
/// whoever waits for the connection hears of it unless it stood already.
pub proof fn law_close_leaves_nobody(w: WorkerModel, id: i64)
    ensures
        w.closing().contains(
            ActionModel::Refuse(id, ErrorModel::Provider("mcp sse: connection closed"@)),
        ) <==> w.pending.contains(id),
        w.closing().len() == w.pending.len() + (if w.ready_sent {
            0int
        } else {
            1
        }),
        !w.ready_sent ==> w.closing()[0] is NotReady,
{
    let e = ErrorModel::Provider("mcp sse: connection closed"@);
    let first: int = if w.ready_sent {
        0
    } else {
        1
    };
    let all = w.closing();
    if w.pending.contains(id) {
        let k = choose|k: int| 0 <= k < w.pending.len() && w.pending[k] == id;
        assert(all[first + k] == ActionModel::Refuse(id, e));
    }
    if all.contains(ActionModel::Refuse(id, e)) {
        let k = choose|k: int| 0 <= k < all.len() && all[k] == ActionModel::Refuse(id, e);
        assert(w.pending[k - first] == id);
    }
}

} // verus!
