//! What the SSE worker makes of the lines that it reads.
use vstd::prelude::*;

use crate::error::ErrorModel;
use crate::json::{json_read, json_text, JsonModel};
use crate::mcp::worker::{
    authority_len, dropped, not_connected, opened, origin_of, post_failure, resolved_endpoint,
    ActionModel, CommandModel, WorkerModel,
};
use crate::text::{has_prefix, is_space, lemma_find_from, occurs_at, trim_of};

verus! {

proof fn lemma_authority(s: Seq<char>)
    ensures
        0 <= authority_len(s) <= s.len(),
        forall|i: int|
            0 <= i < authority_len(s) ==> #[trigger] s[i] != '/' && s[i] != '?' && s[i] != '#',
        authority_len(s) < s.len() ==> s[authority_len(s)] == '/' || s[authority_len(s)] == '?'
            || s[authority_len(s)] == '#',
    decreases s.len(),
{
    if s.len() > 0 && s[0] != '/' && s[0] != '?' && s[0] != '#' {
        let rest = s.skip(1);
        lemma_authority(rest);
        assert forall|i: int| 0 <= i < authority_len(s) implies #[trigger] s[i] != '/' && s[i]
            != '?' && s[i] != '#' by {
            if i > 0 {
                assert(rest[i - 1] == s[i]);
            }
        }
    }
}

/// The origin of an address is its scheme and its host with its port, without path, query
/// or fragment.
pub proof fn law_origin(scheme: Seq<char>, host: Seq<char>, rest: Seq<char>)
    requires
        forall|i: int| 0 <= i < scheme.len() ==> scheme[i] != ':',
        forall|i: int| 0 <= i < host.len() ==> host[i] != '/' && host[i] != '?' && host[i] != '#',
        rest.len() > 0 ==> rest[0] == '/' || rest[0] == '?' || rest[0] == '#',
    ensures
        origin_of(scheme + "://"@ + host + rest) == scheme + "://"@ + host,
{
    let url = scheme + "://"@ + host + rest;
    reveal_strlit("://");
    assert(url.subrange(scheme.len() as int, scheme.len() as int + 3) =~= "://"@);
    assert(occurs_at(url, "://"@, scheme.len() as int));
    lemma_find_from(url, "://"@, 0);
    let i = crate::text::find_in(url, "://"@)->Some_0;
    assert(i == scheme.len()) by {
        if i < scheme.len() {
            assert(url.subrange(i, i + 3)[0] == scheme[i]);
        }
    }
    let behind = url.skip(i + 3);
    assert(behind =~= host + rest);
    lemma_authority(behind);
    let n = authority_len(behind);
    if n < host.len() {
        assert(behind[n] == host[n]);
    }
    if n > host.len() {
        assert(behind[host.len() as int] == rest[0]);
    }
    assert(url.take(i + 3 + n) =~= scheme + "://"@ + host);
}

/// An endpoint that is an address stands for itself; a path stands below the origin, with
/// one slash between them.
pub proof fn law_endpoint(base: Seq<char>, data: Seq<char>)
    ensures
        has_prefix(data, "http://"@) || has_prefix(data, "https://"@) ==> resolved_endpoint(
            base,
            data,
        ) == data,
        resolved_endpoint(base, "/"@ + data) == base + "/"@ + data,
        !has_prefix(data, "http://"@) && !has_prefix(data, "https://"@) && !(data.len() > 0
            && data[0] == '/') ==> resolved_endpoint(base, data) == base + "/"@ + data,
{
    reveal_strlit("/");
    reveal_strlit("http://");
    reveal_strlit("https://");
    let path = "/"@ + data;
    assert(path[0] == '/');
    if has_prefix(path, "http://"@) {
        assert(path.subrange(0, 7)[0] == '/');
    }
    if has_prefix(path, "https://"@) {
        assert(path.subrange(0, 8)[0] == '/');
    }
    assert(base + path =~= base + "/"@ + data);
}

/// A line without the ends of lines behind it.
pub open spec fn plain_line(s: Seq<char>) -> bool {
    s.len() > 0 && s.last() != '\n' && s.last() != '\r'
}

proof fn lemma_line(s: Seq<char>)
    requires
        plain_line(s),
    ensures
        crate::text::trim_newlines_of(s.push('\n')) == s,
{
    assert(s.push('\n').drop_last() =~= s);
    assert(crate::text::trim_newlines_of(s) == s);
}

proof fn lemma_blank_line()
    ensures
        crate::text::trim_newlines_of("\n"@) == Seq::<char>::empty(),
{
    reveal_strlit("\n");
    let none = Seq::<char>::empty();
    assert("\n"@.drop_last() =~= none);
    assert(crate::text::trim_newlines_of(none) == none);
}

proof fn lemma_untrimmed(s: Seq<char>)
    requires
        s.len() > 0,
        !is_space(s[0]),
        !is_space(s.last()),
    ensures
        crate::text::trim_start_of(s) == s,
        trim_of(s) == s,
{
}

/// A data line adds its text to the event, on a line of its own; nothing else changes and
/// nothing is to be done.
pub proof fn law_data_adds_up(w: WorkerModel, text: Seq<char>)
    requires
        plain_line(text),
        !is_space(text[0]),
    ensures
        ({
            let step = w.lined(("data: "@ + text).push('\n'));
            &&& step.action is None
            &&& step.worker == (WorkerModel {
                data: if w.data.len() == 0 {
                    text
                } else {
                    w.data.push('\n') + text
                },
                ..w
            })
        }),
{
    reveal_strlit("data: ");
    reveal_strlit("data:");
    let line = "data: "@ + text;
    assert(line.last() == text.last());
    lemma_line(line);
    assert(line.subrange(0, 5) =~= "data:"@);
    assert(occurs_at(line, "data:"@, 0));
    let rest = line.skip(5);
    assert(rest =~= seq![' '] + text);
    assert(is_space(' '));
    assert(rest.skip(1) =~= text);
    assert(crate::text::trim_start_of(text) == text);
    assert(crate::text::trim_start_of(rest) == text);
    assert(w.data.len() == 0 ==> w.data + text =~= text);
}

/// An event line names the event; nothing else changes and nothing is to be done.
pub proof fn law_event_is_named(w: WorkerModel, name: Seq<char>)
    requires
        plain_line(name),
        !is_space(name[0]),
        !is_space(name.last()),
    ensures
        ({
            let step = w.lined(("event: "@ + name).push('\n'));
            &&& step.action is None
            &&& step.worker == (WorkerModel { event: name, ..w })
        }),
{
    reveal_strlit("event: ");
    reveal_strlit("event:");
    reveal_strlit("data:");
    let line = "event: "@ + name;
    assert(line.last() == name.last());
    lemma_line(line);
    assert(line.subrange(0, 6) =~= "event:"@);
    assert(occurs_at(line, "event:"@, 0));
    if occurs_at(line, "data:"@, 0) {
        assert(line.subrange(0, 5)[0] == 'e');
    }
    let rest = line.skip(6);
    assert(rest =~= seq![' '] + name);
    assert(is_space(' '));
    assert(rest.skip(1) =~= name);
    lemma_untrimmed(name);
    assert(crate::text::trim_start_of(rest) == name);
}

/// A line that is neither changes nothing.
pub proof fn law_other_lines_are_ignored(w: WorkerModel, line: Seq<char>)
    requires
        plain_line(line),
        !has_prefix(line, "data:"@),
        !has_prefix(line, "event:"@),
    ensures
        w.lined(line.push('\n')).action is None,
        w.lined(line.push('\n')).worker == w,
{
    lemma_line(line);
}

/// The end of an `endpoint` event says where to post from then on, and that the connection
/// stands, where that was not said before.
pub proof fn law_endpoint_event(w: WorkerModel)
    requires
        w.event == "endpoint"@,
    ensures
        ({
            let step = w.lined("\n"@);
            &&& step.worker.post_url == Some(resolved_endpoint(w.base, trim_of(w.data)))
            &&& step.worker.ready_sent
            &&& step.action is Some <==> !w.ready_sent
            &&& step.action is Some ==> step.action == Some(ActionModel::Ready)
            &&& step.worker.data.len() == 0 && step.worker.event.len() == 0
            &&& step.worker.pending == w.pending
        }),
{
    lemma_blank_line();
}

/// The end of another event hands a response to the request that waits for it: as an error
/// where it holds one, else as its result. The request waits no longer.
pub proof fn law_response_is_delivered(w: WorkerModel, v: JsonModel, id: i64)
    requires
        w.event != "endpoint"@,
        w.data.len() > 0,
        json_read(trim_of(w.data)) == Ok::<JsonModel, Seq<char>>(v),
        v.at("id"@) == JsonModel::Int(id as int),
        w.pending.contains(id),
    ensures
        ({
            let step = w.lined("\n"@);
            &&& v.at("error"@) is Null ==> step.action == Some(
                ActionModel::Answer(id, v.at("result"@)),
            )
            &&& !(v.at("error"@) is Null) ==> step.action == Some(
                ActionModel::Refuse(
                    id,
                    ErrorModel::Provider("mcp: "@ + json_text(v.at("error"@))),
                ),
            )
            &&& !step.worker.pending.contains(id)
            &&& forall|n: i64|
                n != id ==> (#[trigger] step.worker.pending.contains(n) <==> w.pending.contains(n))
            &&& step.worker.data.len() == 0 && step.worker.event.len() == 0
            &&& step.worker.post_url == w.post_url
        }),
{
    lemma_blank_line();
    lemma_only_dropped(w.pending, id);
}

proof fn lemma_only_dropped(s: Seq<i64>, id: i64)
    ensures
        !dropped(s, id).contains(id),
        forall|n: i64| n != id ==> (#[trigger] dropped(s, id).contains(n) <==> s.contains(n)),
    decreases s.len(),
{
    if s.len() > 0 {
        let rest = s.drop_last();
        lemma_only_dropped(rest, id);
        let d = dropped(rest, id);
        assert(s =~= rest.push(s.last()));
        vstd::seq_lib::lemma_seq_contains_after_push(rest, s.last(), s.last());
        assert forall|n: i64| n != id implies (#[trigger] dropped(s, id).contains(n) <==> s.contains(
            n,
        )) by {
            lemma_pushed(rest, s.last(), n);
            lemma_pushed(d, s.last(), n);
        }
        lemma_pushed(d, s.last(), id);
    }
}

proof fn lemma_pushed(s: Seq<i64>, x: i64, n: i64)
    ensures
        s.push(x).contains(n) <==> n == x || s.contains(n),
{
    let p = s.push(x);
    assert(p[s.len() as int] == x);
    if s.contains(n) {
        let k = choose|k: int| 0 <= k < s.len() && s[k] == n;
        assert(p[k] == n);
    }
    if p.contains(n) && n != x {
        let k = choose|k: int| 0 <= k < p.len() && p[k] == n;
        assert(s[k] == n);
    }
}

/// What nobody waits for is dropped, and so is what is no message.
pub proof fn law_strangers_are_dropped(w: WorkerModel, id: i64)
    requires
        w.event != "endpoint"@,
        match json_read(trim_of(w.data)) {
            Ok(v) => !(v.at("id"@) is Int) || v.at("id"@) == JsonModel::Int(id as int)
                && !w.pending.contains(id),
            Err(_) => true,
        },
    ensures
        w.lined("\n"@).action is None,
        w.lined("\n"@).worker.pending == w.pending,
        w.lined("\n"@).worker.post_url == w.post_url,
        w.lined("\n"@).worker.data.len() == 0,
        w.lined("\n"@).worker.event.len() == 0,
{
    lemma_blank_line();
}

/// A command is posted to the endpoint as it is, oldest first, before more of the stream is
/// read.
pub proof fn law_command_is_posted(w: WorkerModel, c: CommandModel, url: Seq<char>)
    requires
        w.post_url == Some(url),
        w.queued.len() == 0,
    ensures
        ({
            let step = w.commanded(c).polled();
            &&& step.action == Some(ActionModel::Post { url, command: c })
            &&& step.worker.queued.len() == 0
            &&& step.worker.held == w.held
            &&& c.id matches Some(id) ==> step.worker.pending.contains(id)
            &&& c.id is None ==> step.worker.pending == w.pending
        }),
{
    let q = w.queued.push(c);
    assert(q[0] == c);
    if let Some(id) = c.id {
        lemma_pushed(dropped(w.pending, id), id, id);
    }
}

/// A post that fails refuses its request with the reason, once; a notification that fails
/// refuses nobody.
pub proof fn law_failed_post_is_told(w: WorkerModel, id: i64, e: ErrorModel)
    ensures
        w.pending.contains(id) ==> w.post_failed(Some(id), e).action == Some(
            ActionModel::Refuse(id, e),
        ) && !w.post_failed(Some(id), e).worker.pending.contains(id),
        !w.pending.contains(id) ==> w.post_failed(Some(id), e).action is None
            && w.post_failed(Some(id), e).worker == w,
        w.post_failed(None, e).action is None && w.post_failed(None, e).worker == w,
{
    lemma_only_dropped(w.pending, id);
}

/// A stream stands, and a post goes through, exactly with a status of success; else the
/// error tells the status or the failure.
pub proof fn law_statuses(sent: Result<(u16, String), String>)
    ensures
        opened(sent) is None <==> sent is Ok && 200 <= sent->Ok_0.0 < 300,
        post_failure(sent) is None <==> sent is Ok && 200 <= sent->Ok_0.0 < 300,
        opened(sent) matches Some(e) ==> e == ErrorModel::Provider(
            match sent {
                Ok((code, status)) => "mcp sse status "@ + status@,
                Err(why) => "mcp sse connect: "@ + why@,
            },
        ),
        post_failure(sent) matches Some(e) ==> e == ErrorModel::Provider(
            match sent {
                Ok((code, status)) => "mcp post status "@ + status@,
                Err(why) => "mcp post: "@ + why@,
            },
        ),
{
}

/// A connection stands exactly if it is heard to; else the error is what was heard, or that
/// nothing was.
pub proof fn law_connection(heard: Option<Result<(), crate::error::Error>>)
    ensures
        not_connected(heard) is None <==> heard is Some && heard->Some_0 is Ok,
        heard is None ==> not_connected(heard) == Some(
            ErrorModel::Provider("mcp sse: timed out waiting for endpoint"@),
        ),
        heard matches Some(Err(e)) ==> not_connected(heard) == Some(e@),
{
}

/// A line that has come in whole is read, and what stands behind it is kept for later; what
/// is no whole line waits.
pub proof fn law_line_is_polled(w: WorkerModel, line: Seq<u8>, rest: Seq<u8>)
    requires
        w.post_url is None || w.queued.len() == 0,
        forall|i: int| 0 <= i < line.len() ==> line[i] != 10,
        w.held == line.push(10u8) + rest,
    ensures
        ({
            let text = crate::provider::sse::lossy_text(line.push(10u8));
            let step = (WorkerModel { held: rest, ..w }).lined(text);
            &&& step.action is Some ==> w.polled() == step
            &&& step.action is None ==> w.polled() == step.worker.polled()
        }),
        ({
            let v = WorkerModel { held: line, ..w };
            v.polled().action is None && v.polled().worker == v
        }),
{
    let n = line.len() as int;
    crate::provider::sse::lemma_newline_in(w.held);
    crate::provider::sse::lemma_newline_in(line);
    let i = crate::provider::sse::newline_in(w.held);
    assert(w.held[n] == 10);
    if i < n {
        assert(w.held[i] == line[i]);
    }
    assert(w.held.take(n + 1) =~= line.push(10u8));
    assert(w.held.skip(n + 1) =~= rest);
}

/// All that is to be done is done in order: the next thing, and then all that is left.
pub proof fn law_all_is_done(w: WorkerModel)
    ensures
        w.polled().action is None ==> w.drained().0.len() == 0 && w.drained().1
            == w.polled().worker,
        w.polled().action matches Some(action) ==> w.drained().0 == seq![action]
            + w.polled().worker.drained().0 && w.drained().1 == w.polled().worker.drained().1,
{
}

/// A worker starts with nothing but the origin of its stream; bytes and commands join those
/// that wait.
pub proof fn law_worker_takes_in(w: WorkerModel, url: Seq<char>, chunk: Seq<u8>, c: CommandModel)
    ensures
        WorkerModel::started(url).base == origin_of(url),
        WorkerModel::started(url).post_url is None,
        WorkerModel::started(url).pending.len() == 0,
        WorkerModel::started(url).queued.len() == 0,
        WorkerModel::started(url).held.len() == 0,
        WorkerModel::started(url).data.len() == 0,
        WorkerModel::started(url).event.len() == 0,
        !WorkerModel::started(url).ready_sent,
        w.fed(chunk) == (WorkerModel { held: w.held + chunk, ..w }),
        w.commanded(c) == (WorkerModel { queued: w.queued.push(c), ..w }),
{
}

/// When the stream ends, everybody who waits is told so, the connection first where it never
/// stood, then the requests in order.
pub proof fn law_end_is_told(w: WorkerModel, i: int)
    requires
        0 <= i < w.pending.len(),
    ensures
        w.ready_sent ==> w.closing()[i] == ActionModel::Refuse(
            w.pending[i],
            ErrorModel::Provider("mcp sse: connection closed"@),
        ),
        !w.ready_sent ==> w.closing()[i + 1] == ActionModel::Refuse(
            w.pending[i],
            ErrorModel::Provider("mcp sse: connection closed"@),
        ) && w.closing()[0] == ActionModel::NotReady(
            ErrorModel::Provider("mcp sse: closed before endpoint"@),
        ),
{
}

/// An address without a scheme is its own origin.
pub proof fn law_no_scheme(url: Seq<char>)
    requires
        forall|i: int| 0 <= i < url.len() ==> url[i] != ':',
    ensures
        origin_of(url) == url,
{
    reveal_strlit("://");
    lemma_find_from(url, "://"@, 0);
    if let Some(k) = crate::text::find_in(url, "://"@) {
        assert(url.subrange(k, k + 3)[0] == url[k]);
    }
}

/// Whatever stands in a data line joins the event, without the blanks before it.
pub proof fn law_any_data_line(w: WorkerModel, rest: Seq<char>)
    requires
        rest.len() > 0 ==> rest.last() != '\n' && rest.last() != '\r',
    ensures
        ({
            let step = w.lined(("data:"@ + rest).push('\n'));
            let text = crate::text::trim_start_of(rest);
            &&& step.action is None
            &&& w.data.len() == 0 ==> step.worker == (WorkerModel { data: text, ..w })
            &&& w.data.len() > 0 ==> step.worker == (WorkerModel {
                data: w.data.push('\n') + text,
                ..w
            })
        }),
{
    reveal_strlit("data:");
    let line = "data:"@ + rest;
    assert(plain_line(line)) by {
        if rest.len() > 0 {
            assert(line.last() == rest.last());
        }
    }
    lemma_line(line);
    assert(line.subrange(0, 5) =~= "data:"@);
    assert(occurs_at(line, "data:"@, 0));
    assert(line.skip(5) =~= rest);
    assert(w.data.len() == 0 ==> w.data + crate::text::trim_start_of(rest)
        =~= crate::text::trim_start_of(rest));
}

} // verus!
