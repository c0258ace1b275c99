//! Minimal Server-Sent Events reader for streaming responses.
//!
//! Takes the response body in chunks, splits on newlines, and yields the payload
//! of each `data:` line. `[DONE]` (OpenAI) and natural EOF both end the stream;
//! `event:` and blank lines are ignored. Bytes are buffered until a full line
//! arrives, so multibyte characters never split across chunk boundaries.
use vstd::prelude::*;
use vstd::utf8::{decode_utf8, valid_utf8};

use crate::error::{Error, ErrorModel};
use crate::text::{
    after_prefix, cat2, lemma_views_add, lemma_views_push, same, strip_prefix, trim, trim_end,
    trim_end_of, trim_of, views,
};

verus! {

/// What `String::from_utf8_lossy` makes of bytes.
pub uninterp spec fn lossy_text(bytes: Seq<u8>) -> Seq<char>;

/// `String::from_utf8_lossy`: the text that the bytes encode, where they are valid
/// UTF-8. How many replacement characters stand for invalid bytes is left to the
/// name [`lossy_text`].
#[verifier::external_body]
pub(crate) fn lossy(bytes: &Vec<u8>) -> (r: String)
    ensures
        r@ == lossy_text(bytes@),
        valid_utf8(bytes@) ==> r@ == decode_utf8(bytes@),
{
    String::from_utf8_lossy(bytes).into_owned()
}

/// What a line of the stream says.
#[derive(Debug, PartialEq)]
pub enum Line {
    /// Nothing: no `data:` line, or one without a payload.
    Skip,
    /// The stream is at its end.
    Done,
    /// A payload.
    Data(String),
}

/// The model of a [`Line`].
#[verifier::ext_equal]
pub enum LineModel {
    Skip,
    Done,
    Data(Seq<char>),
}

impl View for Line {
    type V = LineModel;

    open spec fn view(&self) -> LineModel {
        match *self {
            Line::Skip => LineModel::Skip,
            Line::Done => LineModel::Done,
            Line::Data(s) => LineModel::Data(s@),
        }
    }
}

/// What a line says.
pub open spec fn line_says(text: Seq<char>) -> LineModel {
    match after_prefix(trim_end_of(text), "data:"@) {
        Some(rest) => {
            let data = trim_of(rest);
            if data == "[DONE]"@ {
                LineModel::Done
            } else if data.len() == 0 {
                LineModel::Skip
            } else {
                LineModel::Data(data)
            }
        },
        None => LineModel::Skip,
    }
}

/// Reads one line.
pub fn read_line(text: &str) -> (r: Line)
    ensures
        r@ == line_says(text@),
{
    match strip_prefix(trim_end(text).as_str(), "data:") {
        Some(rest) => {
            let data = trim(rest.as_str());
            if same(data.as_str(), "[DONE]") {
                Line::Done
            } else if data.as_str().is_empty() {
                Line::Skip
            } else {
                Line::Data(data)
            }
        },
        None => Line::Skip,
    }
}

/// Reads one line from its bytes.
pub fn read_line_bytes(bytes: &Vec<u8>) -> (r: Line)
    ensures
        r@ == line_says(lossy_text(bytes@)),
        valid_utf8(bytes@) ==> r@ == line_says(decode_utf8(bytes@)),
{
    read_line(lossy(bytes).as_str())
}

/// The position of the first line feed; the length where there is none.
pub open spec fn newline_in(b: Seq<u8>) -> int
    decreases b.len(),
{
    if b.len() == 0 || b[0] == 10 {
        0
    } else {
        1 + newline_in(b.skip(1))
    }
}

/// The model of a [`DataReader`].
#[verifier::ext_equal]
pub struct ReaderModel {
    /// Bytes of a line that is not complete yet.
    pub held: Seq<u8>,
    pub done: bool,
}

/// What comes of reading bytes: the payloads, and the reader behind them.
#[verifier::ext_equal]
pub struct Reading {
    pub data: Seq<Seq<char>>,
    pub reader: ReaderModel,
}

/// Reads the complete lines of `b`, up to the end of the stream.
pub open spec fn scanned(b: Seq<u8>) -> Reading
    decreases b.len(),
    via scanned_decreases
{
    let i = newline_in(b);
    if i >= b.len() {
        Reading { data: Seq::empty(), reader: ReaderModel { held: b, done: false } }
    } else {
        match line_says(lossy_text(b.take(i + 1))) {
            LineModel::Done => Reading {
                data: Seq::empty(),
                reader: ReaderModel { held: Seq::empty(), done: true },
            },
            LineModel::Skip => scanned(b.skip(i + 1)),
            LineModel::Data(text) => Reading {
                data: seq![text] + scanned(b.skip(i + 1)).data,
                reader: scanned(b.skip(i + 1)).reader,
            },
        }
    }
}

#[via_fn]
proof fn scanned_decreases(b: Seq<u8>) {
    lemma_newline_in(b);
}

impl ReaderModel {
    pub open spec fn fresh() -> ReaderModel {
        ReaderModel { held: Seq::empty(), done: false }
    }

    /// What comes of a further chunk; nothing once the stream has ended.
    pub open spec fn fed(self, chunk: Seq<u8>) -> Reading {
        if self.done {
            Reading { data: Seq::empty(), reader: self }
        } else {
            scanned(self.held + chunk)
        }
    }

    /// What comes of chunks, one after the other.
    pub open spec fn fed_all(self, chunks: Seq<Seq<u8>>) -> Reading
        decreases chunks.len(),
    {
        if chunks.len() == 0 {
            Reading { data: Seq::empty(), reader: self }
        } else {
            let before = self.fed_all(chunks.drop_last());
            let last = before.reader.fed(chunks.last());
            Reading { data: before.data + last.data, reader: last.reader }
        }
    }
}

pub proof fn lemma_newline_in(b: Seq<u8>)
    ensures
        0 <= newline_in(b) <= b.len(),
        newline_in(b) < b.len() ==> b[newline_in(b)] == 10,
        forall|j: int| 0 <= j < newline_in(b) ==> b[j] != 10,
    decreases b.len(),
{
    if b.len() > 0 && b[0] != 10 {
        lemma_newline_in(b.skip(1));
        assert forall|j: int| 0 <= j < newline_in(b) implies b[j] != 10 by {
            if j > 0 {
                assert(b.skip(1)[j - 1] == b[j]);
            }
        }
    }
}

/// A reader of `data:` payloads from a body that arrives in chunks.
#[derive(Debug)]
pub struct DataReader {
    held: Vec<u8>,
    done: bool,
}

impl View for DataReader {
    type V = ReaderModel;

    closed spec fn view(&self) -> ReaderModel {
        ReaderModel { held: self.held@, done: self.done }
    }
}

pub fn newline(b: &Vec<u8>) -> (r: usize)
    ensures
        r == newline_in(b@),
{
    let mut i: usize = 0;
    while i < b.len() && b[i] != 10
        invariant
            i <= b@.len(),
            forall|j: int| 0 <= j < i ==> b@[j] != 10,
        decreases b@.len() - i,
    {
        i += 1;
    }
    proof {
        lemma_newline_in(b@);
    }
    i
}

impl DataReader {
    pub fn new() -> (r: DataReader)
        ensures
            r@ == ReaderModel::fresh(),
    {
        DataReader { held: Vec::new(), done: false }
    }

    /// The stream is at its end: nothing more will come of it.
    pub fn done(&self) -> (r: bool)
        ensures
            r == self@.done,
    {
        self.done
    }

    /// Take in a chunk of the body. Returns the payloads that it completes.
    pub fn feed(&mut self, chunk: &Vec<u8>) -> (r: Vec<String>)
        ensures
            views(r@) == old(self)@.fed(chunk@).data,
            final(self)@ == old(self)@.fed(chunk@).reader,
    {
        broadcast use {lemma_views_push, lemma_views_add};

        let mut out: Vec<String> = Vec::new();
        assert(views(out@) =~= Seq::empty());
        if self.done {
            return out;
        }
        let ghost all = self.held@ + chunk@;
        let mut k: usize = 0;
        while k < chunk.len()
            invariant
                k <= chunk@.len(),
                self.held@ + chunk@.skip(k as int) == all,
                !self.done,
            decreases chunk@.len() - k,
        {
            self.held.push(chunk[k]);
            assert(self.held@ + chunk@.skip(k + 1) =~= all);
            k += 1;
        }
        assert(self.held@ =~= all);
        let mut i: usize = newline(&self.held);
        while i < self.held.len()
            invariant
                all == old(self)@.held + chunk@,
                !old(self)@.done,
                i == newline_in(self.held@),
                scanned(all).data == views(out@) + scanned(self.held@).data,
                scanned(all).reader == scanned(self.held@).reader,
                !self.done,
            decreases self.held@.len(),
        {
            let ghost whole = self.held@;
            let ghost before = views(out@);
            let rest = self.held.split_off(i + 1);
            let line = read_line_bytes(&self.held);
            assert(self.held@ =~= whole.take(i + 1));
            assert(rest@ =~= whole.skip(i + 1));
            self.held = rest;
            match line {
                Line::Done => {
                    self.done = true;
                    self.held = Vec::new();
                    assert(views(out@) =~= scanned(all).data);
                    return out;
                },
                Line::Skip => {},
                Line::Data(text) => {
                    out.push(text);
                    assert(views(out@) + scanned(rest@).data =~= before + scanned(whole).data);
                },
            }
            i = newline(&self.held);
        }
        assert(views(out@) =~= scanned(all).data);
        out
    }
}

/// The error for a body that could not be read to its end.
pub open spec fn read_error(message: Seq<char>) -> ErrorModel {
    ErrorModel::Provider("stream read: "@ + message)
}

/// The error for a body that could not be read to its end.
pub fn read_failed(message: &str) -> (r: Error)
    ensures
        r@ == read_error(message@),
{
    Error::Provider(cat2("stream read: ", message))
}

/// Reading `a + b` is reading `a`, and then `b` behind what `a` left over.
proof fn lemma_scan_split(a: Seq<u8>, b: Seq<u8>)
    ensures
        ({
            let first = scanned(a);
            let second = first.reader.fed(b);
            scanned(a + b) == (Reading {
                data: first.data + second.data,
                reader: second.reader,
            })
        }),
    decreases a.len(),
{
    let i = newline_in(a);
    lemma_newline_in(a);
    let first = scanned(a);
    let second = first.reader.fed(b);
    if i >= a.len() {
        assert(first.data + second.data =~= second.data);
    } else {
        lemma_newline_in(a + b);
        let j = newline_in(a + b);
        assert(j == i) by {
            assert((a + b)[i] == 10);
            if j < i {
                assert((a + b)[j] == a[j]);
            }
        }
        assert((a + b).take(i + 1) =~= a.take(i + 1));
        assert((a + b).skip(i + 1) =~= a.skip(i + 1) + b);
        lemma_scan_split(a.skip(i + 1), b);
        match line_says(lossy_text(a.take(i + 1))) {
            LineModel::Done => {
                assert(first.data + second.data =~= Seq::empty());
            },
            LineModel::Skip => {},
            LineModel::Data(text) => {
                assert(scanned(a + b).data =~= first.data + second.data);
            },
        }
    }
}

/// Where the body is cut into chunks makes no difference: two chunks give what the
/// joined chunk gives.
pub proof fn law_chunks_join(r: ReaderModel, a: Seq<u8>, b: Seq<u8>)
    ensures
        r.fed(a + b) == (Reading {
            data: r.fed(a).data + r.fed(a).reader.fed(b).data,
            reader: r.fed(a).reader.fed(b).reader,
        }),
{
    if r.done {
        assert(r.fed(a).data + r.fed(a).reader.fed(b).data =~= Seq::empty());
    } else {
        assert(r.held + (a + b) =~= (r.held + a) + b);
        lemma_scan_split(r.held + a, b);
    }
}

/// Chunks put together.
pub open spec fn joined_chunks(chunks: Seq<Seq<u8>>) -> Seq<u8>
    decreases chunks.len(),
{
    if chunks.len() == 0 {
        Seq::empty()
    } else {
        joined_chunks(chunks.drop_last()) + chunks.last()
    }
}

/// However a body is cut into chunks, the payloads read from it are those of the
/// whole body.
pub proof fn law_chunking(chunks: Seq<Seq<u8>>)
    ensures
        ReaderModel::fresh().fed_all(chunks) == ReaderModel::fresh().fed(joined_chunks(chunks)),
    decreases chunks.len(),
{
    let fresh = ReaderModel::fresh();
    if chunks.len() == 0 {
        assert(fresh.held + joined_chunks(chunks) =~= Seq::empty());
        assert(fresh.fed(joined_chunks(chunks)) =~= fresh.fed_all(chunks));
    } else {
        law_chunking(chunks.drop_last());
        law_chunks_join(fresh, joined_chunks(chunks.drop_last()), chunks.last());
    }
}

/// Once the stream has ended, no further chunk yields anything.
pub proof fn law_nothing_after_done(r: ReaderModel, chunk: Seq<u8>)
    requires
        r.done,
    ensures
        r.fed(chunk) == (Reading { data: Seq::empty(), reader: r }),
{
}

} // verus!
