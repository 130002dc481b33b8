//! Transcript of one container's log stream.

use std::collections::VecDeque;

use vstd::prelude::*;
use vstd::utf8::{encode_scalar, encode_utf8};

use crate::proto::LogStream;
use crate::text::{
    byte_seqs, from_utf8_lossy, lemma_split_has_pieces, split_bytes, split_on, utf8_lossy,
};

verus! {

/// Rolling cap on the transcript. Past it the oldest line is dropped on each
/// append.
pub const MAX_LOG_LINES: usize = 10_000;

/// Lines that page-up and page-down scroll by.
pub const LOGS_PAGE_LINES: usize = 10;

/// One assembled log line.
#[derive(Debug, Clone)]
pub struct LogLine {
    pub stream: LogStream,
    pub text: String,
}

/// [`LogLine`] with its text as a sequence of characters.
pub ghost struct LogLineView {
    pub stream: LogStream,
    pub text: Seq<char>,
}

impl View for LogLine {
    type V = LogLineView;

    open spec fn view(&self) -> LogLineView {
        LogLineView { stream: self.stream, text: self.text@ }
    }
}

/// A log stream being followed.
#[derive(Debug)]
pub struct LogsView {
    pub container_id: String,
    /// Display name, fixed when the view was opened.
    pub container_name: String,
    pub sub_id: u64,
    /// Assembled lines, newest at the back.
    pub lines: VecDeque<LogLine>,
    /// Bytes behind the last line end of each stream. They are kept apart so
    /// that an unfinished line is not broken by the other stream.
    pub pending_stdout: Vec<u8>,
    pub pending_stderr: Vec<u8>,
    /// Lines between the tail and the bottom of the visible window.
    pub scroll_offset: usize,
    /// New lines scroll into view as they arrive.
    pub at_tail: bool,
    /// Why the stream ended, if it did.
    pub stream_ended: Option<String>,
}

/// [`LogsView`] with its contents as sequences.
#[verifier::ext_equal]
pub ghost struct LogsModel {
    pub container_id: Seq<char>,
    pub container_name: Seq<char>,
    pub sub_id: u64,
    pub lines: Seq<LogLineView>,
    pub pending_stdout: Seq<u8>,
    pub pending_stderr: Seq<u8>,
    pub scroll_offset: int,
    pub at_tail: bool,
    pub stream_ended: Option<Seq<char>>,
}

/// The views of a list of lines.
pub open spec fn line_views(lines: Seq<LogLine>) -> Seq<LogLineView> {
    lines.map_values(|l: LogLine| l@)
}

impl View for LogsView {
    type V = LogsModel;

    open spec fn view(&self) -> LogsModel {
        LogsModel {
            container_id: self.container_id@,
            container_name: self.container_name@,
            sub_id: self.sub_id,
            lines: line_views(self.lines@),
            pending_stdout: self.pending_stdout@,
            pending_stderr: self.pending_stderr@,
            scroll_offset: self.scroll_offset as int,
            at_tail: self.at_tail,
            stream_ended: match self.stream_ended {
                Some(reason) => Some(reason@),
                None => None,
            },
        }
    }
}

/// A line without the carriage return that ends it.
pub open spec fn strip_cr(line: Seq<u8>) -> Seq<u8> {
    if line.len() > 0 && line.last() == 0x0d {
        line.drop_last()
    } else {
        line
    }
}

/// The newest [`MAX_LOG_LINES`] of `lines`.
pub open spec fn keep_newest(lines: Seq<LogLineView>) -> Seq<LogLineView> {
    if lines.len() <= MAX_LOG_LINES {
        lines
    } else {
        lines.skip(lines.len() - MAX_LOG_LINES)
    }
}

/// The finished lines of a byte buffer.
pub open spec fn finished_lines(stream: LogStream, buf: Seq<u8>) -> Seq<LogLineView> {
    split_on(buf, 0x0au8).drop_last().map_values(
        |line: Seq<u8>| LogLineView { stream, text: utf8_lossy(strip_cr(line)) },
    )
}

/// What follows the last line end of a byte buffer.
pub open spec fn unfinished_line(buf: Seq<u8>) -> Seq<u8> {
    split_on(buf, 0x0au8).last()
}

/// Unfinished bytes as the last line of their stream.
pub open spec fn tail_line(stream: LogStream, pending: Seq<u8>) -> Seq<LogLineView> {
    if pending.len() == 0 {
        Seq::empty()
    } else {
        seq![LogLineView { stream, text: utf8_lossy(pending) }]
    }
}

impl LogsModel {
    /// An empty transcript at the tail.
    pub open spec fn open(container_id: Seq<char>, container_name: Seq<char>, sub_id: u64) -> LogsModel {
        LogsModel {
            container_id,
            container_name,
            sub_id,
            lines: Seq::empty(),
            pending_stdout: Seq::empty(),
            pending_stderr: Seq::empty(),
            scroll_offset: 0,
            at_tail: true,
            stream_ended: None,
        }
    }

    /// The transcript is within its cap and the window within the transcript.
    pub open spec fn wf(self) -> bool {
        &&& self.lines.len() <= MAX_LOG_LINES
        &&& 0 <= self.scroll_offset
        &&& self.scroll_offset <= if self.lines.len() == 0 { 0 } else { self.lines.len() - 1 }
    }

    /// The unfinished bytes of a stream.
    pub open spec fn pending(self, stream: LogStream) -> Seq<u8> {
        match stream {
            LogStream::Stdout => self.pending_stdout,
            LogStream::Stderr => self.pending_stderr,
        }
    }

    /// A chunk arrives: its finished lines join the transcript, the rest
    /// waits for the next chunk of the same stream.
    pub open spec fn ingest(self, stream: LogStream, data: Seq<u8>) -> LogsModel {
        let buf = self.pending(stream) + data;
        let lines = keep_newest(self.lines + finished_lines(stream, buf));
        match stream {
            LogStream::Stdout => LogsModel { lines, pending_stdout: unfinished_line(buf), ..self },
            LogStream::Stderr => LogsModel { lines, pending_stderr: unfinished_line(buf), ..self },
        }
    }

    /// Scroll toward older lines. Following stops.
    pub open spec fn scroll_up(self, n: int) -> LogsModel {
        let limit = if self.lines.len() == 0 { 0 } else { self.lines.len() - 1 };
        let offset = if self.scroll_offset + n > limit { limit } else { self.scroll_offset + n };
        LogsModel { scroll_offset: offset, at_tail: false, ..self }
    }

    /// Scroll toward newer lines. Back at the tail, following resumes.
    pub open spec fn scroll_down(self, n: int) -> LogsModel {
        let offset = if self.scroll_offset < n { 0 } else { self.scroll_offset - n };
        LogsModel { scroll_offset: offset, at_tail: self.at_tail || offset == 0, ..self }
    }

    /// Back to the tail.
    pub open spec fn jump_to_tail(self) -> LogsModel {
        LogsModel { scroll_offset: 0, at_tail: true, ..self }
    }

    /// The stream ended: unfinished lines join the transcript, stdout first.
    pub open spec fn end_stream(self, reason: Seq<char>) -> LogsModel {
        LogsModel {
            lines: keep_newest(
                keep_newest(self.lines + tail_line(LogStream::Stdout, self.pending_stdout))
                    + tail_line(LogStream::Stderr, self.pending_stderr),
            ),
            pending_stdout: Seq::empty(),
            pending_stderr: Seq::empty(),
            at_tail: false,
            stream_ended: Some(reason),
            ..self
        }
    }
}

fn without_cr(line: &Vec<u8>) -> (r: &[u8])
    ensures
        r@ == strip_cr(line@),
{
    let n: usize = line.len();
    if n > 0 && line[n - 1] == 0x0d {
        let r = vstd::slice::slice_subrange(line.as_slice(), 0, n - 1);
        assert(r@ =~= line@.drop_last());
        r
    } else {
        line.as_slice()
    }
}

impl LogsView {
    /// An empty transcript at the tail.
    pub fn new(container_id: String, container_name: String, sub_id: u64) -> (l: LogsView)
        ensures
            l@ == LogsModel::open(container_id@, container_name@, sub_id),
            l@.wf(),
    {
        let l = LogsView {
            container_id,
            container_name,
            sub_id,
            lines: VecDeque::new(),
            pending_stdout: Vec::new(),
            pending_stderr: Vec::new(),
            scroll_offset: 0,
            at_tail: true,
            stream_ended: None,
        };
        assert(l@ =~= LogsModel::open(container_id@, container_name@, sub_id));
        l
    }

    /// Absorbs a chunk of one stream.
    pub fn ingest(&mut self, stream: LogStream, data: &[u8])
        requires
            old(self)@.wf(),
        ensures
            final(self)@ == old(self)@.ingest(stream, data@),
            final(self)@.wf(),
            forall|t: Seq<char>|
                old(self)@.pending(stream) + data@ == #[trigger] encode_utf8(t) + seq![0x0au8]
                    && !t.contains('\n') && (t.len() == 0 || t.last() != '\r')
                    ==> final(self)@.pending(stream) == Seq::<u8>::empty() && final(self)@.lines
                    == (if old(self)@.lines.len() < 10_000 {
                    old(self)@.lines
                } else {
                    old(self)@.lines.drop_first()
                }).push(LogLineView { stream, text: t }),
    {
        let ghost before = self@;
        let ghost buf_model = before.pending(stream) + data@;
        let mut buf: Vec<u8> = Vec::new();
        match stream {
            LogStream::Stdout => {
                std::mem::swap(&mut buf, &mut self.pending_stdout);
            },
            LogStream::Stderr => {
                std::mem::swap(&mut buf, &mut self.pending_stderr);
            },
        }
        buf.extend_from_slice(data);
        assert(buf@ =~= buf_model);
        let mut pieces: Vec<Vec<u8>> = split_bytes(buf.as_slice(), 0x0a);
        proof {
            lemma_split_has_pieces(buf_model, 0x0au8);
            assert(byte_seqs(pieces@).len() == pieces@.len());
        }
        let ghost all = pieces@;
        let rest: Vec<u8> = match pieces.pop() {
            Some(rest) => rest,
            None => Vec::new(),
        };
        proof {
            assert(rest@ == unfinished_line(buf_model)) by {
                assert(byte_seqs(all).last() == all.last()@);
            }
            assert(byte_seqs(pieces@) =~= split_on(buf_model, 0x0au8).drop_last());
        }
        match stream {
            LogStream::Stdout => {
                self.pending_stdout = rest;
            },
            LogStream::Stderr => {
                self.pending_stderr = rest;
            },
        }
        let ghost target = before.ingest(stream, data@);
        let ghost fresh = finished_lines(stream, buf_model);
        let n: usize = pieces.len();
        let mut i: usize = 0;
        assert(fresh.take(0) =~= Seq::empty());
        assert(before.lines + fresh.take(0) =~= before.lines);
        while i < n
            invariant
                n == pieces@.len(),
                0 <= i <= n,
                byte_seqs(pieces@) == split_on(buf_model, 0x0au8).drop_last(),
                fresh == finished_lines(stream, buf_model),
                fresh.len() == n,
                self@ == (LogsModel {
                    lines: keep_newest(before.lines + fresh.take(i as int)),
                    ..target
                }),
                before.lines.len() <= MAX_LOG_LINES,
                forall|k: int, t: Seq<char>|
                    0 <= k < i && strip_cr(split_on(buf_model, 0x0au8)[k])
                        == #[trigger] encode_utf8(t) ==> (#[trigger] fresh[k]).text == t,
            decreases n - i,
        {
            let ghost prior = before.lines + fresh.take(i as int);
            let text = from_utf8_lossy(without_cr(&pieces[i]));
            let line = LogLine { stream, text };
            proof {
                assert(byte_seqs(pieces@)[i as int] == pieces@[i as int]@);
                assert(split_on(buf_model, 0x0au8)[i as int] == pieces@[i as int]@);
                assert(line@ == fresh[i as int]);
                assert(before.lines + fresh.take(i as int + 1) =~= prior.push(line@));
                lemma_keep_newest_push(prior, line@);
            }
            self.push_line(line);
            i += 1;
        }
        assert(fresh.take(n as int) =~= fresh);
        assert(self@ =~= target);
        proof {
            assert forall|t: Seq<char>|
                before.pending(stream) + data@ == #[trigger] encode_utf8(t) + seq![0x0au8]
                    && !t.contains('\n') && (t.len() == 0 || t.last() != '\r') implies self@.pending(
                stream,
            ) == Seq::<u8>::empty() && self@.lines == (if before.lines.len() < 10_000 {
                before.lines
            } else {
                before.lines.drop_first()
            }).push(LogLineView { stream, text: t }) by {
                lemma_one_line(before, stream, t, Seq::empty());
                assert(encode_utf8(t) + Seq::<u8>::empty() + seq![0x0au8] =~= buf_model);
                assert(fresh[0].text == t);
                assert(fresh =~= seq![LogLineView { stream, text: t }]);
                assert(self@.lines =~= (if before.lines.len() < 10_000 {
                    before.lines
                } else {
                    before.lines.drop_first()
                }).push(LogLineView { stream, text: t }));
            }
        }
    }

    fn push_line(&mut self, line: LogLine)
        requires
            old(self)@.lines.len() <= MAX_LOG_LINES,
        ensures
            final(self)@ == (LogsModel {
                lines: keep_newest(old(self)@.lines.push(line@)),
                ..old(self)@
            }),
    {
        let ghost before = self@;
        if self.lines.len() >= MAX_LOG_LINES {
            let _dropped = self.lines.pop_front();
        }
        self.lines.push_back(line);
        assert(self@.lines =~= keep_newest(before.lines.push(line@)));
    }

    /// Moves the window `n` lines toward older lines, as far as there are any.
    /// Following stops.
    pub fn scroll_up(&mut self, n: usize)
        requires
            old(self)@.wf(),
            old(self).scroll_offset + n <= usize::MAX,
        ensures
            final(self)@ == old(self)@.scroll_up(n as int),
            final(self)@.wf(),
    {
        let len: usize = self.lines.len();
        let limit: usize = if len == 0 {
            0
        } else {
            len - 1
        };
        let wanted: usize = self.scroll_offset + n;
        self.scroll_offset = if wanted > limit {
            limit
        } else {
            wanted
        };
        self.at_tail = false;
    }

    /// Moves the window `n` lines toward newer lines. At the tail, following
    /// resumes.
    pub fn scroll_down(&mut self, n: usize)
        requires
            old(self)@.wf(),
        ensures
            final(self)@ == old(self)@.scroll_down(n as int),
            final(self)@.wf(),
    {
        self.scroll_offset = if self.scroll_offset < n {
            0
        } else {
            self.scroll_offset - n
        };
        if self.scroll_offset == 0 {
            self.at_tail = true;
        }
    }

    /// Back to the tail, following again.
    pub fn jump_to_tail(&mut self)
        requires
            old(self)@.wf(),
        ensures
            final(self)@ == old(self)@.jump_to_tail(),
            final(self)@.wf(),
    {
        self.scroll_offset = 0;
        self.at_tail = true;
    }

    /// The stream ended for `reason`.
    pub fn end_stream(&mut self, reason: String)
        requires
            old(self)@.wf(),
        ensures
            final(self)@ == old(self)@.end_stream(reason@),
            final(self)@.wf(),
            forall|t: Seq<char>|
                old(self)@.lines.len() + 2 <= 10_000 && t.len() > 0 && old(self)@.pending_stdout
                    == #[trigger] encode_utf8(t) ==> final(self)@.lines[old(self)@.lines.len() as int]
                    == (LogLineView { stream: LogStream::Stdout, text: t }),
            forall|t: Seq<char>|
                old(self)@.lines.len() + 2 <= 10_000 && t.len() > 0 && old(self)@.pending_stderr
                    == #[trigger] encode_utf8(t) ==> final(self)@.lines.last() == (LogLineView {
                    stream: LogStream::Stderr,
                    text: t,
                }),
    {
        let ghost before = self@;
        let mut out_tail: Vec<u8> = Vec::new();
        std::mem::swap(&mut out_tail, &mut self.pending_stdout);
        let mut err_tail: Vec<u8> = Vec::new();
        std::mem::swap(&mut err_tail, &mut self.pending_stderr);
        let ghost first = tail_line(LogStream::Stdout, before.pending_stdout);
        let ghost second = tail_line(LogStream::Stderr, before.pending_stderr);
        if out_tail.len() > 0 {
            let line = LogLine {
                stream: LogStream::Stdout,
                text: from_utf8_lossy(out_tail.as_slice()),
            };
            assert(before.lines.push(line@) =~= before.lines + first);
            self.push_line(line);
        } else {
            assert(before.lines + first =~= before.lines);
        }
        let ghost middle = keep_newest(before.lines + first);
        assert(self@.lines == middle);
        if err_tail.len() > 0 {
            let line = LogLine {
                stream: LogStream::Stderr,
                text: from_utf8_lossy(err_tail.as_slice()),
            };
            assert(middle.push(line@) =~= middle + second);
            self.push_line(line);
        } else {
            assert(middle + second =~= middle);
        }
        self.stream_ended = Some(reason);
        self.at_tail = false;
        assert(self@ =~= before.end_stream(reason@));
        proof {
            assert forall|t: Seq<char>| t.len() > 0 implies (#[trigger] encode_utf8(t)).len() > 0 by {
                lemma_char_bytes(t[0]);
            }
        }
    }
}

/// The bytes of a character: its own number where that is below 128, and
/// otherwise none below it.
proof fn lemma_char_bytes(x: char)
    ensures
        x as u32 == x,
        encode_scalar(x as u32).len() > 0,
        x as u32 >= 0x80 ==> forall|i: int|
            0 <= i < encode_scalar(x as u32).len() ==> (#[trigger] encode_scalar(x as u32)[i])
                >= 0x80,
        (x as u32) < 0x80 ==> encode_scalar(x as u32).len() == 1 && encode_scalar(x as u32)[0] == x,
{
    let c: u32 = x as u32;
    assert(c == x);
    vstd::utf8::char_is_scalar(x);
    assert(c < 0x80 ==> ((c & 0x7F) as u8) == c) by (bit_vector);
    assert((0xC0u8 | (((c >> 6) & 0x1F) as u8)) >= 0x80u8) by (bit_vector);
    assert((0xE0u8 | (((c >> 12) & 0x0F) as u8)) >= 0x80u8) by (bit_vector);
    assert((0xF0u8 | (((c >> 18) & 0x7) as u8)) >= 0x80u8) by (bit_vector);
    assert((0x80u8 | ((c & 0x3F) as u8)) >= 0x80u8) by (bit_vector);
    assert((0x80u8 | (((c >> 6) & 0x3F) as u8)) >= 0x80u8) by (bit_vector);
    assert((0x80u8 | (((c >> 12) & 0x3F) as u8)) >= 0x80u8) by (bit_vector);
}

/// A text without a line feed is written without its byte, and the byte of a
/// carriage return ends it only where the character does.
pub proof fn lemma_line_bytes(t: Seq<char>)
    requires
        !t.contains('\n'),
    ensures
        !encode_utf8(t).contains(0x0au8),
        encode_utf8(t).len() > 0 <==> t.len() > 0,
        t.len() > 0 ==> (encode_utf8(t).last() == 0x0d <==> t.last() == '\r'),
    decreases t.len(),
{
    if t.len() > 0 {
        let rest = t.drop_first();
        let x: char = t[0];
        let head = encode_scalar(x as u32);
        lemma_char_bytes(x);
        assert(t.contains(t[0]));
        assert forall|x: char| rest.contains(x) implies t.contains(x) by {
            let k = choose|k: int| 0 <= k < rest.len() && rest[k] == x;
            assert(t[k + 1] == x);
        }
        lemma_line_bytes(rest);
        let all = encode_utf8(t);
        assert(all == head + encode_utf8(rest));
        assert forall|i: int| 0 <= i < all.len() implies all[i] != 0x0a by {
            if i < head.len() {
                assert(all[i] == head[i]);
            } else {
                assert(all[i] == encode_utf8(rest)[i - head.len()]);
                assert(encode_utf8(rest).contains(all[i]));
            }
        }
        if rest.len() > 0 {
            assert(all.last() == encode_utf8(rest).last());
            assert(t.last() == rest.last());
        } else {
            assert(encode_utf8(rest) =~= Seq::empty());
            assert(all =~= head);
            assert(all.last() == head[head.len() - 1]);
        }
    }
}

/// Bytes without the separator are one piece.
pub proof fn lemma_one_piece<T>(s: Seq<T>, sep: T)
    requires
        !s.contains(sep),
    ensures
        split_on(s, sep) == seq![s],
    decreases s.len(),
{
    if s.len() > 0 {
        let front = s.drop_last();
        assert forall|x: T| front.contains(x) implies s.contains(x) by {
            let k = choose|k: int| 0 <= k < front.len() && front[k] == x;
            assert(s[k] == x);
        }
        lemma_one_piece(front, sep);
        assert(s[s.len() - 1] == s.last());
        assert(s.last() != sep);
        assert(front.push(s.last()) =~= s);
        let pieces = split_on(front, sep);
        assert(pieces.last() == front);
        assert(pieces.drop_last().push(s) =~= seq![s]);
    } else {
        assert(s =~= Seq::empty());
    }
}

/// A buffer that holds one line and its end.
proof fn lemma_one_line(m: LogsModel, stream: LogStream, t: Seq<char>, cr: Seq<u8>)
    requires
        !t.contains('\n'),
        t.len() == 0 || t.last() != '\r',
        cr == Seq::<u8>::empty() || cr == seq![0x0du8],
    ensures
        ({
            let buf = encode_utf8(t) + cr + seq![0x0au8];
            &&& split_on(buf, 0x0au8) == seq![encode_utf8(t) + cr, Seq::empty()]
            &&& strip_cr(encode_utf8(t) + cr) == encode_utf8(t)
            &&& finished_lines(stream, buf) == seq![
                LogLineView { stream, text: utf8_lossy(encode_utf8(t)) },
            ]
            &&& unfinished_line(buf) == Seq::<u8>::empty()
        }),
{
    let line = encode_utf8(t) + cr;
    let buf = line + seq![0x0au8];
    lemma_line_bytes(t);
    assert forall|i: int| 0 <= i < line.len() implies line[i] != 0x0a by {
        if i < encode_utf8(t).len() {
            assert(encode_utf8(t).contains(line[i]));
        }
    }
    lemma_one_piece(line, 0x0au8);
    assert(buf.drop_last() =~= line);
    assert(split_on(buf, 0x0au8) =~= seq![line, Seq::empty()]);
    assert(strip_cr(line) =~= encode_utf8(t)) by {
        if cr.len() > 0 {
            assert(line.drop_last() =~= encode_utf8(t));
        } else {
            assert(line =~= encode_utf8(t));
        }
    }
    assert(finished_lines(stream, buf) =~= seq![
        LogLineView { stream, text: utf8_lossy(encode_utf8(t)) },
    ]);
}

/// A line is kept as it was written, however long it is: the UTF-8 of a text
/// and a line end, `LF` or `CR LF`, become one line of the transcript with
/// that text. Only from a full transcript does the oldest line go.
pub proof fn a_line_is_kept_as_it_was_written(
    m: LogsModel,
    stream: LogStream,
    t: Seq<char>,
    data: Seq<u8>,
)
    requires
        m.wf(),
        m.pending(stream) == Seq::<u8>::empty(),
        !t.contains('\n'),
        t.len() == 0 || t.last() != '\r',
        data == encode_utf8(t) + seq![0x0au8] || data == encode_utf8(t) + seq![0x0du8, 0x0au8],
    ensures
        m.ingest(stream, data) == (LogsModel {
            lines: (if m.lines.len() < 10_000 {
                m.lines
            } else {
                m.lines.drop_first()
            }).push(LogLineView { stream, text: utf8_lossy(encode_utf8(t)) }),
            ..m
        }),
        utf8_lossy(encode_utf8(t)) == t ==> m.ingest(stream, data).lines.last() == (LogLineView {
            stream,
            text: t,
        }),
{
    let cr: Seq<u8> = if data == encode_utf8(t) + seq![0x0au8] {
        Seq::empty()
    } else {
        seq![0x0du8]
    };
    lemma_one_line(m, stream, t, cr);
    assert(m.pending(stream) + data =~= encode_utf8(t) + cr + seq![0x0au8]);
    assert(m.ingest(stream, data) =~= LogsModel {
        lines: (if m.lines.len() < 10_000 {
            m.lines
        } else {
            m.lines.drop_first()
        }).push(LogLineView { stream, text: utf8_lossy(encode_utf8(t)) }),
        ..m
    });
}

/// Every line of bytes is kept, be it well formed or not: up to its line feed,
/// without a carriage return at its end, as the lossy reading has it.
pub proof fn every_line_of_bytes_is_kept(m: LogsModel, stream: LogStream, line: Seq<u8>)
    requires
        m.wf(),
        m.lines.len() < 10_000,
        !(m.pending(stream) + line).contains(0x0au8),
    ensures
        ({
            let whole = m.pending(stream) + line;
            let kept = if whole.len() > 0 && whole[whole.len() - 1] == 0x0d {
                whole.subrange(0, whole.len() - 1)
            } else {
                whole
            };
            let after = m.ingest(stream, line + seq![0x0au8]);
            &&& after.lines == m.lines.push(LogLineView { stream, text: utf8_lossy(kept) })
            &&& after.pending(stream).len() == 0
        }),
{
    let whole = m.pending(stream) + line;
    let buf = m.pending(stream) + (line + seq![0x0au8]);
    assert(buf =~= whole + seq![0x0au8]);
    lemma_one_piece(whole, 0x0au8);
    assert(buf.drop_last() =~= whole);
    assert(split_on(buf, 0x0au8) =~= seq![whole, Seq::empty()]);
    if whole.len() > 0 {
        assert(whole.drop_last() =~= whole.subrange(0, whole.len() - 1));
    }
    let text = utf8_lossy(strip_cr(whole));
    assert(finished_lines(stream, buf) =~= seq![LogLineView { stream, text }]);
    assert(m.lines + seq![LogLineView { stream, text }] =~= m.lines.push(
        LogLineView { stream, text },
    ));
}

/// A transcript holds its newest ten thousand lines.
pub proof fn the_newest_lines_are_kept(lines: Seq<LogLineView>, i: int)
    ensures
        lines.len() <= 10_000 ==> keep_newest(lines) == lines,
        lines.len() > 10_000 ==> keep_newest(lines).len() == 10_000,
        lines.len() > 10_000 && 0 <= i < 10_000 ==> keep_newest(lines)[i] == lines[lines.len()
            - 10_000 + i],
{
}

/// Bytes without a line end wait for one: no line is added, and they stand
/// behind those of the same stream that wait already.
pub proof fn an_unfinished_line_waits(m: LogsModel, stream: LogStream, data: Seq<u8>)
    requires
        m.wf(),
        !m.pending(stream).contains(0x0au8),
        !data.contains(0x0au8),
    ensures
        m.ingest(stream, data).lines == m.lines,
        m.ingest(stream, data).pending(stream) == m.pending(stream) + data,
        m.ingest(stream, data).scroll_offset == m.scroll_offset,
        m.ingest(stream, data).at_tail == m.at_tail,
        m.ingest(stream, data).stream_ended == m.stream_ended,
{
    let buf = m.pending(stream) + data;
    assert forall|i: int| 0 <= i < buf.len() implies buf[i] != 0x0a by {
        if i < m.pending(stream).len() {
            assert(m.pending(stream).contains(buf[i]));
        } else {
            assert(data[i - m.pending(stream).len()] == buf[i]);
            assert(data.contains(buf[i]));
        }
    }
    lemma_one_piece(buf, 0x0au8);
    assert(finished_lines(stream, buf) =~= Seq::empty());
    assert(m.lines + finished_lines(stream, buf) =~= m.lines);
}

/// What still waits when a stream ends is not lost: stdout's comes first, then
/// stderr's, each as a line of its own, and nothing waits any longer.
pub proof fn the_end_of_a_stream_loses_nothing(
    m: LogsModel,
    out: Seq<char>,
    err: Seq<char>,
    reason: Seq<char>,
)
    requires
        m.lines.len() + 2 <= 10_000,
        m.pending_stdout == encode_utf8(out),
        m.pending_stderr == encode_utf8(err),
        !out.contains('\n'),
        !err.contains('\n'),
    ensures
        ({
            let first = LogLineView {
                stream: LogStream::Stdout,
                text: utf8_lossy(encode_utf8(out)),
            };
            let second = LogLineView {
                stream: LogStream::Stderr,
                text: utf8_lossy(encode_utf8(err)),
            };
            m.end_stream(reason) == (LogsModel {
                lines: if out.len() > 0 && err.len() > 0 {
                    m.lines.push(first).push(second)
                } else if out.len() > 0 {
                    m.lines.push(first)
                } else if err.len() > 0 {
                    m.lines.push(second)
                } else {
                    m.lines
                },
                pending_stdout: Seq::empty(),
                pending_stderr: Seq::empty(),
                at_tail: false,
                stream_ended: Some(reason),
                ..m
            })
        }),
{
    lemma_line_bytes(out);
    lemma_line_bytes(err);
    let first = LogLineView { stream: LogStream::Stdout, text: utf8_lossy(encode_utf8(out)) };
    let second = LogLineView { stream: LogStream::Stderr, text: utf8_lossy(encode_utf8(err)) };
    assert(m.lines + Seq::<LogLineView>::empty() =~= m.lines);
    assert(m.lines + seq![first] =~= m.lines.push(first));
    assert(m.lines.push(first) + Seq::<LogLineView>::empty() =~= m.lines.push(first));
    assert(m.lines + seq![second] =~= m.lines.push(second));
    assert(m.lines.push(first) + seq![second] =~= m.lines.push(first).push(second));
}

/// Scrolling in numbers: up by as many lines as asked for, but no further
/// than the oldest, and no longer following; down by as many, but no further
/// than the tail, where following resumes.
pub proof fn scrolling_moves_by_lines(m: LogsModel, n: int)
    requires
        m.wf(),
        n >= 0,
    ensures
        m.scroll_offset + n < m.lines.len() ==> m.scroll_up(n).scroll_offset == m.scroll_offset + n,
        m.lines.len() > 0 && m.scroll_offset + n >= m.lines.len() ==> m.scroll_up(n).scroll_offset
            == m.lines.len() - 1,
        !m.scroll_up(n).at_tail,
        n <= m.scroll_offset ==> m.scroll_down(n).scroll_offset == m.scroll_offset - n,
        n >= m.scroll_offset ==> m.scroll_down(n).scroll_offset == 0 && m.scroll_down(n).at_tail,
        n < m.scroll_offset ==> m.scroll_down(n).at_tail == m.at_tail,
        m.jump_to_tail().scroll_offset == 0 && m.jump_to_tail().at_tail,
        m.scroll_up(n).lines == m.lines && m.scroll_down(n).lines == m.lines
            && m.jump_to_tail().lines == m.lines,
{
}

/// Splitting a concatenation goes on from the last piece of its first part.
pub proof fn lemma_split_concat<T>(a: Seq<T>, b: Seq<T>, sep: T)
    ensures
        split_on(a + b, sep) == split_on(a, sep).drop_last() + split_on(
            split_on(a, sep).last() + b,
            sep,
        ),
    decreases a.len() + b.len(),
{
    let last = split_on(a, sep).last();
    lemma_split_has_pieces(a, sep);
    if b.len() == 0 {
        assert(a + b =~= a);
        assert(last + b =~= last);
        lemma_piece_does_not_split(a, sep);
        assert(split_on(a, sep) =~= split_on(a, sep).drop_last() + seq![last]);
    } else {
        lemma_split_concat(a, b.drop_last(), sep);
        assert((a + b).drop_last() =~= a + b.drop_last());
        assert((last + b).drop_last() =~= last + b.drop_last());
        lemma_split_has_pieces(last + b.drop_last(), sep);
        assert(split_on(a + b, sep) =~= split_on(a, sep).drop_last() + split_on(last + b, sep));
    }
}

/// The last piece holds no separator, so it is its own only piece.
proof fn lemma_piece_does_not_split<T>(s: Seq<T>, sep: T)
    ensures
        split_on(split_on(s, sep).last(), sep) == seq![split_on(s, sep).last()],
    decreases s.len(),
{
    if s.len() > 0 {
        lemma_split_has_pieces(s.drop_last(), sep);
        let before = split_on(s.drop_last(), sep).last();
        lemma_piece_does_not_split(s.drop_last(), sep);
        if s.last() != sep {
            let piece = before.push(s.last());
            assert(piece.drop_last() =~= before);
            assert(split_on(piece, sep) =~= seq![piece]);
        }
    }
}

proof fn lemma_keep_newest_push(lines: Seq<LogLineView>, line: LogLineView)
    ensures
        keep_newest(keep_newest(lines).push(line)) == keep_newest(lines.push(line)),
{
    assert(keep_newest(keep_newest(lines).push(line)) =~= keep_newest(lines.push(line)));
}

/// Where a stream is cut into chunks does not matter: absorbing two chunks
/// one after the other is absorbing them at once.
pub proof fn log_chunks_may_be_split(m: LogsModel, stream: LogStream, a: Seq<u8>, b: Seq<u8>)
    requires
        m.wf(),
    ensures
        m.ingest(stream, a).ingest(stream, b) == m.ingest(stream, a + b),
{
    let buf = m.pending(stream) + a;
    assert(buf + b =~= m.pending(stream) + (a + b));
    lemma_split_concat(buf, b, 0x0au8);
    lemma_split_has_pieces(buf, 0x0au8);
    lemma_split_has_pieces(unfinished_line(buf) + b, 0x0au8);
    let first = finished_lines(stream, buf);
    let second = finished_lines(stream, unfinished_line(buf) + b);
    let whole = finished_lines(stream, buf + b);
    assert(whole =~= first + second);
    assert(keep_newest(keep_newest(m.lines + first) + second) =~= keep_newest(m.lines + whole));
    assert(m.ingest(stream, a).ingest(stream, b) =~= m.ingest(stream, a + b));
}

/// The streams do not disturb each other: a chunk of one leaves the other's
/// unfinished line alone, and a line begun before it ends as if it had not
/// come.
pub proof fn streams_do_not_mix(m: LogsModel, stream: LogStream, other: LogStream, noise: Seq<u8>, data: Seq<u8>)
    requires
        stream != other,
    ensures
        m.ingest(other, noise).pending(stream) == m.pending(stream),
        m.ingest(other, noise).ingest(stream, data).pending(stream) == m.ingest(stream, data).pending(
            stream,
        ),
        finished_lines(stream, m.ingest(other, noise).pending(stream) + data) == finished_lines(
            stream,
            m.pending(stream) + data,
        ),
{
}

/// No operation breaks the cap or moves the window off the transcript.
pub proof fn transcript_stays_bounded(m: LogsModel, stream: LogStream, data: Seq<u8>, n: int, reason: Seq<char>)
    requires
        m.wf(),
        n >= 0,
    ensures
        m.ingest(stream, data).wf(),
        m.scroll_up(n).wf(),
        m.scroll_down(n).wf(),
        m.jump_to_tail().wf(),
        m.end_stream(reason).wf(),
{
}

/// Scrolling back down as far as one went up restores the window, where
/// following is on exactly at the tail. From inside the transcript that
/// needs the oldest line not to be passed.
pub proof fn scroll_down_undoes_scroll_up(m: LogsModel, n: int)
    requires
        m.wf(),
        n >= 0,
        m.scroll_offset == 0 || n == 0 || m.scroll_offset + n < m.lines.len(),
        m.at_tail <==> m.scroll_offset == 0,
    ensures
        m.scroll_up(n).scroll_down(n) == m,
{
}

} // verus!
