//! Turning the child's output bytes into log lines.
//!
//! The drain keeps, for each of the two output streams, the bytes of the line
//! that is not finished yet. Feeding it a chunk of bytes hands back the lines
//! that the chunk completes, in their order. Nothing is dropped and nothing is
//! delivered twice: the lines of a stream, each followed by a newline, and
//! then the unfinished rest, are the bytes that were fed on that stream.

use vstd::prelude::*;

verus! {

/// The byte that ends a line.
pub const NEWLINE: u8 = 10;

/// The stream a log line came from.
#[derive(Clone, Copy, Debug, PartialEq, Eq, Structural)]
pub enum LogSource {
    /// The child's standard output.
    Stdout,
    /// The child's standard error.
    Stderr,
}

/// One line of the child's output, without its newline.
#[derive(Clone, Debug, PartialEq, Eq)]
pub struct LogLine {
    /// The stream the line came from.
    pub source: LogSource,
    /// The bytes of the line.
    pub bytes: Vec<u8>,
}

/// A log line as a mathematical value.
pub struct LineModel {
    pub source: LogSource,
    pub bytes: Seq<u8>,
}

impl View for LogLine {
    type V = LineModel;

    open spec fn view(&self) -> LineModel {
        LineModel { source: self.source, bytes: self.bytes@ }
    }
}

impl DeepView for LogLine {
    type V = LineModel;

    open spec fn deep_view(&self) -> LineModel {
        self@
    }
}

/// The unfinished bytes of the two streams.
pub struct DrainModel {
    pub stdout_pending: Seq<u8>,
    pub stderr_pending: Seq<u8>,
}

impl DrainModel {
    /// The unfinished bytes of one stream.
    pub open spec fn pending(self, source: LogSource) -> Seq<u8> {
        match source {
            LogSource::Stdout => self.stdout_pending,
            LogSource::Stderr => self.stderr_pending,
        }
    }

    /// The same drain with other unfinished bytes for one stream.
    pub open spec fn with_pending(self, source: LogSource, bytes: Seq<u8>) -> DrainModel {
        match source {
            LogSource::Stdout => DrainModel { stdout_pending: bytes, ..self },
            LogSource::Stderr => DrainModel { stderr_pending: bytes, ..self },
        }
    }

    /// No unfinished line holds a newline.
    pub open spec fn wf(self) -> bool {
        &&& no_newline(self.stdout_pending)
        &&& no_newline(self.stderr_pending)
    }
}

/// No byte of `s` is a newline.
pub open spec fn no_newline(s: Seq<u8>) -> bool {
    forall|i: int| 0 <= i < s.len() ==> s[i] != NEWLINE
}

/// The unfinished bytes after `chunk` has followed the unfinished bytes
/// `pending`: what comes after the last newline of `chunk`, or, when `chunk`
/// has no newline, `pending` and `chunk` together.
pub open spec fn rest_after(pending: Seq<u8>, chunk: Seq<u8>) -> Seq<u8>
    decreases chunk.len(),
{
    if chunk.len() == 0 {
        pending
    } else if chunk.last() == NEWLINE {
        Seq::empty()
    } else {
        rest_after(pending, chunk.drop_last()).push(chunk.last())
    }
}

/// The lines that `chunk` completes when it follows the unfinished bytes
/// `pending`: one for each newline of `chunk`, in order, without the newline.
pub open spec fn lines_after(pending: Seq<u8>, chunk: Seq<u8>) -> Seq<Seq<u8>>
    decreases chunk.len(),
{
    if chunk.len() == 0 {
        Seq::empty()
    } else if chunk.last() == NEWLINE {
        lines_after(pending, chunk.drop_last()).push(rest_after(pending, chunk.drop_last()))
    } else {
        lines_after(pending, chunk.drop_last())
    }
}

/// The bytes of `lines` as they stood in the stream: each line followed by a
/// newline.
pub open spec fn joined(lines: Seq<Seq<u8>>) -> Seq<u8>
    decreases lines.len(),
{
    if lines.len() == 0 {
        Seq::empty()
    } else {
        joined(lines.drop_last()) + lines.last().push(NEWLINE)
    }
}

/// The lines `texts`, each marked as coming from `source`.
pub open spec fn tagged(source: LogSource, texts: Seq<Seq<u8>>) -> Seq<LineModel> {
    Seq::new(texts.len(), |i: int| LineModel { source, bytes: texts[i] })
}

/// What feeding `chunk` on stream `source` does to a drain: the drain
/// afterwards, and the lines handed out.
pub open spec fn feed_model(drain: DrainModel, source: LogSource, chunk: Seq<u8>) -> (
    DrainModel,
    Seq<LineModel>,
) {
    (
        drain.with_pending(source, rest_after(drain.pending(source), chunk)),
        tagged(source, lines_after(drain.pending(source), chunk)),
    )
}

/// The line that flushing one stream hands out: its unfinished bytes, if
/// there are any.
pub open spec fn flushed(source: LogSource, pending: Seq<u8>) -> Seq<LineModel> {
    if pending.len() == 0 {
        Seq::empty()
    } else {
        seq![LineModel { source, bytes: pending }]
    }
}

/// What the end of the streams hands out: the unfinished line of standard
/// output, then that of standard error.
pub open spec fn finish_model(drain: DrainModel) -> Seq<LineModel> {
    flushed(LogSource::Stdout, drain.stdout_pending) + flushed(
        LogSource::Stderr,
        drain.stderr_pending,
    )
}

/// Collects the output of one child into lines.
pub struct StreamDrain {
    stdout_pending: Vec<u8>,
    stderr_pending: Vec<u8>,
}

impl View for StreamDrain {
    type V = DrainModel;

    closed spec fn view(&self) -> DrainModel {
        DrainModel { stdout_pending: self.stdout_pending@, stderr_pending: self.stderr_pending@ }
    }
}

impl StreamDrain {
    /// A drain that has seen no output yet.
    pub fn new() -> (drain: StreamDrain)
        ensures
            drain@.stdout_pending == Seq::<u8>::empty(),
            drain@.stderr_pending == Seq::<u8>::empty(),
            drain@.wf(),
    {
        StreamDrain { stdout_pending: Vec::new(), stderr_pending: Vec::new() }
    }

    /// How many bytes of an unfinished line are held for `source`.
    pub fn pending_len(&self, source: LogSource) -> (n: usize)
        ensures
            n == self@.pending(source).len(),
    {
        match source {
            LogSource::Stdout => self.stdout_pending.len(),
            LogSource::Stderr => self.stderr_pending.len(),
        }
    }

    /// Takes the next bytes of stream `source` and hands back the lines that
    /// they complete, oldest first. The other stream is left alone.
    pub fn feed(&mut self, source: LogSource, chunk: &[u8]) -> (lines: Vec<LogLine>)
        ensures
            final(self)@ == feed_model(old(self)@, source, chunk@).0,
            lines.deep_view() == feed_model(old(self)@, source, chunk@).1,
            old(self)@.wf() ==> final(self)@.wf(),
    {
        let mut pending: Vec<u8> = Vec::new();
        match source {
            LogSource::Stdout => core::mem::swap(&mut pending, &mut self.stdout_pending),
            LogSource::Stderr => core::mem::swap(&mut pending, &mut self.stderr_pending),
        }
        let ghost start = pending@;
        let mut lines: Vec<LogLine> = Vec::new();
        let mut i: usize = 0;
        proof {
            assert(chunk@.take(0) =~= Seq::<u8>::empty());
            assert(lines.deep_view() =~= tagged(source, lines_after(start, chunk@.take(0))));
        }
        while i < chunk.len()
            invariant
                i <= chunk.len(),
                pending@ == rest_after(start, chunk@.take(i as int)),
                lines.deep_view() == tagged(source, lines_after(start, chunk@.take(i as int))),
            decreases chunk.len() - i,
        {
            let byte: u8 = chunk[i];
            let ghost seen = chunk@.take(i as int);
            let ghost before = lines.deep_view();
            proof {
                assert(chunk@.take(i + 1).drop_last() =~= seen);
                assert(chunk@.take(i + 1).last() == byte);
            }
            if byte == NEWLINE {
                let mut line: Vec<u8> = Vec::new();
                core::mem::swap(&mut line, &mut pending);
                lines.push(LogLine { source, bytes: line });
                proof {
                    let texts = lines_after(start, seen);
                    let grown = texts.push(rest_after(start, seen));
                    assert(lines.deep_view() =~= before.push(
                        LineModel { source, bytes: rest_after(start, seen) },
                    ));
                    assert(tagged(source, grown) =~= tagged(source, texts).push(
                        LineModel { source, bytes: rest_after(start, seen) },
                    ));
                }
            } else {
                pending.push(byte);
                proof {
                    assert(lines.deep_view() =~= before);
                }
            }
            i = i + 1;
        }
        proof {
            assert(chunk@.take(i as int) =~= chunk@);
            if old(self)@.wf() {
                lemma_feed_keeps_wf(old(self)@, source, chunk@);
            }
        }
        match source {
            LogSource::Stdout => {
                self.stdout_pending = pending;
            },
            LogSource::Stderr => {
                self.stderr_pending = pending;
            },
        }
        lines
    }

    /// Ends the streams: hands back what is left of an unfinished line on
    /// standard output, then on standard error. A stream that ended on a
    /// newline, or never wrote, gives nothing.
    pub fn finish(self) -> (lines: Vec<LogLine>)
        ensures
            lines.deep_view() == finish_model(self@),
    {
        let StreamDrain { stdout_pending, stderr_pending } = self;
        let ghost out = stdout_pending@;
        let ghost err = stderr_pending@;
        let mut lines: Vec<LogLine> = Vec::new();
        proof {
            assert(lines.deep_view() =~= Seq::<LineModel>::empty());
        }
        if stdout_pending.len() > 0 {
            lines.push(LogLine { source: LogSource::Stdout, bytes: stdout_pending });
            proof {
                assert(lines.deep_view() =~= flushed(LogSource::Stdout, out));
            }
        }
        let ghost first = lines.deep_view();
        if stderr_pending.len() > 0 {
            lines.push(LogLine { source: LogSource::Stderr, bytes: stderr_pending });
            proof {
                assert(lines.deep_view() =~= first + flushed(LogSource::Stderr, err));
            }
        } else {
            proof {
                assert(first + flushed(LogSource::Stderr, err) =~= first);
            }
        }
        lines
    }
}

/// The bytes of the lines in `lines` that came from `source`, as they stood
/// in that stream: each such line followed by a newline.
pub open spec fn stream_bytes(lines: Seq<LineModel>, source: LogSource) -> Seq<u8>
    decreases lines.len(),
{
    if lines.len() == 0 {
        Seq::empty()
    } else if lines.last().source == source {
        stream_bytes(lines.drop_last(), source) + lines.last().bytes.push(NEWLINE)
    } else {
        stream_bytes(lines.drop_last(), source)
    }
}

/// One piece of output as the drain receives it: the stream and the bytes.
pub struct Chunk {
    pub source: LogSource,
    pub bytes: Seq<u8>,
}

/// The bytes that `chunks` carry for `source`, in order.
pub open spec fn fed_bytes(chunks: Seq<Chunk>, source: LogSource) -> Seq<u8>
    decreases chunks.len(),
{
    if chunks.len() == 0 {
        Seq::empty()
    } else if chunks.last().source == source {
        fed_bytes(chunks.drop_last(), source) + chunks.last().bytes
    } else {
        fed_bytes(chunks.drop_last(), source)
    }
}

/// The drain after `chunks` were fed one after the other, and all the lines
/// handed out on the way, in the order in which they were handed out.
pub open spec fn feed_all(drain: DrainModel, chunks: Seq<Chunk>) -> (DrainModel, Seq<LineModel>)
    decreases chunks.len(),
{
    if chunks.len() == 0 {
        (drain, Seq::empty())
    } else {
        let (mid, earlier) = feed_all(drain, chunks.drop_last());
        let (after, lines) = feed_model(mid, chunks.last().source, chunks.last().bytes);
        (after, earlier + lines)
    }
}

/// The lines that a chunk completes, each followed by a newline, and then
/// the unfinished rest, are the unfinished bytes from before and the chunk.
pub proof fn lemma_split_keeps_bytes(pending: Seq<u8>, chunk: Seq<u8>)
    ensures
        joined(lines_after(pending, chunk)) + rest_after(pending, chunk) == pending + chunk,
    decreases chunk.len(),
{
    if chunk.len() == 0 {
        assert(joined(lines_after(pending, chunk)) + rest_after(pending, chunk) =~= pending
            + chunk);
    } else {
        let front = chunk.drop_last();
        lemma_split_keeps_bytes(pending, front);
        assert(pending + chunk =~= (pending + front).push(chunk.last()));
        if chunk.last() == NEWLINE {
            let lines = lines_after(pending, chunk);
            assert(lines.drop_last() =~= lines_after(pending, front));
            assert(lines.last() == rest_after(pending, front));
            assert(joined(lines) + rest_after(pending, chunk) =~= (joined(
                lines_after(pending, front),
            ) + rest_after(pending, front)).push(NEWLINE));
        } else {
            assert(joined(lines_after(pending, chunk)) + rest_after(pending, chunk) =~= (joined(
                lines_after(pending, front),
            ) + rest_after(pending, front)).push(chunk.last()));
        }
    }
}

/// When the unfinished bytes hold no newline, no line that a chunk completes
/// holds one, and neither does the unfinished rest.
pub proof fn lemma_split_has_no_newline(pending: Seq<u8>, chunk: Seq<u8>)
    requires
        no_newline(pending),
    ensures
        no_newline(rest_after(pending, chunk)),
        forall|k: int|
            0 <= k < lines_after(pending, chunk).len() ==> no_newline(
                #[trigger] lines_after(pending, chunk)[k],
            ),
    decreases chunk.len(),
{
    if chunk.len() > 0 {
        let front = chunk.drop_last();
        lemma_split_has_no_newline(pending, front);
        assert forall|k: int| 0 <= k < lines_after(pending, chunk).len() implies no_newline(
            #[trigger] lines_after(pending, chunk)[k],
        ) by {
            if k < lines_after(pending, front).len() {
                assert(lines_after(pending, chunk)[k] == lines_after(pending, front)[k]);
            } else {
                assert(lines_after(pending, chunk)[k] == rest_after(pending, front));
            }
        }
    }
}

/// A chunk without a newline completes no line; one that ends in its only
/// newline completes exactly one line, the unfinished bytes and the chunk
/// before the newline, and leaves nothing unfinished.
pub proof fn lemma_split_simple(pending: Seq<u8>, text: Seq<u8>)
    requires
        no_newline(text),
    ensures
        lines_after(pending, text) == Seq::<Seq<u8>>::empty(),
        rest_after(pending, text) == pending + text,
        lines_after(pending, text.push(NEWLINE)) == seq![pending + text],
        rest_after(pending, text.push(NEWLINE)) == Seq::<u8>::empty(),
    decreases text.len(),
{
    if text.len() == 0 {
        assert(pending + text =~= pending);
    } else {
        lemma_split_simple(pending, text.drop_last());
        assert(pending + text =~= (pending + text.drop_last()).push(text.last()));
    }
    let ended = text.push(NEWLINE);
    assert(ended.drop_last() =~= text);
    assert(ended.last() == NEWLINE);
    assert(lines_after(pending, ended) == lines_after(pending, text).push(
        rest_after(pending, text),
    ));
    assert(lines_after(pending, ended) =~= seq![pending + text]);
}

/// Feeding a well-formed drain leaves it well-formed, and no line handed out
/// holds a newline.
pub proof fn lemma_feed_keeps_wf(drain: DrainModel, source: LogSource, chunk: Seq<u8>)
    requires
        drain.wf(),
    ensures
        feed_model(drain, source, chunk).0.wf(),
        forall|k: int|
            0 <= k < feed_model(drain, source, chunk).1.len() ==> no_newline(
                (#[trigger] feed_model(drain, source, chunk).1[k]).bytes,
            ),
{
    lemma_split_has_no_newline(drain.pending(source), chunk);
    let texts = lines_after(drain.pending(source), chunk);
    assert forall|k: int| 0 <= k < feed_model(drain, source, chunk).1.len() implies no_newline(
        (#[trigger] feed_model(drain, source, chunk).1[k]).bytes,
    ) by {
        assert(no_newline(texts[k]));
    }
}

/// The stream bytes of two runs of lines, one after the other, are the
/// stream bytes of the first followed by those of the second.
pub proof fn lemma_stream_bytes_add(a: Seq<LineModel>, b: Seq<LineModel>, source: LogSource)
    ensures
        stream_bytes(a + b, source) == stream_bytes(a, source) + stream_bytes(b, source),
    decreases b.len(),
{
    if b.len() == 0 {
        assert(a + b =~= a);
        assert(stream_bytes(a, source) + stream_bytes(b, source) =~= stream_bytes(a, source));
    } else {
        lemma_stream_bytes_add(a, b.drop_last(), source);
        assert((a + b).drop_last() =~= a + b.drop_last());
        assert((a + b).last() == b.last());
        if b.last().source == source {
            assert(stream_bytes(a + b, source) =~= stream_bytes(a, source) + stream_bytes(
                b,
                source,
            ));
        }
    }
}

/// Lines marked with one stream carry their joined bytes on that stream and
/// nothing on the other.
pub proof fn lemma_stream_bytes_tagged(from: LogSource, texts: Seq<Seq<u8>>, source: LogSource)
    ensures
        stream_bytes(tagged(from, texts), source) == if from == source {
            joined(texts)
        } else {
            Seq::<u8>::empty()
        },
    decreases texts.len(),
{
    if texts.len() > 0 {
        lemma_stream_bytes_tagged(from, texts.drop_last(), source);
        assert(tagged(from, texts).drop_last() =~= tagged(from, texts.drop_last()));
        assert(tagged(from, texts).last().bytes == texts.last());
    }
}

/// One feed delivers the bytes of its own stream and touches no other: on the
/// fed stream, the lines handed out and the new unfinished rest are the old
/// unfinished bytes and the chunk; on the other stream nothing is handed out
/// and the unfinished bytes stay.
pub proof fn lemma_feed_keeps_bytes(
    drain: DrainModel,
    from: LogSource,
    chunk: Seq<u8>,
    source: LogSource,
)
    ensures
        stream_bytes(feed_model(drain, from, chunk).1, source) + feed_model(
            drain,
            from,
            chunk,
        ).0.pending(source) == drain.pending(source) + if from == source {
            chunk
        } else {
            Seq::<u8>::empty()
        },
{
    lemma_stream_bytes_tagged(from, lines_after(drain.pending(from), chunk), source);
    if from == source {
        lemma_split_keeps_bytes(drain.pending(from), chunk);
    } else {
        assert(Seq::<u8>::empty() + drain.pending(source) =~= drain.pending(source)
            + Seq::<u8>::empty());
    }
}

/// Every byte of each stream is delivered once and in the order of its
/// stream, however the chunks of the two streams alternate: for each stream,
/// the lines handed out for it, each followed by a newline, and then its
/// unfinished rest, are its unfinished bytes from before and all the bytes
/// fed on it since.
pub proof fn lemma_streams_keep_order(drain: DrainModel, chunks: Seq<Chunk>, source: LogSource)
    ensures
        stream_bytes(feed_all(drain, chunks).1, source) + feed_all(drain, chunks).0.pending(
            source,
        ) == drain.pending(source) + fed_bytes(chunks, source),
    decreases chunks.len(),
{
    if chunks.len() == 0 {
        assert(stream_bytes(feed_all(drain, chunks).1, source) + feed_all(
            drain,
            chunks,
        ).0.pending(source) =~= drain.pending(source) + fed_bytes(chunks, source));
    } else {
        let front = chunks.drop_last();
        let last = chunks.last();
        let (mid, earlier) = feed_all(drain, front);
        let (after, lines) = feed_model(mid, last.source, last.bytes);
        lemma_streams_keep_order(drain, front, source);
        lemma_feed_keeps_bytes(mid, last.source, last.bytes, source);
        lemma_stream_bytes_add(earlier, lines, source);
        let extra = if last.source == source {
            last.bytes
        } else {
            Seq::<u8>::empty()
        };
        assert(fed_bytes(chunks, source) =~= fed_bytes(front, source) + extra);
        let old_lines = stream_bytes(earlier, source);
        let new_lines = stream_bytes(lines, source);
        assert(feed_all(drain, chunks).1 == earlier + lines);
        assert(feed_all(drain, chunks).0 == after);
        assert(new_lines + after.pending(source) == mid.pending(source) + extra);
        assert((old_lines + new_lines) + after.pending(source) =~= old_lines + (new_lines
            + after.pending(source)));
        assert(old_lines + (mid.pending(source) + extra) =~= (old_lines + mid.pending(source))
            + extra);
        assert((drain.pending(source) + fed_bytes(front, source)) + extra =~= drain.pending(
            source,
        ) + fed_bytes(chunks, source));
    }
}

/// Feeding any chunks to a well-formed drain leaves it well-formed.
pub proof fn lemma_feed_all_keeps_wf(drain: DrainModel, chunks: Seq<Chunk>)
    requires
        drain.wf(),
    ensures
        feed_all(drain, chunks).0.wf(),
    decreases chunks.len(),
{
    if chunks.len() > 0 {
        lemma_feed_all_keeps_wf(drain, chunks.drop_last());
        lemma_feed_keeps_wf(
            feed_all(drain, chunks.drop_last()).0,
            chunks.last().source,
            chunks.last().bytes,
        );
    }
}

/// The bytes of the lines in `lines` that came from `source`, one after the
/// other with nothing between them: how a flush hands out what a stream
/// left unfinished.
pub open spec fn unfinished_bytes(lines: Seq<LineModel>, source: LogSource) -> Seq<u8>
    decreases lines.len(),
{
    if lines.len() == 0 {
        Seq::empty()
    } else if lines.last().source == source {
        unfinished_bytes(lines.drop_last(), source) + lines.last().bytes
    } else {
        unfinished_bytes(lines.drop_last(), source)
    }
}

/// What a flush hands out for one stream carries that stream's unfinished
/// bytes and nothing of the other stream.
pub proof fn lemma_flushed_bytes(from: LogSource, pending: Seq<u8>, source: LogSource)
    ensures
        unfinished_bytes(flushed(from, pending), source) == if from == source {
            pending
        } else {
            Seq::<u8>::empty()
        },
{
    let lines = flushed(from, pending);
    if pending.len() > 0 {
        assert(lines.drop_last() =~= Seq::<LineModel>::empty());
        assert(unfinished_bytes(lines.drop_last(), source) == Seq::<u8>::empty());
        assert(lines.last().bytes == pending);
        assert(Seq::<u8>::empty() + pending =~= pending);
    } else {
        assert(pending =~= Seq::<u8>::empty());
    }
}

/// The end of the streams hands out exactly what each stream left
/// unfinished.
pub proof fn lemma_finish_delivers_rest(drain: DrainModel, source: LogSource)
    ensures
        unfinished_bytes(finish_model(drain), source) == drain.pending(source),
{
    let out = flushed(LogSource::Stdout, drain.stdout_pending);
    let err = flushed(LogSource::Stderr, drain.stderr_pending);
    lemma_flushed_bytes(LogSource::Stdout, drain.stdout_pending, source);
    lemma_flushed_bytes(LogSource::Stderr, drain.stderr_pending, source);
    if err.len() == 0 {
        assert(out + err =~= out);
    } else {
        assert((out + err).drop_last() =~= out);
        assert((out + err).last() == err.last());
        assert(Seq::<u8>::empty() + drain.stderr_pending =~= drain.stderr_pending);
        assert(drain.stdout_pending + Seq::<u8>::empty() =~= drain.stdout_pending);
    }
}

/// From the first chunk to the end of the streams nothing is lost, doubled
/// or reordered within a stream: the lines handed out for a stream on the
/// way, each followed by a newline, and then what the end of the streams
/// hands out for it, are the bytes the drain held for that stream at first
/// and all the bytes fed on it since.
pub proof fn lemma_streams_delivered_whole(
    drain: DrainModel,
    chunks: Seq<Chunk>,
    source: LogSource,
)
    ensures
        stream_bytes(feed_all(drain, chunks).1, source) + unfinished_bytes(
            finish_model(feed_all(drain, chunks).0),
            source,
        ) == drain.pending(source) + fed_bytes(chunks, source),
{
    lemma_streams_keep_order(drain, chunks, source);
    lemma_finish_delivers_rest(feed_all(drain, chunks).0, source);
}

} // verus!
