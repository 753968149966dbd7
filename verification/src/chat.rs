//! The chat stream bridge: turns the engine's streaming chat response into
//! an ordered event sequence. Each line with non-empty message content
//! becomes one Token event; the first line with a true done flag becomes the
//! one Done event and ends the stream; a cancel observed before a chunk
//! becomes a Done event with a zero duration, read as a normal termination.
use vstd::prelude::*;
use crate::framing::LineBuffer;
use crate::framing::scan_lines;
use crate::records::ChatRecordV;
use crate::records::chat_record_of_line;
use crate::records::parse_chat_line;
use crate::events::StreamEvent;
use crate::events::StreamEventV;

verus! {

/// The duration a done record reports, or zero where it reports none.
pub open spec fn done_duration_of(rec: ChatRecordV) -> u64 {
    match rec.total_duration {
        Some(d) => d,
        None => 0u64,
    }
}

/// The token a line contributes: its message content, provided the line
/// parses, is not a done record, and the content is non-empty.
pub open spec fn token_of_line(line: Seq<u8>) -> Option<Seq<char>> {
    match chat_record_of_line(line) {
        Some(rec) => if rec.done {
            None
        } else {
            match rec.content {
                Some(c) => if c.len() > 0 {
                    Some(c)
                } else {
                    None
                },
                None => None,
            }
        },
        None => None,
    }
}

/// Whether a line carries a record with a true done flag.
pub open spec fn is_done_line(line: Seq<u8>) -> bool {
    match chat_record_of_line(line) {
        Some(rec) => rec.done,
        None => false,
    }
}

/// The duration the done record of a line reports.
pub open spec fn done_duration_of_line(line: Seq<u8>) -> u64 {
    match chat_record_of_line(line) {
        Some(rec) => done_duration_of(rec),
        None => 0u64,
    }
}

/// The events a sequence of complete lines produces, in line order, and
/// whether a done record ended the stream. Lines after the first done
/// record are not read.
pub open spec fn chat_events_of(lines: Seq<Seq<u8>>) -> (Seq<StreamEventV>, bool)
    decreases lines.len(),
{
    if lines.len() == 0 {
        (Seq::empty(), false)
    } else if is_done_line(lines[0]) {
        (seq![StreamEventV::Done { total_duration: done_duration_of_line(lines[0]) }], true)
    } else {
        let rest = chat_events_of(lines.skip(1));
        match token_of_line(lines[0]) {
            Some(c) => (seq![StreamEventV::Token { content: c }] + rest.0, rest.1),
            None => rest,
        }
    }
}

/// The tokens a sequence of lines contributes, in order, skipping lines
/// that carry no token.
pub open spec fn tokens_of_lines(lines: Seq<Seq<u8>>) -> Seq<Seq<char>>
    decreases lines.len(),
{
    if lines.len() == 0 {
        Seq::empty()
    } else {
        let rest = tokens_of_lines(lines.skip(1));
        match token_of_line(lines[0]) {
            Some(c) => seq![c] + rest,
            None => rest,
        }
    }
}

/// The chat stream bridge for one invocation. Feed it each arriving chunk
/// together with the cancel flag as read just before the chunk; it hands
/// back the events to emit, in order, and whether the stream is over.
pub struct ChatBridge {
    buffer: LineBuffer,
    finished: bool,
}

impl ChatBridge {
    /// The bytes still waiting for a line break.
    pub closed spec fn buffered(self) -> Seq<u8> {
        self.buffer@
    }

    /// Whether a terminal event has been emitted; nothing may follow one.
    pub closed spec fn is_finished(self) -> bool {
        self.finished
    }

    pub fn new() -> (r: ChatBridge)
        ensures
            !r.is_finished(),
            r.buffered() == Seq::<u8>::empty(),
    {
        ChatBridge { buffer: LineBuffer::new(), finished: false }
    }

    /// Works one chunk of the response body off: cuts it into lines, parses
    /// each, and maps records to events until a done record ends the
    /// stream. A cancel observed before the chunk emits the one Done event
    /// with a zero duration instead, and nothing of the chunk is read.
    pub fn on_chunk(&mut self, chunk: &[u8], cancelled: bool) -> (r: (Vec<StreamEvent>, bool))
        requires
            !old(self).is_finished(),
        ensures
            r.1 == final(self).is_finished(),
            cancelled ==> r.0.deep_view() == seq![
                StreamEventV::Done { total_duration: 0u64 },
            ] && r.1,
            !cancelled ==> ({
                let sc = scan_lines(old(self).buffered(), chunk@);
                let ev = chat_events_of(sc.0);
                &&& r.0.deep_view() == ev.0
                &&& r.1 == ev.1
                &&& final(self).buffered() == sc.1
            }),
    {
        let mut evs: Vec<StreamEvent> = Vec::new();
        if cancelled {
            self.finished = true;
            evs.push(StreamEvent::Done { total_duration: 0 });
            proof {
                assert(evs.deep_view() =~~= seq![StreamEventV::Done { total_duration: 0u64 }]);
            }
            return (evs, true);
        }
        let lines = self.buffer.push_chunk(chunk);
        let ghost ls = lines.deep_view();
        let mut term = false;
        let mut i: usize = 0;
        proof {
            assert(ls.skip(0) =~= ls);
            assert(evs.deep_view() =~~= Seq::<StreamEventV>::empty());
            assert(Seq::<StreamEventV>::empty() + chat_events_of(ls).0 =~= chat_events_of(ls).0);
        }
        while i < lines.len() && !term
            invariant
                i <= lines@.len(),
                ls == lines.deep_view(),
                ls.len() == lines@.len(),
                !term ==> chat_events_of(ls).0 == evs.deep_view() + chat_events_of(
                    ls.skip(i as int),
                ).0 && chat_events_of(ls).1 == chat_events_of(ls.skip(i as int)).1,
                term ==> chat_events_of(ls).0 == evs.deep_view() && chat_events_of(ls).1,
            decreases lines@.len() - i,
        {
            let rec = parse_chat_line(&lines[i]);
            proof {
                assert(lines@[i as int].deep_view() =~= lines@[i as int]@);
                assert(ls.skip(i as int)[0] == ls[i as int]);
                assert(ls.skip(i as int).skip(1) =~= ls.skip(i as int + 1));
            }
            let ghost evs_before = evs.deep_view();
            match rec {
                None => {},
                Some(c) => {
                    if c.done {
                        let d: u64 = match c.total_duration {
                            Some(d) => d,
                            None => 0,
                        };
                        evs.push(StreamEvent::Done { total_duration: d });
                        term = true;
                        proof {
                            assert(evs.deep_view() =~~= evs_before.push(
                                StreamEventV::Done { total_duration: d },
                            ));
                            assert(evs_before + seq![StreamEventV::Done { total_duration: d }]
                                =~= evs_before.push(StreamEventV::Done { total_duration: d }));
                        }
                    } else {
                        match c.content {
                            Some(text) => {
                                if !text.as_str().is_empty() {
                                    let ghost tv = text@;
                                    evs.push(StreamEvent::Token { content: text });
                                    proof {
                                        assert(evs.deep_view() =~~= evs_before.push(
                                            StreamEventV::Token { content: tv },
                                        ));
                                        assert(evs_before + (seq![StreamEventV::Token { content: tv }]
                                            + chat_events_of(ls.skip(i as int + 1)).0) =~= evs_before.push(
                                            StreamEventV::Token { content: tv },
                                        ) + chat_events_of(ls.skip(i as int + 1)).0);
                                    }
                                }
                            },
                            None => {},
                        }
                    }
                },
            }
            i = i + 1;
        }
        proof {
            if !term {
                assert(ls.skip(ls.len() as int) =~= Seq::<Seq<u8>>::empty());
                assert(evs.deep_view() + Seq::<StreamEventV>::empty() =~= evs.deep_view());
            }
        }
        self.finished = term;
        (evs, term)
    }
}

/// A chat stream of token lines closed by one done record maps to exactly
/// the matching Token events, in order and skipping empty-content records,
/// followed by exactly one Done event carrying the reported duration, and
/// nothing after it.
pub proof fn lemma_tokens_then_done(lines: Seq<Seq<u8>>)
    requires
        lines.len() >= 1,
        forall|i: int| 0 <= i < lines.len() - 1 ==> !is_done_line(#[trigger] lines[i]),
        is_done_line(lines.last()),
    ensures
        chat_events_of(lines).1,
        chat_events_of(lines).0 == tokens_of_lines(lines.take(lines.len() - 1)).map_values(
            |c: Seq<char>| StreamEventV::Token { content: c },
        ) + seq![StreamEventV::Done { total_duration: done_duration_of_line(lines.last()) }],
    decreases lines.len(),
{
    let to_token = |c: Seq<char>| StreamEventV::Token { content: c };
    if lines.len() == 1 {
        assert(lines[0] == lines.last());
        assert(lines.take(0) =~= Seq::<Seq<u8>>::empty());
        assert(tokens_of_lines(lines.take(0)).map_values(to_token) =~= Seq::<
            StreamEventV,
        >::empty());
        assert(chat_events_of(lines).0 =~= tokens_of_lines(lines.take(0)).map_values(to_token)
            + seq![StreamEventV::Done { total_duration: done_duration_of_line(lines.last()) }]);
    } else {
        let tail = lines.skip(1);
        assert(tail.last() == lines.last());
        assert(forall|i: int| 0 <= i < tail.len() - 1 ==> !is_done_line(#[trigger] tail[i]));
        lemma_tokens_then_done(tail);
        let front = lines.take(lines.len() - 1);
        assert(front[0] == lines[0]);
        assert(front.skip(1) =~= tail.take(tail.len() - 1));
        let done_seq = seq![
            StreamEventV::Done { total_duration: done_duration_of_line(lines.last()) },
        ];
        match token_of_line(lines[0]) {
            Some(c) => {
                assert(tokens_of_lines(front) == seq![c] + tokens_of_lines(front.skip(1)));
                assert(tokens_of_lines(front).map_values(to_token) =~= seq![to_token(c)]
                    + tokens_of_lines(front.skip(1)).map_values(to_token));
                assert(seq![StreamEventV::Token { content: c }] + (tokens_of_lines(
                    front.skip(1),
                ).map_values(to_token) + done_seq) =~= (seq![to_token(c)] + tokens_of_lines(
                    front.skip(1),
                ).map_values(to_token)) + done_seq);
            },
            None => {
                assert(tokens_of_lines(front) == tokens_of_lines(front.skip(1)));
            },
        }
    }
}

/// Every event of an unterminated line sequence is a Token; a terminated
/// one ends in its one terminal event, a Done, with only Tokens before it.
pub proof fn lemma_chat_events_shape(lines: Seq<Seq<u8>>)
    ensures
        forall|i: int|
            0 <= i < chat_events_of(lines).0.len() ==> (#[trigger] chat_events_of(lines).0[i]
                is Token || (chat_events_of(lines).1 && i == chat_events_of(lines).0.len() - 1)),
        chat_events_of(lines).1 ==> chat_events_of(lines).0.len() >= 1 && chat_events_of(
            lines,
        ).0.last() is Done,
    decreases lines.len(),
{
    if lines.len() == 0 {
    } else if is_done_line(lines[0]) {
    } else {
        lemma_chat_events_shape(lines.skip(1));
        let rest = chat_events_of(lines.skip(1));
        let all = chat_events_of(lines);
        match token_of_line(lines[0]) {
            Some(c) => {
                assert forall|i: int| 0 <= i < all.0.len() implies (#[trigger] all.0[i] is Token
                    || (all.1 && i == all.0.len() - 1)) by {
                    if i > 0 {
                        assert(all.0[i] == rest.0[i - 1]);
                    }
                }
                if all.1 {
                    assert(all.0.last() == rest.0.last());
                }
            },
            None => {},
        }
    }
}

/// One whole chat invocation as its driver sees it: chunks arrive in order,
/// and before each chunk the cancel flag is read once.
pub open spec fn chat_run_from(buf: Seq<u8>, chunks: Seq<Seq<u8>>, cancel: Seq<bool>) -> (Seq<
    StreamEventV,
>, bool)
    decreases chunks.len(),
{
    if chunks.len() == 0 {
        (Seq::empty(), false)
    } else if cancel[0] {
        (seq![StreamEventV::Done { total_duration: 0u64 }], true)
    } else {
        let sc = scan_lines(buf, chunks[0]);
        let ev = chat_events_of(sc.0);
        if ev.1 {
            (ev.0, true)
        } else {
            let rest = chat_run_from(sc.1, chunks.skip(1), cancel.skip(1));
            (ev.0 + rest.0, rest.1)
        }
    }
}

/// A cancel first observed before chunk `n` of a stream that has not
/// terminated by then stops the run: the events are exactly those of the
/// first `n` chunks followed by one Done event with a zero duration, and no
/// later chunk is read.
pub proof fn lemma_cancel_stops_the_stream(
    buf: Seq<u8>,
    chunks: Seq<Seq<u8>>,
    cancel: Seq<bool>,
    n: int,
)
    requires
        0 <= n < chunks.len(),
        cancel.len() == chunks.len(),
        forall|i: int| 0 <= i < n ==> !cancel[i],
        cancel[n],
        !chat_run_from(buf, chunks.take(n), cancel.take(n)).1,
    ensures
        chat_run_from(buf, chunks, cancel).1,
        chat_run_from(buf, chunks, cancel).0 == chat_run_from(buf, chunks.take(n), cancel.take(n)).0
            + seq![StreamEventV::Done { total_duration: 0u64 }],
    decreases n,
{
    if n == 0 {
        assert(chunks.take(0) =~= Seq::<Seq<u8>>::empty());
        assert(chat_run_from(buf, chunks.take(0), cancel.take(0)).0 + seq![
            StreamEventV::Done { total_duration: 0u64 },
        ] =~= seq![StreamEventV::Done { total_duration: 0u64 }]);
    } else {
        let pre_chunks = chunks.take(n);
        let pre_cancel = cancel.take(n);
        assert(pre_chunks[0] == chunks[0]);
        assert(!pre_cancel[0]);
        let sc = scan_lines(buf, chunks[0]);
        let ev = chat_events_of(sc.0);
        assert(pre_chunks.skip(1) =~= chunks.skip(1).take(n - 1));
        assert(pre_cancel.skip(1) =~= cancel.skip(1).take(n - 1));
        assert(!ev.1);
        assert(!chat_run_from(sc.1, chunks.skip(1).take(n - 1), cancel.skip(1).take(n - 1)).1);
        lemma_cancel_stops_the_stream(sc.1, chunks.skip(1), cancel.skip(1), n - 1);
        assert(ev.0 + (chat_run_from(sc.1, chunks.skip(1).take(n - 1), cancel.skip(1).take(n - 1)).0
            + seq![StreamEventV::Done { total_duration: 0u64 }]) =~= (ev.0 + chat_run_from(
            sc.1,
            chunks.skip(1).take(n - 1),
            cancel.skip(1).take(n - 1),
        ).0) + seq![StreamEventV::Done { total_duration: 0u64 }]);
    }
}

/// Drives one whole chat invocation over chunks already in hand, with the
/// cancel flag's reading before each chunk alongside: the executable form
/// of `chat_run_from`, and what a test double of the transport runs.
pub fn run_chat_chunks(chunks: &Vec<Vec<u8>>, cancel: &Vec<bool>) -> (r: (Vec<StreamEvent>, bool))
    requires
        chunks@.len() == cancel@.len(),
    ensures
        r.0.deep_view() == chat_run_from(Seq::empty(), chunks.deep_view(), cancel@).0,
        r.1 == chat_run_from(Seq::empty(), chunks.deep_view(), cancel@).1,
{
    let ghost cs = chunks.deep_view();
    let ghost full = chat_run_from(Seq::empty(), cs, cancel@);
    let mut bridge = ChatBridge::new();
    let mut out: Vec<StreamEvent> = Vec::new();
    let mut term = false;
    let mut i: usize = 0;
    proof {
        assert(cs.skip(0) =~= cs);
        assert(cancel@.skip(0) =~= cancel@);
        assert(out.deep_view() =~~= Seq::<StreamEventV>::empty());
        assert(Seq::<StreamEventV>::empty() + full.0 =~= full.0);
    }
    while i < chunks.len() && !term
        invariant
            i <= chunks@.len(),
            cancel@.len() == chunks@.len(),
            cs == chunks.deep_view(),
            cs.len() == chunks@.len(),
            !term ==> !bridge.is_finished(),
            !term ==> full.0 == out.deep_view() + chat_run_from(
                bridge.buffered(),
                cs.skip(i as int),
                cancel@.skip(i as int),
            ).0 && full.1 == chat_run_from(
                bridge.buffered(),
                cs.skip(i as int),
                cancel@.skip(i as int),
            ).1,
            term ==> full.0 == out.deep_view() && full.1,
        decreases chunks@.len() - i,
    {
        proof {
            assert(cs.skip(i as int)[0] == cs[i as int]);
            assert(cs[i as int] == chunks@[i as int].deep_view());
            assert(chunks@[i as int].deep_view() =~= chunks@[i as int]@);
            assert(cs.skip(i as int).skip(1) =~= cs.skip(i as int + 1));
            assert(cancel@.skip(i as int).skip(1) =~= cancel@.skip(i as int + 1));
            assert(cancel@.skip(i as int)[0] == cancel@[i as int]);
        }
        let ghost out_before = out.deep_view();
        let (evs, stop) = bridge.on_chunk(chunks[i].as_slice(), cancel[i]);
        let ghost evs_view = evs.deep_view();
        let mut evs = evs;
        out.append(&mut evs);
        term = stop;
        proof {
            assert(out.deep_view() =~~= out_before + evs_view);
            let rest = chat_run_from(
                bridge.buffered(),
                cs.skip(i as int + 1),
                cancel@.skip(i as int + 1),
            );
            assert((out_before + evs_view) + rest.0 =~= out_before + (evs_view + rest.0));
        }
        i = i + 1;
    }
    proof {
        if !term {
            assert(cs.skip(cs.len() as int) =~= Seq::<Seq<u8>>::empty());
            assert(out.deep_view() + Seq::<StreamEventV>::empty() =~= out.deep_view());
        }
    }
    (out, term)
}

/// While a run has not terminated it has emitted Tokens only; a terminated
/// run ends in its one terminal Done event, with only Tokens before it.
pub proof fn lemma_chat_run_shape(buf: Seq<u8>, chunks: Seq<Seq<u8>>, cancel: Seq<bool>)
    ensures
        forall|i: int|
            0 <= i < chat_run_from(buf, chunks, cancel).0.len() ==> (#[trigger] chat_run_from(
                buf,
                chunks,
                cancel,
            ).0[i] is Token || (chat_run_from(buf, chunks, cancel).1 && i == chat_run_from(
                buf,
                chunks,
                cancel,
            ).0.len() - 1)),
        chat_run_from(buf, chunks, cancel).1 ==> chat_run_from(buf, chunks, cancel).0.len() >= 1
            && chat_run_from(buf, chunks, cancel).0.last() is Done,
    decreases chunks.len(),
{
    if chunks.len() == 0 {
    } else if cancel[0] {
    } else {
        let sc = scan_lines(buf, chunks[0]);
        let ev = chat_events_of(sc.0);
        lemma_chat_events_shape(sc.0);
        if ev.1 {
        } else {
            lemma_chat_run_shape(sc.1, chunks.skip(1), cancel.skip(1));
            let rest = chat_run_from(sc.1, chunks.skip(1), cancel.skip(1));
            let all = chat_run_from(buf, chunks, cancel);
            assert forall|i: int| 0 <= i < all.0.len() implies (#[trigger] all.0[i] is Token
                || (all.1 && i == all.0.len() - 1)) by {
                if i < ev.0.len() {
                    assert(all.0[i] == ev.0[i]);
                } else {
                    assert(all.0[i] == rest.0[i - ev.0.len()]);
                }
            }
            if all.1 {
                assert(rest.0.len() >= 1);
                assert(all.0.last() == rest.0.last());
            }
        }
    }
}

} // verus!
