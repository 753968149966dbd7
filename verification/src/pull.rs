//! The model pull bridge: turns the engine's streaming pull response into
//! an ordered event sequence. Every parsed record becomes one Progress
//! event, except the record whose status is the literal success marker,
//! which becomes the one Done event and ends the stream.
use vstd::prelude::*;
use crate::framing::LineBuffer;
use crate::framing::scan_lines;
use crate::records::PullRecordV;
use crate::records::pull_record_of_line;
use crate::records::parse_pull_line;
use crate::events::PullEvent;
use crate::events::PullEventV;

verus! {

/// The status text that marks a pull as complete.
pub open spec fn success_marker() -> Seq<char> {
    "success"@
}

/// The status a record reports, an empty text where it reports none.
pub open spec fn status_of(rec: PullRecordV) -> Seq<char> {
    match rec.status {
        Some(s) => s,
        None => Seq::empty(),
    }
}

/// Whether a line carries the record that completes the pull.
pub open spec fn is_success_line(line: Seq<u8>) -> bool {
    match pull_record_of_line(line) {
        Some(rec) => status_of(rec) == success_marker(),
        None => false,
    }
}

/// The Progress event a record maps to.
pub open spec fn progress_of(rec: PullRecordV) -> PullEventV {
    PullEventV::Progress { status: status_of(rec), completed: rec.completed, total: rec.total }
}

/// The events a sequence of complete lines produces, in line order, and
/// whether the success record ended the stream. Lines after it are not
/// read.
pub open spec fn pull_events_of(lines: Seq<Seq<u8>>) -> (Seq<PullEventV>, bool)
    decreases lines.len(),
{
    if lines.len() == 0 {
        (Seq::empty(), false)
    } else if is_success_line(lines[0]) {
        (seq![PullEventV::Done {  }], true)
    } else {
        let rest = pull_events_of(lines.skip(1));
        match pull_record_of_line(lines[0]) {
            Some(rec) => (seq![progress_of(rec)] + rest.0, rest.1),
            None => rest,
        }
    }
}

/// The Progress events of lines none of which completes the pull.
pub open spec fn progress_events_of(lines: Seq<Seq<u8>>) -> Seq<PullEventV>
    decreases lines.len(),
{
    if lines.len() == 0 {
        Seq::empty()
    } else {
        let rest = progress_events_of(lines.skip(1));
        match pull_record_of_line(lines[0]) {
            Some(rec) => seq![progress_of(rec)] + rest,
            None => rest,
        }
    }
}

/// The pull stream bridge for one invocation. Feed it each arriving chunk;
/// it hands back the events to emit, in order, and whether the stream is
/// over.
pub struct PullBridge {
    buffer: LineBuffer,
    finished: bool,
}

impl PullBridge {
    /// The bytes still waiting for a line break.
    pub closed spec fn buffered(self) -> Seq<u8> {
        self.buffer@
    }

    /// Whether the terminal event has been emitted; nothing may follow it.
    pub closed spec fn is_finished(self) -> bool {
        self.finished
    }

    pub fn new() -> (r: PullBridge)
        ensures
            !r.is_finished(),
            r.buffered() == Seq::<u8>::empty(),
    {
        PullBridge { buffer: LineBuffer::new(), finished: false }
    }

    /// Works one chunk of the response body off: cuts it into lines, parses
    /// each, and maps records to events until the success record ends the
    /// stream.
    pub fn on_chunk(&mut self, chunk: &[u8]) -> (r: (Vec<PullEvent>, bool))
        requires
            !old(self).is_finished(),
        ensures
            r.1 == final(self).is_finished(),
            ({
                let sc = scan_lines(old(self).buffered(), chunk@);
                let ev = pull_events_of(sc.0);
                &&& r.0.deep_view() == ev.0
                &&& r.1 == ev.1
                &&& final(self).buffered() == sc.1
            }),
    {
        let lines = self.buffer.push_chunk(chunk);
        let ghost ls = lines.deep_view();
        let mut evs: Vec<PullEvent> = Vec::new();
        let mut term = false;
        let mut i: usize = 0;
        proof {
            assert(ls.skip(0) =~= ls);
            assert(evs.deep_view() =~~= Seq::<PullEventV>::empty());
            assert(Seq::<PullEventV>::empty() + pull_events_of(ls).0 =~= pull_events_of(ls).0);
        }
        while i < lines.len() && !term
            invariant
                i <= lines@.len(),
                ls == lines.deep_view(),
                ls.len() == lines@.len(),
                !term ==> pull_events_of(ls).0 == evs.deep_view() + pull_events_of(
                    ls.skip(i as int),
                ).0 && pull_events_of(ls).1 == pull_events_of(ls.skip(i as int)).1,
                term ==> pull_events_of(ls).0 == evs.deep_view() && pull_events_of(ls).1,
            decreases lines@.len() - i,
        {
            let rec = parse_pull_line(&lines[i]);
            proof {
                assert(lines@[i as int].deep_view() =~= lines@[i as int]@);
                assert(ls.skip(i as int)[0] == ls[i as int]);
                assert(ls.skip(i as int).skip(1) =~= ls.skip(i as int + 1));
            }
            let ghost evs_before = evs.deep_view();
            match rec {
                None => {},
                Some(c) => {
                    let ghost cv = c@;
                    let status: String = match c.status {
                        Some(s) => s,
                        None => String::new(),
                    };
                    let marker = String::from_str("success");
                    if status == marker {
                        evs.push(PullEvent::Done {  });
                        term = true;
                        proof {
                            assert(evs.deep_view() =~~= evs_before.push(PullEventV::Done {  }));
                            assert(evs_before + seq![PullEventV::Done {  }] =~= evs_before.push(
                                PullEventV::Done {  },
                            ));
                        }
                    } else {
                        let ghost pv = progress_of(cv);
                        evs.push(
                            PullEvent::Progress {
                                status,
                                completed: c.completed,
                                total: c.total,
                            },
                        );
                        proof {
                            assert(evs.deep_view() =~~= evs_before.push(pv));
                            assert(evs_before + (seq![pv] + pull_events_of(
                                ls.skip(i as int + 1),
                            ).0) =~= evs_before.push(pv) + pull_events_of(ls.skip(i as int + 1)).0);
                        }
                    }
                },
            }
            i = i + 1;
        }
        proof {
            if !term {
                assert(ls.skip(ls.len() as int) =~= Seq::<Seq<u8>>::empty());
                assert(evs.deep_view() + Seq::<PullEventV>::empty() =~= evs.deep_view());
            }
        }
        self.finished = term;
        (evs, term)
    }
}

/// One whole pull invocation as its driver sees it: chunks arrive in
/// order, with no cancellation path.
pub open spec fn pull_run_from(buf: Seq<u8>, chunks: Seq<Seq<u8>>) -> (Seq<PullEventV>, bool)
    decreases chunks.len(),
{
    if chunks.len() == 0 {
        (Seq::empty(), false)
    } else {
        let sc = scan_lines(buf, chunks[0]);
        let ev = pull_events_of(sc.0);
        if ev.1 {
            (ev.0, true)
        } else {
            let rest = pull_run_from(sc.1, chunks.skip(1));
            (ev.0 + rest.0, rest.1)
        }
    }
}

/// Drives one whole pull invocation over chunks already in hand: the
/// executable form of `pull_run_from`, and what a test double of the
/// transport runs.
pub fn run_pull_chunks(chunks: &Vec<Vec<u8>>) -> (r: (Vec<PullEvent>, bool))
    ensures
        r.0.deep_view() == pull_run_from(Seq::empty(), chunks.deep_view()).0,
        r.1 == pull_run_from(Seq::empty(), chunks.deep_view()).1,
{
    let ghost cs = chunks.deep_view();
    let ghost full = pull_run_from(Seq::empty(), cs);
    let mut bridge = PullBridge::new();
    let mut out: Vec<PullEvent> = Vec::new();
    let mut term = false;
    let mut i: usize = 0;
    proof {
        assert(cs.skip(0) =~= cs);
        assert(out.deep_view() =~~= Seq::<PullEventV>::empty());
        assert(Seq::<PullEventV>::empty() + full.0 =~= full.0);
    }
    while i < chunks.len() && !term
        invariant
            i <= chunks@.len(),
            cs == chunks.deep_view(),
            cs.len() == chunks@.len(),
            !term ==> !bridge.is_finished(),
            !term ==> full.0 == out.deep_view() + pull_run_from(
                bridge.buffered(),
                cs.skip(i as int),
            ).0 && full.1 == pull_run_from(bridge.buffered(), cs.skip(i as int)).1,
            term ==> full.0 == out.deep_view() && full.1,
        decreases chunks@.len() - i,
    {
        proof {
            assert(cs.skip(i as int)[0] == cs[i as int]);
            assert(cs[i as int] == chunks@[i as int].deep_view());
            assert(chunks@[i as int].deep_view() =~= chunks@[i as int]@);
            assert(cs.skip(i as int).skip(1) =~= cs.skip(i as int + 1));
        }
        let ghost out_before = out.deep_view();
        let (evs, stop) = bridge.on_chunk(chunks[i].as_slice());
        let ghost evs_view = evs.deep_view();
        let mut evs = evs;
        out.append(&mut evs);
        term = stop;
        proof {
            assert(out.deep_view() =~~= out_before + evs_view);
            let rest = pull_run_from(bridge.buffered(), cs.skip(i as int + 1));
            assert((out_before + evs_view) + rest.0 =~= out_before + (evs_view + rest.0));
        }
        i = i + 1;
    }
    proof {
        if !term {
            assert(cs.skip(cs.len() as int) =~= Seq::<Seq<u8>>::empty());
            assert(out.deep_view() + Seq::<PullEventV>::empty() =~= out.deep_view());
        }
    }
    (out, term)
}

/// A pull stream whose last line carries the success record maps to exactly
/// one Progress event per prior parsed record, in order, followed by
/// exactly one Done event; the success record itself yields no Progress
/// event, and nothing follows the Done.
pub proof fn lemma_progress_then_done(lines: Seq<Seq<u8>>)
    requires
        lines.len() >= 1,
        forall|i: int| 0 <= i < lines.len() - 1 ==> !is_success_line(#[trigger] lines[i]),
        is_success_line(lines.last()),
    ensures
        pull_events_of(lines).1,
        pull_events_of(lines).0 == progress_events_of(lines.take(lines.len() - 1)) + seq![
            PullEventV::Done {  },
        ],
    decreases lines.len(),
{
    if lines.len() == 1 {
        assert(lines[0] == lines.last());
        assert(lines.take(0) =~= Seq::<Seq<u8>>::empty());
        assert(progress_events_of(lines.take(0)) + seq![PullEventV::Done {  }] =~= seq![
            PullEventV::Done {  },
        ]);
    } else {
        let tail = lines.skip(1);
        assert(tail.last() == lines.last());
        assert(forall|i: int| 0 <= i < tail.len() - 1 ==> !is_success_line(#[trigger] tail[i]));
        lemma_progress_then_done(tail);
        let front = lines.take(lines.len() - 1);
        assert(front[0] == lines[0]);
        assert(front.skip(1) =~= tail.take(tail.len() - 1));
        let done_seq = seq![PullEventV::Done {  }];
        match pull_record_of_line(lines[0]) {
            Some(rec) => {
                assert(progress_events_of(front) == seq![progress_of(rec)] + progress_events_of(
                    front.skip(1),
                ));
                assert(seq![progress_of(rec)] + (progress_events_of(front.skip(1)) + done_seq)
                    =~= (seq![progress_of(rec)] + progress_events_of(front.skip(1))) + done_seq);
            },
            None => {
                assert(progress_events_of(front) == progress_events_of(front.skip(1)));
            },
        }
    }
}

/// Every event of an unterminated line sequence is a Progress; a
/// terminated one ends in its one terminal event, a Done, with only
/// Progress events before it.
pub proof fn lemma_pull_events_shape(lines: Seq<Seq<u8>>)
    ensures
        forall|i: int|
            0 <= i < pull_events_of(lines).0.len() ==> (#[trigger] pull_events_of(lines).0[i]
                is Progress || (pull_events_of(lines).1 && i == pull_events_of(lines).0.len() - 1)),
        pull_events_of(lines).1 ==> pull_events_of(lines).0.len() >= 1 && pull_events_of(
            lines,
        ).0.last() is Done,
    decreases lines.len(),
{
    if lines.len() == 0 {
    } else if is_success_line(lines[0]) {
    } else {
        lemma_pull_events_shape(lines.skip(1));
        let rest = pull_events_of(lines.skip(1));
        let all = pull_events_of(lines);
        match pull_record_of_line(lines[0]) {
            Some(rec) => {
                assert forall|i: int| 0 <= i < all.0.len() implies (#[trigger] all.0[i] is Progress
                    || (all.1 && i == all.0.len() - 1)) by {
                    if i > 0 {
                        assert(all.0[i] == rest.0[i - 1]);
                    }
                }
                if all.1 {
                    assert(all.0.last() == rest.0.last());
                }
            },
            None => {},
        }
    }
}

} // verus!
