//! Independence from chunking: the parts the state machine yields do not
//! depend on how the input was split into chunks, as long as no error is
//! reported along the way.

use vstd::prelude::*;
use crate::parser::headers::PartHeadersView;
use crate::parser::stream::{
    lemma_run_shrinks, lemma_step_keeps_wf, lemma_step_shrinks, lemma_step_stable_under_more_input,
    lemma_part_stable_under_more_input, rank, run, step, stream_wf, with_more, Outcome, StreamView,
};

verus! {

/// The input bytes of `chunks`, in order.
pub open spec fn joined(chunks: Seq<Seq<u8>>) -> Seq<u8>
    decreases chunks.len(),
{
    if chunks.len() == 0 {
        Seq::empty()
    } else {
        chunks[0] + joined(chunks.drop_first())
    }
}

/// Runs the machine while it yields parts: the parts, the first other
/// outcome, and the state then.
pub open spec fn drain(m: StreamView) -> (Seq<(PartHeadersView, Seq<u8>)>, Outcome, StreamView)
    decreases m.buffer.len(),
{
    let (m2, o) = run(m);
    match o {
        Outcome::Part { headers, body } => if m2.buffer.len() < m.buffer.len() {
            let (ps, last, m3) = drain(m2);
            (seq![(headers, body)] + ps, last, m3)
        } else {
            (Seq::empty(), o, m2)
        },
        _ => (Seq::empty(), o, m2),
    }
}

/// The parts yielded, and the last outcome, when `chunks` arrive one after
/// another and the input then ends.
pub open spec fn feed_all(m: StreamView, chunks: Seq<Seq<u8>>) -> (Seq<(PartHeadersView, Seq<u8>)>, Outcome)
    decreases chunks.len(),
{
    let (ps, o, m2) = drain(m);
    if o is NeedMore {
        if chunks.len() > 0 {
            let (qs, o2) = feed_all(with_more(m2, chunks[0]), chunks.drop_first());
            (ps + qs, o2)
        } else {
            let (qs, o2, _) = drain(StreamView { upstream_done: true, ..m2 });
            (ps + qs, o2)
        }
    } else {
        (ps, o)
    }
}

proof fn lemma_more_keeps_wf(m: StreamView, x: Seq<u8>)
    requires
        stream_wf(m),
    ensures
        stream_wf(with_more(m, x)),
{
}

proof fn lemma_more_nothing(m: StreamView)
    ensures
        with_more(m, Seq::empty()) == m,
{
    assert(m.buffer + Seq::<u8>::empty() =~= m.buffer);
}

proof fn lemma_more_twice(m: StreamView, x: Seq<u8>, y: Seq<u8>)
    ensures
        with_more(with_more(m, x), y) == with_more(m, x + y),
{
    assert(m.buffer + x + y =~= m.buffer + (x + y));
}

/// When the machine stops for input, it stops in a state that asks for input
/// again at once.
proof fn lemma_need_more_fixpoint(m: StreamView)
    requires
        stream_wf(m),
        run(m).1 is NeedMore,
    ensures
        step(run(m).0) == (run(m).0, Some(Outcome::NeedMore)),
    decreases rank(m.state),
{
    let (m2, o) = step(m);
    lemma_step_keeps_wf(m);
    if o is None && rank(m2.state) < rank(m.state) {
        lemma_need_more_fixpoint(m2);
    }
}

/// Bytes arriving while the machine waits lead to where they would have led
/// had they been there from the start.
proof fn lemma_need_more_then_more(t: StreamView, x: Seq<u8>)
    requires
        stream_wf(t),
        !t.upstream_done,
        run(t).1 is NeedMore,
    ensures
        run(with_more(t, x)) == run(with_more(run(t).0, x)),
    decreases rank(t.state),
{
    let (t2, o) = step(t);
    lemma_step_keeps_wf(t);
    lemma_step_shrinks(t);
    if o is None && rank(t2.state) < rank(t.state) {
        lemma_step_stable_under_more_input(t, x);
        lemma_need_more_then_more(t2, x);
    }
}

/// Once the machine has ended, later bytes change nothing.
proof fn lemma_done_stable(m: StreamView, x: Seq<u8>)
    requires
        stream_wf(m),
        !m.upstream_done,
        run(m).1 is Done,
    ensures
        run(with_more(m, x)) == (with_more(run(m).0, x), Outcome::Done),
    decreases rank(m.state),
{
    let (m2, o) = step(m);
    lemma_step_keeps_wf(m);
    lemma_step_shrinks(m);
    match o {
        Some(_) => lemma_step_stable_under_more_input(m, x),
        None => if rank(m2.state) < rank(m.state) {
            lemma_step_stable_under_more_input(m, x);
            lemma_done_stable(m2, x);
        },
    }
}

proof fn lemma_run_keeps_wf(m: StreamView)
    requires
        stream_wf(m),
    ensures
        stream_wf(run(m).0),
    decreases rank(m.state),
{
    let (m2, o) = step(m);
    lemma_step_keeps_wf(m);
    if o is None && rank(m2.state) < rank(m.state) {
        lemma_run_keeps_wf(m2);
    }
}

proof fn lemma_drain_keeps(m: StreamView)
    requires
        stream_wf(m),
    ensures
        stream_wf(drain(m).2),
        drain(m).2.upstream_done == m.upstream_done,
        !(drain(m).1 is Part),
    decreases m.buffer.len(),
{
    lemma_run_keeps_wf(m);
    lemma_run_shrinks(m);
    let (m2, o) = run(m);
    if o is Part {
        lemma_drain_keeps(m2);
    }
}

proof fn lemma_drain_need_more_fixpoint(m: StreamView)
    requires
        stream_wf(m),
        drain(m).1 is NeedMore,
    ensures
        drain(drain(m).2) == (Seq::<(PartHeadersView, Seq<u8>)>::empty(), Outcome::NeedMore, drain(m).2),
    decreases m.buffer.len(),
{
    lemma_run_keeps_wf(m);
    lemma_run_shrinks(m);
    let (m2, o) = run(m);
    if o is Part {
        lemma_drain_need_more_fixpoint(m2);
    } else {
        lemma_need_more_fixpoint(m);
    }
}

proof fn lemma_drain_more(m: StreamView, x: Seq<u8>)
    requires
        stream_wf(m),
        !m.upstream_done,
        drain(m).1 is NeedMore,
    ensures
        drain(with_more(m, x)).0 == drain(m).0 + drain(with_more(drain(m).2, x)).0,
        drain(with_more(m, x)).1 == drain(with_more(drain(m).2, x)).1,
        drain(with_more(m, x)).2 == drain(with_more(drain(m).2, x)).2,
    decreases m.buffer.len(),
{
    lemma_run_keeps_wf(m);
    lemma_run_shrinks(m);
    lemma_more_keeps_wf(m, x);
    let (m2, o) = run(m);
    let mx = with_more(m, x);
    let m2x = with_more(m2, x);
    if o is Part {
        lemma_part_stable_under_more_input(m, x);
        lemma_drain_more(m2, x);
        let p = match o {
            Outcome::Part { headers, body } => (headers, body),
            _ => arbitrary(),
        };
        assert(drain(mx).0 == seq![p] + drain(m2x).0);
        assert(drain(m).0 == seq![p] + drain(m2).0);
        assert(seq![p] + (drain(m2).0 + drain(with_more(drain(m2).2, x)).0) =~= (seq![p] + drain(m2).0)
            + drain(with_more(drain(m2).2, x)).0);
    } else {
        lemma_need_more_then_more(m, x);
        lemma_more_keeps_wf(m2, x);
        lemma_run_shrinks(m2x);
    }
}

proof fn lemma_drain_done(m: StreamView, x: Seq<u8>)
    requires
        stream_wf(m),
        !m.upstream_done,
        drain(m).1 is Done,
    ensures
        drain(with_more(m, x)).0 == drain(m).0,
        drain(with_more(m, x)).1 is Done,
    decreases m.buffer.len(),
{
    lemma_run_keeps_wf(m);
    lemma_run_shrinks(m);
    let (m2, o) = run(m);
    if o is Part {
        lemma_part_stable_under_more_input(m, x);
        lemma_drain_done(m2, x);
    } else {
        lemma_done_stable(m, x);
    }
}

proof fn lemma_feed_split(m: StreamView, r: Seq<u8>)
    requires
        stream_wf(m),
        !m.upstream_done,
        !(feed_all(m, seq![r]).1 is Failure),
    ensures
        feed_all(with_more(m, r), Seq::empty()) == feed_all(m, seq![r]),
{
    lemma_drain_keeps(m);
    let (ps, o, m2) = drain(m);
    assert(seq![r].drop_first() =~= Seq::<Seq<u8>>::empty());
    let mx = with_more(m, r);
    if o is NeedMore {
        lemma_drain_more(m, r);
        let d = drain(with_more(m2, r));
        let tail = feed_all(with_more(m2, r), Seq::empty());
        assert(feed_all(m, seq![r]) == (ps + tail.0, tail.1));
        assert(drain(mx) == (ps + d.0, d.1, d.2));
        if d.1 is NeedMore {
            let e = drain(StreamView { upstream_done: true, ..d.2 });
            assert(tail == (d.0 + e.0, e.1));
            assert(feed_all(mx, Seq::empty()) == (ps + d.0 + e.0, e.1));
            assert(ps + d.0 + e.0 =~= ps + (d.0 + e.0));
        } else {
            assert(tail == (d.0, d.1));
            assert(feed_all(mx, Seq::empty()) == (ps + d.0, d.1));
        }
    } else if o is Done {
        lemma_drain_done(m, r);
        assert(feed_all(m, seq![r]) == (ps, o));
        assert(feed_all(mx, Seq::empty()) == (drain(mx).0, drain(mx).1));
    }
}

/// Splitting the input into chunks changes nothing about the parts yielded
/// or the final outcome, as long as no error is reported on the way: feeding
/// `chunks` one by one gives what feeding all their bytes at once gives.
pub proof fn lemma_chunking_irrelevant(m: StreamView, chunks: Seq<Seq<u8>>)
    requires
        stream_wf(m),
        !m.upstream_done,
        !(feed_all(m, chunks).1 is Failure),
    ensures
        feed_all(m, chunks) == feed_all(m, seq![joined(chunks)]),
    decreases chunks.len(),
{
    lemma_drain_keeps(m);
    let (ps, o, m2) = drain(m);
    assert(seq![joined(chunks)].drop_first() =~= Seq::<Seq<u8>>::empty());
    if o is NeedMore {
        if chunks.len() == 0 {
            lemma_more_nothing(m2);
            lemma_drain_need_more_fixpoint(m);
            let e = drain(StreamView { upstream_done: true, ..m2 });
            assert(joined(chunks) == Seq::<u8>::empty());
            assert(feed_all(m, chunks) == (ps + e.0, e.1));
            let tail = feed_all(m2, Seq::empty());
            assert(tail == (Seq::<(PartHeadersView, Seq<u8>)>::empty() + e.0, e.1));
            assert(feed_all(m, seq![joined(chunks)]) == (ps + tail.0, tail.1));
            assert(Seq::<(PartHeadersView, Seq<u8>)>::empty() + e.0 =~= e.0);
        } else {
            let c = chunks[0];
            let rest = chunks.drop_first();
            let m1 = with_more(m2, c);
            lemma_more_keeps_wf(m2, c);
            let f1 = feed_all(m1, rest);
            assert(feed_all(m, chunks) == (ps + f1.0, f1.1));
            lemma_chunking_irrelevant(m1, rest);
            lemma_feed_split(m1, joined(rest));
            lemma_more_twice(m2, c, joined(rest));
            assert(joined(chunks) == c + joined(rest));
            let t = feed_all(with_more(m2, joined(chunks)), Seq::empty());
            assert(feed_all(m, seq![joined(chunks)]) == (ps + t.0, t.1));
        }
    }
}

} // verus!
