//! What holds of the decoder over any run of calls, proved of
//! [`decode_step`], the statement that every call of
//! [`Codec::decode`](crate::codec::Codec::decode) meets.
use crate::codec::{
    absorb, decode_lines, decode_step, decode_transfer, line_too_long, taken, CodecState,
    CodecView, InputView, Step,
};
use crate::err::ErrorView;
use crate::wire::{
    first_newline, lemma_first_newline, lemma_first_newline_is, line_body, scan, search_end, Scan,
    NEWLINE,
};
use vstd::prelude::*;
use vstd::utf8::*;

verus! {

/// The pieces put one after another.
pub open spec fn concat(pieces: Seq<Seq<u8>>) -> Seq<u8>
    decreases pieces.len(),
{
    if pieces.len() == 0 {
        Seq::empty()
    } else {
        pieces[0] + concat(pieces.drop_first())
    }
}

/// A host at work: it appends each piece that arrives to what the decoder
/// left in the buffer and calls the decoder, until a call hands something
/// out or fails. The pieces that arrive after that are left in the buffer.
pub open spec fn feed(v: CodecView, held: Seq<u8>, pieces: Seq<Seq<u8>>) -> Step
    decreases pieces.len(),
{
    if pieces.len() == 0 {
        Step { state: v, rest: held, out: Ok(None) }
    } else {
        let step = decode_step(v, held + pieces[0]);
        if step.out == Ok::<Option<InputView>, ErrorView>(None) {
            feed(step.state, step.rest, pieces.drop_first())
        } else {
            Step { rest: step.rest + concat(pieces.drop_first()), ..step }
        }
    }
}

/// Two calls agree: they return the same, and unless they fail they leave
/// the same state and the same bytes in the buffer.
pub open spec fn agree(a: Step, b: Step) -> bool {
    &&& a.out == b.out
    &&& a.out is Ok ==> a == b
}

/// A call that asks for more data leaves the decoder ready to go on: it
/// reads as before, within the same limit, and has searched no more than
/// the buffer holds.
pub proof fn lemma_lines_wait(v: CodecView, bytes: Seq<u8>)
    requires
        v.cursor <= bytes.len(),
        v.cursor <= v.max_line_length,
        decode_lines(v, bytes).out == Ok::<Option<InputView>, ErrorView>(None),
    ensures
        decode_lines(v, bytes).state.state == v.state,
        decode_lines(v, bytes).state.max_line_length == v.max_line_length,
        decode_lines(v, bytes).state.cursor == decode_lines(v, bytes).rest.len(),
        decode_lines(v, bytes).state.cursor <= v.max_line_length,
    decreases bytes.len(),
{
    let max = v.max_line_length as int;
    let end = search_end(bytes.len() as int, max);
    lemma_first_newline(bytes, v.cursor as int, end);
    match scan(bytes, v.cursor as int, max) {
        Scan::Line(n) => {
            let at_start = CodecView { cursor: 0, ..v };
            let text = decode_utf8(line_body(bytes, n));
            let next = absorb(at_start, text)->Ok_0;
            lemma_lines_wait(next, bytes.skip(n));
        },
        Scan::TooLong => {},
        Scan::Partial(searched) => {},
    }
}

/// In a state that reads lines, a call that asked for more data and a
/// second call on what it left with more bytes behind it come to what one
/// call on all the bytes comes to.
pub proof fn lemma_lines_resume(v: CodecView, first: Seq<u8>, more: Seq<u8>)
    requires
        v.cursor <= first.len(),
        v.cursor <= v.max_line_length,
        decode_lines(v, first).out == Ok::<Option<InputView>, ErrorView>(None),
    ensures
        agree(
            decode_lines(decode_lines(v, first).state, decode_lines(v, first).rest + more),
            decode_lines(v, first + more),
        ),
    decreases first.len(),
{
    let max = v.max_line_length as int;
    let c = v.cursor as int;
    let all = first + more;
    let end1 = search_end(first.len() as int, max);
    let end = search_end(all.len() as int, max);
    lemma_first_newline(first, c, end1);
    let at1 = first_newline(first, c, end1);
    if at1 < end1 {
        let n = at1 + 1;
        assert(all[at1] == first[at1]);
        assert forall|j: int| c <= j < at1 implies all[j] != NEWLINE by {
            assert(all[j] == first[j]);
        }
        lemma_first_newline_is(all, c, end, at1);
        assert(scan(all, c, max) == Scan::Line(n));
        assert(all.subrange(0, n - 1) == first.subrange(0, n - 1));
        assert(all.skip(n) == first.skip(n) + more);
        let at_start = CodecView { cursor: 0, ..v };
        let text = decode_utf8(line_body(first, n));
        let next = absorb(at_start, text)->Ok_0;
        lemma_lines_resume(next, first.skip(n), more);
    } else {
        let waiting = CodecView { cursor: first.len(), ..v };
        assert(decode_lines(v, first).state == waiting);
        lemma_first_newline(all, first.len() as int, end);
        let at = first_newline(all, first.len() as int, end);
        assert forall|j: int| c <= j < at implies all[j] != NEWLINE by {
            if j < first.len() {
                assert(all[j] == first[j]);
            }
        }
        lemma_first_newline_is(all, c, end, at);
        assert(scan(all, c, max) == scan(all, first.len() as int, max));
    }
}

/// During a transfer that hands nothing out before it is complete, a call
/// that asked for more data and a second call on what it left with more
/// bytes behind it come to what one call on all the bytes comes to.
pub proof fn lemma_transfer_resume(v: CodecView, first: Seq<u8>, more: Seq<u8>)
    requires
        !v.state.reads_lines(),
        !(v.state is Chunks),
        decode_transfer(v, first).out == Ok::<Option<InputView>, ErrorView>(None),
    ensures
        agree(
            decode_transfer(
                decode_transfer(v, first).state,
                decode_transfer(v, first).rest + more,
            ),
            decode_transfer(v, first + more),
        ),
{
    let all = first + more;
    if first.len() == 0 {
        assert(first + more == more);
    } else if more.len() == 0 {
        assert(first + more == first);
        let s1 = decode_transfer(v, first);
        assert(s1.rest == first.skip(first.len() as int));
        assert(s1.rest + more == Seq::<u8>::empty());
    } else {
        let s1 = decode_transfer(v, first);
        let n1 = taken(v.remain, first.len());
        assert(n1 == first.len());
        assert(first.take(n1 as int) == first);
        assert(first.skip(n1 as int) == Seq::<u8>::empty());
        assert(s1.rest + more == more);
        let n2 = taken(s1.state.remain, more.len());
        let n = taken(v.remain, all.len());
        assert(n == n1 + n2);
        assert(all.take(n as int) == first + more.take(n2 as int));
        assert(all.skip(n as int) == more.skip(n2 as int));
        assert(v.collected + all.take(n as int) == (v.collected + first) + more.take(n2 as int));
        match v.sink {
            Some(w) => {
                assert(w + all.take(n as int) == (w + first) + more.take(n2 as int));
            },
            None => {},
        }
    }
}

/// Resumability. Whatever the decoder waits for, a frame or the end of a
/// transfer, it does not matter where the bytes are split: a call that
/// asked for more data and a second call on what it left with more bytes
/// behind it return what one call on all the bytes returns, and leave the
/// same state and the same buffer.
///
/// Chunked transfers are left out: they hand out what there is at every
/// call.
pub proof fn lemma_resume(v: CodecView, first: Seq<u8>, more: Seq<u8>)
    requires
        v.wf(),
        v.state.reads_lines() ==> v.cursor <= first.len(),
        !(v.state is Chunks),
        decode_step(v, first).out == Ok::<Option<InputView>, ErrorView>(None),
    ensures
        agree(
            decode_step(decode_step(v, first).state, decode_step(v, first).rest + more),
            decode_step(v, first + more),
        ),
{
    if v.state.reads_lines() {
        lemma_lines_wait(v, first);
        lemma_lines_resume(v, first, more);
    } else {
        lemma_transfer_resume(v, first, more);
    }
}

/// A call that asks for more data leaves a state that the decoder can be
/// in, in which it waits for the same thing, with the buffer as far
/// searched as it is long.
pub proof fn lemma_wait_keeps_going(v: CodecView, bytes: Seq<u8>)
    requires
        v.wf(),
        v.state.reads_lines() ==> v.cursor <= bytes.len(),
        !(v.state is Chunks),
        decode_step(v, bytes).out == Ok::<Option<InputView>, ErrorView>(None),
    ensures
        decode_step(v, bytes).state.wf(),
        decode_step(v, bytes).state.state == v.state,
        v.state.reads_lines() ==> decode_step(v, bytes).state.cursor == decode_step(
            v,
            bytes,
        ).rest.len(),
{
    if v.state.reads_lines() {
        lemma_lines_wait(v, bytes);
        lemma_lines_keep(v, bytes);
    } else {
    }
}

/// Reading lines changes nothing about a transfer.
pub proof fn lemma_lines_keep(v: CodecView, bytes: Seq<u8>)
    requires
        v.state.reads_lines(),
        decode_lines(v, bytes).out is Ok,
    ensures
        decode_lines(v, bytes).state.state.reads_lines(),
        decode_lines(v, bytes).state.remain == v.remain,
        decode_lines(v, bytes).state.sink == v.sink,
        decode_lines(v, bytes).state.pathname == v.pathname,
        decode_lines(v, bytes).state.collected == v.collected,
        decode_lines(v, bytes).state.released == v.released,
        decode_lines(v, bytes).state.max_line_length == v.max_line_length,
    decreases bytes.len(),
{
    let max = v.max_line_length as int;
    match scan(bytes, v.cursor as int, max) {
        Scan::Line(n) => {
            if 0 < n <= bytes.len() {
                let at_start = CodecView { cursor: 0, ..v };
                let body = line_body(bytes, n);
                if valid_utf8(body) && decode_utf8(body).len() != 0 {
                    let next = absorb(at_start, decode_utf8(body))->Ok_0;
                    lemma_lines_keep(next, bytes.skip(n));
                }
            }
        },
        Scan::TooLong => {},
        Scan::Partial(searched) => {},
    }
}

/// Resumability over any number of calls. However the bytes are cut into
/// pieces, a host that hands them to the decoder piece by piece until
/// something comes out gets what one call on all the bytes returns, and is
/// left with the same state and the same bytes in the buffer.
///
/// Chunked transfers are left out: they hand out what there is at every
/// call.
pub proof fn lemma_feed_is_one_call(v: CodecView, held: Seq<u8>, pieces: Seq<Seq<u8>>)
    requires
        v.wf(),
        v.state.reads_lines() ==> v.cursor <= held.len(),
        !(v.state is Chunks),
        pieces.len() > 0,
    ensures
        agree(feed(v, held, pieces), decode_step(v, held + concat(pieces))),
    decreases pieces.len(),
{
    let first = held + pieces[0];
    let later = pieces.drop_first();
    let step = decode_step(v, first);
    assert(concat(pieces) == pieces[0] + concat(later));
    assert(held + concat(pieces) == first + concat(later));
    if step.out == Ok::<Option<InputView>, ErrorView>(None) {
        lemma_wait_keeps_going(v, first);
        lemma_resume(v, first, concat(later));
        if later.len() == 0 {
            assert(concat(later) == Seq::<u8>::empty());
            assert(first + concat(later) == first);
            assert(feed(step.state, step.rest, later) == (Step {
                state: step.state,
                rest: step.rest,
                out: Ok(None),
            }));
        } else {
            lemma_feed_is_one_call(step.state, step.rest, later);
        }
    } else {
        lemma_early_end(v, first, concat(later));
    }
}

/// Bytes behind a complete frame, a finished transfer or a refused line
/// change nothing: the call returns the same, and leaves these bytes where
/// they are.
pub proof fn lemma_early_end(v: CodecView, first: Seq<u8>, more: Seq<u8>)
    requires
        v.wf(),
        v.state.reads_lines() ==> v.cursor <= first.len(),
        !(v.state is Chunks),
        decode_step(v, first).out != Ok::<Option<InputView>, ErrorView>(None),
    ensures
        decode_step(v, first + more).out == decode_step(v, first).out,
        decode_step(v, first).out is Ok ==> decode_step(v, first + more) == (Step {
            rest: decode_step(v, first).rest + more,
            ..decode_step(v, first)
        }),
{
    if v.state.reads_lines() {
        lemma_lines_early_end(v, first, more);
    } else {
        let all = first + more;
        let n = taken(v.remain, first.len());
        assert(n == v.remain);
        assert(taken(v.remain, all.len()) == n);
        assert(all.take(n as int) == first.take(n as int));
        assert(all.skip(n as int) == first.skip(n as int) + more);
    }
}

/// In a state that reads lines, bytes behind a complete frame or a refused
/// line change nothing.
pub proof fn lemma_lines_early_end(v: CodecView, first: Seq<u8>, more: Seq<u8>)
    requires
        v.cursor <= first.len(),
        v.cursor <= v.max_line_length,
        decode_lines(v, first).out != Ok::<Option<InputView>, ErrorView>(None),
    ensures
        decode_lines(v, first + more).out == decode_lines(v, first).out,
        decode_lines(v, first).out is Ok ==> decode_lines(v, first + more) == (Step {
            rest: decode_lines(v, first).rest + more,
            ..decode_lines(v, first)
        }),
    decreases first.len(),
{
    let max = v.max_line_length as int;
    let c = v.cursor as int;
    let all = first + more;
    let end1 = search_end(first.len() as int, max);
    let end = search_end(all.len() as int, max);
    lemma_first_newline(first, c, end1);
    let at1 = first_newline(first, c, end1);
    if at1 < end1 {
        let n = at1 + 1;
        assert(all[at1] == first[at1]);
        assert forall|j: int| c <= j < at1 implies all[j] != NEWLINE by {
            assert(all[j] == first[j]);
        }
        lemma_first_newline_is(all, c, end, at1);
        assert(scan(all, c, max) == Scan::Line(n));
        assert(all.subrange(0, n - 1) == first.subrange(0, n - 1));
        assert(all.skip(n) == first.skip(n) + more);
        let at_start = CodecView { cursor: 0, ..v };
        let body = line_body(first, n);
        if valid_utf8(body) && decode_utf8(body).len() != 0 && absorb(
            at_start,
            decode_utf8(body),
        ) is Ok {
            let next = absorb(at_start, decode_utf8(body))->Ok_0;
            lemma_lines_early_end(next, first.skip(n), more);
        }
    } else {
        // No line end where one may stand, and more bytes than a line has.
        assert(first.len() > max);
        assert(end1 == max + 1);
        assert(end == max + 1);
        assert forall|j: int| c <= j < end implies all[j] != NEWLINE by {
            assert(all[j] == first[j]);
        }
        lemma_first_newline_is(all, c, end, end);
    }
}

/// Max line length. A buffer that holds more bytes than a line may have,
/// with no line end among the first `max_line_length + 1` of them, is
/// refused as a format error, whatever was searched before.
///
/// A line end may stand at index `max_line_length` at the latest, so the
/// longest line that is accepted has that many bytes before its line end.
pub proof fn lemma_long_line_refused(v: CodecView, bytes: Seq<u8>)
    requires
        v.wf(),
        v.state.reads_lines(),
        v.cursor <= bytes.len(),
        bytes.len() > v.max_line_length,
        forall|j: int| 0 <= j <= v.max_line_length ==> bytes[j] != NEWLINE,
    ensures
        decode_step(v, bytes).out == Err::<Option<InputView>, ErrorView>(line_too_long()),
{
    let max = v.max_line_length as int;
    let end = search_end(bytes.len() as int, max);
    lemma_first_newline_is(bytes, v.cursor as int, end, end);
}

/// Max line length, however the bytes arrive. Where the bytes at hand and
/// those that arrive hold, taken together, more bytes than a line may have
/// and no line end among the first `max_line_length + 1` of them, a host
/// that hands them over piece by piece is refused with a format error.
pub proof fn lemma_long_line_refused_in_pieces(
    v: CodecView,
    held: Seq<u8>,
    pieces: Seq<Seq<u8>>,
)
    requires
        v.wf(),
        v.state.reads_lines(),
        v.cursor <= held.len(),
        pieces.len() > 0,
        (held + concat(pieces)).len() > v.max_line_length,
        forall|j: int| 0 <= j <= v.max_line_length ==> (held + concat(pieces))[j] != NEWLINE,
    ensures
        feed(v, held, pieces).out == Err::<Option<InputView>, ErrorView>(line_too_long()),
{
    lemma_feed_is_one_call(v, held, pieces);
    lemma_long_line_refused(v, held + concat(pieces));
}

/// A line that is short enough is found: where a line end stands at an
/// index up to `max_line_length`, and none before it, the decoder takes the
/// line and goes on.
pub proof fn lemma_short_line_found(v: CodecView, bytes: Seq<u8>, at: int)
    requires
        v.wf(),
        v.cursor <= at < bytes.len(),
        at <= v.max_line_length,
        bytes[at] == NEWLINE,
        forall|j: int| v.cursor <= j < at ==> bytes[j] != NEWLINE,
    ensures
        scan(bytes, v.cursor as int, v.max_line_length as int) == Scan::Line(at + 1),
{
    let max = v.max_line_length as int;
    let end = search_end(bytes.len() as int, max);
    lemma_first_newline_is(bytes, v.cursor as int, end, at);
}

/// The bytes that a call takes out of the buffer for the running transfer:
/// all there is, or as much as the transfer still waits for.
pub open spec fn delivery(v: CodecView, bytes: Seq<u8>) -> Seq<u8> {
    bytes.take(taken(v.remain, bytes.len()) as int)
}

/// What a transfer that hands its bytes out at once, or to nobody, returns
/// when it is complete, having taken `delivered`.
pub open spec fn completion(v: CodecView, delivered: Seq<u8>) -> InputView {
    match v.state {
        CodecState::Bytes => InputView::Bytes(v.collected + delivered),
        CodecState::BytesMut => InputView::BytesMut(v.collected + delivered),
        CodecState::File => InputView::File(v.pathname->0),
        CodecState::Writer => InputView::WriteDone,
        _ => InputView::SkipDone,
    }
}

/// The bytes of the chunks among what a decoder handed out, in their order.
pub open spec fn chunk_bytes(outs: Seq<InputView>) -> Seq<u8>
    decreases outs.len(),
{
    if outs.len() == 0 {
        Seq::empty()
    } else {
        (match outs[0] {
            InputView::Chunk(bytes, _) => bytes,
            _ => Seq::empty(),
        }) + chunk_bytes(outs.drop_first())
    }
}

/// A transfer from its first call to its last.
pub struct Run {
    /// The state in which the last call leaves the decoder.
    pub state: CodecView,
    /// The bytes that are left in the buffer.
    pub rest: Seq<u8>,
    /// The bytes that the calls took out of the buffer, in their order.
    pub delivered: Seq<u8>,
    /// What the calls handed out, in their order.
    pub outs: Seq<InputView>,
}

/// A host at work during a transfer: it hands each piece that arrives to
/// the decoder, until the transfer is complete. The pieces that arrive
/// after that are left in the buffer.
pub open spec fn run_transfer(v: CodecView, held: Seq<u8>, pieces: Seq<Seq<u8>>) -> Run
    decreases pieces.len(),
{
    if pieces.len() == 0 || v.state.reads_lines() {
        Run { state: v, rest: held + concat(pieces), delivered: Seq::empty(), outs: Seq::empty() }
    } else {
        let bytes = held + pieces[0];
        let step = decode_transfer(v, bytes);
        let later = run_transfer(step.state, step.rest, pieces.drop_first());
        Run {
            delivered: delivery(v, bytes) + later.delivered,
            outs: (match step.out {
                Ok(Some(out)) => seq![out],
                _ => Seq::empty(),
            }) + later.outs,
            ..later
        }
    }
}

/// One call during a transfer takes [`delivery`] from the front of the
/// buffer and leaves the rest. The transfer waits for that much less, and
/// is over exactly when it waits for nothing more. What was taken is handed
/// out as a chunk, added to what was collected, or written to the sink.
pub proof fn lemma_transfer_step(v: CodecView, bytes: Seq<u8>)
    requires
        v.wf(),
        !v.state.reads_lines(),
        bytes.len() > 0,
    ensures
        ({
            let step = decode_transfer(v, bytes);
            let taken = delivery(v, bytes);
            &&& step.out is Ok
            &&& taken + step.rest == bytes
            &&& step.state.remain + taken.len() == v.remain
            &&& step.state.state == (if step.state.remain == 0 {
                CodecState::Telegram
            } else {
                v.state
            })
            &&& step.out->Ok_0 == (if v.state is Chunks {
                Some(InputView::Chunk(taken, step.state.remain))
            } else if step.state.remain == 0 {
                Some(completion(v, taken))
            } else {
                None
            })
            &&& v.state.collects() && step.state.remain != 0 ==> step.state.collected
                == v.collected + taken
            &&& v.state.writes() ==> (if step.state.remain != 0 {
                step.state.sink == Some(v.sink->0 + taken)
            } else {
                step.state.sink is None && step.state.released == v.sink->0 + taken
            })
        }),
{
    let n = taken(v.remain, bytes.len()) as int;
    assert(bytes.take(n) + bytes.skip(n) == bytes);
}

/// Binary transfer conservation. Over any number of calls, on pieces of any
/// size, a transfer takes from the bytes that arrive exactly as many as it
/// was asked for, from the front and in their order, or all of them where
/// fewer arrive; what follows stays in the buffer.
///
/// Where enough bytes arrive, the transfer is over and the decoder expects
/// a telegram. A chunked transfer has then handed out exactly the bytes
/// taken, in chunks of which the last reports that nothing remains. Any
/// other transfer hands out nothing before its completion value, which
/// holds the bytes taken behind what was collected before; a sink has
/// accepted the bytes taken, behind what it had accepted before, when it is
/// closed.
#[verifier::rlimit(40)]
pub proof fn lemma_transfer_conserves(v: CodecView, pieces: Seq<Seq<u8>>)
    requires
        v.wf(),
        !v.state.reads_lines(),
    ensures
        ({
            let run = run_transfer(v, Seq::empty(), pieces);
            let all = concat(pieces);
            let n = taken(v.remain, all.len());
            let complete = all.len() >= v.remain && all.len() > 0;
            &&& run.delivered == all.take(n as int)
            &&& run.rest == all.skip(n as int)
            &&& run.state.remain + n == v.remain
            &&& complete ==> run.state.state is Telegram
            &&& v.state is Chunks ==> chunk_bytes(run.outs) == run.delivered
            &&& v.state is Chunks && complete ==> run.outs.len() > 0 && (run.outs.last() matches InputView::Chunk(
                _,
                left,
            ) && left == 0)
            &&& !(v.state is Chunks) ==> run.outs == (if complete {
                seq![completion(v, run.delivered)]
            } else {
                Seq::empty()
            })
            &&& v.state.collects() && !complete ==> run.state.collected == v.collected
                + run.delivered
            &&& v.state.writes() ==> (if complete {
                run.state.released == v.sink->0 + run.delivered
            } else {
                run.state.sink == Some(v.sink->0 + run.delivered)
            })
        }),
    decreases pieces.len(),
{
    let none = Seq::<u8>::empty();
    let all = concat(pieces);
    if pieces.len() == 0 {
        assert(none + concat(pieces) == none);
        assert(all.take(0) == none);
        assert(all.skip(0) == none);
        match v.sink {
            Some(w) => {
                assert(w + none == w);
            },
            None => {},
        }
        assert(v.collected + none == v.collected);
    } else {
        let first = pieces[0];
        let later = pieces.drop_first();
        let rest = concat(later);
        assert(none + first == first);
        assert(all == first + rest);
        let step = decode_transfer(v, first);
        let d = delivery(v, first);
        let tail = run_transfer(step.state, step.rest, later);
        if first.len() == 0 {
            assert(all == rest);
            assert(step.state == v);
            assert(step.rest == none);
            assert(d == none);
            lemma_transfer_conserves(v, later);
            assert(none + tail.delivered == tail.delivered);
            assert(Seq::<InputView>::empty() + tail.outs == tail.outs);
        } else {
            lemma_transfer_step(v, first);
            let n = taken(v.remain, all.len());
            if step.state.remain == 0 {
                // The transfer is over with this call.
                assert(tail == (Run {
                    state: step.state,
                    rest: step.rest + rest,
                    delivered: none,
                    outs: Seq::empty(),
                }));
                assert(d + none == d);
                assert(n == d.len());
                assert(all.take(n as int) == d);
                assert(all.skip(n as int) == first.skip(n as int) + rest);
                let out = step.out->Ok_0->0;
                assert(seq![out] + Seq::<InputView>::empty() == seq![out]);
                if v.state is Chunks {
                    assert(seq![out].drop_first() == Seq::<InputView>::empty());
                    assert(chunk_bytes(seq![out]) == d + chunk_bytes(Seq::<InputView>::empty()));
                }
            } else {
                assert(d == first);
                assert(step.rest == none);
                lemma_transfer_conserves(step.state, later);
                let m = taken(step.state.remain, rest.len());
                assert(n == first.len() + m);
                assert(all.take(n as int) == first + rest.take(m as int));
                assert(all.skip(n as int) == rest.skip(m as int));
                assert(v.collected + (first + tail.delivered) == (v.collected + first)
                    + tail.delivered);
                match v.sink {
                    Some(w) => {
                        assert(w + (first + tail.delivered) == (w + first) + tail.delivered);
                    },
                    None => {},
                }
                if v.state is Chunks {
                    let out = step.out->Ok_0->0;
                    let outs = seq![out] + tail.outs;
                    assert(outs.drop_first() == tail.outs);
                    assert(outs[0] == out);
                    if rest.len() >= step.state.remain && rest.len() > 0 {
                        assert(outs.last() == tail.outs.last());
                    }
                } else {
                    assert(Seq::<InputView>::empty() + tail.outs == tail.outs);
                    assert(completion(step.state, tail.delivered) == completion(
                        v,
                        first + tail.delivered,
                    ));
                }
            }
        }
    }
}

} // verus!
