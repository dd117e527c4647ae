//! A codec that decodes the protocol from a byte stream, however the bytes
//! are split on arrival, and encodes buffers for sending.
//!
//! [`decode_step`] says what one call of [`Codec::decode`] makes of a state
//! and the bytes at hand. What follows from it over many calls is proved in
//! [`crate::laws`].
use crate::buf::{buffered, frozen, put_buffer};
use crate::err::{Error, ErrorView};
use crate::text::{not_utf8, utf8};
use crate::types::kvlines::KVLines;
use crate::types::params::{upsert, Params};
use crate::types::telegram::{empty_telegram, telegram_size, Telegram, TelegramView};
use crate::types::validators::{key_verdict, topic_verdict};
use crate::wire::{
    first_newline, frame_wire, lemma_first_newline_is, line_body, scan, search_end, split_entry,
    split_line, telegram_wire, without_carriage_return, Entry, Scan, NEWLINE,
};
use bytes::{BufMut, Bytes, BytesMut};
use std::path::PathBuf;
use vstd::prelude::*;
use vstd::string::*;
use vstd::utf8::*;

verus! {

/// `std::path::PathBuf`, a path that the codec keeps and hands back as it
/// got it.
#[verifier::external_type_specification]
#[verifier::external_body]
pub struct ExPathBuf(PathBuf);

/// A destination for the bytes of a transfer: a file, a socket, memory.
///
/// A write either takes all that it is given or fails. Dropping the sink
/// closes it.
pub trait Sink: Send + Sync {
    /// Write all of `data`, or fail.
    fn write_all(&mut self, data: &[u8]) -> Result<(), Error>;
}

impl Sink for Vec<u8> {
    /// A vector accepts every write and keeps the bytes.
    fn write_all(&mut self, data: &[u8]) -> (r: Result<(), Error>)
        ensures
            r is Ok,
            final(self)@ == old(self)@ + data@,
    {
        crate::wire::push_bytes(self, data);
        Ok(())
    }
}

/// A sink in a box, as a decoder holds it for the time of a transfer. The
/// box keeps account of what it has passed on.
pub struct BoxedSink {
    sink: Box<dyn Sink>,
    passed: Ghost<Seq<u8>>,
}

impl BoxedSink {
    /// The bytes that the sink has accepted through this box, first to last.
    pub closed spec fn written(&self) -> Seq<u8> {
        self.passed@
    }

    /// Put a sink in a box. Nothing has passed through it yet.
    pub fn new<W: Sink + 'static>(sink: W) -> (r: BoxedSink)
        ensures
            r.written() == Seq::<u8>::empty(),
    {
        BoxedSink { sink: Box::new(sink), passed: Ghost(Seq::empty()) }
    }

    /// Write all of `data` to the sink in the box, or fail. A write that
    /// succeeds is added to the account.
    pub fn write_all(&mut self, data: &[u8]) -> (r: Result<(), Error>)
        ensures
            final(self).written() == (if r is Ok {
                old(self).written() + data@
            } else {
                old(self).written()
            }),
    {
        let outcome = self.sink.write_all(data);
        self.account(data, outcome)
    }

    /// Take note of what the sink answered to a write of `data`: a write
    /// that succeeded is added to the account, a failure leaves it as it is.
    /// The answer is passed on unchanged.
    fn account(&mut self, data: &[u8], outcome: Result<(), Error>) -> (r: Result<(), Error>)
        ensures
            r == outcome,
            final(self).written() == (if outcome is Ok {
                old(self).written() + data@
            } else {
                old(self).written()
            }),
    {
        if outcome.is_ok() {
            self.passed = Ghost(self.passed@ + data@);
        }
        outcome
    }
}

/// Current state of decoder.
///
/// Controls what, if anything, will be returned to the application.
#[derive(Clone, Copy, Debug, PartialEq, Eq, Structural)]
pub enum CodecState {
    /// Read and decode a [`Telegram`] buffer from the network.
    Telegram,
    /// Read and decode a [`Params`] buffer from the network.
    Params,
    /// Read and decode an vector of key/value pairs.
    KVLines,
    /// Read a specified amount of raw bytes, and return it in chunks as they
    /// arrive.
    Chunks,
    /// Read a specified amount of raw bytes, and return the entire immutable
    /// buffer when it has arrived.
    Bytes,
    /// Read a specified amount of raw bytes, and return the entire mutable
    /// buffer when it has arrived.
    BytesMut,
    /// Read a specified amount of raw bytes and store them in chunks as they
    /// arrive in a file.
    File,
    /// Read a specified amount of raw bytes and write them in chunks as they
    /// arrive to a writer object.
    Writer,
    /// Ignore a specified amount of raw bytes.
    Skip,
}

impl CodecState {
    /// The states in which lines are read.
    pub open spec fn reads_lines(self) -> bool {
        self is Telegram || self is Params || self is KVLines
    }

    /// The states in which the bytes of a transfer go to a sink.
    pub open spec fn writes(self) -> bool {
        self is File || self is Writer
    }

    /// The states in which the bytes of a transfer are collected in memory.
    pub open spec fn collects(self) -> bool {
        self is Bytes || self is BytesMut
    }
}

/// Data returned to the application when the decoder has a complete entity
/// to return.
pub enum Input {
    /// A complete [`Telegram`] has been received.
    Telegram(Telegram),
    /// A complete key/value lines buffer ([`KVLines`]) has been received.
    KVLines(KVLines),
    /// A complete [`Params`] has been received.
    Params(Params),
    /// A chunk of raw data has arrived. The second argument is the amount of
    /// data remains, which has been adjusted for the current chunk. If the
    /// `usize` parameter is 0 it means this is the final chunk.
    Chunk(BytesMut, usize),
    /// A complete raw immutable buffer has been received.
    Bytes(Bytes),
    /// A complete raw mutable buffer has been received.
    BytesMut(BytesMut),
    /// A complete buffer has been received and stored to the file specified in
    /// `PathBuf`.
    File(PathBuf),
    /// A complete buffer has been written to the writer.
    WriteDone,
    /// The requested number of bytes have been ignored.
    SkipDone,
}

/// What an [`Input`] holds.
pub enum InputView {
    Telegram(TelegramView),
    KVLines(Seq<Entry>),
    Params(Seq<Entry>),
    Chunk(Seq<u8>, nat),
    Bytes(Seq<u8>),
    BytesMut(Seq<u8>),
    File(PathBuf),
    WriteDone,
    SkipDone,
}

impl View for Input {
    type V = InputView;

    open spec fn view(&self) -> InputView {
        match self {
            Input::Telegram(t) => InputView::Telegram(t@),
            Input::KVLines(l) => InputView::KVLines(l@),
            Input::Params(p) => InputView::Params(p.entries()),
            Input::Chunk(b, n) => InputView::Chunk(buffered(*b), *n as nat),
            Input::Bytes(b) => InputView::Bytes(frozen(*b)),
            Input::BytesMut(b) => InputView::BytesMut(buffered(*b)),
            Input::File(p) => InputView::File(*p),
            Input::WriteDone => InputView::WriteDone,
            Input::SkipDone => InputView::SkipDone,
        }
    }
}

/// What a decoder holds between two calls.
pub struct CodecView {
    /// What the next call is to produce.
    pub state: CodecState,
    /// How many bytes of the buffer were searched without finding a line end.
    pub cursor: nat,
    /// The longest line that is accepted, its line end not counted.
    pub max_line_length: nat,
    /// The telegram under construction.
    pub telegram: TelegramView,
    /// The parameters under construction.
    pub params: Seq<Entry>,
    /// The key/value list under construction.
    pub kvlines: Seq<Entry>,
    /// The bytes that the running transfer still waits for.
    pub remain: nat,
    /// Where a transfer to a file ends up.
    pub pathname: Option<PathBuf>,
    /// What the sink of the running transfer has accepted, if there is one.
    pub sink: Option<Seq<u8>>,
    /// What a transfer to memory has collected.
    pub collected: Seq<u8>,
    /// What the sink of the last finished transfer had accepted when it was
    /// closed.
    pub released: Seq<u8>,
}

impl CodecView {
    /// The states that a decoder can be in: the cursor stays within a line,
    /// a transfer to memory fits into one buffer, and a transfer to a sink
    /// has its sink, and its path where it goes to a file.
    pub open spec fn wf(self) -> bool {
        &&& self.cursor <= self.max_line_length
        &&& self.max_line_length <= usize::MAX
        &&& self.remain <= usize::MAX
        &&& self.state.collects() ==> self.collected.len() + self.remain <= isize::MAX
        &&& self.state.writes() ==> self.sink is Some
        &&& self.state is File ==> self.pathname is Some
    }
}

/// The outcome of one call of the decoder.
pub struct Step {
    /// The state in which the call leaves the decoder.
    pub state: CodecView,
    /// The bytes that the call leaves in the buffer.
    pub rest: Seq<u8>,
    /// What the call returns.
    pub out: Result<Option<InputView>, ErrorView>,
}

/// The error for a line that is longer than the decoder accepts.
pub open spec fn line_too_long() -> ErrorView {
    ErrorView::BadFormat("Exceeded maximum line length."@)
}

/// The error for a zero size.
pub open spec fn zero_size() -> ErrorView {
    ErrorView::InvalidSize("The size must not be zero"@)
}

/// The error for a transfer to a file that has lost its path.
pub open spec fn missing_pathname() -> ErrorView {
    ErrorView::BadState("Missing pathname"@)
}

/// An entry put into unique-key entries, if its key is valid.
pub open spec fn put_checked(entries: Seq<Entry>, e: Entry) -> Result<Seq<Entry>, ErrorView> {
    match key_verdict(e.0) {
        Some(err) => Err(err),
        None => Ok(upsert(entries, e.0, e.1)),
    }
}

/// What a line that is not empty does to the buffer under construction.
///
/// The first line of a telegram is its topic. Every other line is an entry,
/// split at its first space; a line without a space is passed over.
pub open spec fn absorb(v: CodecView, text: Seq<char>) -> Result<CodecView, ErrorView> {
    match v.state {
        CodecState::Telegram => if v.telegram.topic is None {
            match topic_verdict(text) {
                Some(err) => Err(err),
                None => Ok(
                    CodecView { telegram: TelegramView { topic: Some(text), ..v.telegram }, ..v },
                ),
            }
        } else {
            match split_entry(text) {
                None => Ok(v),
                Some(e) => match put_checked(v.telegram.entries, e) {
                    Err(err) => Err(err),
                    Ok(entries) => Ok(
                        CodecView { telegram: TelegramView { entries, ..v.telegram }, ..v },
                    ),
                },
            }
        },
        CodecState::Params => match split_entry(text) {
            None => Ok(v),
            Some(e) => match put_checked(v.params, e) {
                Err(err) => Err(err),
                Ok(entries) => Ok(CodecView { params: entries, ..v }),
            },
        },
        CodecState::KVLines => match split_entry(text) {
            None => Ok(v),
            Some(e) => Ok(CodecView { kvlines: v.kvlines.push(e), ..v }),
        },
        _ => Ok(v),
    }
}

/// What the empty line at the end of a frame does: the buffer under
/// construction is handed out, an empty one takes its place, and the decoder
/// expects a telegram next.
pub open spec fn finish(v: CodecView) -> (CodecView, InputView) {
    match v.state {
        CodecState::Params => (
            CodecView { params: Seq::empty(), state: CodecState::Telegram, ..v },
            InputView::Params(v.params),
        ),
        CodecState::KVLines => (
            CodecView { kvlines: Seq::empty(), state: CodecState::Telegram, ..v },
            InputView::KVLines(v.kvlines),
        ),
        _ => (
            CodecView { telegram: empty_telegram(), state: CodecState::Telegram, ..v },
            InputView::Telegram(v.telegram),
        ),
    }
}

/// A call that fails. The state and the buffer it leaves are not for use.
pub open spec fn failed(v: CodecView, bytes: Seq<u8>, err: ErrorView) -> Step {
    Step { state: v, rest: bytes, out: Err(err) }
}

/// One call of the decoder in a state that reads lines: line after line is
/// taken from the buffer until a frame is complete, the buffer holds no
/// further whole line, or a line is refused.
pub open spec fn decode_lines(v: CodecView, bytes: Seq<u8>) -> Step
    decreases bytes.len(),
{
    match scan(bytes, v.cursor as int, v.max_line_length as int) {
        Scan::Partial(searched) => Step {
            state: CodecView { cursor: searched as nat, ..v },
            rest: bytes,
            out: Ok(None),
        },
        Scan::TooLong => failed(v, bytes, line_too_long()),
        Scan::Line(n) => if 0 < n <= bytes.len() {
            let body = line_body(bytes, n);
            let rest = bytes.skip(n);
            let at_start = CodecView { cursor: 0, ..v };
            if !valid_utf8(body) {
                failed(v, bytes, not_utf8())
            } else if decode_utf8(body).len() == 0 {
                Step { state: finish(at_start).0, rest, out: Ok(Some(finish(at_start).1)) }
            } else {
                match absorb(at_start, decode_utf8(body)) {
                    Err(err) => failed(v, bytes, err),
                    Ok(next) => decode_lines(next, rest),
                }
            }
        } else {
            failed(v, bytes, line_too_long())
        },
    }
}

/// How many bytes a call takes for the running transfer: what the transfer
/// still waits for, or all there is.
pub open spec fn taken(remain: nat, available: nat) -> nat {
    if remain < available {
        remain
    } else {
        available
    }
}

/// One call of the decoder during a transfer of raw bytes, where a sink, if
/// there is one, accepts what it is given.
pub open spec fn decode_transfer(v: CodecView, bytes: Seq<u8>) -> Step {
    if bytes.len() == 0 {
        Step { state: v, rest: bytes, out: Ok(None) }
    } else {
        let n = taken(v.remain, bytes.len());
        let chunk = bytes.take(n as int);
        let rest = bytes.skip(n as int);
        let left = (v.remain - n) as nat;
        let going = CodecView { remain: left, ..v };
        let done = CodecView { remain: left, state: CodecState::Telegram, ..v };
        match v.state {
            CodecState::Chunks => Step {
                state: if left == 0 {
                    done
                } else {
                    going
                },
                rest,
                out: Ok(Some(InputView::Chunk(chunk, left))),
            },
            CodecState::Bytes => if left != 0 {
                Step {
                    state: CodecView { collected: v.collected + chunk, ..going },
                    rest,
                    out: Ok(None),
                }
            } else {
                Step {
                    state: CodecView { collected: Seq::empty(), ..done },
                    rest,
                    out: Ok(Some(InputView::Bytes(v.collected + chunk))),
                }
            },
            CodecState::BytesMut => if left != 0 {
                Step {
                    state: CodecView { collected: v.collected + chunk, ..going },
                    rest,
                    out: Ok(None),
                }
            } else {
                Step {
                    state: CodecView { collected: Seq::empty(), ..done },
                    rest,
                    out: Ok(Some(InputView::BytesMut(v.collected + chunk))),
                }
            },
            CodecState::File => if left != 0 {
                Step { state: CodecView { sink: fed(v.sink, chunk), ..going }, rest, out: Ok(None) }
            } else {
                match v.pathname {
                    Some(path) => Step {
                        state: CodecView {
                            sink: None,
                            pathname: None,
                            released: closed_with(v.sink, chunk),
                            ..done
                        },
                        rest,
                        out: Ok(Some(InputView::File(path))),
                    },
                    None => failed(v, bytes, missing_pathname()),
                }
            },
            CodecState::Writer => if left != 0 {
                Step { state: CodecView { sink: fed(v.sink, chunk), ..going }, rest, out: Ok(None) }
            } else {
                Step {
                    state: CodecView { sink: None, released: closed_with(v.sink, chunk), ..done },
                    rest,
                    out: Ok(Some(InputView::WriteDone)),
                }
            },
            _ => if left != 0 {
                Step { state: going, rest, out: Ok(None) }
            } else {
                Step { state: done, rest, out: Ok(Some(InputView::SkipDone)) }
            },
        }
    }
}

/// What a sink has accepted after one more write that succeeds.
pub open spec fn fed(sink: Option<Seq<u8>>, chunk: Seq<u8>) -> Option<Seq<u8>> {
    match sink {
        Some(w) => Some(w + chunk),
        None => None,
    }
}

/// What a sink has accepted when it is closed after a last write.
pub open spec fn closed_with(sink: Option<Seq<u8>>, chunk: Seq<u8>) -> Seq<u8> {
    match sink {
        Some(w) => w + chunk,
        None => Seq::empty(),
    }
}

/// One call of the decoder: what it returns, and the state and the buffer
/// it leaves, for a state and the bytes in the buffer.
pub open spec fn decode_step(v: CodecView, bytes: Seq<u8>) -> Step {
    if v.state.reads_lines() {
        decode_lines(v, bytes)
    } else {
        decode_transfer(v, bytes)
    }
}

/// What a call of the decoder returns, as the step functions state it.
pub open spec fn returned(r: Result<Option<Input>, Error>) -> Result<
    Option<InputView>,
    ErrorView,
> {
    match r {
        Ok(Some(input)) => Ok(Some(input@)),
        Ok(None) => Ok(None),
        Err(e) => Err(e@),
    }
}

/// The state of a decoder that has seen nothing yet: it expects a telegram,
/// and holds empty buffers and no transfer.
pub open spec fn initial(max_line_length: nat) -> CodecView {
    CodecView {
        state: CodecState::Telegram,
        cursor: 0,
        max_line_length,
        telegram: empty_telegram(),
        params: Seq::empty(),
        kvlines: Seq::empty(),
        remain: 0,
        pathname: None,
        sink: None,
        collected: Seq::empty(),
        released: Seq::empty(),
    }
}

/// The state after a transfer of `size` bytes is asked for.
pub open spec fn expecting(v: CodecView, state: CodecState, size: nat) -> CodecView {
    CodecView { state, remain: size, ..v }
}

/// The Codec is used to keep track of the state of the inbound and outbound
/// communication.
pub struct Codec {
    next_line_index: usize,
    max_line_length: usize,
    tg: Telegram,
    params: Params,
    kvlines: KVLines,
    state: CodecState,
    bin_remain: usize,
    pathname: Option<PathBuf>,
    writer: Option<BoxedSink>,
    buf: BytesMut,
    released: Ghost<Seq<u8>>,
}

impl View for Codec {
    type V = CodecView;

    closed spec fn view(&self) -> CodecView {
        CodecView {
            state: self.state,
            cursor: self.next_line_index as nat,
            max_line_length: self.max_line_length as nat,
            telegram: self.tg@,
            params: self.params.entries(),
            kvlines: self.kvlines@,
            remain: self.bin_remain as nat,
            pathname: self.pathname,
            sink: match self.writer {
                Some(w) => Some(w.written()),
                None => None,
            },
            collected: buffered(self.buf),
            released: self.released@,
        }
    }
}

impl Default for Codec {
    fn default() -> (r: Self)
        ensures
            r@ == initial(usize::MAX as nat),
            r.wf(),
    {
        Codec::new()
    }
}

impl Codec {
    /// The decoder is in a state that it can be in.
    pub open spec fn wf(&self) -> bool {
        self@.wf()
    }

    /// Create a new `Codec`. It will default to having not practical limit to
    /// the maximum line length and it will expect a [`Telegram`] buffer to
    /// arrive as the first frame.
    pub fn new() -> (r: Codec)
        ensures
            r@ == initial(usize::MAX as nat),
            r.wf(),
    {
        Codec {
            next_line_index: 0,
            max_line_length: usize::MAX,
            tg: Telegram::new(),
            params: Params::new(),
            kvlines: KVLines::new(),
            state: CodecState::Telegram,
            bin_remain: 0,
            pathname: None,
            writer: None,
            buf: BytesMut::new(),
            released: Ghost(Seq::empty()),
        }
    }

    /// Create a new `Codec` with a specific maximum line length. The default
    /// state will be to expect a [`Telegram`].
    pub fn new_with_max_length(max_line_length: usize) -> (r: Self)
        ensures
            r@ == initial(max_line_length as nat),
            r.wf(),
    {
        Codec {
            next_line_index: 0,
            max_line_length,
            tg: Telegram::new(),
            params: Params::new(),
            kvlines: KVLines::new(),
            state: CodecState::Telegram,
            bin_remain: 0,
            pathname: None,
            writer: None,
            buf: BytesMut::new(),
            released: Ghost(Seq::empty()),
        }
    }

    /// Get the current maximum line length.
    pub fn max_line_length(&self) -> (n: usize)
        ensures
            n == self@.max_line_length,
    {
        self.max_line_length
    }

    /// What the next call of the decoder is to produce.
    pub fn state(&self) -> (s: CodecState)
        ensures
            s == self@.state,
    {
        self.state
    }

    /// How many bytes of the buffer were searched without finding a line
    /// end. The buffer handed to the decoder must hold at least as many.
    pub fn searched(&self) -> (n: usize)
        ensures
            n == self@.cursor,
    {
        self.next_line_index
    }

    /// How many bytes the running transfer still waits for.
    pub fn remaining(&self) -> (n: usize)
        ensures
            n == self@.remain,
    {
        self.bin_remain
    }

    /// Set the decoder to treat the next `size` bytes as raw bytes to be
    /// received in chunks.
    ///
    /// # Decoder behavior
    /// The decoder will return an [`Input::Chunk(buf, remain)`](Input::Chunk) to
    /// the application each time a new chunk has been received. In addition to
    /// the actual chunk the number of bytes remaining will be returned. The
    /// remaining bytes value is adjusted to subtract the currently returned
    /// chunk, which means that the application can detect the end of the
    /// buffer by checking if the remaining value is zero.
    ///
    /// Once the entire buffer has been received the decoder will revert to
    /// expect an [`Input::Telegram`]. A size of zero is refused and nothing
    /// changes.
    pub fn expect_chunks(&mut self, size: usize) -> (r: Result<(), Error>)
        requires
            old(self).wf(),
        ensures
            r is Ok <==> size != 0,
            match r {
                Ok(_) => final(self)@ == expecting(old(self)@, CodecState::Chunks, size as nat),
                Err(e) => e@ == zero_size() && final(self)@ == old(self)@,
            },
            final(self).wf(),
    {
        if size == 0 {
            return Err(Error::invalid_size("The size must not be zero"));
        }
        self.state = CodecState::Chunks;
        self.bin_remain = size;
        Ok(())
    }

    /// Expect a immutable buffer of a certain size to be received.
    ///
    /// The returned buffer will be stored in process memory, which is set
    /// aside at once; no buffer holds more than `isize::MAX` bytes.
    ///
    /// # Decoder behavior
    /// Once a complete buffer has been successfully reaceived the decoder will
    /// return an [`Input::Bytes(b)`](Input::Bytes) where `b` is a
    /// [`bytes::Bytes`] containing the entire buffer.
    ///
    /// Once the entire buffer has been received the decoder will revert to
    /// expect an [`Input::Telegram`]. A size of zero is refused and nothing
    /// changes.
    pub fn expect_bytes(&mut self, size: usize) -> (r: Result<(), Error>)
        requires
            old(self).wf(),
            size <= isize::MAX,
        ensures
            r is Ok <==> size != 0,
            match r {
                Ok(_) => final(self)@ == (CodecView {
                    collected: Seq::empty(),
                    ..expecting(old(self)@, CodecState::Bytes, size as nat)
                }),
                Err(e) => e@ == zero_size() && final(self)@ == old(self)@,
            },
            final(self).wf(),
    {
        if size == 0 {
            return Err(Error::invalid_size("The size must not be zero"));
        }
        self.state = CodecState::Bytes;
        self.bin_remain = size;
        self.buf = BytesMut::with_capacity(size);
        Ok(())
    }

    /// Expect a mutable buffer of a certain size to be received.
    ///
    /// The returned buffer will be stored in process memory, which is set
    /// aside at once; no buffer holds more than `isize::MAX` bytes.
    ///
    /// # Decoder behavior
    /// Once a complete buffer has been successfully reaceived the decoder will
    /// return an [`Input::BytesMut(b)`](Input::BytesMut) where `b` is a
    /// [`bytes::BytesMut`] containing the entire buffer.
    ///
    /// Once the entire buffer has been received the decoder will revert to
    /// expect an [`Input::Telegram`]. A size of zero is refused and nothing
    /// changes.
    pub fn expect_bytesmut(&mut self, size: usize) -> (r: Result<(), Error>)
        requires
            old(self).wf(),
            size <= isize::MAX,
        ensures
            r is Ok <==> size != 0,
            match r {
                Ok(_) => final(self)@ == (CodecView {
                    collected: Seq::empty(),
                    ..expecting(old(self)@, CodecState::BytesMut, size as nat)
                }),
                Err(e) => e@ == zero_size() && final(self)@ == old(self)@,
            },
            final(self).wf(),
    {
        if size == 0 {
            return Err(Error::invalid_size("The size must not be zero"));
        }
        self.state = CodecState::BytesMut;
        self.bin_remain = size;
        self.buf = BytesMut::with_capacity(size);
        Ok(())
    }

    /// Expects a certain amount of bytes of data to arrive from the peer, and
    /// that data should be stored to a file. The caller has opened the file
    /// and hands it over as a sink, with the path that it was opened at.
    ///
    /// # Decoder behavior
    /// On successful completion the decoder will return an
    /// [`Input::File(pathname)`](Input::File) once the entire file length has
    /// successfully been received, where the pathname is the one passed to
    /// this function. The file is closed then.
    ///
    /// Once the entire buffer has been received the decoder will revert to
    /// expect an [`Input::Telegram`]. A size of zero is refused and nothing
    /// changes.
    pub fn expect_file(&mut self, pathname: PathBuf, file: BoxedSink, size: usize) -> (r:
        Result<(), Error>)
        requires
            old(self).wf(),
        ensures
            r is Ok <==> size != 0,
            match r {
                Ok(_) => final(self)@ == (CodecView {
                    pathname: Some(pathname),
                    sink: Some(file.written()),
                    ..expecting(old(self)@, CodecState::File, size as nat)
                }),
                Err(e) => e@ == zero_size() && final(self)@ == old(self)@,
            },
            final(self).wf(),
    {
        if size == 0 {
            return Err(Error::invalid_size("The size must not be zero"));
        }
        self.state = CodecState::File;
        self.writer = Some(file);
        self.pathname = Some(pathname);
        self.bin_remain = size;
        Ok(())
    }

    /// Called from an application to request that data should be written to a
    /// supplied writer.
    ///
    /// The writer's ownership will be transferred to the decoder and will
    /// automatically be dropped once the entire buffer has been written.
    ///
    /// # Decoder behavior
    /// On successful completion the decoder will return an
    /// [`Input::WriteDone`] to signal that the entire buffer has been received
    /// and written to the writer.
    ///
    /// Once the entire buffer has been received the decoder will revert to
    /// expect an [`Input::Telegram`]. A size of zero is refused and nothing
    /// changes.
    pub fn expect_writer(&mut self, writer: BoxedSink, size: usize) -> (r: Result<(), Error>)
        requires
            old(self).wf(),
        ensures
            r is Ok <==> size != 0,
            match r {
                Ok(_) => final(self)@ == (CodecView {
                    sink: Some(writer.written()),
                    ..expecting(old(self)@, CodecState::Writer, size as nat)
                }),
                Err(e) => e@ == zero_size() && final(self)@ == old(self)@,
            },
            final(self).wf(),
    {
        if size == 0 {
            return Err(Error::invalid_size("The size must not be zero"));
        }
        self.state = CodecState::Writer;
        self.writer = Some(writer);
        self.bin_remain = size;
        Ok(())
    }

    /// Tell the decoder to expect lines of key/value pairs.
    ///
    /// # Decoder behavior
    /// On successful completion the the decoder will next return an
    /// [`Input::Params(params)`](Input::Params) once a complete `Params` buffer
    /// has been received.
    ///
    /// Once the entire buffer has been received the decoder will revert to
    /// expect an [`Input::Telegram`].
    pub fn expect_params(&mut self)
        requires
            old(self).wf(),
        ensures
            final(self)@ == (CodecView { state: CodecState::Params, ..old(self)@ }),
            final(self).wf(),
    {
        self.state = CodecState::Params;
    }

    /// Tell the decoder to expect lines ordered key/value pairs.
    ///
    /// # Decoder behavior
    /// On successful completion the decoder will return an
    /// [`Input::KVLines(kvlines)`](Input::KVLines) once a complete `KVLines`
    /// buffer has been received.
    ///
    /// Once the entire buffer has been received the decoder will revert to
    /// expect an [`Input::Telegram`].
    pub fn expect_kvlines(&mut self)
        requires
            old(self).wf(),
        ensures
            final(self)@ == (CodecView { state: CodecState::KVLines, ..old(self)@ }),
            final(self).wf(),
    {
        self.state = CodecState::KVLines;
    }

    /// Skip a requested number of bytes.
    ///
    /// # Decoder behavior
    /// On successful completion the decoder will have ignored the specified
    /// number of byes, reverts back to waiting for a [`Input::Telegram`] and
    /// returns [`Input::SkipDone`]. A size of zero is refused and nothing
    /// changes.
    pub fn skip(&mut self, size: usize) -> (r: Result<(), Error>)
        requires
            old(self).wf(),
        ensures
            r is Ok <==> size != 0,
            match r {
                Ok(_) => final(self)@ == expecting(old(self)@, CodecState::Skip, size as nat),
                Err(e) => e@ == zero_size() && final(self)@ == old(self)@,
            },
            final(self).wf(),
    {
        if size == 0 {
            return Err(Error::invalid_size("The size must not be zero"));
        }
        self.state = CodecState::Skip;
        self.bin_remain = size;
        Ok(())
    }

    /// How much of the buffer the running transfer takes now.
    fn take_count(&self, buf: &BytesMut) -> (n: usize)
        ensures
            n == taken(self@.remain, buffered(*buf).len()),
    {
        let available = buf.len();
        if self.bin_remain < available {
            self.bin_remain
        } else {
            available
        }
    }

    /// Go on after a chunk of `count` bytes was handed to the sink, which
    /// answered `written`: a failure is passed on; else the transfer has that
    /// much less to wait for, and where nothing is left the sink is closed
    /// and the transfer is reported done.
    fn after_write(&mut self, written: Result<(), Error>, count: usize) -> (r: Result<
        Option<Input>,
        Error,
    >)
        requires
            old(self).wf(),
            old(self)@.state.writes(),
            count <= old(self)@.remain,
        ensures
            match written {
                Err(e) => r == Err::<Option<Input>, Error>(e) && final(self)@ == old(self)@,
                Ok(_) => {
                    let left = (old(self)@.remain - count) as nat;
                    &&& r is Ok
                    &&& final(self).wf()
                    &&& if left != 0 {
                        &&& r->Ok_0 is None
                        &&& final(self)@ == (CodecView { remain: left, ..old(self)@ })
                    } else {
                        &&& final(self)@ == (CodecView {
                            remain: 0,
                            state: CodecState::Telegram,
                            sink: None,
                            released: old(self)@.sink->0,
                            pathname: if old(self)@.state is File {
                                None
                            } else {
                                old(self)@.pathname
                            },
                            ..old(self)@
                        })
                        &&& r->Ok_0 matches Some(input)
                        &&& input@ == (if old(self)@.state is File {
                            InputView::File(old(self)@.pathname->0)
                        } else {
                            InputView::WriteDone
                        })
                    }
                },
            },
    {
        match written {
            Err(e) => {
                return Err(e);
            },
            Ok(_) => {},
        }
        self.bin_remain -= count;
        if self.bin_remain != 0 {
            return Ok(None);
        }
        self.released = Ghost(self@.sink->0);
        self.writer = None;
        let ret = if self.state == CodecState::File {
            match self.pathname.take() {
                Some(pathname) => Input::File(pathname),
                None => {
                    return Err(Error::BadState("Missing pathname".to_string()));
                },
            }
        } else {
            Input::WriteDone
        };
        self.state = CodecState::Telegram;
        Ok(Some(ret))
    }

    /// Make what can be made of the bytes in `buf`.
    ///
    /// In a state that reads lines, whole lines are taken from the buffer
    /// until a frame is complete; a transfer takes the bytes it still waits
    /// for. `Ok(None)` says that more data is needed: the caller appends what
    /// arrives to the same buffer and calls again. What is returned, and the
    /// state and buffer that are left, is what [`decode_step`] says; where a
    /// sink refuses a write, its error is returned.
    ///
    /// After an error the codec is not to be used any more.
    pub fn decode(&mut self, buf: &mut BytesMut) -> (r: Result<Option<Input>, Error>)
        requires
            old(self).wf(),
            old(self)@.state.reads_lines() ==> old(self)@.cursor <= buffered(*old(buf)).len(),
        ensures
            match r {
                Ok(_) => {
                    &&& final(self).wf()
                    &&& decode_step(old(self)@, buffered(*old(buf))) == (Step {
                        state: final(self)@,
                        rest: buffered(*final(buf)),
                        out: returned(r),
                    })
                },
                Err(e) => if old(self)@.state.writes() {
                    buffered(*old(buf)).len() > 0
                } else {
                    decode_step(old(self)@, buffered(*old(buf))).out == Err::<
                        Option<InputView>,
                        ErrorView,
                    >(e@)
                },
            },
    {
        match self.state {
            CodecState::Telegram => {
                match self.decode_telegram_lines(buf) {
                    Ok(Some(tg)) => Ok(Some(Input::Telegram(tg))),
                    Ok(None) => Ok(None),
                    Err(e) => Err(e),
                }
            },
            CodecState::Params => {
                match self.decode_params_lines(buf) {
                    Ok(Some(params)) => Ok(Some(Input::Params(params))),
                    Ok(None) => Ok(None),
                    Err(e) => Err(e),
                }
            },
            CodecState::KVLines => {
                match self.decode_kvlines(buf) {
                    Ok(Some(kvlines)) => Ok(Some(Input::KVLines(kvlines))),
                    Ok(None) => Ok(None),
                    Err(e) => Err(e),
                }
            },
            CodecState::Chunks => {
                if buf.is_empty() {
                    return Ok(None);
                }
                let read_to = self.take_count(buf);
                self.bin_remain -= read_to;
                if self.bin_remain == 0 {
                    self.state = CodecState::Telegram;
                }
                Ok(Some(Input::Chunk(buf.split_to(read_to), self.bin_remain)))
            },
            CodecState::Bytes => {
                if buf.is_empty() {
                    return Ok(None);
                }
                let read_to = self.take_count(buf);
                put_buffer(&mut self.buf, buf.split_to(read_to));
                self.bin_remain -= read_to;
                if self.bin_remain != 0 {
                    return Ok(None);
                }
                self.state = CodecState::Telegram;
                let mut bytesmut = BytesMut::new();
                core::mem::swap(&mut self.buf, &mut bytesmut);
                Ok(Some(Input::Bytes(bytesmut.freeze())))
            },
            CodecState::BytesMut => {
                if buf.is_empty() {
                    return Ok(None);
                }
                let read_to = self.take_count(buf);
                put_buffer(&mut self.buf, buf.split_to(read_to));
                self.bin_remain -= read_to;
                if self.bin_remain != 0 {
                    return Ok(None);
                }
                self.state = CodecState::Telegram;
                let mut bytesmut = BytesMut::new();
                core::mem::swap(&mut self.buf, &mut bytesmut);
                Ok(Some(Input::BytesMut(bytesmut)))
            },
            CodecState::File | CodecState::Writer => {
                if buf.is_empty() {
                    return Ok(None);
                }
                let read_to = self.take_count(buf);
                let chunk = buf.split_to(read_to);
                let written = match &mut self.writer {
                    Some(f) => f.write_all(AsRef::<[u8]>::as_ref(&chunk)),
                    None => Ok(()),
                };
                self.after_write(written, read_to)
            },
            CodecState::Skip => {
                if buf.is_empty() {
                    return Ok(None);
                }
                let read_to = self.take_count(buf);
                let _ = buf.split_to(read_to);
                self.bin_remain -= read_to;
                if self.bin_remain != 0 {
                    return Ok(None);
                }
                self.state = CodecState::Telegram;
                Ok(Some(Input::SkipDone))
            },
        }
    }

    /// Write a telegram to `buf` in wire form. A telegram without a topic is
    /// refused and the buffer is left as it is.
    pub fn encode_telegram(&self, tg: &Telegram, buf: &mut BytesMut) -> (r: Result<(), Error>)
        requires
            buffered(*old(buf)).len() + telegram_size(tg@) <= isize::MAX,
        ensures
            match r {
                Ok(_) => tg@.topic matches Some(topic) && buffered(*final(buf)) == buffered(
                    *old(buf),
                ) + telegram_wire(topic, tg@.entries),
                Err(e) => tg@.topic is None && e@ == crate::types::telegram::missing_topic()
                    && buffered(*final(buf)) == buffered(*old(buf)),
            },
    {
        tg.encoder_write(buf)
    }

    /// Write parameters to `buf` in wire form.
    pub fn encode_params(&self, params: &Params, buf: &mut BytesMut) -> (r: Result<(), Error>)
        requires
            buffered(*old(buf)).len() + frame_wire(params.entries()).len() <= isize::MAX,
        ensures
            r is Ok,
            buffered(*final(buf)) == buffered(*old(buf)) + frame_wire(params.entries()),
    {
        params.encoder_write(buf)
    }

    /// Write a key/value list to `buf` in wire form.
    pub fn encode_kvlines(&self, kvlines: &KVLines, buf: &mut BytesMut) -> (r: Result<(), Error>)
        requires
            buffered(*old(buf)).len() + frame_wire(kvlines@).len() <= isize::MAX,
        ensures
            r is Ok,
            buffered(*final(buf)) == buffered(*old(buf)) + frame_wire(kvlines@),
    {
        kvlines.encoder_write(buf)
    }

    /// Write raw bytes to `buf` as they are.
    pub fn encode_bytes(&self, data: Bytes, buf: &mut BytesMut) -> (r: Result<(), Error>)
        requires
            buffered(*old(buf)).len() + frozen(data).len() <= isize::MAX,
        ensures
            r is Ok,
            buffered(*final(buf)) == buffered(*old(buf)) + frozen(data),
    {
        self.encode_slice(AsRef::<[u8]>::as_ref(&data), buf)
    }

    /// Write raw bytes to `buf` as they are.
    pub fn encode_slice(&self, data: &[u8], buf: &mut BytesMut) -> (r: Result<(), Error>)
        requires
            buffered(*old(buf)).len() + data@.len() <= isize::MAX,
        ensures
            r is Ok,
            buffered(*final(buf)) == buffered(*old(buf)) + data@,
    {
        buf.reserve(data.len());
        buf.put_slice(data);
        Ok(())
    }

    /// Determine how far into the buffer we'll search for a newline, and
    /// where the first one is, counted from where the search resumes.
    fn find_newline(&self, buf: &BytesMut) -> (r: (usize, Option<usize>))
        requires
            self@.cursor <= buffered(*buf).len(),
            self@.cursor <= self@.max_line_length,
        ensures
            r.0 == search_end(buffered(*buf).len() as int, self@.max_line_length as int),
            self@.cursor <= r.0,
            match r.1 {
                Some(offset) => offset + self@.cursor == first_newline(
                    buffered(*buf),
                    self@.cursor as int,
                    r.0 as int,
                ) && offset + self@.cursor < r.0,
                None => first_newline(buffered(*buf), self@.cursor as int, r.0 as int) == r.0,
            },
    {
        let bytes: &[u8] = AsRef::<[u8]>::as_ref(buf);
        let limit = self.max_line_length.saturating_add(1);
        let read_to = if limit < bytes.len() {
            limit
        } else {
            bytes.len()
        };
        let mut i: usize = self.next_line_index;
        while i < read_to
            invariant
                self.next_line_index <= i <= read_to <= bytes.len(),
                bytes@ == buffered(*buf),
                read_to == search_end(buffered(*buf).len() as int, self@.max_line_length as int),
                forall|j: int| self.next_line_index <= j < i ==> bytes@[j] != NEWLINE,
            decreases read_to - i,
        {
            if bytes[i] == NEWLINE {
                proof {
                    lemma_first_newline_is(
                        bytes@,
                        self.next_line_index as int,
                        read_to as int,
                        i as int,
                    );
                }
                return (read_to, Some(i - self.next_line_index));
            }
            i += 1;
        }
        proof {
            lemma_first_newline_is(bytes@, self.next_line_index as int, read_to as int, i as int);
        }
        (read_to, None)
    }

    /// Get index of the next end of line in `buf`.
    fn get_eol_idx(&mut self, buf: &BytesMut) -> (r: Result<Option<usize>, Error>)
        requires
            old(self)@.cursor <= buffered(*buf).len(),
            old(self)@.cursor <= old(self)@.max_line_length,
        ensures
            match scan(
                buffered(*buf),
                old(self)@.cursor as int,
                old(self)@.max_line_length as int,
            ) {
                Scan::Line(n) => {
                    &&& r matches Ok(Some(k))
                    &&& k == n
                    &&& 0 < n <= buffered(*buf).len()
                    &&& final(self)@ == (CodecView { cursor: 0, ..old(self)@ })
                },
                Scan::TooLong => {
                    &&& r matches Err(e)
                    &&& e@ == line_too_long()
                    &&& final(self)@ == old(self)@
                },
                Scan::Partial(searched) => {
                    &&& r is Ok
                    &&& r->Ok_0 is None
                    &&& searched == buffered(*buf).len()
                    &&& final(self)@ == (CodecView { cursor: searched as nat, ..old(self)@ })
                },
            },
    {
        let (read_to, newline_offset) = self.find_newline(buf);
        match newline_offset {
            Some(offset) => {
                let newline_index = offset + self.next_line_index;
                self.next_line_index = 0;
                Ok(Some(newline_index + 1))
            },
            None => {
                if buf.len() > self.max_line_length {
                    Err(Error::bad_format("Exceeded maximum line length."))
                } else {
                    self.next_line_index = read_to;
                    Ok(None)
                }
            },
        }
    }

    /// This is called when `decode_telegram_lines` has encountered an eol,
    /// determined that the string is longer than zero characters, and thus
    /// passed the line to this function to process it.
    ///
    /// The first line received is a telegram topic. This is a required line.
    /// Following lines are parameter lines, which are a single space character
    /// separated key/value pairs.
    fn decode_telegram_line(&mut self, line: &str) -> (r: Result<(), Error>)
        requires
            old(self)@.state is Telegram,
        ensures
            match absorb(old(self)@, line@) {
                Ok(v) => r is Ok && final(self)@ == v,
                Err(err) => r matches Err(e) && e@ == err,
            },
    {
        if self.tg.get_topic().is_none() {
            self.tg.set_topic(line)
        } else {
            match split_line(line) {
                Some((k, v)) => self.tg.add_str(k, v),
                None => Ok(()),
            }
        }
    }

    /// (New) data is available in the input buffer.
    ///
    /// Try to parse lines until an empty line as been encountered, at which
    /// point the buffer is parsed and returned in an [`Telegram`] buffer.
    ///
    /// If the buffer doesn't contain enough data to finalize a complete telegram
    /// buffer return `Ok(None)` to inform the caller that more data is needed.
    fn decode_telegram_lines(&mut self, buf: &mut BytesMut) -> (r: Result<Option<Telegram>, Error>)
        requires
            old(self).wf(),
            old(self)@.state is Telegram,
            old(self)@.cursor <= buffered(*old(buf)).len(),
        ensures
            match r {
                Ok(out) => {
                    &&& final(self).wf()
                    &&& decode_lines(old(self)@, buffered(*old(buf))) == (Step {
                        state: final(self)@,
                        rest: buffered(*final(buf)),
                        out: Ok(
                            match out {
                                Some(t) => Some(InputView::Telegram(t@)),
                                None => None,
                            },
                        ),
                    })
                },
                Err(e) => decode_lines(old(self)@, buffered(*old(buf))).out == Err::<
                    Option<InputView>,
                    ErrorView,
                >(e@),
            },
    {
        loop
            invariant
                self.wf(),
                self@.state is Telegram,
                self@.cursor <= buffered(*buf).len(),
                decode_lines(self@, buffered(*buf)) == decode_lines(
                    old(self)@,
                    buffered(*old(buf)),
                ),
            decreases buffered(*buf).len(),
        {
            let idx = match self.get_eol_idx(buf) {
                Ok(Some(idx)) => idx,
                Ok(None) => {
                    return Ok(None);
                },
                Err(e) => {
                    return Err(e);
                },
            };
            let ghost whole = buffered(*buf);
            let line = buf.split_to(idx);
            let raw: &[u8] = AsRef::<[u8]>::as_ref(&line);
            let body = without_carriage_return(vstd::slice::slice_subrange(raw, 0, idx - 1));
            assert(raw@.subrange(0, idx - 1) == whole.subrange(0, idx - 1));
            assert(buffered(*buf) == whole.skip(idx as int));
            let text = match utf8(body) {
                Ok(text) => text,
                Err(e) => {
                    return Err(e);
                },
            };
            if text.is_empty() {
                let mut done = Telegram::new();
                core::mem::swap(&mut self.tg, &mut done);
                return Ok(Some(done));
            } else {
                match self.decode_telegram_line(text) {
                    Ok(_) => {},
                    Err(e) => {
                        return Err(e);
                    },
                }
            }
        }
    }

    /// Read buffer line-by-line, split each line at the first space character
    /// and store the left part as a key and the right part as a value in a
    /// Params structure.
    fn decode_params_lines(&mut self, buf: &mut BytesMut) -> (r: Result<Option<Params>, Error>)
        requires
            old(self).wf(),
            old(self)@.state is Params,
            old(self)@.cursor <= buffered(*old(buf)).len(),
        ensures
            match r {
                Ok(out) => {
                    &&& final(self).wf()
                    &&& decode_lines(old(self)@, buffered(*old(buf))) == (Step {
                        state: final(self)@,
                        rest: buffered(*final(buf)),
                        out: Ok(
                            match out {
                                Some(p) => Some(InputView::Params(p.entries())),
                                None => None,
                            },
                        ),
                    })
                },
                Err(e) => decode_lines(old(self)@, buffered(*old(buf))).out == Err::<
                    Option<InputView>,
                    ErrorView,
                >(e@),
            },
    {
        loop
            invariant
                self.wf(),
                self@.state is Params,
                self@.cursor <= buffered(*buf).len(),
                decode_lines(self@, buffered(*buf)) == decode_lines(
                    old(self)@,
                    buffered(*old(buf)),
                ),
            decreases buffered(*buf).len(),
        {
            let idx = match self.get_eol_idx(buf) {
                Ok(Some(idx)) => idx,
                Ok(None) => {
                    return Ok(None);
                },
                Err(e) => {
                    return Err(e);
                },
            };
            let ghost whole = buffered(*buf);
            let line = buf.split_to(idx);
            let raw: &[u8] = AsRef::<[u8]>::as_ref(&line);
            let body = without_carriage_return(vstd::slice::slice_subrange(raw, 0, idx - 1));
            assert(raw@.subrange(0, idx - 1) == whole.subrange(0, idx - 1));
            assert(buffered(*buf) == whole.skip(idx as int));
            let text = match utf8(body) {
                Ok(text) => text,
                Err(e) => {
                    return Err(e);
                },
            };
            if text.is_empty() {
                self.state = CodecState::Telegram;
                let mut done = Params::new();
                core::mem::swap(&mut self.params, &mut done);
                return Ok(Some(done));
            } else {
                match split_line(text) {
                    Some((k, v)) => {
                        match self.params.add_str(k, v) {
                            Ok(_) => {},
                            Err(e) => {
                                return Err(e);
                            },
                        }
                    },
                    None => {},
                }
            }
        }
    }

    /// Read buffer line-by-line, split each at the first space character and
    /// store the left and right part in a vector. When an empty line is
    /// encountered, return the vector and return to expecting a [`Telegram`].
    fn decode_kvlines(&mut self, buf: &mut BytesMut) -> (r: Result<Option<KVLines>, Error>)
        requires
            old(self).wf(),
            old(self)@.state is KVLines,
            old(self)@.cursor <= buffered(*old(buf)).len(),
        ensures
            match r {
                Ok(out) => {
                    &&& final(self).wf()
                    &&& decode_lines(old(self)@, buffered(*old(buf))) == (Step {
                        state: final(self)@,
                        rest: buffered(*final(buf)),
                        out: Ok(
                            match out {
                                Some(l) => Some(InputView::KVLines(l@)),
                                None => None,
                            },
                        ),
                    })
                },
                Err(e) => decode_lines(old(self)@, buffered(*old(buf))).out == Err::<
                    Option<InputView>,
                    ErrorView,
                >(e@),
            },
    {
        loop
            invariant
                self.wf(),
                self@.state is KVLines,
                self@.cursor <= buffered(*buf).len(),
                decode_lines(self@, buffered(*buf)) == decode_lines(
                    old(self)@,
                    buffered(*old(buf)),
                ),
            decreases buffered(*buf).len(),
        {
            let idx = match self.get_eol_idx(buf) {
                Ok(Some(idx)) => idx,
                Ok(None) => {
                    return Ok(None);
                },
                Err(e) => {
                    return Err(e);
                },
            };
            let ghost whole = buffered(*buf);
            let line = buf.split_to(idx);
            let raw: &[u8] = AsRef::<[u8]>::as_ref(&line);
            let body = without_carriage_return(vstd::slice::slice_subrange(raw, 0, idx - 1));
            assert(raw@.subrange(0, idx - 1) == whole.subrange(0, idx - 1));
            assert(buffered(*buf) == whole.skip(idx as int));
            let text = match utf8(body) {
                Ok(text) => text,
                Err(e) => {
                    return Err(e);
                },
            };
            if text.is_empty() {
                self.state = CodecState::Telegram;
                let mut done = KVLines::new();
                core::mem::swap(&mut self.kvlines, &mut done);
                return Ok(Some(done));
            } else {
                match split_line(text) {
                    Some((k, v)) => {
                        self.kvlines.append_str(k, v);
                    },
                    None => {},
                }
            }
        }
    }
}

} // verus!
