//! Sending an archive while it is made, and reading an answer piece by piece.
//!
//! An archive is made by blocking code and sent by a task that waits on the
//! network. What is made goes to the sender in bounded chunks, and the sender's
//! end of the exchange decides, together with the producer's, what came of it.
use vstd::prelude::*;
use vstd::string::*;

use crate::client::rejection;
use crate::client::unsent;
use crate::client::Exchange;
use crate::client::ExchangeView;
use crate::failure::because;
use crate::failure::whole_text;
use crate::failure::Failure;
use crate::failure::FailureView;
use crate::outside::gunzip;
use crate::outside::gunzipped;
use crate::outside::gzip_finish;
use crate::outside::gzip_finish_fault;
use crate::outside::gzip_input;
use crate::outside::gzip_new;
use crate::outside::gzip_output;
use crate::outside::gzip_write;
use crate::outside::gzip_write_fault;
use crate::outside::GzipStream;
use crate::text::contains_text;

verus! {

/// The largest number of bytes that are handed on at once.
pub const CHUNK_BYTES: usize = 65536;

/// How many chunks may wait between producer and sender.
pub const CHUNKS_IN_FLIGHT: usize = 2;

/// The part of `bytes` that one write takes.
pub open spec fn first_chunk(bytes: Seq<u8>) -> Seq<u8> {
    if bytes.len() <= CHUNK_BYTES {
        bytes
    } else {
        bytes.take(CHUNK_BYTES as int)
    }
}

/// The chunk of `bytes` to send for one write, or `None` where there is nothing
/// to send.
pub fn chunk_to_send(bytes: &[u8]) -> (r: Option<Vec<u8>>)
    ensures
        r is Some <==> bytes@.len() > 0,
        r is Some ==> r->0@ == first_chunk(bytes@),
        r is Some ==> r->0@.is_prefix_of(bytes@),
        r is Some ==> r->0@.len() == if bytes@.len() < 65536 {
            bytes@.len()
        } else {
            65536
        },
{
    let n: usize = bytes.len();
    if n == 0 {
        None
    } else if n <= CHUNK_BYTES {
        assert(bytes@.subrange(0, n as int) == bytes@);
        Some(vstd::slice::slice_to_vec(vstd::slice::slice_subrange(bytes, 0, n)))
    } else {
        assert(bytes@.subrange(0, CHUNK_BYTES as int) == bytes@.take(CHUNK_BYTES as int));
        Some(vstd::slice::slice_to_vec(vstd::slice::slice_subrange(bytes, 0, CHUNK_BYTES)))
    }
}

/// What became of a chunk that was handed to the sender.
#[derive(Debug, Clone, Copy, PartialEq, Eq, Structural)]
pub enum Sending {
    /// The sender has taken it.
    Taken,
    /// The upload was cancelled. This is looked at first, so that a producer
    /// that waits for room is released.
    Cancelled,
    /// The sender is gone.
    Closed,
}

/// What became of a chunk, where `cancelled` says that the upload was cancelled
/// and `taken` whether the sender took the chunk. The cancellation counts first.
pub open spec fn sending_of(cancelled: bool, taken: bool) -> Sending {
    if cancelled {
        Sending::Cancelled
    } else if taken {
        Sending::Taken
    } else {
        Sending::Closed
    }
}

/// What became of a chunk, where `cancelled` says that the upload was cancelled
/// and `taken` whether the sender took the chunk.
pub fn sending(cancelled: bool, taken: bool) -> (r: Sending)
    ensures
        r == sending_of(cancelled, taken),
{
    if cancelled {
        Sending::Cancelled
    } else if taken {
        Sending::Taken
    } else {
        Sending::Closed
    }
}

/// Why a write failed. Either way the pipe to the sender is broken.
#[derive(Debug, Clone, Copy, PartialEq, Eq, Structural)]
pub enum BrokenPipe {
    Cancelled,
    Closed,
}

impl BrokenPipe {
    /// The failure in words.
    pub fn message(self) -> (r: &'static str)
        ensures
            r@ == match self {
                BrokenPipe::Cancelled => "upload cancelled"@,
                BrokenPipe::Closed => "upload closed"@,
            },
    {
        match self {
            BrokenPipe::Cancelled => "upload cancelled",
            BrokenPipe::Closed => "upload closed",
        }
    }
}

/// Whether a write of `bytes` succeeds. A write of nothing always does.
pub open spec fn write_succeeds(bytes: Seq<u8>, sending: Sending) -> bool {
    bytes.len() == 0 || sending == Sending::Taken
}

/// What a write of `bytes` returns once [`chunk_to_send`] was handed on: how
/// many of the bytes were taken.
pub fn written(bytes: &[u8], sending: Sending) -> (r: Result<usize, BrokenPipe>)
    ensures
        r is Ok <==> write_succeeds(bytes@, sending),
        r is Ok <==> bytes@.len() == 0 || sending == Sending::Taken,
        r is Ok ==> r->Ok_0 == if bytes@.len() < 65536 {
            bytes@.len()
        } else {
            65536
        },
        bytes@.len() == 0 ==> r == Ok::<usize, BrokenPipe>(0),
        bytes@.len() > 0 ==> match sending {
            Sending::Taken => r is Ok && r->Ok_0 == first_chunk(bytes@).len(),
            Sending::Cancelled => r == Err::<usize, BrokenPipe>(BrokenPipe::Cancelled),
            Sending::Closed => r == Err::<usize, BrokenPipe>(BrokenPipe::Closed),
        },
{
    let n: usize = bytes.len();
    if n == 0 {
        return Ok(0);
    }
    match sending {
        Sending::Taken => Ok(
            if n <= CHUNK_BYTES {
                n
            } else {
                CHUNK_BYTES
            },
        ),
        Sending::Cancelled => Err(BrokenPipe::Cancelled),
        Sending::Closed => Err(BrokenPipe::Closed),
    }
}

/// The chunks that writing all of `bytes` sends: write after write, each with
/// what the writes before it have not taken.
pub open spec fn chunks_of(bytes: Seq<u8>) -> Seq<Seq<u8>>
    decreases bytes.len(),
{
    if bytes.len() == 0 {
        seq![]
    } else {
        seq![first_chunk(bytes)] + chunks_of(bytes.skip(first_chunk(bytes).len() as int))
    }
}

/// The pieces put together.
pub open spec fn concatenated(pieces: Seq<Seq<u8>>) -> Seq<u8>
    decreases pieces.len(),
{
    if pieces.len() == 0 {
        seq![]
    } else {
        pieces[0] + concatenated(pieces.drop_first())
    }
}

/// Whatever is written arrives whole and in order, in chunks that are neither
/// empty nor larger than the limit.
pub proof fn law_writes_arrive_whole_and_bounded(bytes: Seq<u8>)
    ensures
        concatenated(chunks_of(bytes)) == bytes,
        forall|i: int|
            0 <= i < chunks_of(bytes).len() ==> 0 < (#[trigger] chunks_of(bytes)[i]).len()
                <= CHUNK_BYTES,
    decreases bytes.len(),
{
    if bytes.len() > 0 {
        let first = first_chunk(bytes);
        let rest = bytes.skip(first.len() as int);
        law_writes_arrive_whole_and_bounded(rest);
        assert(chunks_of(bytes).drop_first() =~= chunks_of(rest));
        assert(first + rest =~= bytes);
        assert forall|i: int| 0 <= i < chunks_of(bytes).len() implies 0 < (#[trigger] chunks_of(
            bytes,
        )[i]).len() <= CHUNK_BYTES by {
            if i > 0 {
                assert(chunks_of(bytes)[i] == chunks_of(rest)[i - 1]);
            }
        }
    }
}

/// The error to end the body with when the producer has ended: a failed archive
/// must not look finished to the server. Nothing is sent behind a finished one.
pub fn end_of_body(produced: &Result<(), Failure>) -> (r: Option<String>)
    ensures
        match *produced {
            Ok(_) => r is None,
            Err(failure) => r is Some && r->0@ == whole_text(failure@),
        },
{
    match produced {
        Ok(_) => None,
        Err(failure) => Some(failure.text()),
    }
}

/// What the producer came to, where `joined` fails if the producer panicked: else
/// it is exactly what the producer returned.
pub fn produced(joined: Result<Result<(), Failure>, String>) -> (r: Result<(), Failure>)
    ensures
        match joined {
            Ok(result) => r == result,
            Err(cause) => r is Err && r->Err_0@ == because("archive producer panicked"@, cause@),
        },
{
    match joined {
        Ok(result) => result,
        Err(cause) => Err(Failure::new("archive producer panicked", cause)),
    }
}

/// One step towards the end of an upload whose answer is known.
#[derive(Debug, Clone, Copy, PartialEq, Eq, Structural)]
pub enum FinishStep {
    /// Cancel the upload. The server may have answered without reading the body,
    /// and the producer may wait for room.
    Cancel,
    /// Wait for the producer.
    Join,
}

/// The step behind `step`, if there is one.
pub open spec fn finish_behind(step: FinishStep) -> Option<FinishStep> {
    match step {
        FinishStep::Cancel => Some(FinishStep::Join),
        FinishStep::Join => None,
    }
}

impl FinishStep {
    /// The step behind this one. The first is [`FinishStep::Cancel`].
    pub fn ended(self) -> (r: Option<FinishStep>)
        ensures
            r == finish_behind(self),
    {
        match self {
            FinishStep::Cancel => Some(FinishStep::Join),
            FinishStep::Join => None,
        }
    }
}

/// How many of `writes` a producer makes that returns as soon as one fails, where
/// `sendings` says what becomes of each.
pub open spec fn writes_made(writes: Seq<Seq<u8>>, sendings: Seq<Sending>) -> nat
    decreases writes.len(),
{
    if writes.len() == 0 {
        0
    } else if write_succeeds(writes[0], sendings[0]) {
        1 + writes_made(writes.drop_first(), sendings.drop_first())
    } else {
        1
    }
}

proof fn lemma_writes_made(writes: Seq<Seq<u8>>, sendings: Seq<Sending>, at: nat)
    requires
        writes.len() == sendings.len(),
        forall|i: int|
            at <= i < writes.len() ==> !write_succeeds(#[trigger] writes[i], sendings[i]),
    ensures
        writes_made(writes, sendings) <= at + 1,
    decreases writes.len(),
{
    if writes.len() > 0 {
        if at > 0 {
            let rest = writes.drop_first();
            assert forall|i: int| at - 1 <= i < rest.len() implies !write_succeeds(
                #[trigger] rest[i],
                sendings.drop_first()[i],
            ) by {
                assert(rest[i] == writes[i + 1]);
            }
            lemma_writes_made(rest, sendings.drop_first(), (at - 1) as nat);
        } else {
            assert(!write_succeeds(writes[0], sendings[0]));
        }
    }
}

/// Waiting for a producer ends, whoever still holds the body: it is waited for
/// only once the upload is cancelled, and from then on each write that has
/// something to send fails, so that a producer that returns when a write fails
/// makes at most one more, however many it meant to make.
pub proof fn law_cancelled_producers_stop(writes: Seq<Seq<u8>>, taken: Seq<bool>, at: nat)
    requires
        writes.len() == taken.len(),
        forall|i: int| at <= i < writes.len() ==> (#[trigger] writes[i]).len() > 0,
    ensures
        finish_behind(FinishStep::Cancel) == Some(FinishStep::Join),
        finish_behind(FinishStep::Join) is None,
        writes_made(
            writes,
            Seq::new(writes.len(), |i: int| sending_of(i >= at, taken[i])),
        ) <= at + 1,
{
    let sendings = Seq::new(writes.len(), |i: int| sending_of(i >= at, taken[i]));
    lemma_writes_made(writes, sendings, at);
}

/// How a producer ended.
#[derive(Debug)]
pub enum Produced {
    /// The archive is complete.
    Finished,
    /// The archive could not be made.
    Failed(Failure),
    /// The archive was not wanted any more: a write found the pipe broken.
    CutOff(Failure),
}

/// A [`Produced`] with its text as characters.
pub enum ProducedView {
    Finished,
    Failed(FailureView),
    CutOff(FailureView),
}

impl View for Produced {
    type V = ProducedView;

    open spec fn view(&self) -> ProducedView {
        match self {
            Produced::Finished => ProducedView::Finished,
            Produced::Failed(failure) => ProducedView::Failed(failure@),
            Produced::CutOff(failure) => ProducedView::CutOff(failure@),
        }
    }
}

/// How a producer ended that came to `result`, where `broken` says whether one of
/// its writes found the pipe broken.
pub fn producer_end(result: Result<(), Failure>, broken: bool) -> (r: Produced)
    ensures
        r@ == match result {
            Ok(_) => ProducedView::Finished,
            Err(failure) => if broken {
                ProducedView::CutOff(failure@)
            } else {
                ProducedView::Failed(failure@)
            },
        },
{
    match result {
        Ok(_) => Produced::Finished,
        Err(failure) => if broken {
            Produced::CutOff(failure)
        } else {
            Produced::Failed(failure)
        },
    }
}

/// The answer to an upload.
#[derive(Debug)]
pub enum Answer {
    Granted,
    /// With the error that the answer carries, if it carries one.
    Rejected(Option<String>),
    /// There was no answer.
    Unsent(String),
}

/// What the answer to the upload `exchange` complains of.
pub open spec fn complaint(exchange: ExchangeView, answer: Answer) -> Option<FailureView> {
    match answer {
        Answer::Granted => None,
        Answer::Rejected(error) => Some(rejection(exchange.operation, error.deep_view())),
        Answer::Unsent(cause) => Some(unsent(exchange.request.url, cause@)),
    }
}

/// `failure`, which also goes back to `other`.
pub open spec fn joint_failure(failure: FailureView, other: FailureView) -> FailureView {
    because(
        failure.message,
        match failure.cause {
            Some(cause) => cause + ": "@ + whole_text(other),
            None => whole_text(other),
        },
    )
}

/// The failure of an upload, by the complaint of the server, if there is one, and
/// by how the producer ended. A producer that was cut off adds nothing to the
/// complaint that cut it off.
pub open spec fn upload_failure(server: Option<FailureView>, produced: ProducedView) -> Option<
    FailureView,
> {
    match (server, produced) {
        (None, ProducedView::Finished) => None,
        (None, ProducedView::Failed(failure)) => Some(failure),
        (None, ProducedView::CutOff(failure)) => Some(failure),
        (Some(server), ProducedView::Failed(failure)) => Some(joint_failure(server, failure)),
        (Some(server), _) => Some(server),
    }
}

fn join_failures(failure: Failure, other: Failure) -> (r: Failure)
    ensures
        r@ == joint_failure(failure@, other@),
{
    let cause = match failure.cause {
        Some(cause) => cause.concat(": ").concat(other.text().as_str()),
        None => other.text(),
    };
    Failure { message: failure.message, cause: Some(cause) }
}

/// What an upload came to, by its answer and by how the producer ended: it
/// succeeded only if both did.
pub fn upload_result(exchange: &Exchange, answer: Answer, produced: Produced) -> (r: Result<
    (),
    Failure,
>)
    ensures
        ({
            let failure = upload_failure(complaint(exchange@, answer), produced@);
            &&& r is Ok <==> failure is None
            &&& r is Err ==> failure == Some(r->Err_0@)
        }),
        r is Ok <==> answer is Granted && produced is Finished,
{
    let server: Option<Failure> = match answer {
        Answer::Granted => None,
        Answer::Rejected(error) => Some(exchange.rejected(error)),
        Answer::Unsent(cause) => Some(exchange.unsent(cause)),
    };
    match (server, produced) {
        (None, Produced::Finished) => Ok(()),
        (None, Produced::Failed(failure)) => Err(failure),
        (None, Produced::CutOff(failure)) => Err(failure),
        (Some(server), Produced::Failed(failure)) => Err(join_failures(server, failure)),
        (Some(server), _) => Err(server),
    }
}

proof fn lemma_contains_middle(before: Seq<char>, part: Seq<char>, behind: Seq<char>)
    ensures
        contains_text(before + part + behind, part),
{
    let whole = before + part + behind;
    assert(whole.subrange(before.len() as int, before.len() as int + part.len()) =~= part);
}

/// An archive that could not be made is reported with all that is known of why,
/// whatever the server made of the part that it got.
pub proof fn law_archive_errors_are_reported(
    exchange: ExchangeView,
    answer: Answer,
    failure: FailureView,
)
    ensures
        ({
            let reported = upload_failure(
                complaint(exchange, answer),
                ProducedView::Failed(failure),
            );
            &&& reported is Some
            &&& contains_text(whole_text(reported->0), whole_text(failure))
        }),
{
    let text = whole_text(failure);
    match complaint(exchange, answer) {
        None => {
            lemma_contains_middle(seq![], text, seq![]);
            assert(Seq::<char>::empty() + text + Seq::<char>::empty() =~= text);
        },
        Some(server) => {
            let front = match server.cause {
                Some(cause) => server.message + ": "@ + (cause + ": "@),
                None => server.message + ": "@,
            };
            lemma_contains_middle(front, text, seq![]);
            assert(whole_text(joint_failure(server, failure)) =~= front + text + Seq::<
                char,
            >::empty());
        },
    }
}

/// A rejection is reported with the server's error, whatever the producer came
/// to; and it is all that is reported, unless the archive itself failed.
pub proof fn law_rejections_are_reported(
    exchange: ExchangeView,
    error: String,
    produced: ProducedView,
)
    ensures
        ({
            let rejected = complaint(exchange, Answer::Rejected(Some(error)));
            let reported = upload_failure(rejected, produced);
            &&& reported is Some
            &&& contains_text(whole_text(reported->0), error@)
            &&& !(produced is Failed) ==> reported == rejected
        }),
{
    let front = exchange.operation + ": "@;
    match produced {
        ProducedView::Failed(failure) => {
            let behind = ": "@ + whole_text(failure);
            lemma_contains_middle(front, error@, behind);
            assert(front + error@ + behind =~= front + error@ + ": "@ + whole_text(failure));
        },
        _ => {
            lemma_contains_middle(front, error@, seq![]);
            assert(front + error@ + Seq::<char>::empty() =~= front + error@);
        },
    }
}

/// What a buffer holds into which `n` bytes were read.
pub open spec fn filled(buffer: Seq<u8>, n: nat) -> Seq<u8> {
    if n <= buffer.len() {
        buffer.take(n as int)
    } else {
        buffer
    }
}

/// What a buffer holds into which `n` bytes were read: nothing at the end of the
/// input.
pub fn body_chunk(buffer: Vec<u8>, n: usize) -> (r: Option<Vec<u8>>)
    ensures
        r is Some <==> n != 0,
        r is Some ==> r->0@ == filled(buffer@, n as nat),
        r is Some ==> r->0@.is_prefix_of(buffer@),
        r is Some ==> r->0@.len() == if n < buffer@.len() {
            n as nat
        } else {
            buffer@.len()
        },
{
    if n == 0 {
        return None;
    }
    let mut chunk = buffer;
    if n < chunk.len() {
        chunk.truncate(n);
    }
    assert(n == buffer@.len() ==> buffer@.take(n as int) == buffer@);
    Some(chunk)
}

/// An archive on its way to the server, compressed with gzip while it is made.
#[derive(Debug)]
pub struct ArchiveBody {
    stream: GzipStream,
}

/// What follows from a read of an archive.
#[derive(Debug)]
pub enum BodyStep {
    /// Send the chunk, and read on.
    Send { next: ArchiveBody, chunk: Vec<u8> },
    /// There is nothing to send yet; read on.
    ReadOn(ArchiveBody),
    /// Send the chunk as the last one.
    Last(Vec<u8>),
}

impl ArchiveBody {
    /// What was put into the archive so far.
    pub closed spec fn input(&self) -> Seq<u8> {
        gzip_input(self.stream)
    }

    /// What is to be sent for it so far.
    pub closed spec fn output(&self) -> Seq<u8> {
        gzip_output(self.stream)
    }

    /// What the compression says against putting `bytes` into the archive, if
    /// it does.
    pub closed spec fn pack_fault(&self, bytes: Seq<u8>) -> Option<Seq<char>> {
        gzip_write_fault(self.stream, bytes)
    }

    /// What the compression says against ending the archive, if it does.
    pub closed spec fn finish_fault(&self) -> Option<Seq<char>> {
        gzip_finish_fault(self.stream)
    }

    /// An archive with nothing in it.
    pub fn new() -> (r: ArchiveBody)
        ensures
            r.input() == Seq::<u8>::empty(),
            r.output() == Seq::<u8>::empty(),
    {
        ArchiveBody { stream: gzip_new() }
    }

    /// Puts `bytes` into the archive and returns what is to be sent for them now,
    /// or what the compression says against it.
    pub fn pack(self, bytes: &[u8]) -> (r: Result<(ArchiveBody, Vec<u8>), String>)
        ensures
            match self.pack_fault(bytes@) {
                Some(cause) => r is Err && r->Err_0@ == cause,
                None => r is Ok && packs(self, bytes@, r->Ok_0.1@, r->Ok_0.0),
            },
    {
        let mut stream = self.stream;
        match gzip_write(&mut stream, bytes) {
            Ok(chunk) => Ok((ArchiveBody { stream }, chunk)),
            Err(cause) => Err(cause),
        }
    }

    /// Ends the archive and returns what is to be sent for it last, or what the
    /// compression says against it.
    pub fn finish(self) -> (r: Result<Vec<u8>, String>)
        ensures
            match self.finish_fault() {
                Some(cause) => r is Err && r->Err_0@ == cause,
                None => r is Ok && completes(self, r->Ok_0@),
            },
    {
        gzip_finish(self.stream)
    }

    /// What is in the archive that `sent`, put together, is; `None` where it is
    /// not complete.
    pub fn unpack(sent: &[u8]) -> (r: Option<Vec<u8>>)
        ensures
            r is Some <==> gunzipped(sent@) is Some,
            r is Some ==> gunzipped(sent@) == Some(r->0@),
    {
        gunzip(sent)
    }

    /// What follows from a read that put `n` bytes of the archive into `buffer`.
    /// A read of nothing is the end of the archive.
    pub fn read(self, buffer: Vec<u8>, n: usize) -> (r: Result<BodyStep, String>)
        ensures
            n != 0 ==> match self.pack_fault(filled(buffer@, n as nat)) {
                Some(cause) => r is Err && r->Err_0@ == cause,
                None => match r {
                    Ok(BodyStep::Send { next, chunk }) => chunk@.len() > 0 && packs(
                        self,
                        filled(buffer@, n as nat),
                        chunk@,
                        next,
                    ),
                    Ok(BodyStep::ReadOn(next)) => packs(
                        self,
                        filled(buffer@, n as nat),
                        Seq::<u8>::empty(),
                        next,
                    ),
                    _ => false,
                },
            },
            n == 0 ==> match self.finish_fault() {
                Some(cause) => r is Err && r->Err_0@ == cause,
                None => match r {
                    Ok(BodyStep::Last(chunk)) => completes(self, chunk@),
                    _ => false,
                },
            },
    {
        match body_chunk(buffer, n) {
            Some(bytes) => packed_step(self.pack(bytes.as_slice())),
            None => last_step(self.finish()),
        }
    }
}

/// What follows once a read was put into the archive, or could not be. An empty
/// chunk is not sent, for the server would take it for the end.
pub fn packed_step(packed: Result<(ArchiveBody, Vec<u8>), String>) -> (r: Result<BodyStep, String>)
    ensures
        match packed {
            Ok((next, chunk)) => if chunk@.len() == 0 {
                r == Ok::<BodyStep, String>(BodyStep::ReadOn(next))
            } else {
                r == Ok::<BodyStep, String>(BodyStep::Send { next, chunk })
            },
            Err(cause) => r == Err::<BodyStep, String>(cause),
        },
{
    match packed {
        Ok((next, chunk)) => if chunk.len() == 0 {
            Ok(BodyStep::ReadOn(next))
        } else {
            Ok(BodyStep::Send { next, chunk })
        },
        Err(cause) => Err(cause),
    }
}

/// What follows once the archive was ended, or could not be.
pub fn last_step(finished: Result<Vec<u8>, String>) -> (r: Result<BodyStep, String>)
    ensures
        match finished {
            Ok(chunk) => r == Ok::<BodyStep, String>(BodyStep::Last(chunk)),
            Err(cause) => r == Err::<BodyStep, String>(cause),
        },
{
    match finished {
        Ok(chunk) => Ok(BodyStep::Last(chunk)),
        Err(cause) => Err(cause),
    }
}

/// Whether putting `bytes` into the archive `before` leads to `after`, with
/// `chunk` to be sent.
pub open spec fn packs(
    before: ArchiveBody,
    bytes: Seq<u8>,
    chunk: Seq<u8>,
    after: ArchiveBody,
) -> bool {
    &&& after.input() == before.input() + bytes
    &&& after.output() == before.output() + chunk
}

/// Whether `chunk` completes what is sent for `archive`: whoever decompresses
/// the whole gets what was put in.
pub open spec fn completes(archive: ArchiveBody, chunk: Seq<u8>) -> bool {
    gunzipped(archive.output() + chunk) == Some(archive.input())
}

/// However an archive is cut into pieces, and whatever is sent for each of them,
/// the server gets a gzip stream that holds the pieces put together.
pub proof fn law_archives_arrive_as_made(
    archives: Seq<ArchiveBody>,
    pieces: Seq<Seq<u8>>,
    chunks: Seq<Seq<u8>>,
    last: Seq<u8>,
)
    requires
        archives.len() == pieces.len() + 1,
        chunks.len() == pieces.len(),
        archives[0].input() == Seq::<u8>::empty(),
        archives[0].output() == Seq::<u8>::empty(),
        forall|i: int|
            0 <= i < pieces.len() ==> packs(
                archives[i],
                #[trigger] pieces[i],
                chunks[i],
                archives[i + 1],
            ),
        completes(archives.last(), last),
    ensures
        gunzipped(concatenated(chunks) + last) == Some(concatenated(pieces)),
{
    lemma_packed(archives, pieces, chunks);
    assert(archives[0].output() + concatenated(chunks) =~= concatenated(chunks));
    assert(archives[0].input() + concatenated(pieces) =~= concatenated(pieces));
}

proof fn lemma_packed(archives: Seq<ArchiveBody>, pieces: Seq<Seq<u8>>, chunks: Seq<Seq<u8>>)
    requires
        archives.len() == pieces.len() + 1,
        chunks.len() == pieces.len(),
        forall|i: int|
            0 <= i < pieces.len() ==> packs(
                archives[i],
                #[trigger] pieces[i],
                chunks[i],
                archives[i + 1],
            ),
    ensures
        archives.last().input() == archives[0].input() + concatenated(pieces),
        archives.last().output() == archives[0].output() + concatenated(chunks),
    decreases pieces.len(),
{
    if pieces.len() == 0 {
        assert(archives.last().input() =~= archives[0].input() + concatenated(pieces));
        assert(archives.last().output() =~= archives[0].output() + concatenated(chunks));
    } else {
        let rest = archives.drop_first();
        assert forall|i: int| 0 <= i < pieces.drop_first().len() implies packs(
            rest[i],
            #[trigger] pieces.drop_first()[i],
            chunks.drop_first()[i],
            rest[i + 1],
        ) by {
            assert(pieces.drop_first()[i] == pieces[i + 1]);
        }
        lemma_packed(rest, pieces.drop_first(), chunks.drop_first());
        assert(packs(archives[0], pieces[0], chunks[0], archives[1]));
        assert(archives.last().input() =~= archives[0].input() + concatenated(pieces));
        assert(archives.last().output() =~= archives[0].output() + concatenated(chunks));
    }
}

/// The content of an answer that is read piece by piece.
#[derive(Debug)]
pub struct BlockingResponse {
    pending: Vec<u8>,
    at: usize,
}

/// What a read gives.
#[derive(Debug)]
pub enum ReadStep {
    /// These bytes; none of them only where none were asked for.
    Bytes(Vec<u8>),
    /// Nothing yet: the next chunk has to be supplied.
    NeedChunk,
}

impl BlockingResponse {
    /// The bytes that were supplied and not read yet.
    pub closed spec fn view(&self) -> Seq<u8> {
        self.pending@.skip(self.at as int)
    }

    #[verifier::type_invariant]
    spec fn within(self) -> bool {
        self.at <= self.pending@.len()
    }

    /// Before the first chunk.
    pub fn new() -> (r: BlockingResponse)
        ensures
            r@ == Seq::<u8>::empty(),
    {
        let r = BlockingResponse { pending: Vec::new(), at: 0 };
        assert(r@ =~= Seq::<u8>::empty());
        r
    }

    /// Reads up to `room` bytes of what was supplied.
    pub fn read(&mut self, room: usize) -> (r: ReadStep)
        ensures
            if room > 0 && old(self)@.len() == 0 {
                r is NeedChunk && final(self)@ == old(self)@
            } else {
                let n = if room <= old(self)@.len() {
                    room as int
                } else {
                    old(self)@.len() as int
                };
                r is Bytes && r->Bytes_0@ == old(self)@.take(n) && final(self)@ == old(self)@.skip(n)
            },
    {
        proof {
            use_type_invariant(&*self);
        }
        if room == 0 {
            assert(old(self)@.take(0) =~= Seq::<u8>::empty());
            assert(old(self)@.skip(0) =~= old(self)@);
            return ReadStep::Bytes(Vec::new());
        }
        let left: usize = self.pending.len() - self.at;
        if left == 0 {
            return ReadStep::NeedChunk;
        }
        let n: usize = if room <= left {
            room
        } else {
            left
        };
        let from: usize = self.at;
        let bytes = vstd::slice::slice_to_vec(
            vstd::slice::slice_subrange(self.pending.as_slice(), from, from + n),
        );
        assert(bytes@ =~= old(self)@.take(n as int));
        self.at = from + n;
        assert(self@ =~= old(self)@.skip(n as int));
        ReadStep::Bytes(bytes)
    }

    /// Takes the next chunk of the content, or learns that there is none, and
    /// returns whether to read again. An empty chunk is not the end.
    pub fn supply(&mut self, chunk: Option<Vec<u8>>) -> (r: bool)
        ensures
            r == (chunk is Some),
            final(self)@ == match chunk {
                Some(chunk) => old(self)@ + chunk@,
                None => old(self)@,
            },
    {
        proof {
            use_type_invariant(&*self);
        }
        match chunk {
            Some(chunk) => {
                let n: usize = self.pending.len();
                let mut pending = vstd::slice::slice_to_vec(
                    vstd::slice::slice_subrange(self.pending.as_slice(), self.at, n),
                );
                let ghost given = chunk@;
                let mut chunk = chunk;
                pending.append(&mut chunk);
                *self = BlockingResponse { pending, at: 0 };
                assert(self@ =~= old(self)@ + given);
                true
            },
            None => false,
        }
    }
}

/// What is done with the content of an answer.
pub enum BodyUse {
    /// A chunk is supplied.
    Supply(Seq<u8>),
    /// So many bytes are asked for.
    Read(nat),
}

/// The bytes that `uses` read, put together, and those that stay unread, of a
/// content of which `pending` was supplied before.
pub open spec fn body_after(pending: Seq<u8>, uses: Seq<BodyUse>) -> (Seq<u8>, Seq<u8>)
    decreases uses.len(),
{
    if uses.len() == 0 {
        (seq![], pending)
    } else {
        match uses[0] {
            BodyUse::Supply(chunk) => body_after(pending + chunk, uses.drop_first()),
            BodyUse::Read(room) => {
                let n = if room <= pending.len() {
                    room as int
                } else {
                    pending.len() as int
                };
                let (later, unread) = body_after(pending.skip(n), uses.drop_first());
                (pending.take(n) + later, unread)
            },
        }
    }
}

/// The bytes that `uses` supply, put together.
pub open spec fn supplied(uses: Seq<BodyUse>) -> Seq<u8>
    decreases uses.len(),
{
    if uses.len() == 0 {
        seq![]
    } else {
        match uses[0] {
            BodyUse::Supply(chunk) => chunk + supplied(uses.drop_first()),
            BodyUse::Read(_) => supplied(uses.drop_first()),
        }
    }
}

/// However chunks and reads alternate, and whatever their sizes, what is read
/// is what was supplied, in order, up to what is still unread.
pub proof fn law_content_is_read_in_order(pending: Seq<u8>, uses: Seq<BodyUse>)
    ensures
        body_after(pending, uses).0 + body_after(pending, uses).1 == pending + supplied(uses),
    decreases uses.len(),
{
    if uses.len() == 0 {
        assert(Seq::<u8>::empty() + pending =~= pending + supplied(uses));
    } else {
        let rest = uses.drop_first();
        match uses[0] {
            BodyUse::Supply(chunk) => {
                law_content_is_read_in_order(pending + chunk, rest);
                assert(pending + chunk + supplied(rest) =~= pending + supplied(uses));
            },
            BodyUse::Read(room) => {
                let n = if room <= pending.len() {
                    room as int
                } else {
                    pending.len() as int
                };
                law_content_is_read_in_order(pending.skip(n), rest);
                let (later, unread) = body_after(pending.skip(n), rest);
                assert(pending.take(n) + later + unread =~= pending.take(n) + (later + unread));
                assert(pending.take(n) + (pending.skip(n) + supplied(rest)) =~= pending + supplied(
                    rest,
                ));
            },
        }
    }
}

/// An upload succeeds exactly if the server granted it and the producer finished
/// the archive, whatever the answer and however the producer ended.
pub proof fn law_uploads_succeed_if_both_ends_do(
    exchange: ExchangeView,
    answer: Answer,
    produced: ProducedView,
)
    ensures
        upload_failure(complaint(exchange, answer), produced) is None <==> answer is Granted
            && produced is Finished,
{
}

/// An archive that was granted and did not come to its end is reported with what
/// the producer failed with, and with nothing else.
pub proof fn law_granted_uploads_fail_as_their_producer(
    exchange: ExchangeView,
    failure: FailureView,
)
    ensures
        upload_failure(complaint(exchange, Answer::Granted), ProducedView::Failed(failure))
            == Some(failure),
        upload_failure(complaint(exchange, Answer::Granted), ProducedView::CutOff(failure))
            == Some(failure),
{
}

/// An upload without an answer is reported with its whole address and goes back to
/// the whole cause; one that was refused is reported with the operation and the
/// whole error, or that the error is unknown. Unless the archive itself failed,
/// nothing else is reported.
pub proof fn law_unanswered_and_refused_uploads_are_told(
    exchange: ExchangeView,
    text: String,
    produced: ProducedView,
)
    requires
        !(produced is Failed),
    ensures
        upload_failure(complaint(exchange, Answer::Unsent(text)), produced) == Some(
            FailureView {
                message: "sending request to "@ + exchange.request.url,
                cause: Some(text@),
            },
        ),
        upload_failure(complaint(exchange, Answer::Rejected(Some(text))), produced) == Some(
            FailureView { message: exchange.operation + ": "@ + text@, cause: None },
        ),
        upload_failure(complaint(exchange, Answer::Rejected(None)), produced) == Some(
            FailureView { message: exchange.operation + ": "@ + "unknown error"@, cause: None },
        ),
{
}

/// An archive that failed while the server refused it, or while it did not answer,
/// is reported with both: what the server came to is the message, and behind what
/// that goes back to stands all that the producer failed with.
pub proof fn law_both_failures_are_told(
    exchange: ExchangeView,
    text: String,
    failure: FailureView,
)
    ensures
        upload_failure(
            complaint(exchange, Answer::Unsent(text)),
            ProducedView::Failed(failure),
        ) == Some(
            FailureView {
                message: "sending request to "@ + exchange.request.url,
                cause: Some(
                    text@ + ": "@ + match failure.cause {
                        Some(cause) => failure.message + ": "@ + cause,
                        None => failure.message,
                    },
                ),
            },
        ),
        upload_failure(
            complaint(exchange, Answer::Rejected(Some(text))),
            ProducedView::Failed(failure),
        ) == Some(
            FailureView {
                message: exchange.operation + ": "@ + text@,
                cause: Some(
                    match failure.cause {
                        Some(cause) => failure.message + ": "@ + cause,
                        None => failure.message,
                    },
                ),
            },
        ),
{
}

/// A write takes as many bytes as it may, from the front: all of them up to the
/// limit, and the limit beyond it. A write succeeds exactly if it has nothing to
/// send or the sender has taken the chunk.
pub proof fn law_writes_take_all_they_may(bytes: Seq<u8>, sending: Sending)
    ensures
        first_chunk(bytes).is_prefix_of(bytes),
        bytes.len() <= 65536 ==> first_chunk(bytes) == bytes,
        bytes.len() > 65536 ==> first_chunk(bytes).len() == 65536,
        write_succeeds(bytes, sending) <==> bytes.len() == 0 || sending is Taken,
{
}

/// A cancellation counts before all else; without one a chunk was taken or the
/// sender is gone.
pub proof fn law_cancellations_count_first(taken: bool)
    ensures
        sending_of(true, taken) == Sending::Cancelled,
        sending_of(false, true) == Sending::Taken,
        sending_of(false, false) == Sending::Closed,
{
}

/// A buffer is taken up to what was read into it, and no further than it goes.
pub proof fn law_buffers_are_taken_up_to_the_read(buffer: Seq<u8>, n: nat)
    ensures
        filled(buffer, n).is_prefix_of(buffer),
        n <= buffer.len() ==> filled(buffer, n).len() == n,
        n > buffer.len() ==> filled(buffer, n) == buffer,
{
}

/// The ends of producers are viewed with all that they hold.
pub proof fn law_ends_of_producers_are_viewed_whole(failure: Failure)
    ensures
        Produced::Finished@ == ProducedView::Finished,
        Produced::Failed(failure)@ == ProducedView::Failed(failure@),
        Produced::CutOff(failure)@ == ProducedView::CutOff(failure@),
{
}

/// What an upload came to is a success exactly if it was granted and finished, and
/// a failure of exactly one of them is that failure.
pub proof fn law_results_follow_both_ends(
    exchange: &Exchange,
    answer: Answer,
    produced: Produced,
    result: Result<(), Failure>,
)
    requires
        call_ensures(upload_result, (exchange, answer, produced), result),
    ensures
        result is Ok <==> answer is Granted && produced is Finished,
        answer is Granted && produced is Failed ==> result->Err_0@ == produced->Failed_0@,
        answer is Granted && produced is CutOff ==> result->Err_0@ == produced->CutOff_0@,
        answer is Unsent && !(produced is Failed) ==> result->Err_0@ == (FailureView {
            message: "sending request to "@ + exchange.request.url@,
            cause: Some(answer->Unsent_0@),
        }),
        answer is Rejected && !(produced is Failed) ==> result->Err_0@ == (FailureView {
            message: exchange.operation@ + ": "@ + match answer->Rejected_0 {
                Some(error) => error@,
                None => "unknown error"@,
            },
            cause: None,
        }),
{
}

/// The body of an upload ends with an error exactly if the producer failed, and
/// then with all that is known of why.
pub proof fn law_failed_producers_break_the_body(
    produced: &Result<(), Failure>,
    end: Option<String>,
)
    requires
        call_ensures(end_of_body, (produced,), end),
    ensures
        end is Some <==> *produced is Err,
        end is Some && produced->Err_0.cause is None ==> end->0@ == produced->Err_0.message@,
        end is Some && produced->Err_0.cause is Some ==> end->0@ == produced->Err_0.message@ + ": "@
            + produced->Err_0.cause->0@,
{
}

/// A producer that returned came to what it returned, and one that panicked failed
/// with the whole cause.
pub proof fn law_panics_are_failures(
    joined: Result<Result<(), Failure>, String>,
    result: Result<(), Failure>,
)
    requires
        call_ensures(produced, (joined,), result),
    ensures
        result is Ok <==> joined is Ok && joined->Ok_0 is Ok,
        joined is Ok && joined->Ok_0 is Err ==> result->Err_0@ == joined->Ok_0->Err_0@,
        joined is Err ==> result->Err_0@ == (FailureView {
            message: "archive producer panicked"@,
            cause: Some(joined->Err_0@),
        }),
{
}

/// A producer was cut off exactly if it failed behind a broken pipe, has finished
/// exactly if it returned without a failure, and keeps its failure whole.
pub proof fn law_producers_end_by_their_pipe(
    result: Result<(), Failure>,
    broken: bool,
    end: Produced,
)
    requires
        call_ensures(producer_end, (result, broken), end),
    ensures
        end@ is Finished <==> result is Ok,
        end@ is CutOff <==> result is Err && broken,
        end@ is CutOff ==> end@->CutOff_0 == result->Err_0@,
        end@ is Failed ==> end@->Failed_0 == result->Err_0@,
{
}

/// What is sent for a write and what the write says that it took are the same
/// bytes, so that a writer that goes on behind them sends everything once.
pub proof fn law_writes_say_what_they_sent(
    bytes: &[u8],
    chunk: Option<Vec<u8>>,
    taken: Result<usize, BrokenPipe>,
)
    requires
        call_ensures(chunk_to_send, (bytes,), chunk),
        call_ensures(written, (bytes, Sending::Taken), taken),
    ensures
        taken is Ok,
        chunk is None <==> bytes@.len() == 0,
        chunk is None ==> taken->Ok_0 == 0,
        chunk is Some ==> chunk->0@ == bytes@.take(taken->Ok_0 as int),
        chunk is Some ==> taken->Ok_0 > 0,
        taken->Ok_0 <= 65536,
        taken->Ok_0 < 65536 ==> taken->Ok_0 == bytes@.len(),
{
    if chunk is Some {
        assert(chunk->0@ =~= bytes@.take(taken->Ok_0 as int));
    }
}

/// A read of nothing is the end of the archive, and any other read is put into it,
/// up to what was read; nothing is lost between a read and what goes on behind it.
pub proof fn law_reads_are_put_into_the_archive(
    archive: ArchiveBody,
    buffer: Vec<u8>,
    n: usize,
    step: Result<BodyStep, String>,
)
    requires
        call_ensures(ArchiveBody::read, (archive, buffer, n), step),
        n <= buffer@.len(),
    ensures
        step is Ok && step->Ok_0 is Last ==> n == 0,
        step is Ok && n == 0 ==> step->Ok_0 is Last,
        step is Ok && step->Ok_0 is Send ==> {
            &&& step->Ok_0->next.input() == archive.input() + buffer@.take(n as int)
            &&& step->Ok_0->next.output() == archive.output() + step->Ok_0->chunk@
            &&& step->Ok_0->chunk@.len() > 0
        },
        step is Ok && step->Ok_0 is ReadOn ==> {
            &&& step->Ok_0->ReadOn_0.input() == archive.input() + buffer@.take(n as int)
            &&& step->Ok_0->ReadOn_0.output() == archive.output()
        },
        step is Ok && step->Ok_0 is Last ==> gunzipped(archive.output() + step->Ok_0->Last_0@)
            == Some(archive.input()),
        step is Err && n == 0 ==> archive.finish_fault() == Some(step->Err_0@),
        step is Err && n > 0 ==> archive.pack_fault(buffer@.take(n as int)) == Some(step->Err_0@),
{
    if step is Ok && step->Ok_0 is ReadOn {
        assert(archive.output() + Seq::<u8>::empty() =~= archive.output());
    }
}

/// What was packed is sent exactly if there is something of it, and what could not
/// be packed or ended is told as it is.
pub proof fn law_empty_chunks_are_not_sent(
    packed: Result<(ArchiveBody, Vec<u8>), String>,
    step: Result<BodyStep, String>,
)
    requires
        call_ensures(packed_step, (packed,), step),
    ensures
        step is Ok <==> packed is Ok,
        step is Err ==> step->Err_0@ == packed->Err_0@,
        step is Ok ==> (step->Ok_0 is Send <==> packed->Ok_0.1@.len() > 0),
        step is Ok && step->Ok_0 is Send ==> step->Ok_0->chunk@ == packed->Ok_0.1@,
        step is Ok && step->Ok_0 is Send ==> step->Ok_0->next == packed->Ok_0.0,
        step is Ok && !(step->Ok_0 is Send) ==> step->Ok_0 == BodyStep::ReadOn(packed->Ok_0.0),
{
}

/// What ended the archive is sent as the last chunk, as it is.
pub proof fn law_last_chunks_end_the_body(
    finished: Result<Vec<u8>, String>,
    step: Result<BodyStep, String>,
)
    requires
        call_ensures(last_step, (finished,), step),
    ensures
        step is Ok <==> finished is Ok,
        step is Err ==> step->Err_0@ == finished->Err_0@,
        step is Ok ==> step->Ok_0 is Last && step->Ok_0->Last_0@ == finished->Ok_0@,
{
}

/// A read asks for another chunk exactly if it wants bytes and there are none; else
/// it takes as many as it wants or as there are, from the front, and leaves the
/// others as they are.
pub proof fn law_reads_take_from_the_front(
    response: &mut BlockingResponse,
    room: usize,
    step: ReadStep,
)
    requires
        call_ensures(BlockingResponse::read, (response, room), step),
    ensures
        step is NeedChunk <==> room > 0 && old(response)@.len() == 0,
        step is NeedChunk ==> final(response)@.len() == 0,
        step is Bytes ==> step->Bytes_0@ + final(response)@ == old(response)@,
        step is Bytes ==> step->Bytes_0@.len() == if room < old(response)@.len() {
            room as nat
        } else {
            old(response)@.len()
        },
{
    let before = old(response)@;
    let n = if room <= before.len() {
        room as int
    } else {
        before.len() as int
    };
    assert(before.take(n) + before.skip(n) =~= before);
}

/// A chunk goes behind what is still to be read, whole, and is read on behind,
/// empty or not; the end of the content changes nothing.
pub proof fn law_chunks_are_read_behind_each_other(
    response: &mut BlockingResponse,
    chunk: Option<Vec<u8>>,
    again: bool,
)
    requires
        call_ensures(BlockingResponse::supply, (response, chunk), again),
    ensures
        again <==> chunk is Some,
        chunk is Some ==> final(response)@ == old(response)@ + chunk->0@,
        chunk is None ==> final(response)@ == old(response)@,
{
}

/// A new archive is empty, and whoever decompresses what was sent for it gets what
/// was put in, or nothing where it is not complete.
pub proof fn law_archives_start_empty(
    archive: ArchiveBody,
    sent: &[u8],
    unpacked: Option<Vec<u8>>,
)
    requires
        call_ensures(ArchiveBody::new, (), archive),
        call_ensures(ArchiveBody::unpack, (sent,), unpacked),
    ensures
        archive.input().len() == 0,
        archive.output().len() == 0,
        completes(archive, sent@) ==> unpacked is Some && unpacked->0@.len() == 0,
{
    assert(archive.output() + sent@ =~= sent@);
}

} // verus!
