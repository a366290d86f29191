//! Decisions of the per-session output streaming loop.
//!
//! One streaming task runs per active session. Each turn of its loop the
//! host first checks the session's stop flag and exits if it is set; it
//! then performs one (possibly blocking) read of up to [`READ_CHUNK_SIZE`]
//! bytes from the session's output source, on an execution context that
//! tolerates blocking, and hands the outcome to [`streamer_step`] together
//! with the flag's current value. The step function decides everything
//! that is not I/O: what to emit, when to sleep, when to back off, and
//! when to exit.
//!
//! Each emitted chunk is decoded independently as UTF-8 with lossy
//! substitution. A multi-byte character split across two chunks is thus
//! rendered as replacement characters on both sides; trailing undecodable
//! bytes are not carried over to the next chunk.

use vstd::prelude::*;

use vstd::utf8::{decode_utf8, valid_utf8};

verus! {

/// Upper bound on the bytes taken by one read from a session's output.
pub const READ_CHUNK_SIZE: usize = 8192;

/// Outcome of one read from the session's output source, as the host saw
/// it: `n` bytes of data (`n == 0` meaning no data currently available,
/// non-fatal), or a read error, fatal or not.
#[derive(Debug)]
pub enum ReadOutcome {
    Data(Vec<u8>),
    Failed { fatal: bool },
}

/// What the streaming task must do next: emit one output event carrying
/// the decoded text (then continue), sleep briefly (on the order of 10 ms)
/// before the next turn, back off briefly and retry after a non-fatal
/// error, or exit the loop.
#[derive(Debug)]
pub enum StreamerAction {
    Emit(String),
    Sleep,
    Backoff,
    Exit,
}

/// The characters that decoding `bytes` as UTF-8 with lossy substitution
/// yields: invalid byte sequences become replacement characters, valid
/// input decodes exactly (see the facts stated where this name is
/// applied).
pub uninterp spec fn lossy_utf8_of(bytes: Seq<u8>) -> Seq<char>;

/// Relies on `String::from_utf8_lossy`: the result is a function of the
/// bytes alone; valid UTF-8 decodes to exactly its characters, and empty
/// input gives the empty string.
#[verifier::external_body]
pub(crate) fn decode_lossy(bytes: &[u8]) -> (r: String)
    ensures
        r@ == lossy_utf8_of(bytes@),
        valid_utf8(bytes@) ==> r@ == decode_utf8(bytes@),
        bytes@.len() == 0 ==> r@.len() == 0,
{
    String::from_utf8_lossy(bytes).into_owned()
}

/// One decision of the streaming loop, taken on the outcome of one read.
///
/// `stop` is the session's stop flag as sampled after the read; it is
/// consulted only on a read error (the host already checks it before each
/// read). A non-empty chunk is emitted as lossily decoded text; an empty
/// read means no data is currently available, so the task sleeps briefly
/// instead of spinning; a read error while the stop flag is set is the
/// expected end of a killed session, and a fatal error ends the task
/// silently; any other error is retried after a brief backoff.
pub fn streamer_step(stop: bool, outcome: ReadOutcome) -> (a: StreamerAction)
    ensures
        streamer_step_post(stop, outcome, a),
        outcome matches ReadOutcome::Data(bytes) ==> ((bytes@.len() > 0 && valid_utf8(bytes@))
            ==> (a matches StreamerAction::Emit(text) && text@ == decode_utf8(bytes@))),
{
    match outcome {
        ReadOutcome::Data(bytes) => {
            if bytes.len() > 0 {
                StreamerAction::Emit(decode_lossy(bytes.as_slice()))
            } else {
                StreamerAction::Sleep
            }
        },
        ReadOutcome::Failed { fatal } => {
            if stop {
                StreamerAction::Exit
            } else if fatal {
                StreamerAction::Exit
            } else {
                StreamerAction::Backoff
            }
        },
    }
}

/// Law: a streaming task whose session was killed terminates on its next
/// decision: once the stop flag is set, a read error yields `Exit` — and
/// the host's own flag check before each read exits as well — so the task
/// never keeps looping against a killed session.
pub proof fn lemma_stop_flag_ends_task(stop: bool, a: StreamerAction, outcome: ReadOutcome)
    requires
        stop,
        outcome is Failed,
        streamer_step_post(stop, outcome, a),
    ensures
        a is Exit,
{
}

/// The decision relation of [`streamer_step`], stated once so that facts
/// about the loop can be proved against it.
pub open spec fn streamer_step_post(stop: bool, outcome: ReadOutcome, a: StreamerAction) -> bool {
    &&& outcome matches ReadOutcome::Data(bytes) ==> if bytes@.len() > 0 {
        a matches StreamerAction::Emit(text) && text@ == lossy_utf8_of(bytes@)
    } else {
        a is Sleep
    }
    &&& outcome matches ReadOutcome::Failed { fatal } ==> if stop {
        a is Exit
    } else if fatal {
        a is Exit
    } else {
        a is Backoff
    }
}

} // verus!
