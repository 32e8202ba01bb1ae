//! The non-blocking result model and the read/write pumps.
//!
//! A pump turns a sequence of partial non-blocking operations into one logical
//! "drain this buffer" call. The syscalls themselves happen at the caller's
//! edge: a pump is told the buffer's remaining length before each attempt and
//! the outcome of each attempt, and it decides whether to go on or what the
//! logical call returns.
use vstd::prelude::*;
use crate::error::{MioError, MioErrorKind, MioResult};
use crate::os::{read_transfer, read_transfer_spec, write_transfer, write_transfer_spec};

verus! {

/// The result of a non-blocking operation: done, or not ready now.
#[derive(Debug, PartialEq, Eq, Structural)]
pub enum NonBlock<T> {
    Ready(T),
    WouldBlock,
}

impl<T> NonBlock<T> {
    pub fn would_block(&self) -> (r: bool)
        ensures
            r == (self is WouldBlock),
    {
        match *self {
            NonBlock::WouldBlock => true,
            _ => false,
        }
    }

    /// The value of a ready result; there is none to take from `WouldBlock`.
    pub fn unwrap(self) -> (r: T)
        requires
            self is Ready,
        ensures
            self == NonBlock::Ready(r),
    {
        match self {
            NonBlock::Ready(v) => v,
            NonBlock::WouldBlock => unreached(),
        }
    }
}

/// What a pump call returns.
pub type PumpResult = MioResult<NonBlock<()>>;

/// How the read pump finishes on the error of one attempt; `None` when the
/// attempt succeeded and the pump goes on.
pub open spec fn read_step_spec(first_iter: bool, r: MioResult<()>) -> Option<PumpResult> {
    match r {
        Ok(()) => None,
        Err(e) => if e.kind == MioErrorKind::WouldBlock {
            Some(Ok(NonBlock::WouldBlock))
        } else if e.kind == MioErrorKind::Eof && !first_iter {
            Some(Ok(NonBlock::Ready(())))
        } else {
            Some(Err(e))
        },
    }
}

/// How the write pump finishes on the error of one attempt; `None` when the
/// attempt succeeded and the pump goes on.
pub open spec fn write_step_spec(r: MioResult<()>) -> Option<PumpResult> {
    match r {
        Ok(()) => None,
        Err(e) => if e.kind == MioErrorKind::WouldBlock {
            Some(Ok(NonBlock::WouldBlock))
        } else {
            Some(Err(e))
        },
    }
}

/// The state of one read pump call: whether no attempt has succeeded yet.
#[derive(Clone, Copy, Debug, PartialEq, Eq, Structural)]
pub struct ReadPump {
    pub first_iter: bool,
}

impl ReadPump {
    pub fn new() -> (r: ReadPump)
        ensures
            r.first_iter,
    {
        ReadPump { first_iter: true }
    }

    /// Before an attempt: a buffer with no room left finishes the call with
    /// `Ready`, and no syscall is made; otherwise an attempt is due.
    pub fn check(&self, remaining: u32) -> (r: Option<PumpResult>)
        ensures
            remaining == 0 ==> r == Some(Ok::<NonBlock<()>, MioError>(NonBlock::Ready(()))),
            remaining > 0 ==> r is None,
    {
        if remaining == 0 {
            Some(Ok(NonBlock::Ready(())))
        } else {
            None
        }
    }

    /// After an attempt: `WouldBlock` finishes the call with `WouldBlock`; an
    /// end of stream finishes it with the error on the first attempt and with
    /// `Ready` once an attempt has succeeded; any other error is returned; a
    /// success lets the pump go on.
    pub fn on_result(&mut self, r: MioResult<()>) -> (out: Option<PumpResult>)
        ensures
            out == read_step_spec(old(self).first_iter, r),
            final(self).first_iter == (old(self).first_iter && r is Err),
    {
        match r {
            Ok(()) => {
                self.first_iter = false;
                None
            },
            Err(e) => {
                if e.is_would_block() {
                    Some(Ok(NonBlock::WouldBlock))
                } else if e.is_eof() && !self.first_iter {
                    Some(Ok(NonBlock::Ready(())))
                } else {
                    Some(Err(e))
                }
            },
        }
    }
}

/// The state of one write pump call.
#[derive(Clone, Copy, Debug, PartialEq, Eq, Structural)]
pub struct WritePump {}

impl WritePump {
    pub fn new() -> (r: WritePump) {
        WritePump {  }
    }

    /// Before an attempt: with nothing left to write the call is done.
    pub fn check(&self, remaining: u32) -> (r: Option<PumpResult>)
        ensures
            remaining == 0 ==> r == Some(Ok::<NonBlock<()>, MioError>(NonBlock::Ready(()))),
            remaining > 0 ==> r is None,
    {
        if remaining == 0 {
            Some(Ok(NonBlock::Ready(())))
        } else {
            None
        }
    }

    /// After an attempt: `WouldBlock` finishes the call with `WouldBlock`, any
    /// other error is returned, a success lets the pump go on.
    pub fn on_result(&self, r: MioResult<()>) -> (out: Option<PumpResult>)
        ensures
            out == write_step_spec(r),
    {
        match r {
            Ok(()) => None,
            Err(e) => {
                if e.is_would_block() {
                    Some(Ok(NonBlock::WouldBlock))
                } else {
                    Some(Err(e))
                }
            },
        }
    }
}

/// What a read pump call returns, and the room left in the buffer, when the
/// syscalls answer `answers` in turn (`Ok` with a byte count, or the
/// translated error) and the buffer has `remaining` bytes of room. `None`
/// when the answers run out before the call finishes, or one reports more
/// bytes than there was room for.
pub open spec fn read_pump_spec(first_iter: bool, remaining: nat, answers: Seq<MioResult<u32>>) -> Option<(PumpResult, nat)>
    decreases answers.len(),
{
    if remaining == 0 {
        Some((Ok(NonBlock::Ready(())), 0))
    } else if answers.len() == 0 {
        None
    } else if answers[0] matches Ok(n) && n > remaining {
        None
    } else {
        let (rest, r) = read_transfer_spec(remaining, answers[0]);
        match read_step_spec(first_iter, r) {
            Some(out) => Some((out, rest)),
            None => read_pump_spec(false, rest, answers.drop_first()),
        }
    }
}

/// What a write pump call returns, and the bytes left in the buffer, when the
/// syscalls answer `answers` in turn; `None` as for reads.
pub open spec fn write_pump_spec(remaining: nat, answers: Seq<MioResult<u32>>) -> Option<(PumpResult, nat)>
    decreases answers.len(),
{
    if remaining == 0 {
        Some((Ok(NonBlock::Ready(())), 0))
    } else if answers.len() == 0 {
        None
    } else if answers[0] matches Ok(n) && n > remaining {
        None
    } else {
        let (rest, r) = write_transfer_spec(remaining, answers[0]);
        match write_step_spec(r) {
            Some(out) => Some((out, rest)),
            None => write_pump_spec(rest, answers.drop_first()),
        }
    }
}

/// The pump's answer as an exec value related to its spec.
pub open spec fn pump_outcome_matches(r: Option<(PumpResult, u32)>, s: Option<(PumpResult, nat)>) -> bool {
    match r {
        None => s is None,
        Some((out, rest)) => s == Some((out, rest as nat)),
    }
}

/// Runs the read pump on a buffer with `remaining` bytes of room against the
/// syscall answers `answers`, one per attempt.
pub fn read_with_answers(remaining: u32, answers: &Vec<MioResult<u32>>) -> (r: Option<(PumpResult, u32)>)
    ensures
        pump_outcome_matches(r, read_pump_spec(true, remaining as nat, answers@)),
{
    let mut pump = ReadPump::new();
    let mut rem: u32 = remaining;
    let mut i: usize = 0;
    assert(answers@.skip(0) =~= answers@);
    while i < answers.len()
        invariant
            0 <= i <= answers.len(),
            read_pump_spec(pump.first_iter, rem as nat, answers@.skip(i as int))
                == read_pump_spec(true, remaining as nat, answers@),
        decreases answers.len() - i,
    {
        if let Some(out) = pump.check(rem) {
            return Some((out, rem));
        }
        let a = answers[i];
        if let Ok(n) = a {
            if n > rem {
                return None;
            }
        }
        assert(answers@.skip(i as int)[0] == a);
        assert(answers@.skip(i as int).drop_first() =~= answers@.skip(i + 1));
        let (rest, res) = read_transfer(rem, a);
        match pump.on_result(res) {
            Some(out) => {
                return Some((out, rest));
            },
            None => {},
        }
        rem = rest;
        i = i + 1;
    }
    if let Some(out) = pump.check(rem) {
        return Some((out, rem));
    }
    None
}

/// Runs the write pump on a buffer with `remaining` bytes against the syscall
/// answers `answers`, one per attempt.
pub fn write_with_answers(remaining: u32, answers: &Vec<MioResult<u32>>) -> (r: Option<(PumpResult, u32)>)
    ensures
        pump_outcome_matches(r, write_pump_spec(remaining as nat, answers@)),
{
    let pump = WritePump::new();
    let mut rem: u32 = remaining;
    let mut i: usize = 0;
    assert(answers@.skip(0) =~= answers@);
    while i < answers.len()
        invariant
            0 <= i <= answers.len(),
            write_pump_spec(rem as nat, answers@.skip(i as int))
                == write_pump_spec(remaining as nat, answers@),
        decreases answers.len() - i,
    {
        if let Some(out) = pump.check(rem) {
            return Some((out, rem));
        }
        let a = answers[i];
        if let Ok(n) = a {
            if n > rem {
                return None;
            }
        }
        assert(answers@.skip(i as int)[0] == a);
        assert(answers@.skip(i as int).drop_first() =~= answers@.skip(i + 1));
        let (rest, res) = write_transfer(rem, a);
        match pump.on_result(res) {
            Some(out) => {
                return Some((out, rest));
            },
            None => {},
        }
        rem = rest;
        i = i + 1;
    }
    if let Some(out) = pump.check(rem) {
        return Some((out, rem));
    }
    None
}

/// The bytes that the successful answers of a sequence report, in total.
pub open spec fn transferred(answers: Seq<MioResult<u32>>) -> nat
    decreases answers.len(),
{
    if answers.len() == 0 {
        0
    } else {
        (match answers[0] {
            Ok(n) => n as nat,
            Err(_) => 0nat,
        }) + transferred(answers.drop_first())
    }
}

/// Whether every answer of a sequence is a success that moved at least one byte.
pub open spec fn all_progress(answers: Seq<MioResult<u32>>) -> bool {
    forall|i: int| 0 <= i < answers.len() ==> (#[trigger] answers[i] matches Ok(n) && n > 0)
}

/// Whether every answer of a sequence is a success.
pub open spec fn all_succeed(answers: Seq<MioResult<u32>>) -> bool {
    forall|i: int| 0 <= i < answers.len() ==> #[trigger] answers[i] is Ok
}

/// Writing to a descriptor that takes every write it is offered: when the
/// syscalls all succeed and together take the whole buffer, the write pump
/// returns `Ready` and leaves nothing in the buffer.
pub proof fn lemma_write_accepted_drains(remaining: nat, answers: Seq<MioResult<u32>>)
    requires
        all_succeed(answers),
        transferred(answers) == remaining,
    ensures
        write_pump_spec(remaining, answers) == Some((Ok::<NonBlock<()>, MioError>(NonBlock::Ready(())), 0nat)),
    decreases answers.len(),
{
    if remaining > 0 {
        let n = answers[0]->Ok_0;
        assert(answers[0] is Ok);
        assert forall|i: int| 0 <= i < answers.drop_first().len() implies #[trigger] answers.drop_first()[i] is Ok by {
            assert(answers[i + 1] is Ok);
        }
        lemma_write_accepted_drains((remaining - n) as nat, answers.drop_first());
    }
}

/// A read whose first syscall would block returns `WouldBlock` and leaves the
/// buffer's cursor where it was.
pub proof fn lemma_read_would_block_first(remaining: nat, answers: Seq<MioResult<u32>>)
    requires
        remaining > 0,
        answers.len() > 0,
        answers[0] matches Err(e) && e.kind == MioErrorKind::WouldBlock,
    ensures
        read_pump_spec(true, remaining, answers) == Some((Ok::<NonBlock<()>, MioError>(NonBlock::WouldBlock), remaining)),
{
}

/// A read on a peer that is already closed, whose first syscall returns zero
/// bytes, fails with the end-of-stream error and leaves the buffer as it was.
pub proof fn lemma_read_eof_at_start(remaining: nat, answers: Seq<MioResult<u32>>)
    requires
        remaining > 0,
        answers.len() > 0,
        answers[0] == Ok::<u32, MioError>(0u32),
    ensures
        read_pump_spec(true, remaining, answers)
            == Some((Err::<NonBlock<()>, MioError>(MioError { kind: MioErrorKind::Eof }), remaining)),
{
}

proof fn lemma_read_drain_then_eof_from(first_iter: bool, remaining: nat, pre: Seq<MioResult<u32>>, tail: Seq<MioResult<u32>>)
    requires
        all_progress(pre),
        transferred(pre) < remaining,
        first_iter ==> pre.len() > 0,
        tail.len() > 0,
        tail[0] == Ok::<u32, MioError>(0u32),
    ensures
        read_pump_spec(first_iter, remaining, pre + tail)
            == Some((Ok::<NonBlock<()>, MioError>(NonBlock::Ready(())), (remaining - transferred(pre)) as nat)),
    decreases pre.len(),
{
    if pre.len() > 0 {
        assert((pre + tail)[0] == pre[0]);
        assert(pre[0] matches Ok(n) && n > 0);
        let n = pre[0]->Ok_0;
        assert((pre + tail).drop_first() =~= pre.drop_first() + tail);
        assert forall|i: int| 0 <= i < pre.drop_first().len() implies
            (#[trigger] pre.drop_first()[i] matches Ok(m) && m > 0) by {
            assert(pre[i + 1] matches Ok(m) && m > 0);
        }
        lemma_read_drain_then_eof_from(false, (remaining - n) as nat, pre.drop_first(), tail);
    } else {
        assert(pre + tail =~= tail);
    }
}

/// A read on a peer that sent some bytes and then closed: once the syscalls
/// have delivered those bytes and the next one returns zero, the read pump
/// returns `Ready`, not the end-of-stream error, with the bytes kept in the
/// buffer.
pub proof fn lemma_read_eof_after_progress(remaining: nat, sent: Seq<MioResult<u32>>, after: Seq<MioResult<u32>>)
    requires
        sent.len() > 0,
        all_progress(sent),
        transferred(sent) < remaining,
        after.len() > 0,
        after[0] == Ok::<u32, MioError>(0u32),
    ensures
        read_pump_spec(true, remaining, sent + after)
            == Some((Ok::<NonBlock<()>, MioError>(NonBlock::Ready(())), (remaining - transferred(sent)) as nat)),
{
    lemma_read_drain_then_eof_from(true, remaining, sent, after);
}

/// `Ready` from the write pump means the whole buffer went out.
pub proof fn lemma_write_ready_means_drained(remaining: nat, answers: Seq<MioResult<u32>>, rest: nat)
    requires
        write_pump_spec(remaining, answers) == Some((Ok::<NonBlock<()>, MioError>(NonBlock::Ready(())), rest)),
    ensures
        rest == 0,
    decreases answers.len(),
{
    if remaining > 0 && answers.len() > 0 && !(answers[0] matches Ok(n) && n > remaining) {
        let (r0, res) = write_transfer_spec(remaining, answers[0]);
        if write_step_spec(res) is None {
            lemma_write_ready_means_drained(r0, answers.drop_first(), rest);
        }
    }
}

/// `WouldBlock` from either pump comes only from a syscall that reported
/// that the descriptor was not ready.
pub proof fn lemma_would_block_only_from_os(first_iter: bool, remaining: nat, answers: Seq<MioResult<u32>>)
    ensures
        (read_pump_spec(first_iter, remaining, answers) matches Some((Ok(NonBlock::WouldBlock), _)))
            ==> exists|i: int| 0 <= i < answers.len() && (#[trigger] answers[i] matches Err(e) && e.kind == MioErrorKind::WouldBlock),
        (write_pump_spec(remaining, answers) matches Some((Ok(NonBlock::WouldBlock), _)))
            ==> exists|i: int| 0 <= i < answers.len() && (#[trigger] answers[i] matches Err(e) && e.kind == MioErrorKind::WouldBlock),
    decreases answers.len(),
{
    if remaining > 0 && answers.len() > 0 && !(answers[0] matches Ok(n) && n > remaining) {
        let (r0, res) = read_transfer_spec(remaining, answers[0]);
        let (w0, wres) = write_transfer_spec(remaining, answers[0]);
        lemma_would_block_only_from_os(false, r0, answers.drop_first());
        lemma_would_block_only_from_os(false, w0, answers.drop_first());
        if read_step_spec(first_iter, res) is None
            && (read_pump_spec(false, r0, answers.drop_first()) matches Some((Ok(NonBlock::WouldBlock), _))) {
            let i = choose|i: int| 0 <= i < answers.drop_first().len()
                && (#[trigger] answers.drop_first()[i] matches Err(e) && e.kind == MioErrorKind::WouldBlock);
            assert(answers[i + 1] == answers.drop_first()[i]);
        }
        if write_step_spec(wres) is None
            && (write_pump_spec(w0, answers.drop_first()) matches Some((Ok(NonBlock::WouldBlock), _))) {
            let i = choose|i: int| 0 <= i < answers.drop_first().len()
                && (#[trigger] answers.drop_first()[i] matches Err(e) && e.kind == MioErrorKind::WouldBlock);
            assert(answers[i + 1] == answers.drop_first()[i]);
        }
    }
}

/// Whether an answer to a read ends the stream: zero bytes, or the
/// end-of-stream error.
pub open spec fn ends_stream(a: MioResult<u32>) -> bool {
    a == Ok::<u32, MioError>(0u32) || (a matches Err(e) && e.kind == MioErrorKind::Eof)
}

/// `Ready` from the read pump comes only when the buffer filled, or when the
/// stream ended after at least one read had brought bytes in.
pub proof fn lemma_read_ready_means_full_or_ended(first_iter: bool, remaining: nat, answers: Seq<MioResult<u32>>, rest: nat)
    requires
        read_pump_spec(first_iter, remaining, answers) == Some((Ok::<NonBlock<()>, MioError>(NonBlock::Ready(())), rest)),
    ensures
        rest == 0 || exists|k: int|
            0 <= k < answers.len() && (first_iter ==> k > 0) && ends_stream(#[trigger] answers[k])
                && forall|j: int| 0 <= j < k ==> (#[trigger] answers[j] matches Ok(n) && n > 0),
    decreases answers.len(),
{
    if remaining > 0 {
        let a = answers[0];
        let (r0, res) = read_transfer_spec(remaining, a);
        if read_step_spec(first_iter, res) is None {
            lemma_read_ready_means_full_or_ended(false, r0, answers.drop_first(), rest);
            if rest != 0 {
                let k = choose|k: int|
                    0 <= k < answers.drop_first().len() && (false ==> k > 0) && ends_stream(#[trigger] answers.drop_first()[k])
                        && forall|j: int| 0 <= j < k ==> (#[trigger] answers.drop_first()[j] matches Ok(n) && n > 0);
                assert(answers[k + 1] == answers.drop_first()[k]);
                assert forall|j: int| 0 <= j < k + 1 implies (#[trigger] answers[j] matches Ok(n) && n > 0) by {
                    if j > 0 {
                        assert(answers[j] == answers.drop_first()[j - 1]);
                    }
                }
                assert(ends_stream(answers[k + 1]));
            }
        } else {
            assert(ends_stream(answers[0]));
        }
    }
}

/// A read whose syscalls each bring bytes in until the buffer is full
/// returns `Ready` with no room left.
pub proof fn lemma_read_fills_ready(first_iter: bool, remaining: nat, answers: Seq<MioResult<u32>>)
    requires
        all_progress(answers),
        transferred(answers) == remaining,
    ensures
        read_pump_spec(first_iter, remaining, answers) == Some((Ok::<NonBlock<()>, MioError>(NonBlock::Ready(())), 0nat)),
    decreases answers.len(),
{
    if remaining > 0 {
        assert(answers[0] matches Ok(n) && n > 0);
        let n = answers[0]->Ok_0;
        assert forall|i: int| 0 <= i < answers.drop_first().len() implies
            (#[trigger] answers.drop_first()[i] matches Ok(m) && m > 0) by {
            assert(answers[i + 1] matches Ok(m) && m > 0);
        }
        lemma_read_fills_ready(false, (remaining - n) as nat, answers.drop_first());
    }
}

} // verus!
