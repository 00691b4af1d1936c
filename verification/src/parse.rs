//! Receiving a response: the session's buffer, the rule that ends a read,
//! and the frame that a response must have.

use crate::error::Error;
use crate::text::{
    as_text, ends_with, is_prefix, is_suffix, lemma_cut_after_prefix, lemma_cut_at_boundary,
    lemma_trimmed, longest_valid_prefix, same, starts_with, trimmed, trimmed_len,
};
use vstd::prelude::*;
use vstd::slice::*;
use vstd::string::*;
use vstd::utf8::*;

verus! {

/// The session with one modem, as far as the protocol knows it: what has
/// arrived of the response that is being read, in a buffer of `N` bytes that
/// never grows, and the time at which the read began.
///
/// The serial port is the caller's. One session belongs to one open port.
/// A buffer that is full takes no more bytes: a response that does not fit
/// in it never completes, and its read ends with the timeout, in the error
/// that carries what did fit.
pub struct LoraE5<const N: usize> {
    buf: [u8; N],
    cursor: usize,
    begun: u64,
}

/// How far a read has come.
#[derive(Debug, Clone, Copy, PartialEq, Eq, Structural)]
pub enum Progress {
    /// The bytes that have arrived are not UTF-8.
    Garbled,
    /// What has arrived ends with one of the terminators.
    Complete,
    /// No terminator yet, and the read has lasted longer than the timeout.
    TimedOut,
    /// No terminator yet: the read goes on.
    Pending,
}

/// `text` ends with one of the terminators.
pub open spec fn ends_with_any(text: Seq<u8>, terminators: Seq<&str>) -> bool {
    exists|k: int| 0 <= k < terminators.len() && is_suffix((#[trigger] terminators[k]).spec_bytes(), text)
}

/// The state of a read that began `elapsed` milliseconds ago and of which
/// `text` has arrived. A terminator at the end of `text` counts whatever the
/// time; bytes that are not UTF-8 end the read at once. A read without a
/// terminator that has lasted longer than `timeout` has timed out, whether
/// bytes are still arriving or not.
pub open spec fn progress(text: Seq<u8>, terminators: Seq<&str>, elapsed: int, timeout: int) -> Progress {
    if !valid_utf8(text) {
        Progress::Garbled
    } else if ends_with_any(text, terminators) {
        Progress::Complete
    } else if elapsed > timeout {
        Progress::TimedOut
    } else {
        Progress::Pending
    }
}

/// `outcome` is what one turn of the read loop gives, where the read began
/// `elapsed` milliseconds ago, `received` has arrived, and the read may last
/// `timeout` milliseconds.
///
/// Bytes that are not UTF-8 are an error. A completed read gives the number
/// of bytes that have arrived. A read that timed out is an error that
/// carries every byte that has arrived, as text. A read that goes on gives `None`.
pub open spec fn read_step(
    received: Seq<u8>,
    terminators: Seq<&str>,
    elapsed: int,
    timeout: int,
    outcome: Result<Option<usize>, Error>,
) -> bool {
    match progress(received, terminators, elapsed, timeout) {
        Progress::Garbled => garbled(received, outcome),
        Progress::Complete => outcome == Ok::<Option<usize>, Error>(Some(received.len() as usize)),
        Progress::TimedOut => outcome matches Err(Error::PartialResponse(partial)) && encode_utf8(
            partial@,
        ) == received,
        Progress::Pending => outcome == Ok::<Option<usize>, Error>(None),
    }
}

/// `outcome` is the error for bytes that are not UTF-8: it names the length
/// of the longest prefix of them that is.
pub open spec fn garbled<T>(received: Seq<u8>, outcome: Result<T, Error>) -> bool {
    outcome matches Err(Error::Utf8 { valid_up_to }) && longest_valid_prefix(
        received,
        valid_up_to as int,
    )
}

/// The part of `response` behind `prelude`, where `response` begins with it.
pub open spec fn payload(response: Seq<u8>, prelude: Seq<u8>) -> Option<Seq<u8>> {
    if is_prefix(prelude, response) {
        Some(response.subrange(prelude.len() as int, response.len() as int))
    } else {
        None
    }
}

/// The time for which a read has lasted at `now`, where it began at
/// `begun`. A clock that went backwards counts as no time passed.
pub open spec fn elapsed_time(begun: u64, now: u64) -> int {
    if now >= begun {
        now - begun
    } else {
        0
    }
}

impl<const N: usize> LoraE5<N> {
    #[verifier::type_invariant]
    spec fn fits(&self) -> bool {
        self.cursor <= N
    }

    /// What has arrived of the response that is being read.
    pub closed spec fn received(&self) -> Seq<u8> {
        self.buf@.subrange(0, self.cursor as int)
    }

    /// The time, in milliseconds of the caller's clock, at which the read
    /// began. Only `start_read` sets it.
    pub closed spec fn started(&self) -> u64 {
        self.begun
    }

    /// A session that has received nothing.
    pub fn new() -> (r: Self)
        ensures
            r.received() == Seq::<u8>::empty(),
            r.started() == 0,
    {
        let r = LoraE5 { buf: [0u8; N], cursor: 0, begun: 0 };
        assert(r.received() =~= Seq::<u8>::empty());
        r
    }

    /// The number of bytes that have arrived.
    pub fn len(&self) -> (r: usize)
        ensures
            r == self.received().len(),
            r <= N,
    {
        proof {
            use_type_invariant(self);
        }
        self.cursor
    }

    /// The number of bytes that the buffer can still take.
    pub fn space(&self) -> (r: usize)
        ensures
            r == N - self.received().len(),
    {
        proof {
            use_type_invariant(self);
        }
        N - self.cursor
    }

    /// The bytes that have arrived.
    pub fn bytes(&self) -> (r: &[u8])
        ensures
            r@ == self.received(),
    {
        proof {
            use_type_invariant(self);
        }
        slice_subrange(self.buf.as_slice(), 0, self.cursor)
    }

    /// Begins the read of a response at the time `now_ms`: forgets what had arrived.
    pub fn start_read(&mut self, now_ms: u64)
        ensures
            final(self).received() == Seq::<u8>::empty(),
            final(self).started() == now_ms,
    {
        self.cursor = 0;
        self.begun = now_ms;
        assert(self.received() =~= Seq::<u8>::empty());
    }

    /// Takes the bytes of one read from the port into the buffer.
    fn take(&mut self, chunk: &[u8])
        requires
            chunk@.len() <= N - old(self).received().len(),
        ensures
            final(self).received() == old(self).received() + chunk@,
            final(self).started() == old(self).started(),
    {
        proof {
            use_type_invariant(&*self);
        }
        let start: usize = self.cursor;
        let mut k: usize = 0;
        while k < chunk.len()
            invariant
                k <= chunk@.len(),
                start + chunk@.len() <= N,
                self.cursor == start,
                self.begun == old(self).begun,
                self.buf@.subrange(0, start + k) == old(self).received() + chunk@.subrange(0, k as int),
            decreases chunk@.len() - k,
        {
            let ghost before = self.buf@;
            self.buf[start + k] = chunk[k];
            assert(self.buf@.subrange(0, start + k + 1) =~= before.subrange(0, start + k).push(
                chunk@[k as int],
            ));
            assert(chunk@.subrange(0, k + 1) =~= chunk@.subrange(0, k as int).push(chunk@[k as int]));
            k += 1;
        }
        assert(chunk@.subrange(0, chunk@.len() as int) =~= chunk@);
        self.cursor = start + chunk.len();
    }

    /// One turn of the read loop. The caller has read `chunk` from the port
    /// (nothing, where the port had nothing) and then looked at its clock,
    /// which showed `now_ms`.
    ///
    /// The bytes are taken into the buffer. Then, in this order: bytes that
    /// are not UTF-8 are an error; a terminator at the end of what has
    /// arrived completes the read, and the number of bytes that have arrived
    /// is returned; a read that began more than `timeout_ms` before `now_ms`
    /// is an error that carries everything that has arrived, the bytes of
    /// this turn too; else the read goes on, and `None` is returned.
    ///
    /// The time is counted from the beginning of the read, so a modem that
    /// keeps sending without a terminator does not hold the read beyond the
    /// timeout and the time of one turn.
    pub fn read_until_pattern(
        &mut self,
        chunk: &[u8],
        terminators: &[&str],
        now_ms: u64,
        timeout_ms: u64,
    ) -> (r: Result<Option<usize>, Error>)
        requires
            chunk@.len() <= N - old(self).received().len(),
        ensures
            final(self).received() == old(self).received() + chunk@,
            final(self).started() == old(self).started(),
            read_step(
                final(self).received(),
                terminators@,
                elapsed_time(old(self).started(), now_ms),
                timeout_ms as int,
                r,
            ),
    {
        self.take(chunk);
        let elapsed: u64 = if now_ms >= self.begun {
            now_ms - self.begun
        } else {
            0
        };
        let bytes = self.bytes();
        match as_text(bytes) {
            Err(valid_up_to) => Err(Error::Utf8 { valid_up_to }),
            Ok(text) => {
                if terminated(bytes, terminators) {
                    Ok(Some(bytes.len()))
                } else if elapsed > timeout_ms {
                    Err(Error::PartialResponse(text.to_owned()))
                } else {
                    Ok(None)
                }
            },
        }
    }

    /// One turn of the read loop for a response of one line: the only
    /// terminator is the line feed.
    pub fn read_until_break(&mut self, chunk: &[u8], now_ms: u64, timeout_ms: u64) -> (r: Result<
        Option<usize>,
        Error,
    >)
        requires
            chunk@.len() <= N - old(self).received().len(),
        ensures
            final(self).received() == old(self).received() + chunk@,
            final(self).started() == old(self).started(),
            read_step(
                final(self).received(),
                seq!["\n"],
                elapsed_time(old(self).started(), now_ms),
                timeout_ms as int,
                r,
            ),
    {
        let terminators: [&str; 1] = ["\n"];
        assert(terminators@ =~= seq!["\n"]);
        self.read_until_pattern(chunk, terminators.as_slice(), now_ms, timeout_ms)
    }

    /// The response that has arrived, as text.
    pub fn response(&self) -> (r: Result<&str, Error>)
        ensures
            match r {
                Ok(text) => valid_utf8(self.received()) && text.spec_bytes() == self.received(),
                Err(e) => !valid_utf8(self.received()) && garbled::<()>(self.received(), Err(e)),
            },
    {
        match as_text(self.bytes()) {
            Ok(text) => Ok(text),
            Err(valid_up_to) => Err(Error::Utf8 { valid_up_to }),
        }
    }

    /// Strips `expected_prelude` from the beginning of the response that has
    /// arrived. A response that does not begin with it is returned whole in
    /// the error.
    pub fn framed_response(&self, expected_prelude: &str) -> (r: Result<&str, Error>)
        ensures
            if valid_utf8(self.received()) {
                frame_stripped(
                    self.received(),
                    expected_prelude.spec_bytes(),
                    match r {
                        Ok(rest) => Ok(rest.spec_bytes()),
                        Err(e) => Err(e),
                    },
                )
            } else {
                garbled(self.received(), r)
            },
    {
        let text = self.response()?;
        framed_response(text, expected_prelude)
    }

    /// Checks that the response that has arrived is `expected_prelude`, then
    /// `expected_response`, then nothing but carriage returns and line
    /// feeds. Where the prelude is there and the rest is something else, the
    /// error carries that rest.
    pub fn check_framed_response(&self, expected_prelude: &str, expected_response: &str) -> (r: Result<
        (),
        Error,
    >)
        ensures
            if valid_utf8(self.received()) {
                frame_checked(
                    self.received(),
                    expected_prelude.spec_bytes(),
                    expected_response.spec_bytes(),
                    r,
                )
            } else {
                garbled(self.received(), r)
            },
    {
        let text = self.response()?;
        check_framed_response(text, expected_prelude, expected_response)
    }
}

/// Tells whether `text` ends with one of the terminators.
pub fn terminated(text: &[u8], terminators: &[&str]) -> (r: bool)
    ensures
        r == ends_with_any(text@, terminators@),
{
    let mut k: usize = 0;
    while k < terminators.len()
        invariant
            k <= terminators@.len(),
            forall|j: int| 0 <= j < k ==> !is_suffix((#[trigger] terminators@[j]).spec_bytes(), text@),
        decreases terminators@.len() - k,
    {
        let terminator: &str = terminators[k];
        if ends_with(text, terminator.as_bytes()) {
            return true;
        }
        k += 1;
    }
    false
}

/// `response` is `prelude`, then `expected`, then nothing but carriage
/// returns and line feeds.
pub open spec fn echoes(response: Seq<u8>, prelude: Seq<u8>, expected: Seq<u8>) -> bool {
    payload(response, prelude) matches Some(rest) && trimmed(rest) == expected
}

/// `outcome` is what stripping `prelude` from `response` gives: the rest of
/// a response that begins with it, and for any other response the error
/// that carries the response whole.
pub open spec fn frame_stripped(
    response: Seq<u8>,
    prelude: Seq<u8>,
    outcome: Result<Seq<u8>, Error>,
) -> bool {
    match outcome {
        Ok(rest) => payload(response, prelude) == Some(rest),
        Err(Error::UnexpectedResponse(seen)) => {
            &&& payload(response, prelude) is None
            &&& encode_utf8(seen@) == response
        },
        Err(_) => false,
    }
}

/// `outcome` is what checking `response` against a prelude and a value
/// gives. The response passes where it is the prelude, then the value, then
/// nothing but carriage returns and line feeds. Where the prelude is missing
/// the error carries the whole response; where the value is another, it
/// carries what stands behind the prelude.
pub open spec fn frame_checked(
    response: Seq<u8>,
    prelude: Seq<u8>,
    expected: Seq<u8>,
    outcome: Result<(), Error>,
) -> bool {
    match outcome {
        Ok(()) => echoes(response, prelude, expected),
        Err(Error::UnexpectedResponse(seen)) => match payload(response, prelude) {
            Some(rest) => trimmed(rest) != expected && encode_utf8(seen@) == rest,
            None => encode_utf8(seen@) == response,
        },
        Err(_) => false,
    }
}

/// A response made of a prelude, a value that does not end in a carriage
/// return or a line feed, and a line end passes the check for that prelude
/// and that value, and passes for no other value.
pub proof fn lemma_echo_passes(prelude: Seq<u8>, value: Seq<u8>, other: Seq<u8>)
    requires
        value.len() > 0 ==> value.last() != 0x0d && value.last() != 0x0a,
    ensures
        echoes(prelude + value + seq![0x0du8, 0x0a], prelude, other) <==> other == value,
{
    let response = prelude + value + seq![0x0du8, 0x0a];
    let rest = value + seq![0x0du8, 0x0a];
    assert(response.subrange(0, prelude.len() as int) =~= prelude);
    assert(response.subrange(prelude.len() as int, response.len() as int) =~= rest);
    assert(rest.drop_last() =~= value + seq![0x0du8]);
    assert(rest.drop_last().drop_last() =~= value);
    reveal_with_fuel(trimmed, 3);
    assert(trimmed(rest) == value);
}

/// Strips `expected_prelude` from the beginning of `response`. A response
/// that does not begin with it is returned whole in the error.
pub fn framed_response<'a>(response: &'a str, expected_prelude: &str) -> (r: Result<&'a str, Error>)
    ensures
        frame_stripped(
            response.spec_bytes(),
            expected_prelude.spec_bytes(),
            match r {
                Ok(rest) => Ok(rest.spec_bytes()),
                Err(e) => Err(e),
            },
        ),
{
    let prelude = expected_prelude.as_bytes();
    if starts_with(response.as_bytes(), prelude) {
        proof {
            encode_utf8_valid_utf8(response@);
            encode_utf8_valid_utf8(expected_prelude@);
            lemma_cut_after_prefix(response.spec_bytes(), expected_prelude.spec_bytes());
        }
        let (_, rest) = response.split_at(prelude.len());
        Ok(rest)
    } else {
        Err(Error::UnexpectedResponse(response.to_owned()))
    }
}

/// `s` without the carriage returns and line feeds at its end.
pub fn trim_end<'a>(s: &'a str) -> (r: &'a str)
    ensures
        r.spec_bytes() == trimmed(s.spec_bytes()),
{
    let bytes = s.as_bytes();
    let kept = trimmed_len(bytes);
    proof {
        encode_utf8_valid_utf8(s@);
        lemma_trimmed(bytes@);
        lemma_cut_at_boundary(bytes@, kept as int);
    }
    let (head, _) = s.split_at(kept);
    head
}

/// Checks that `response` is `expected_prelude`, then `expected_response`,
/// then nothing but carriage returns and line feeds. Where the prelude is
/// there and the rest is something else, the error carries that rest.
pub fn check_framed_response(response: &str, expected_prelude: &str, expected_response: &str) -> (r:
    Result<(), Error>)
    ensures
        frame_checked(
            response.spec_bytes(),
            expected_prelude.spec_bytes(),
            expected_response.spec_bytes(),
            r,
        ),
{
    let rest = framed_response(response, expected_prelude)?;
    if same(trim_end(rest).as_bytes(), expected_response.as_bytes()) {
        Ok(())
    } else {
        Err(Error::UnexpectedResponse(rest.to_owned()))
    }
}

} // verus!
