//! Per-connection session accumulation: a sequence of engine callbacks is
//! turned into one complete MIME document. Each connection owns one
//! [`MyHandler`]; the only shared value is the read-only account list.

use vstd::prelude::*;

use crate::config::Account;
use vstd::string::StringExecFns;
use vstd::utf8::{decode_utf8, valid_utf8};

verus! {

/// A data chunk that is not valid text in the expected charset. Only the
/// chunk is rejected; the session itself may continue.
#[derive(Clone, Copy, Debug, PartialEq, Eq, Structural)]
pub struct EncodingError;

/// The session's position in its lifecycle. `data_end` passes through
/// `Completed` and leaves the session `Idle` again within the same call, so
/// a caller only ever observes `Idle` after it.
#[derive(Clone, Copy, Debug, PartialEq, Eq, Structural)]
pub enum SessionState {
    Idle,
    Receiving,
    Accumulating,
    Completed,
}

/// The `From:` header line synthesized from the envelope address.
pub open spec fn spec_from_line(from: Seq<char>) -> Seq<char> {
    "From: "@ + from + "\r\n"@
}

/// The chunks from index `i` on, joined into one document.
pub open spec fn spec_concat(parts: Seq<Seq<char>>, i: int) -> Seq<char>
    decreases parts.len() - i,
{
    if i < 0 || i >= parts.len() {
        Seq::empty()
    } else {
        parts[i] + spec_concat(parts, i + 1)
    }
}

/// One SMTP session: the accumulated document chunks and the read-only
/// account list the connection was created with.
#[derive(Clone, Debug)]
pub struct MyHandler {
    mime: Vec<String>,
    accounts: Vec<Account>,
    state: SessionState,
}

impl MyHandler {
    /// The accumulated chunks, each as its characters.
    pub closed spec fn spec_buffer(self) -> Seq<Seq<char>> {
        self.mime.deep_view()
    }

    /// The configured accounts.
    pub closed spec fn spec_accounts(self) -> Seq<Account> {
        self.accounts@
    }

    /// The session's current lifecycle state.
    pub closed spec fn spec_state(self) -> SessionState {
        self.state
    }

    /// The session invariant, established at startup: at least one account
    /// to route to.
    pub open spec fn wf(self) -> bool {
        self.spec_accounts().len() > 0
    }

    /// A fresh, idle session over a non-empty account list.
    pub fn new(accounts: Vec<Account>) -> (r: MyHandler)
        requires
            accounts@.len() > 0,
        ensures
            r.wf(),
            r.spec_accounts() == accounts@,
            r.spec_buffer() == Seq::<Seq<char>>::empty(),
            r.spec_state() == SessionState::Idle,
    {
        let r = MyHandler { mime: Vec::new(), accounts, state: SessionState::Idle };
        proof {
            assert(r.spec_buffer() =~= Seq::<Seq<char>>::empty());
        }
        r
    }

    /// The account list, for routing a completed message.
    pub fn accounts(&self) -> (r: &Vec<Account>)
        ensures
            r@ == self.spec_accounts(),
    {
        &self.accounts
    }

    /// The session's current lifecycle state.
    pub fn current_state(&self) -> (r: SessionState)
        ensures
            r == self.spec_state(),
    {
        self.state
    }

    /// MAIL FROM: the session starts receiving, and a `From:` header line
    /// synthesized from the envelope address is prepended to the buffer —
    /// the document's own `From:` header is not forwarded reliably by every
    /// engine. Always accepted.
    pub fn mail(&mut self, from: &str)
        ensures
            final(self).wf() == old(self).wf(),
            final(self).spec_accounts() == old(self).spec_accounts(),
            final(self).spec_state() == SessionState::Receiving,
            final(self).spec_buffer() == old(self).spec_buffer().insert(
                0,
                spec_from_line(from@),
            ),
    {
        let mut line = String::new();
        line.append("From: ");
        line.append(from);
        line.append("\r\n");
        self.mime.insert(0, line);
        self.state = SessionState::Receiving;
        proof {
            assert(self.spec_buffer() =~~= old(self).spec_buffer().insert(
                0,
                spec_from_line(from@),
            ));
        }
    }

    /// A DATA chunk: decoded and appended when it is valid text, rejected
    /// with [`EncodingError`] otherwise — the chunk alone is refused, the
    /// session and its buffer stay as they were.
    pub fn data(&mut self, buf: &[u8]) -> (r: Result<(), EncodingError>)
        ensures
            final(self).wf() == old(self).wf(),
            final(self).spec_accounts() == old(self).spec_accounts(),
            valid_utf8(buf@) ==> {
                &&& r is Ok
                &&& final(self).spec_buffer() == old(self).spec_buffer().push(decode_utf8(buf@))
                &&& final(self).spec_state() == SessionState::Accumulating
            },
            !valid_utf8(buf@) ==> r is Err && *final(self) == *old(self),
    {
        match decode_chunk(buf) {
            Some(s) => {
                self.mime.push(s);
                self.state = SessionState::Accumulating;
                proof {
                    assert(self.spec_buffer() =~~= old(self).spec_buffer().push(
                        decode_utf8(buf@),
                    ));
                }
                Ok(())
            },
            None => Err(EncodingError),
        }
    }

    /// End of DATA: the chunks are joined into one MIME document, the
    /// buffer is cleared, and the session goes through `Completed` back to
    /// `Idle`. The joined document is handed back for asynchronous
    /// normalization and delivery: acceptance returns immediately and
    /// nothing downstream can affect it.
    pub fn data_end(&mut self) -> (r: String)
        ensures
            final(self).wf() == old(self).wf(),
            final(self).spec_accounts() == old(self).spec_accounts(),
            final(self).spec_state() == SessionState::Idle,
            final(self).spec_buffer() == Seq::<Seq<char>>::empty(),
            r@ == spec_concat(old(self).spec_buffer(), 0),
    {
        let mut r = String::new();
        let n = self.mime.len();
        let mut i: usize = 0;
        while i < n
            invariant
                n == self.mime@.len(),
                0 <= i <= n,
                *self == *old(self),
                r@ + spec_concat(self.spec_buffer(), i as int) == spec_concat(
                    self.spec_buffer(),
                    0,
                ),
            decreases n - i,
        {
            let ghost prev = r@;
            r.append(self.mime[i].as_str());
            proof {
                assert(r@ + spec_concat(self.spec_buffer(), i + 1) =~= prev + spec_concat(
                    self.spec_buffer(),
                    i as int,
                ));
            }
            i += 1;
        }
        proof {
            assert(r@ =~= r@ + spec_concat(self.spec_buffer(), n as int));
        }
        self.state = SessionState::Completed;
        self.mime.clear();
        self.state = SessionState::Idle;
        proof {
            assert(self.spec_buffer() =~~= Seq::<Seq<char>>::empty());
        }
        r
    }
}

/// Relies on core::str::from_utf8: `Some` exactly when the bytes are valid
/// UTF-8, and then the decoded characters.
#[verifier::external_body]
fn decode_chunk(buf: &[u8]) -> (r: Option<String>)
    ensures
        r is Some <==> valid_utf8(buf@),
        r matches Some(s) ==> s@ == decode_utf8(buf@),
{
    core::str::from_utf8(buf).ok().map(|s| s.to_owned())
}

} // verus!
