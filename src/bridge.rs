//! The chat actor's side of the pipe from its subprocess: output arrives in
//! chunks of bytes, is cut into lines, and each line goes through the protocol.
use vstd::prelude::*;
use vstd::utf8::{decode_utf8, valid_utf8};

use crate::protocol::{
    Action, ActionModel, ChatModel, ChatState, Fault, HandleError, after_delete, after_edit,
    after_send, exit_notice, initial_model, line_step, outcome_view,
};

verus! {

/// Relies on `std::str::from_utf8`: it succeeds exactly on valid UTF-8, and
/// then the text is the decoded characters.
pub assume_specification<'a>[ std::str::from_utf8 ](v: &'a [u8]) -> (r: Result<
    &'a str,
    std::str::Utf8Error,
>)
    ensures
        r is Ok <==> valid_utf8(v@),
        r matches Ok(s) ==> s@ == decode_utf8(v@),
;

/// The number of bytes of `p` before its first newline.
pub open spec fn line_end(p: Seq<u8>) -> nat
    decreases p.len(),
{
    if p.len() > 0 && p[0] != 10 {
        1 + line_end(p.drop_first())
    } else {
        0
    }
}

/// `b` without one carriage return at its end.
pub open spec fn strip_cr(b: Seq<u8>) -> Seq<u8> {
    if b.len() > 0 && b.last() == 13 {
        b.drop_last()
    } else {
        b
    }
}

/// The next complete line of `p` (without its line ending) and what follows
/// it. Once the output is closed, what is left without a newline is a line too.
pub open spec fn next_line(p: Seq<u8>, closed: bool) -> Option<(Seq<u8>, Seq<u8>)> {
    let k = line_end(p) as int;
    if k < p.len() {
        Some((strip_cr(p.subrange(0, k as int)), p.subrange(k + 1 as int, p.len() as int)))
    } else if closed && p.len() > 0 {
        Some((p, Seq::empty()))
    } else {
        None
    }
}

/// A chat actor's reading side, in the contracts.
pub ghost struct ActorModel {
    /// The protocol state.
    pub state: ChatModel,
    /// Bytes received that do not yet form a complete line.
    pub pending: Seq<u8>,
    /// Whether the subprocess closed its output.
    pub closed: bool,
}

/// Takes lines from the pending bytes and applies them until one asks for an
/// action or fails, or no complete line is left. At the end of a closed
/// output, an open heredoc is an error.
pub open spec fn drive(a: ActorModel) -> (ActorModel, Result<Option<ActionModel>, Fault>)
    decreases a.pending.len(),
{
    match next_line(a.pending, a.closed) {
        None => if a.closed && a.state.heredoc is Some {
            (a, Err(Fault::UnclosedHeredoc))
        } else {
            (a, Ok(None))
        },
        Some((line, rest)) => if !valid_utf8(line) {
            (ActorModel { pending: rest, ..a }, Err(Fault::Utf8Error))
        } else {
            let (state, r) = line_step(a.state, decode_utf8(line));
            let next = ActorModel { state, pending: rest, closed: a.closed };
            if r == Ok::<Option<ActionModel>, Fault>(None) {
                drive(next)
            } else {
                (next, r)
            }
        },
    }
}

/// The reading side of a chat actor: the protocol state and the bytes of a
/// line that has not ended yet.
pub struct ChatActor {
    state: ChatState,
    pending: Vec<u8>,
    closed: bool,
}

impl View for ChatActor {
    type V = ActorModel;

    closed spec fn view(&self) -> ActorModel {
        ActorModel { state: self.state@, pending: self.pending@, closed: self.closed }
    }
}

impl ChatActor {
    /// An actor whose subprocess has written nothing yet.
    pub fn new() -> (r: ChatActor)
        ensures
            r@ == (ActorModel { state: initial_model(), pending: Seq::empty(), closed: false }),
    {
        ChatActor { state: ChatState::new(), pending: Vec::new(), closed: false }
    }

    /// Takes a chunk of output of the subprocess.
    pub fn receive(&mut self, data: &[u8])
        ensures
            final(self)@ == (ActorModel { pending: old(self)@.pending + data@, ..old(self)@ }),
    {
        let mut i: usize = 0;
        while i < data.len()
            invariant
                i <= data@.len(),
                self.state@ == old(self).state@,
                self.closed == old(self).closed,
                self.pending@ == old(self).pending@ + data@.take(i as int),
            decreases data@.len() - i,
        {
            self.pending.push(data[i]);
            assert(old(self).pending@ + data@.take(i + 1) =~= old(self).pending@ + data@.take(
                i as int,
            ) + seq![data@[i as int]]);
            i = i + 1;
        }
        assert(data@.take(i as int) =~= data@);
    }

    /// Records that the subprocess closed its output.
    pub fn close(&mut self)
        ensures
            final(self)@ == (ActorModel { closed: true, ..old(self)@ }),
    {
        self.closed = true;
    }

    /// Applies the complete lines received so far, until one asks for an
    /// action (returned) or fails; `None` when no complete line is left.
    pub fn next_action(&mut self) -> (r: Result<Option<Action>, HandleError>)
        ensures
            (final(self)@, outcome_view(r)) == drive(old(self)@),
    {
        loop
            invariant
                drive(self@) == drive(old(self)@),
            decreases self.pending@.len(),
        {
            let n = self.pending.len();
            let mut k: usize = 0;
            while k < n && self.pending[k] != 10
                invariant
                    n == self.pending@.len(),
                    k <= n,
                    forall|j: int| 0 <= j < k ==> self.pending@[j] != 10,
                decreases n - k,
            {
                k = k + 1;
            }
            proof {
                lemma_line_end(self.pending@, k as int);
            }
            if k == n && !(self.closed && n > 0) {
                if self.closed && self.state.in_heredoc() {
                    return Err(HandleError::UnclosedHeredoc);
                }
                return Ok(None);
            }
            let ghost before = self@;
            let mut line: Vec<u8> = Vec::new();
            let mut rest: Vec<u8> = Vec::new();
            let mut end: usize = k;
            if k < n && k > 0 && self.pending[k - 1] == 13 {
                end = k - 1;
            }
            let mut i: usize = 0;
            while i < n
                invariant
                    n == self.pending@.len(),
                    end <= k <= n,
                    i <= n,
                    line@ == self.pending@.take(if i < end { i as int } else { end as int }),
                    rest@ == (if i <= k + 1 {
                        Seq::<u8>::empty()
                    } else {
                        self.pending@.subrange(k + 1, i as int)
                    }),
                decreases n - i,
            {
                if i < end {
                    line.push(self.pending[i]);
                    assert(self.pending@.take(i + 1) =~= self.pending@.take(i as int).push(
                        self.pending@[i as int],
                    ));
                } else if i > k {
                    rest.push(self.pending[i]);
                    assert(self.pending@.subrange(k + 1, i + 1) =~= (if i <= k + 1 {
                        Seq::<u8>::empty()
                    } else {
                        self.pending@.subrange(k + 1, i as int)
                    }).push(self.pending@[i as int]));
                }
                i = i + 1;
            }
            proof {
                if k < n {
                    assert(line@ =~= strip_cr(self.pending@.subrange(0, k as int)));
                    if k + 1 == n {
                        assert(rest@ =~= self.pending@.subrange(k + 1, n as int));
                    }
                } else {
                    assert(line@ =~= self.pending@);
                }
            }
            self.pending = rest;
            match std::str::from_utf8(line.as_slice()) {
                Err(e) => {
                    return Err(HandleError::Utf8Error(e));
                },
                Ok(text) => {
                    let r = self.state.apply_line(text);
                    match r {
                        Ok(None) => {},
                        _ => {
                            return r;
                        },
                    }
                },
            }
            assert(drive(before) == drive(self@));
        }
    }

    /// Records that the message of a `send` went out as message `message_id`.
    pub fn sent(&mut self, message_id: u64)
        ensures
            final(self)@ == (ActorModel {
                state: after_send(old(self)@.state, message_id),
                ..old(self)@
            }),
    {
        self.state.sent(message_id);
    }

    /// Records that the edit of an `edit` went through.
    pub fn edited(&mut self)
        ensures
            final(self)@ == (ActorModel { state: after_edit(old(self)@.state), ..old(self)@ }),
    {
        self.state.edited();
    }

    /// Records that the last message was deleted.
    pub fn deleted(&mut self)
        ensures
            final(self)@ == (ActorModel { state: after_delete(old(self)@.state), ..old(self)@ }),
    {
        self.state.deleted();
    }

    /// The message to send once the subprocess has exited.
    pub fn exit_message(&self, success: bool, suppress_notice: bool) -> (r: Option<Action>)
        ensures
            match r {
                Some(a) => exit_notice(self@.state, success, suppress_notice) == Some(a@),
                None => exit_notice(self@.state, success, suppress_notice) is None,
            },
    {
        self.state.exit_message(success, suppress_notice)
    }
}

proof fn lemma_line_end(p: Seq<u8>, k: int)
    requires
        0 <= k <= p.len(),
        forall|j: int| 0 <= j < k ==> p[j] != 10,
        k == p.len() || p[k] == 10,
    ensures
        line_end(p) == k,
    decreases k,
{
    if k > 0 {
        let t = p.drop_first();
        assert forall|j: int| 0 <= j < k - 1 implies t[j] != 10 by {
            assert(t[j] == p[j + 1]);
        }
        if k - 1 < t.len() {
            assert(t[k - 1] == p[k]);
        }
        lemma_line_end(t, k - 1);
    }
}

} // verus!
