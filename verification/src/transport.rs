use vstd::prelude::*;
use crate::constants::{NLMSG_DONE, NLMSG_ERROR};
use crate::error::NetlinkError;
use crate::netlink_header::{
    decode_message, dispatch_consistent, lemma_decode_message_advances, sentinel_payload_code,
    MessageView, NetlinkMessageHeader, Payload, PayloadView,
};
use crate::walking_vec::WalkingVec;

verus! {

/// The views of a sequence of messages.
pub open spec fn msgs_views(msgs: Seq<NetlinkMessageHeader>) -> Seq<MessageView> {
    msgs.map_values(|m: NetlinkMessageHeader| m@)
}

/// What parsing a whole datagram yields: every outer message it holds, each
/// read at the position the previous one's declared length points to, until
/// the byte count is exhausted.
pub open spec fn decode_messages(b: Seq<u8>, pos: int) -> Option<Seq<MessageView>>
    decreases b.len() - pos,
{
    if pos == b.len() {
        Some(Seq::empty())
    } else {
        match decode_message(b, pos) {
            None => None,
            Some((m, end)) => if pos < end <= b.len() {
                match decode_messages(b, end) {
                    None => None,
                    Some(rest) => Some(seq![m] + rest),
                }
            } else {
                None
            },
        }
    }
}

/// A prefix in front moves whole-datagram parsing along unchanged.
pub proof fn lemma_decode_messages_prefix(prefix: Seq<u8>, b: Seq<u8>, pos: int)
    requires
        0 <= pos <= b.len(),
    ensures
        decode_messages(prefix + b, prefix.len() + pos) == decode_messages(b, pos),
    decreases b.len() - pos,
{
    crate::netlink_header::lemma_decode_message_prefix(prefix, b, pos);
    if pos == b.len() {
    } else {
        match decode_message(b, pos) {
            None => {},
            Some((m, end)) => {
                lemma_decode_message_advances(b, pos);
                lemma_decode_messages_prefix(prefix, b, end);
            },
        }
    }
}

/// Parsing a buffer that starts with one well-formed message's encoding
/// yields that message in front of whatever the rest parses to.
pub proof fn lemma_decode_messages_cons(m: MessageView, rest: Seq<u8>)
    requires
        m.wf(),
        dispatch_consistent(m),
    ensures
        decode_messages(m.encoding() + rest, 0) == match decode_messages(rest, 0) {
            None => None::<Seq<MessageView>>,
            Some(v) => Some(seq![m] + v),
        },
{
    crate::netlink_header::lemma_message_round_trip(m, rest);
    lemma_decode_messages_prefix(m.encoding(), rest, 0);
}

/// The concatenated encodings of a sequence of messages: one datagram.
pub open spec fn messages_encoding(ms: Seq<MessageView>) -> Seq<u8>
    decreases ms.len(),
{
    if ms.len() == 0 {
        Seq::empty()
    } else {
        ms[0].encoding() + messages_encoding(ms.drop_first())
    }
}

/// Round trip: a datagram formed by concatenating the encodings of
/// well-formed, consistently typed messages parses back to exactly those
/// messages.
#[verifier::rlimit(100)]
#[verifier::spinoff_prover]
pub proof fn lemma_messages_round_trip(ms: Seq<MessageView>)
    requires
        forall|i: int| 0 <= i < ms.len() ==> (#[trigger] ms[i]).wf(),
        forall|i: int| 0 <= i < ms.len() ==> dispatch_consistent(#[trigger] ms[i]),
    ensures
        decode_messages(messages_encoding(ms), 0) == Some(ms),
    decreases ms.len(),
{
    if ms.len() == 0 {
        assert(Seq::<MessageView>::empty() =~= ms);
    } else {
        let rest = messages_encoding(ms.drop_first());
        lemma_decode_messages_cons(ms[0], rest);
        assert forall|i: int| 0 <= i < ms.drop_first().len() implies (#[trigger] ms.drop_first()[
            i
        ]).wf() && dispatch_consistent(ms.drop_first()[i]) by {
            assert(ms.drop_first()[i] == ms[i + 1]);
        }
        lemma_messages_round_trip(ms.drop_first());
        assert(seq![ms[0]] + ms.drop_first() =~= ms);
    }
}

/// Multi-message reassembly: a datagram formed by concatenating the
/// encodings of three generic-netlink messages and one done sentinel parses
/// to exactly those four messages, and the last of them is the done
/// sentinel, on which the receive loop reports the exchange complete.
#[verifier::rlimit(100)]
#[verifier::spinoff_prover]
pub proof fn lemma_multi_message_reassembly(
    m1: MessageView,
    m2: MessageView,
    m3: MessageView,
    done: MessageView,
)
    requires
        m1.wf(),
        m2.wf(),
        m3.wf(),
        done.wf(),
        dispatch_consistent(m1),
        dispatch_consistent(m2),
        dispatch_consistent(m3),
        dispatch_consistent(done),
        m1.payload is GenericNetlink,
        m2.payload is GenericNetlink,
        m3.payload is GenericNetlink,
        done.payload is Done,
    ensures
        decode_messages(messages_encoding(seq![m1, m2, m3, done]), 0) == Some(
            seq![m1, m2, m3, done],
        ),
        seq![m1, m2, m3, done].len() == 4,
        is_done_message(seq![m1, m2, m3, done].last()),
{
    let ms = seq![m1, m2, m3, done];
    assert forall|i: int| 0 <= i < ms.len() implies (#[trigger] ms[i]).wf()
        && dispatch_consistent(ms[i]) by {
        if i == 0 {
            assert(ms[i] == m1);
        } else if i == 1 {
            assert(ms[i] == m2);
        } else if i == 2 {
            assert(ms[i] == m3);
        } else {
            assert(ms[i] == done);
        }
    }
    lemma_messages_round_trip(ms);
}

/// Error termination: a datagram whose messages end with an error sentinel
/// carrying a nonzero code parses back whole — the messages before the
/// sentinel decode fine — and yet its last message classifies the exchange
/// as failed, on which the receive loop discards everything accumulated and
/// reports the kernel's code.
pub proof fn lemma_error_sentinel_termination(ms: Seq<MessageView>, err: MessageView)
    requires
        forall|i: int| 0 <= i < ms.len() ==> (#[trigger] ms[i]).wf(),
        forall|i: int| 0 <= i < ms.len() ==> dispatch_consistent(#[trigger] ms[i]),
        err.wf(),
        dispatch_consistent(err),
        err.payload is Error,
        err.payload->Error_0 != 0,
    ensures
        decode_messages(messages_encoding(ms.push(err)), 0) == Some(ms.push(err)),
        is_failure_message(ms.push(err).last()),
{
    assert forall|i: int| 0 <= i < ms.push(err).len() implies (#[trigger] ms.push(err)[i]).wf()
        && dispatch_consistent(ms.push(err)[i]) by {
        if i < ms.len() {
            assert(ms.push(err)[i] == ms[i]);
        } else {
            assert(ms.push(err)[i] == err);
        }
    }
    lemma_messages_round_trip(ms.push(err));
}

/// Prepend parsed messages to the outcome of parsing the remainder.
pub open spec fn with_msg_prefix(
    v: Seq<MessageView>,
    o: Option<Seq<MessageView>>,
) -> Option<Seq<MessageView>> {
    match o {
        None => None,
        Some(rest) => Some(v + rest),
    }
}

/// Parse every message a received datagram holds.
pub fn parse_datagram(datagram: &Vec<u8>) -> (r: Result<Vec<NetlinkMessageHeader>, NetlinkError>)
    ensures
        match r {
            Ok(msgs) => decode_messages(datagram@, 0) == Some(msgs_views(msgs@)),
            Err(e) => {
                &&& e == NetlinkError::MalformedMessage
                &&& decode_messages(datagram@, 0) is None
            },
        },
{
    let ghost b = datagram@;
    let mut walkable_buffer = WalkingVec::new(datagram.clone());
    let mut messages: Vec<NetlinkMessageHeader> = Vec::new();
    proof {
        let d = decode_messages(b, 0);
        if d is Some {
            assert(msgs_views(messages@) + d->Some_0 =~= d->Some_0);
        }
    }
    while !walkable_buffer.reached_end()
        invariant
            walkable_buffer.wf(),
            b == datagram@,
            walkable_buffer.buffer@ == b,
            decode_messages(b, 0) == with_msg_prefix(
                msgs_views(messages@),
                decode_messages(b, walkable_buffer.position as int),
            ),
        decreases b.len() - walkable_buffer.position,
    {
        let ghost cur = walkable_buffer.position as int;
        let ghost prev = messages@;
        match NetlinkMessageHeader::deserialize(&mut walkable_buffer) {
            Ok(message) => {
                messages.push(message);
                proof {
                    lemma_decode_message_advances(b, cur);
                    let rest = decode_messages(b, walkable_buffer.position as int);
                    assert(msgs_views(messages@) =~= msgs_views(prev).push(message@));
                    if rest is Some {
                        assert(msgs_views(prev) + (seq![message@] + rest->Some_0)
                            =~= msgs_views(messages@) + rest->Some_0);
                    }
                }
            },
            Err(_) => {
                return Err(NetlinkError::MalformedMessage);
            },
        }
    }
    proof {
        assert(decode_messages(b, walkable_buffer.position as int) == Some(
            Seq::<MessageView>::empty(),
        ));
        assert(msgs_views(messages@) + Seq::<MessageView>::empty() =~= msgs_views(messages@));
    }
    Ok(messages)
}

/// What the receive loop does after taking one datagram in: keep receiving,
/// or stop with the exchange complete.
#[derive(Clone, Copy, Debug, PartialEq, Eq, Structural)]
pub enum ReceiveOutcome {
    Continue,
    Complete,
}

/// A done sentinel: the exchange ended in success.
pub open spec fn is_done_message(m: MessageView) -> bool {
    m.message_type == NLMSG_DONE
}

/// An error sentinel with code zero: the acknowledgement convention, also a
/// success.
pub open spec fn is_ack_message(m: MessageView) -> bool {
    m.message_type == NLMSG_ERROR && m.payload == PayloadView::Error(0i32)
}

/// An error sentinel with a nonzero code: the exchange failed.
pub open spec fn is_failure_message(m: MessageView) -> bool {
    m.message_type == NLMSG_ERROR && m.payload != PayloadView::Error(0i32)
}

/// Reassembly state of one request/response exchange.
///
/// The caller sends one request of `message_type`, then feeds every received
/// datagram through `process_datagram` until it says the exchange is
/// complete, and takes the accumulated messages out with `finish`. There is
/// no cross-message state beyond this bookkeeping.
pub struct ResponseCollector {
    /// The message type of the request this exchange answers.
    pub message_type: u16,
    /// Every message accumulated so far, over all datagrams.
    pub messages: Vec<NetlinkMessageHeader>,
}

impl ResponseCollector {
    /// Start collecting the response to a request of the given type.
    pub fn new(message_type: u16) -> (r: ResponseCollector)
        ensures
            r.message_type == message_type,
            r.messages@.len() == 0,
    {
        ResponseCollector { message_type, messages: Vec::new() }
    }

    /// Take one received datagram in: parse every message it holds, append
    /// them, and decide from the last accumulated message whether the
    /// exchange is over.
    ///
    /// A done sentinel, or an error sentinel with code zero, completes the
    /// exchange as success. An error sentinel with a nonzero code fails it:
    /// everything accumulated is discarded and the kernel's code is
    /// reported together with the requested message type. Anything else
    /// means more datagrams are owed.
    pub fn process_datagram(&mut self, datagram: &Vec<u8>) -> (r: Result<
        ReceiveOutcome,
        NetlinkError,
    >)
        ensures
            final(self).message_type == old(self).message_type,
            match decode_messages(datagram@, 0) {
                None => {
                    &&& r == Err::<ReceiveOutcome, NetlinkError>(NetlinkError::MalformedMessage)
                    &&& final(self).messages@ == old(self).messages@
                },
                Some(new_msgs) => {
                    let all = msgs_views(old(self).messages@) + new_msgs;
                    if all.len() == 0 {
                        &&& r == Ok::<ReceiveOutcome, NetlinkError>(ReceiveOutcome::Continue)
                        &&& final(self).messages@.len() == 0
                    } else if is_done_message(all.last()) || is_ack_message(all.last()) {
                        &&& r == Ok::<ReceiveOutcome, NetlinkError>(ReceiveOutcome::Complete)
                        &&& msgs_views(final(self).messages@) == all
                    } else if is_failure_message(all.last()) {
                        &&& r == Err::<ReceiveOutcome, NetlinkError>(
                            NetlinkError::KernelError {
                                message_type: old(self).message_type,
                                code: sentinel_payload_code(all.last().payload),
                            },
                        )
                        &&& final(self).messages@.len() == 0
                    } else {
                        &&& r == Ok::<ReceiveOutcome, NetlinkError>(ReceiveOutcome::Continue)
                        &&& msgs_views(final(self).messages@) == all
                    }
                },
            },
    {
        let ghost old_views = msgs_views(self.messages@);
        let mut parsed = match parse_datagram(datagram) {
            Ok(parsed) => parsed,
            Err(e) => {
                return Err(e);
            },
        };
        let ghost new_views = msgs_views(parsed@);
        self.messages.append(&mut parsed);
        proof {
            assert(msgs_views(self.messages@) =~= old_views + new_views);
        }
        let count = self.messages.len();
        if count == 0 {
            return Ok(ReceiveOutcome::Continue);
        }
        let last = &self.messages[count - 1];
        proof {
            assert(last@ == (old_views + new_views).last());
        }
        if last.message_type == NLMSG_DONE {
            return Ok(ReceiveOutcome::Complete);
        }
        if last.message_type == NLMSG_ERROR {
            let code = match &last.payload {
                Payload::Done(c) => *c,
                Payload::Error(c) => *c,
                Payload::GenericNetlink(_) => 0,
                Payload::RtmGetAddr(_) => 0,
            };
            let is_error_payload = match &last.payload {
                Payload::Error(_) => true,
                Payload::Done(_) => false,
                Payload::GenericNetlink(_) => false,
                Payload::RtmGetAddr(_) => false,
            };
            if is_error_payload && code == 0 {
                return Ok(ReceiveOutcome::Complete);
            }
            let message_type = self.message_type;
            self.messages.clear();
            return Err(NetlinkError::KernelError { message_type, code });
        }
        Ok(ReceiveOutcome::Continue)
    }

    /// Close the exchange: hand the accumulated messages out, or report
    /// that none arrived.
    pub fn finish(self) -> (r: Result<Vec<NetlinkMessageHeader>, NetlinkError>)
        ensures
            match r {
                Ok(msgs) => {
                    &&& msgs@ == self.messages@
                    &&& msgs@.len() > 0
                },
                Err(e) => {
                    &&& e == NetlinkError::NoResponse
                    &&& self.messages@.len() == 0
                },
            },
    {
        if self.messages.len() == 0 {
            Err(NetlinkError::NoResponse)
        } else {
            Ok(self.messages)
        }
    }
}

} // verus!
