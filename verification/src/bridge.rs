//! From the serial link to the dispatcher: the bytes of one interrupt are
//! collected in a line buffer of fixed size, read as text, parsed, and the
//! command is offered to a channel that holds one command.
//!
//! Nothing here waits. The buffer never grows: a byte that finds it full is
//! refused, and the caller stops collecting for this round. A command that
//! the channel does not take is dropped. Whatever the outcome, the buffer is
//! empty for the next round.
//!
//! The buffer is a `heapless::Vec` and the channel an `rtic_sync` channel.
//! What this module says of their methods, and of `core::str::from_utf8`, is
//! taken from their sources and documentation and is not proved here.

use vstd::prelude::*;
use vstd::string::*;
use vstd::utf8::{decode_utf8, encode_utf8_decode_utf8, valid_utf8};
use crate::protocol::message::{Command, Message};
use crate::protocol::parser::{parse, parse_spec};

verus! {

/// How many bytes a line buffer holds.
pub const CAPACITY: usize = 16;

/// How many commands the channel to the dispatcher holds.
pub const MESSAGES: usize = 1;

/// `heapless::Vec`, a vector of fixed capacity that lives where it is declared.
#[verifier::external_type_specification]
#[verifier::external_body]
#[verifier::reject_recursive_types(T)]
pub struct ExHeaplessVec<T, const N: usize>(heapless::Vec<T, N>);

/// `core::str::Utf8Error`, which says where bytes stop being UTF-8.
#[verifier::external_type_specification]
#[verifier::external_body]
pub struct ExUtf8Error(core::str::Utf8Error);

/// `rtic_sync::channel::Sender`, the sending end of a channel.
#[verifier::external_type_specification]
#[verifier::external_body]
#[verifier::reject_recursive_types(T)]
pub struct ExSender<'a, T, const N: usize>(rtic_sync::channel::Sender<'a, T, N>);

/// The bytes that a `heapless::Vec` holds, first pushed first.
pub uninterp spec fn line_bytes(buffer: heapless::Vec<u8, CAPACITY>) -> Seq<u8>;

/// `heapless::Vec::new`: a vector that holds nothing.
#[verifier::external_body]
fn buffer_new() -> (buffer: heapless::Vec<u8, CAPACITY>)
    ensures
        line_bytes(buffer) == Seq::<u8>::empty(),
{
    heapless::Vec::new()
}

/// `heapless::Vec::push`: appends the byte while fewer than `CAPACITY` are
/// held; a full vector stays as it is and hands the byte back. It does not
/// panic.
#[verifier::external_body]
fn buffer_push(buffer: &mut heapless::Vec<u8, CAPACITY>, byte: u8) -> (pushed: Result<(), u8>)
    ensures
        pushed is Ok <==> line_bytes(*old(buffer)).len() < CAPACITY,
        pushed is Ok ==> line_bytes(*final(buffer)) == line_bytes(*old(buffer)).push(byte),
        pushed is Err ==> line_bytes(*final(buffer)) == line_bytes(*old(buffer)),
        pushed matches Err(back) ==> back == byte,
    no_unwind
{
    buffer.push(byte)
}

/// `heapless::Vec::as_slice`: the bytes held, in order.
#[verifier::external_body]
fn buffer_bytes(buffer: &heapless::Vec<u8, CAPACITY>) -> (bytes: &[u8])
    ensures
        bytes@ == line_bytes(*buffer),
{
    buffer.as_slice()
}

/// `heapless::Vec::clear`: nothing is held afterwards. It does not panic.
#[verifier::external_body]
fn buffer_clear(buffer: &mut heapless::Vec<u8, CAPACITY>)
    ensures
        line_bytes(*final(buffer)) == Seq::<u8>::empty(),
    no_unwind
{
    buffer.clear()
}

/// `core::str::from_utf8` succeeds exactly on well-formed UTF-8, and the
/// string it returns is made of the very bytes it was given.
pub assume_specification[ core::str::from_utf8 ](v: &[u8]) -> (text: Result<
    &str,
    core::str::Utf8Error,
>)
    ensures
        text is Ok <==> valid_utf8(v@),
        text matches Ok(s) ==> s.spec_bytes() == v@,
;

/// Why the channel did not take a command. Either way the command comes back.
pub enum Refusal {
    /// The channel holds as many commands as it can.
    Full(Message),
    /// Nobody receives from the channel any more.
    NoReceiver(Message),
}

/// `rtic_sync::channel::Sender::try_send`: never waits. Whether the channel
/// takes the command depends on what the other end has done, so nothing is
/// said of that; a command that was not taken is handed back unchanged.
#[verifier::external_body]
fn channel_try_send(
    sender: &mut rtic_sync::channel::Sender<'_, Message, MESSAGES>,
    message: Message,
) -> (sent: Result<(), Refusal>)
    ensures
        sent matches Err(Refusal::Full(back)) ==> back == message,
        sent matches Err(Refusal::NoReceiver(back)) ==> back == message,
{
    match sender.try_send(message) {
        Ok(()) => Ok(()),
        Err(rtic_sync::channel::TrySendError::Full(back)) => Err(Refusal::Full(back)),
        Err(rtic_sync::channel::TrySendError::NoReceiver(back)) => Err(Refusal::NoReceiver(back)),
    }
}

/// What became of the line that was collected.
pub enum Forwarded {
    /// The line held no command.
    Nothing,
    /// The line's command is in the channel.
    Sent,
    /// The channel did not take the line's command, which is dropped.
    Dropped(Message),
}

/// What a buffer that holds `held` holds after `byte` was offered to it.
pub open spec fn offered(held: Seq<u8>, byte: u8) -> Seq<u8> {
    if held.len() < CAPACITY {
        held.push(byte)
    } else {
        held
    }
}

/// What a buffer that holds `held` holds after each of `bytes` was offered
/// to it in turn.
pub open spec fn collected(held: Seq<u8>, bytes: Seq<u8>) -> Seq<u8>
    decreases bytes.len(),
{
    if bytes.len() == 0 {
        held
    } else {
        collected(offered(held, bytes[0]), bytes.drop_first())
    }
}

/// A buffer keeps the first bytes it is offered, as many as fit, and
/// silently loses the rest.
pub proof fn lemma_collection_truncates(held: Seq<u8>, bytes: Seq<u8>)
    requires
        held.len() <= CAPACITY,
    ensures
        collected(held, bytes) == if held.len() + bytes.len() <= CAPACITY {
            held + bytes
        } else {
            held + bytes.take(CAPACITY - held.len())
        },
    decreases bytes.len(),
{
    if bytes.len() == 0 {
        assert(held + bytes =~= held);
    } else {
        let next = offered(held, bytes[0]);
        let rest = bytes.drop_first();
        lemma_collection_truncates(next, rest);
        if held.len() < CAPACITY {
            if held.len() + bytes.len() <= CAPACITY {
                assert(next + rest =~= held + bytes);
            } else {
                assert(next + rest.take(CAPACITY - next.len()) =~= held + bytes.take(
                    CAPACITY - held.len(),
                ));
            }
        } else {
            assert(rest.take(0) =~= Seq::<u8>::empty());
            assert(bytes.take(0) =~= Seq::<u8>::empty());
            assert(held + Seq::<u8>::empty() =~= held);
        }
    }
}

/// The command that the bytes of a line hold: they must be text, and the
/// text must parse.
pub open spec fn decoded(bytes: Seq<u8>) -> Option<Command> {
    if valid_utf8(bytes) {
        match parse_spec(decode_utf8(bytes)) {
            Ok(command) => Some(command),
            Err(_) => None,
        }
    } else {
        None
    }
}

/// What is reported of a command that was offered to the channel.
pub fn settle(sent: Result<(), Refusal>) -> (forwarded: Forwarded)
    ensures
        sent is Ok ==> forwarded is Sent,
        sent matches Err(Refusal::Full(m)) ==> forwarded == Forwarded::Dropped(m),
        sent matches Err(Refusal::NoReceiver(m)) ==> forwarded == Forwarded::Dropped(m),
{
    match sent {
        Ok(()) => Forwarded::Sent,
        Err(Refusal::Full(message)) => Forwarded::Dropped(message),
        Err(Refusal::NoReceiver(message)) => Forwarded::Dropped(message),
    }
}

/// The bytes of the line that is being received.
pub struct LineBuffer {
    data: heapless::Vec<u8, CAPACITY>,
}

impl View for LineBuffer {
    type V = Seq<u8>;

    closed spec fn view(&self) -> Seq<u8> {
        line_bytes(self.data)
    }
}

impl LineBuffer {
    #[verifier::type_invariant]
    spec fn within_capacity(self) -> bool {
        line_bytes(self.data).len() <= CAPACITY
    }

    /// An empty buffer.
    pub fn new() -> (buffer: Self)
        ensures
            buffer@ == Seq::<u8>::empty(),
    {
        LineBuffer { data: buffer_new() }
    }

    /// How many bytes are held.
    pub fn len(&self) -> (len: usize)
        ensures
            len == self@.len(),
            len <= CAPACITY,
    {
        proof {
            use_type_invariant(self);
        }
        buffer_bytes(&self.data).len()
    }

    /// Appends `byte` if there is room, and says whether there was.
    pub fn push(&mut self, byte: u8) -> (accepted: bool)
        ensures
            accepted == (old(self)@.len() < CAPACITY),
            final(self)@ == offered(old(self)@, byte),
            final(self)@.len() <= CAPACITY,
    {
        proof {
            use_type_invariant(&*self);
        }
        match buffer_push(&mut self.data, byte) {
            Ok(()) => true,
            Err(_) => false,
        }
    }

    /// Reads the collected bytes as one line and empties the buffer.
    pub fn take_message(&mut self) -> (message: Option<Message>)
        ensures
            final(self)@ == Seq::<u8>::empty(),
            match message {
                Some(m) => decoded(old(self)@) == Some(m@),
                None => decoded(old(self)@) is None,
            },
    {
        let message = match core::str::from_utf8(buffer_bytes(&self.data)) {
            Ok(line) => {
                proof {
                    encode_utf8_decode_utf8(line@);
                }
                match parse(line) {
                    Ok(message) => Some(message),
                    Err(_) => None,
                }
            },
            Err(_) => None,
        };
        buffer_clear(&mut self.data);
        message
    }

    /// Reads the collected bytes as one line, offers its command to the
    /// channel without waiting, and empties the buffer.
    pub fn forward(
        &mut self,
        sender: &mut rtic_sync::channel::Sender<'_, Message, MESSAGES>,
    ) -> (forwarded: Forwarded)
        ensures
            final(self)@ == Seq::<u8>::empty(),
            forwarded is Nothing <==> decoded(old(self)@) is None,
            forwarded matches Forwarded::Dropped(m) ==> decoded(old(self)@) == Some(m@),
    {
        match self.take_message() {
            None => Forwarded::Nothing,
            Some(message) => settle(channel_try_send(sender, message)),
        }
    }
}

} // verus!
