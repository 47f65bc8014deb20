//! Edge Connect: creates and removes the connection between the chain and an
//! external edge server (CyberHub), records the commands sent to it and the
//! responses received from it.
use vstd::prelude::*;
use vstd::utf8::encode_utf8;
use vstd::string::*;
use vstd::slice::slice_to_vec;

use crate::origin::{ensure_signed, signer, AccountId, DispatchError, Origin};

verus! {

/// The limits a runtime configures for this pallet.
#[derive(Clone, Copy, Debug, PartialEq, Eq)]
pub struct Config {
    /// Max number of commands kept.
    pub max_command: u32,
    /// Max number of responses kept.
    pub max_responses: u32,
    /// Max length in bytes of a command or a response.
    pub max_string_length: u32,
}

/// A recorded command or response: who sent it, and its UTF-8 bytes.
pub type Message = (Option<AccountId>, Vec<u8>);

/// Events deposited by this pallet.
#[derive(Clone, Debug, PartialEq, Eq)]
pub enum Event {
    /// A connection was created. [connection, who]
    ConnectionCreated { connection: u32, who: AccountId },
    /// A connection was removed. [connection, who]
    ConnectionRemoved { connection: u32, who: AccountId },
    /// A new command was sent to CyberHub. [command, who]
    CommandSent { command: String, who: AccountId },
    /// A response was received from CyberHub. [response, maybe_who]
    NewResponse { response: String, maybe_who: Option<AccountId> },
}

/// Errors of this pallet.
#[derive(Clone, Copy, Debug, PartialEq, Eq)]
pub enum Error {
    /// Returned if the connection already exists.
    ConnectionAlreadyExists,
    /// Returned if the connection does not exist.
    ConnectionDoesNotExist,
    /// Returned if the response is too large.
    ResponseTooLarge,
    /// Return error if the command is not valid.
    InvalidCommand,
    /// Returned if the command is too long.
    CommandTooLong,
    /// Returned if the command are too many.
    TooManyCommands,
}

/// The abstract state of the pallet: its limits, the current connection and
/// the recorded commands and responses, each as (sender, bytes).
pub struct PalletState {
    pub config: Config,
    pub connection: Option<u32>,
    pub commands: Seq<(Option<AccountId>, Seq<u8>)>,
    pub responses: Seq<(Option<AccountId>, Seq<u8>)>,
}

/// The pallet's storage, as read from the chain before a call and written
/// back after it.
pub struct Pallet {
    /// The runtime's limits.
    pub config: Config,
    /// The connection, if one exists.
    pub connection: Option<u32>,
    /// Recently submitted commands.
    pub commands: Vec<Message>,
    /// Recently submitted responses.
    pub responses: Vec<Message>,
}

pub open spec fn message_view(m: Message) -> (Option<AccountId>, Seq<u8>) {
    (m.0, m.1@)
}

pub open spec fn messages_view(v: Seq<Message>) -> Seq<(Option<AccountId>, Seq<u8>)> {
    v.map_values(|m: Message| message_view(m))
}

/// The only command that is accepted.
pub open spec fn ping() -> Seq<char> {
    seq!['p', 'i', 'n', 'g']
}

/// The bytes stored for an accepted command.
pub open spec fn ping_bytes() -> Seq<u8> {
    encode_utf8(ping())
}

/// Every recorded message fits the configured length, and each list fits
/// its configured size.
pub open spec fn messages_fit(msgs: Seq<(Option<AccountId>, Seq<u8>)>, max_len: u32, max_count: u32) -> bool {
    &&& msgs.len() <= max_count
    &&& forall|i: int| 0 <= i < msgs.len() ==> (#[trigger] msgs[i]).1.len() <= max_len
}

impl PalletState {
    /// What holds of every state the pallet can reach: the bounded lists are
    /// within their bounds, and every command is a `ping` from a signed account.
    pub open spec fn wf(self) -> bool {
        &&& messages_fit(self.commands, self.config.max_string_length, self.config.max_command)
        &&& messages_fit(self.responses, self.config.max_string_length, self.config.max_responses)
        &&& forall|i: int|
            0 <= i < self.commands.len() ==> {
                &&& (#[trigger] self.commands[i]).0 is Some
                &&& self.commands[i].1 == ping_bytes()
            }
    }
}

/// The error `create_connection` fails with, if any.
pub open spec fn create_connection_error(s: PalletState, origin: Origin) -> Option<DispatchError<Error>> {
    if signer(origin) is None {
        Some(DispatchError::BadOrigin)
    } else if s.connection is Some {
        Some(DispatchError::Module(Error::ConnectionAlreadyExists))
    } else {
        None
    }
}

/// The state after a successful `create_connection`.
pub open spec fn create_connection_post(s: PalletState, connection: u32) -> PalletState {
    PalletState { connection: Some(connection), ..s }
}

/// The error shared by the calls that need a signed origin and an existing
/// connection, if any.
pub open spec fn connected_call_error(s: PalletState, origin: Origin) -> Option<DispatchError<Error>> {
    if signer(origin) is None {
        Some(DispatchError::BadOrigin)
    } else if s.connection is None {
        Some(DispatchError::Module(Error::ConnectionDoesNotExist))
    } else {
        None
    }
}

/// The state after a successful `remove_connection`.
pub open spec fn remove_connection_post(s: PalletState) -> PalletState {
    PalletState { connection: None, ..s }
}

/// The error `send_command` fails with, if any.
pub open spec fn send_command_error(s: PalletState, origin: Origin, command: Seq<char>) -> Option<DispatchError<Error>> {
    if connected_call_error(s, origin) is Some {
        connected_call_error(s, origin)
    } else if command != ping() {
        Some(DispatchError::Module(Error::InvalidCommand))
    } else if encode_utf8(command).len() > s.config.max_string_length {
        Some(DispatchError::Module(Error::CommandTooLong))
    } else if s.commands.len() >= s.config.max_command {
        Some(DispatchError::Module(Error::TooManyCommands))
    } else {
        None
    }
}

/// The state after a successful `send_command`.
pub open spec fn send_command_post(s: PalletState, who: AccountId, command: Seq<char>) -> PalletState {
    PalletState { commands: s.commands.push((Some(who), encode_utf8(command))), ..s }
}

/// Whether a response fits the length limit.
pub open spec fn response_fits(s: PalletState, response: Seq<char>) -> bool {
    encode_utf8(response).len() <= s.config.max_string_length
}

/// Whether a response is recorded: it must fit the length limit and there
/// must be room for it.
pub open spec fn response_accepted(s: PalletState, response: Seq<char>) -> bool {
    &&& response_fits(s, response)
    &&& s.responses.len() < s.config.max_responses
}

/// The error `submit_response` fails with, if any: the origin must be
/// signed, the connection must exist, and the response must fit the length
/// limit.
pub open spec fn submit_response_error(s: PalletState, origin: Origin, response: Seq<char>) -> Option<
    DispatchError<Error>,
> {
    if connected_call_error(s, origin) is Some {
        connected_call_error(s, origin)
    } else if !response_fits(s, response) {
        Some(DispatchError::Module(Error::ResponseTooLarge))
    } else {
        None
    }
}

/// The state after recording a response.
pub open spec fn add_response_post(s: PalletState, maybe_who: Option<AccountId>, response: Seq<char>) -> PalletState {
    if response_accepted(s, response) {
        PalletState { responses: s.responses.push((maybe_who, encode_utf8(response))), ..s }
    } else {
        s
    }
}

impl View for Pallet {
    type V = PalletState;

    open spec fn view(&self) -> PalletState {
        PalletState {
            config: self.config,
            connection: self.connection,
            commands: messages_view(self.commands@),
            responses: messages_view(self.responses@),
        }
    }
}

/// Copies the UTF-8 bytes of `s`.
fn utf8_bytes(s: &String) -> (bytes: Vec<u8>)
    ensures
        bytes@ == encode_utf8(s@),
{
    slice_to_vec(s.as_str().as_bytes())
}

impl Pallet {
    /// A pallet with the given limits, no connection and no messages.
    pub fn new(config: Config) -> (p: Pallet)
        ensures
            p@.config == config,
            p@.connection is None,
            p@.commands.len() == 0,
            p@.responses.len() == 0,
            p@.wf(),
    {
        Pallet { config, connection: None, commands: Vec::new(), responses: Vec::new() }
    }

    /// The configured limits.
    pub fn config(&self) -> (c: Config)
        ensures
            c == self@.config,
    {
        self.config
    }

    /// The stored connection, `0` when there is none.
    pub fn connection(&self) -> (c: u32)
        ensures
            c == match self@.connection {
                Some(c) => c,
                None => 0u32,
            },
    {
        match self.connection {
            Some(c) => c,
            None => 0,
        }
    }

    /// Whether a connection is stored.
    pub fn connection_exists(&self) -> (b: bool)
        ensures
            b == self@.connection is Some,
    {
        self.connection.is_some()
    }

    /// The recently submitted commands.
    pub fn commands(&self) -> (c: &Vec<Message>)
        ensures
            messages_view(c@) == self@.commands,
    {
        &self.commands
    }

    /// The recently submitted responses.
    pub fn responses(&self) -> (r: &Vec<Message>)
        ensures
            messages_view(r@) == self@.responses,
    {
        &self.responses
    }

    /// Create the connection: the origin must be signed and no connection may
    /// exist yet.
    pub fn create_connection(&mut self, origin: Origin, connection: u32) -> (res: Result<Event, DispatchError<Error>>)
        ensures
            res is Ok <==> (signer(origin) is Some && old(self)@.connection is None),
            res is Ok ==> final(self)@.connection == Some(connection) && final(self)@.commands == old(self)@.commands && final(self)@.responses == old(self)@.responses && final(self)@.config == old(self)@.config,
            res is Err ==> final(self)@ == old(self)@,
            old(self)@.wf() ==> final(self)@.wf(),
            match create_connection_error(old(self)@, origin) {
                Some(e) => res == Err::<Event, DispatchError<Error>>(e) && final(self)@ == old(self)@,
                None => {
                    &&& res == Ok::<Event, DispatchError<Error>>(
                        Event::ConnectionCreated { connection, who: signer(origin)->0 },
                    )
                    &&& final(self)@ == create_connection_post(old(self)@, connection)
                },
            },
    {
        let who = match ensure_signed::<Error>(origin) {
            Ok(who) => who,
            Err(e) => return Err(e),
        };
        if self.connection.is_some() {
            return Err(DispatchError::Module(Error::ConnectionAlreadyExists));
        }
        self.connection = Some(connection);
        Ok(Event::ConnectionCreated { connection, who })
    }

    /// Send a command to CyberHub: the origin must be signed, the connection
    /// must exist, the command must be `ping`, and it must fit the limits.
    pub fn send_command(&mut self, origin: Origin, command: String) -> (res: Result<Event, DispatchError<Error>>)
        ensures
            res is Ok <==> ({
                &&& signer(origin) is Some
                &&& old(self)@.connection is Some
                &&& command@ == seq!['p', 'i', 'n', 'g']
                &&& encode_utf8(command@).len() <= old(self)@.config.max_string_length
                &&& old(self)@.commands.len() < old(self)@.config.max_command
            }),
            res is Ok ==> final(self)@.commands == old(self)@.commands.push((signer(origin), encode_utf8(command@)))
                && final(self)@.connection == old(self)@.connection && final(self)@.responses == old(self)@.responses && final(self)@.config == old(self)@.config,
            res is Err ==> final(self)@ == old(self)@,
            old(self)@.wf() ==> final(self)@.wf(),
            match send_command_error(old(self)@, origin, command@) {
                Some(e) => res == Err::<Event, DispatchError<Error>>(e) && final(self)@ == old(self)@,
                None => {
                    &&& res matches Ok(Event::CommandSent { command: c, who }) && c@ == command@
                        && who == signer(origin)->0
                    &&& final(self)@ == send_command_post(old(self)@, signer(origin)->0, command@)
                },
            },
    {
        let who = match ensure_signed::<Error>(origin) {
            Ok(who) => who,
            Err(e) => return Err(e),
        };
        if self.connection.is_none() {
            return Err(DispatchError::Module(Error::ConnectionDoesNotExist));
        }
        let ping_literal = String::from_str("ping");
        proof {
            reveal_strlit("ping");
            assert(ping_literal@ =~= ping());
        }
        if !(command == ping_literal) {
            return Err(DispatchError::Module(Error::InvalidCommand));
        }
        let bytes = utf8_bytes(&command);
        if bytes.len() > self.config.max_string_length as usize {
            return Err(DispatchError::Module(Error::CommandTooLong));
        }
        if self.commands.len() >= self.config.max_command as usize {
            return Err(DispatchError::Module(Error::TooManyCommands));
        }
        let ghost pre = self@;
        self.commands.push((Some(who), bytes));
        proof {
            assert(messages_view(self.commands@) =~= pre.commands.push((Some(who), encode_utf8(command@))));
        }
        Ok(Event::CommandSent { command, who })
    }

    /// Submit a response received from CyberHub: the origin must be signed,
    /// the connection must exist and the response must fit the length limit.
    /// The response is then recorded when there is room for it, and dropped
    /// otherwise.
    pub fn submit_response(&mut self, origin: Origin, response: String) -> (res: Result<Option<Event>, DispatchError<Error>>)
        ensures
            res is Err <==> (signer(origin) is None || old(self)@.connection is None
                || encode_utf8(response@).len() > old(self)@.config.max_string_length),
            res is Err ==> final(self)@ == old(self)@,
            res is Ok && old(self)@.responses.len() < old(self)@.config.max_responses ==> {
                &&& final(self)@.responses == old(self)@.responses.push((signer(origin), encode_utf8(response@)))
                &&& final(self)@.connection == old(self)@.connection && final(self)@.commands == old(self)@.commands && final(self)@.config == old(self)@.config
                &&& res matches Ok(Some(Event::NewResponse { response: r, maybe_who })) && r@ == response@
                    && maybe_who == signer(origin)
            },
            res is Ok && old(self)@.responses.len() >= old(self)@.config.max_responses ==> final(self)@ == old(self)@
                && res == Ok::<Option<Event>, DispatchError<Error>>(None),
            old(self)@.wf() ==> final(self)@.wf(),
            match submit_response_error(old(self)@, origin, response@) {
                Some(e) => res == Err::<Option<Event>, DispatchError<Error>>(e) && final(self)@ == old(self)@,
                None => {
                    &&& final(self)@ == add_response_post(old(self)@, signer(origin), response@)
                    &&& if response_accepted(old(self)@, response@) {
                        res matches Ok(Some(Event::NewResponse { response: r, maybe_who }))
                            && r@ == response@ && maybe_who == signer(origin)
                    } else {
                        res == Ok::<Option<Event>, DispatchError<Error>>(None)
                    }
                },
            },
    {
        let who = match ensure_signed::<Error>(origin) {
            Ok(who) => who,
            Err(e) => return Err(e),
        };
        if self.connection.is_none() {
            return Err(DispatchError::Module(Error::ConnectionDoesNotExist));
        }
        match self.add_response(Some(who), response) {
            Ok(ev) => Ok(ev),
            Err(e) => Err(DispatchError::Module(e)),
        }
    }

    /// Record a response: it must fit the length limit, and is recorded when
    /// there is room for it; returns the event deposited for it, if any.
    fn add_response(&mut self, maybe_who: Option<AccountId>, response: String) -> (res: Result<Option<Event>, Error>)
        ensures
            old(self)@.wf() ==> final(self)@.wf(),
            !response_fits(old(self)@, response@) ==> res == Err::<Option<Event>, Error>(Error::ResponseTooLarge)
                && final(self)@ == old(self)@,
            response_fits(old(self)@, response@) ==> final(self)@ == add_response_post(old(self)@, maybe_who, response@),
            response_accepted(old(self)@, response@) ==> (res matches Ok(Some(Event::NewResponse { response: r, maybe_who: w }))
                && r@ == response@ && w == maybe_who),
            response_fits(old(self)@, response@) && !response_accepted(old(self)@, response@) ==> res
                == Ok::<Option<Event>, Error>(None),
    {
        let bytes = utf8_bytes(&response);
        if bytes.len() > self.config.max_string_length as usize {
            return Err(Error::ResponseTooLarge);
        }
        if self.responses.len() >= self.config.max_responses as usize {
            return Ok(None);
        }
        let ghost pre = self@;
        self.responses.push((maybe_who, bytes));
        proof {
            assert(messages_view(self.responses@) =~= pre.responses.push((maybe_who, encode_utf8(response@))));
        }
        Ok(Some(Event::NewResponse { response, maybe_who }))
    }

    /// Remove the connection: the origin must be signed and the connection
    /// must exist.  The `connection` argument is only reported in the event.
    pub fn remove_connection(&mut self, origin: Origin, connection: u32) -> (res: Result<Event, DispatchError<Error>>)
        ensures
            res is Ok <==> (signer(origin) is Some && old(self)@.connection is Some),
            res is Ok ==> final(self)@.connection is None && final(self)@.commands == old(self)@.commands && final(self)@.responses == old(self)@.responses && final(self)@.config == old(self)@.config,
            res is Err ==> final(self)@ == old(self)@,
            old(self)@.wf() ==> final(self)@.wf(),
            match connected_call_error(old(self)@, origin) {
                Some(e) => res == Err::<Event, DispatchError<Error>>(e) && final(self)@ == old(self)@,
                None => {
                    &&& res == Ok::<Event, DispatchError<Error>>(
                        Event::ConnectionRemoved { connection, who: signer(origin)->0 },
                    )
                    &&& final(self)@ == remove_connection_post(old(self)@)
                },
            },
    {
        let who = match ensure_signed::<Error>(origin) {
            Ok(who) => who,
            Err(e) => return Err(e),
        };
        if self.connection.is_none() {
            return Err(DispatchError::Module(Error::ConnectionDoesNotExist));
        }
        self.connection = None;
        Ok(Event::ConnectionRemoved { connection, who })
    }
}

/// Creating a connection and then removing it, both by signed origins,
/// succeeds and gives back the state before, commands and responses
/// included.
pub proof fn lemma_create_then_remove_restores(s: PalletState, o1: Origin, o2: Origin, connection: u32)
    requires
        s.wf(),
        s.connection is None,
        signer(o1) is Some,
        signer(o2) is Some,
    ensures
        create_connection_error(s, o1) is None,
        connected_call_error(create_connection_post(s, connection), o2) is None,
        remove_connection_post(create_connection_post(s, connection)) == s,
{
}

/// While a connection exists, creating another one is refused.
pub proof fn lemma_create_refused_while_connected(s: PalletState, o1: Origin, o2: Origin, c1: u32, c2: u32)
    requires
        s.wf(),
        create_connection_error(s, o1) is None,
        signer(o2) is Some,
    ensures
        create_connection_error(create_connection_post(s, c1), o2) == Some(
            DispatchError::Module(Error::ConnectionAlreadyExists),
        ),
{
}

/// Once the connection is removed, sending a command, submitting a response
/// and removing the connection again are all refused.
pub proof fn lemma_calls_refused_after_remove(
    s: PalletState,
    o1: Origin,
    o2: Origin,
    command: Seq<char>,
    response: Seq<char>,
)
    requires
        s.wf(),
        connected_call_error(s, o1) is None,
        signer(o2) is Some,
    ensures
        connected_call_error(remove_connection_post(s), o2) == Some(
            DispatchError::Module(Error::ConnectionDoesNotExist),
        ),
        send_command_error(remove_connection_post(s), o2, command) == Some(
            DispatchError::Module(Error::ConnectionDoesNotExist),
        ),
        submit_response_error(remove_connection_post(s), o2, response) == Some(
            DispatchError::Module(Error::ConnectionDoesNotExist),
        ),
{
}

/// Recording a response never alters, drops or reorders the responses and
/// commands recorded before; at most the new response is added at the end.
pub proof fn lemma_responses_only_grow(s: PalletState, maybe_who: Option<AccountId>, response: Seq<char>)
    requires
        s.wf(),
    ensures
        ({
            let t = add_response_post(s, maybe_who, response);
            &&& t.commands == s.commands
            &&& t.connection == s.connection
            &&& t.responses.len() <= s.responses.len() + 1
            &&& t.responses.subrange(0, s.responses.len() as int) == s.responses
        }),
{
    let t = add_response_post(s, maybe_who, response);
    assert(t.responses.subrange(0, s.responses.len() as int) =~= s.responses);
}

/// A command accepted by `send_command` is recorded last, as the bytes of
/// `ping`, with its sender; the earlier commands stay as they were.
pub proof fn lemma_sent_command_is_recorded(s: PalletState, origin: Origin, command: Seq<char>)
    requires
        s.wf(),
        send_command_error(s, origin, command) is None,
    ensures
        ({
            let t = send_command_post(s, signer(origin)->0, command);
            &&& t.commands.len() == s.commands.len() + 1
            &&& t.commands.last() == (signer(origin), ping_bytes())
            &&& t.commands.subrange(0, s.commands.len() as int) == s.commands
            &&& t.wf()
        }),
{
    let t = send_command_post(s, signer(origin)->0, command);
    assert(t.commands.subrange(0, s.commands.len() as int) =~= s.commands);
}

/// `create_connection` succeeds exactly for a signed origin while no
/// connection exists, and then stores the given connection and nothing else.
pub proof fn lemma_create_connection_outcome(s: PalletState, origin: Origin, connection: u32)
    ensures
        create_connection_error(s, origin) is None <==> (signer(origin) is Some && s.connection is None),
        signer(origin) is None ==> create_connection_error(s, origin) == Some(DispatchError::<Error>::BadOrigin),
        signer(origin) is Some && s.connection is Some ==> create_connection_error(s, origin) == Some(
            DispatchError::Module(Error::ConnectionAlreadyExists),
        ),
        ({
            let t = create_connection_post(s, connection);
            &&& t.connection == Some(connection)
            &&& t.commands == s.commands
            &&& t.responses == s.responses
            &&& t.config == s.config
        }),
{
}

/// `remove_connection` succeeds exactly for a signed origin while a
/// connection exists, and then clears the connection and nothing else.
pub proof fn lemma_remove_connection_outcome(s: PalletState, origin: Origin)
    ensures
        connected_call_error(s, origin) is None <==> (signer(origin) is Some && s.connection is Some),
        signer(origin) is None ==> connected_call_error(s, origin) == Some(DispatchError::<Error>::BadOrigin),
        signer(origin) is Some && s.connection is None ==> connected_call_error(s, origin) == Some(
            DispatchError::Module(Error::ConnectionDoesNotExist),
        ),
        ({
            let t = remove_connection_post(s);
            &&& t.connection is None
            &&& t.commands == s.commands
            &&& t.responses == s.responses
            &&& t.config == s.config
        }),
{
}

/// A `ping` from a signed account, while connected, is accepted exactly when
/// its bytes fit the length limit and the command list is below
/// `max_command`; it is then appended with its sender, and nothing else
/// changes.  Any other command is invalid.
pub proof fn lemma_send_command_outcome(s: PalletState, origin: Origin, command: Seq<char>)
    requires
        signer(origin) is Some,
        s.connection is Some,
    ensures
        command != seq!['p', 'i', 'n', 'g'] ==> send_command_error(s, origin, command) == Some(
            DispatchError::Module(Error::InvalidCommand),
        ),
        command == seq!['p', 'i', 'n', 'g'] ==> {
            &&& encode_utf8(command).len() > s.config.max_string_length ==> send_command_error(s, origin, command)
                == Some(DispatchError::Module(Error::CommandTooLong))
            &&& encode_utf8(command).len() <= s.config.max_string_length && s.commands.len() >= s.config.max_command
                ==> send_command_error(s, origin, command) == Some(DispatchError::Module(Error::TooManyCommands))
            &&& encode_utf8(command).len() <= s.config.max_string_length && s.commands.len() < s.config.max_command
                ==> send_command_error(s, origin, command) is None
        },
        ({
            let t = send_command_post(s, signer(origin)->0, command);
            &&& t.commands == s.commands.push((signer(origin), encode_utf8(command)))
            &&& t.responses == s.responses
            &&& t.connection == s.connection
            &&& t.config == s.config
        }),
{
}

/// A response from a signed account, while connected, is refused as too
/// large exactly when its bytes exceed the length limit.  One that fits is
/// appended with its sender whenever the response list is below
/// `max_responses`, and dropped when the list is full; nothing else changes.
pub proof fn lemma_submit_response_outcome(s: PalletState, origin: Origin, response: Seq<char>)
    requires
        signer(origin) is Some,
        s.connection is Some,
    ensures
        encode_utf8(response).len() > s.config.max_string_length ==> submit_response_error(s, origin, response)
            == Some(DispatchError::Module(Error::ResponseTooLarge)),
        encode_utf8(response).len() <= s.config.max_string_length ==> submit_response_error(s, origin, response)
            is None,
        ({
            let t = add_response_post(s, signer(origin), response);
            &&& encode_utf8(response).len() <= s.config.max_string_length && s.responses.len()
                < s.config.max_responses ==> {
                &&& response_accepted(s, response)
                &&& t.responses == s.responses.push((signer(origin), encode_utf8(response)))
                &&& t.commands == s.commands
                &&& t.connection == s.connection
                &&& t.config == s.config
            }
            &&& s.responses.len() >= s.config.max_responses ==> !response_accepted(s, response) && t == s
        }),
{
}

/// What the invariant promises of every reachable state: at most
/// `max_command` commands and `max_responses` responses, each at most
/// `max_string_length` bytes, and every command the bytes `ping` from a
/// signed account.
pub proof fn lemma_wf_meaning(s: PalletState)
    requires
        s.wf(),
    ensures
        s.commands.len() <= s.config.max_command,
        s.responses.len() <= s.config.max_responses,
        forall|i: int| 0 <= i < s.commands.len() ==> (#[trigger] s.commands[i]).1.len() <= s.config.max_string_length,
        forall|i: int| 0 <= i < s.responses.len() ==> (#[trigger] s.responses[i]).1.len() <= s.config.max_string_length,
        forall|i: int|
            0 <= i < s.commands.len() ==> (#[trigger] s.commands[i]).0 is Some && s.commands[i].1 == encode_utf8(
                seq!['p', 'i', 'n', 'g'],
            ),
{
}

/// The view of a list of messages keeps every message, in order, with its
/// sender and its bytes.
pub proof fn lemma_messages_view(v: Seq<Message>)
    ensures
        messages_view(v).len() == v.len(),
        forall|i: int| 0 <= i < v.len() ==> #[trigger] messages_view(v)[i] == (v[i].0, v[i].1@),
{
}

/// The pallet's view is its storage: the limits, the connection and the
/// views of both lists.
pub proof fn lemma_pallet_view(p: Pallet)
    ensures
        p@.config == p.config,
        p@.connection == p.connection,
        p@.commands == messages_view(p.commands@),
        p@.responses == messages_view(p.responses@),
{
}

} // verus!
