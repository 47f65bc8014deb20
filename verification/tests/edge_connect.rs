use cyborg_pallets::edge_connect::{Config, Error, Event, Pallet};
use cyborg_pallets::{DispatchError, Origin};

fn config() -> Config {
    Config { max_command: 4, max_responses: 2, max_string_length: 8 }
}

fn connected() -> Pallet {
    let mut p = Pallet::new(config());
    p.create_connection(Origin::Signed(1), 7).unwrap();
    p
}

#[test]
fn create_connection_works() {
    let mut p = Pallet::new(config());
    assert!(!p.connection_exists());
    assert_eq!(p.connection(), 0);
    assert_eq!(
        p.create_connection(Origin::Signed(1), 7),
        Ok(Event::ConnectionCreated { connection: 7, who: 1 })
    );
    assert!(p.connection_exists());
    assert_eq!(p.connection(), 7);
}

#[test]
fn create_connection_requires_signed_origin() {
    let mut p = Pallet::new(config());
    assert_eq!(p.create_connection(Origin::Root, 7), Err(DispatchError::BadOrigin));
    assert_eq!(p.create_connection(Origin::Unsigned, 7), Err(DispatchError::BadOrigin));
    assert_eq!(p.create_connection(Origin::Authorized, 7), Err(DispatchError::BadOrigin));
    assert!(!p.connection_exists());
}

#[test]
fn create_connection_fails_when_connected() {
    let mut p = connected();
    assert_eq!(
        p.create_connection(Origin::Signed(2), 9),
        Err(DispatchError::Module(Error::ConnectionAlreadyExists))
    );
    assert_eq!(p.connection(), 7);
}

#[test]
fn send_command_records_ping() {
    let mut p = connected();
    assert_eq!(
        p.send_command(Origin::Signed(3), "ping".to_string()),
        Ok(Event::CommandSent { command: "ping".to_string(), who: 3 })
    );
    assert_eq!(p.commands(), &vec![(Some(3), b"ping".to_vec())]);
}

#[test]
fn send_command_rejects_other_commands() {
    let mut p = connected();
    assert_eq!(
        p.send_command(Origin::Signed(3), "pong".to_string()),
        Err(DispatchError::Module(Error::InvalidCommand))
    );
    assert_eq!(
        p.send_command(Origin::Signed(3), "Ping".to_string()),
        Err(DispatchError::Module(Error::InvalidCommand))
    );
    assert!(p.commands().is_empty());
}

#[test]
fn send_command_needs_connection() {
    let mut p = Pallet::new(config());
    assert_eq!(
        p.send_command(Origin::Signed(3), "ping".to_string()),
        Err(DispatchError::Module(Error::ConnectionDoesNotExist))
    );
    assert_eq!(p.send_command(Origin::Root, "ping".to_string()), Err(DispatchError::BadOrigin));
}

#[test]
fn send_command_too_long() {
    let mut p = Pallet::new(Config { max_command: 4, max_responses: 2, max_string_length: 3 });
    p.create_connection(Origin::Signed(1), 1).unwrap();
    assert_eq!(
        p.send_command(Origin::Signed(3), "ping".to_string()),
        Err(DispatchError::Module(Error::CommandTooLong))
    );
}

#[test]
fn send_command_too_many() {
    let mut p = Pallet::new(Config { max_command: 1, max_responses: 2, max_string_length: 8 });
    p.create_connection(Origin::Signed(1), 1).unwrap();
    assert!(p.send_command(Origin::Signed(3), "ping".to_string()).is_ok());
    assert_eq!(
        p.send_command(Origin::Signed(4), "ping".to_string()),
        Err(DispatchError::Module(Error::TooManyCommands))
    );
    assert_eq!(p.commands().len(), 1);
}

#[test]
fn submit_response_records_response() {
    let mut p = connected();
    assert_eq!(
        p.submit_response(Origin::Signed(5), "pong".to_string()),
        Ok(Some(Event::NewResponse { response: "pong".to_string(), maybe_who: Some(5) }))
    );
    assert_eq!(p.responses(), &vec![(Some(5), b"pong".to_vec())]);
}

#[test]
fn submit_response_rejects_long_response() {
    let mut p = connected();
    // Five characters, but nine UTF-8 bytes.
    assert_eq!(
        p.submit_response(Origin::Signed(5), "ééééa".to_string()),
        Err(DispatchError::Module(Error::ResponseTooLarge))
    );
    assert_eq!(
        p.submit_response(Origin::Signed(5), "123456789".to_string()),
        Err(DispatchError::Module(Error::ResponseTooLarge))
    );
    assert!(p.responses().is_empty());
    assert!(p.submit_response(Origin::Signed(5), "12345678".to_string()).unwrap().is_some());
    assert_eq!(p.responses().len(), 1);
}

#[test]
fn submit_response_drops_when_full() {
    let mut p = connected();
    assert!(p.submit_response(Origin::Signed(5), "a".to_string()).unwrap().is_some());
    assert!(p.submit_response(Origin::Signed(6), "b".to_string()).unwrap().is_some());
    assert_eq!(p.submit_response(Origin::Signed(7), "c".to_string()), Ok(None));
    assert_eq!(
        p.submit_response(Origin::Signed(7), "too long!".to_string()),
        Err(DispatchError::Module(Error::ResponseTooLarge))
    );
    assert_eq!(p.responses(), &vec![(Some(5), b"a".to_vec()), (Some(6), b"b".to_vec())]);
}

#[test]
fn submit_response_needs_connection_and_signer() {
    let mut p = Pallet::new(config());
    assert_eq!(
        p.submit_response(Origin::Signed(5), "a".to_string()),
        Err(DispatchError::Module(Error::ConnectionDoesNotExist))
    );
    let mut q = connected();
    assert_eq!(q.submit_response(Origin::Unsigned, "a".to_string()), Err(DispatchError::BadOrigin));
    q.remove_connection(Origin::Signed(1), 7).unwrap();
    assert_eq!(
        q.submit_response(Origin::Signed(5), "a".to_string()),
        Err(DispatchError::Module(Error::ConnectionDoesNotExist))
    );
}

#[test]
fn remove_connection_works() {
    let mut p = connected();
    assert_eq!(
        p.remove_connection(Origin::Signed(2), 99),
        Ok(Event::ConnectionRemoved { connection: 99, who: 2 })
    );
    assert!(!p.connection_exists());
    assert_eq!(
        p.remove_connection(Origin::Signed(2), 99),
        Err(DispatchError::Module(Error::ConnectionDoesNotExist))
    );
}

#[test]
fn create_then_remove_restores_state() {
    let mut p = Pallet::new(config());
    p.create_connection(Origin::Signed(1), 3).unwrap();
    p.send_command(Origin::Signed(1), "ping".to_string()).unwrap();
    p.remove_connection(Origin::Signed(1), 3).unwrap();
    let commands = p.commands().clone();
    p.create_connection(Origin::Signed(2), 4).unwrap();
    p.remove_connection(Origin::Signed(2), 4).unwrap();
    assert!(!p.connection_exists());
    assert_eq!(p.commands(), &commands);
    assert!(p.responses().is_empty());
    assert_eq!(p.config(), config());
    assert_eq!(
        p.send_command(Origin::Signed(1), "ping".to_string()),
        Err(DispatchError::Module(Error::ConnectionDoesNotExist))
    );
}
