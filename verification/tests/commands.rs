use guaradict::commands;
use guaradict::commands::client;
use guaradict::commands::server;

#[test]
fn commands_test_execute_get() {
    let command = commands::Command::Get("key1".to_string());
    assert_eq!(command.execute(), "GET key1");
}

#[test]
fn commands_test_execute_add() {
    let command = commands::Command::Add("key1".to_string(), "value1".to_string());
    assert_eq!(command.execute(), "ADD key1 value1");
}

#[test]
fn commands_test_execute_delete() {
    let command = commands::Command::Delete("key1".to_string());
    assert_eq!(command.execute(), "DELETE key1");
}

#[test]
fn client_test_execute_get() {
    let command = client::Command::Get("key1".to_string());
    assert_eq!(command.execute(), "GET key1");
}

#[test]
fn client_test_execute_add() {
    let command = client::Command::Add("key1".to_string(), "value1".to_string());
    assert_eq!(command.execute(), "ADD key1 value1");
}

#[test]
fn client_test_execute_delete() {
    let command = client::Command::Del("key1".to_string());
    assert_eq!(command.execute(), "DEL key1");
}

#[test]
fn test_execute_ping() {
    let command = server::Command::Ping("replica-node-1".into());
    assert_eq!(command.serialize(), "PING replica-node-1");
}

#[test]
fn test_execute_pong() {
    let command = server::Command::Pong("primary-node".into());
    assert_eq!(command.serialize(), "PONG primary-node");
}

#[test]
fn client_parse_get() {
    match client::Command::parse("GET greeting") {
        Ok(client::Command::Get(key)) => assert_eq!(key, "greeting"),
        other => panic!("unexpected parse result: {:?}", other),
    }
}

#[test]
fn client_parse_set_normalizes_whitespace() {
    match client::Command::parse("  SET   greeting   hello   world  ") {
        Ok(client::Command::Put(key, value)) => {
            assert_eq!(key, "greeting");
            assert_eq!(value, "hello world");
        }
        other => panic!("unexpected parse result: {:?}", other),
    }
}

#[test]
fn client_parse_set_without_value_is_invalid() {
    assert!(client::Command::parse("SET greeting").is_err());
}

#[test]
fn client_parse_invalid_verb() {
    let r = client::Command::parse("FOO bar");
    assert_eq!(r.unwrap_err(), "Comando inválido");
}

#[test]
fn client_parse_quit() {
    assert!(matches!(client::Command::parse(" QUIT \n"), Ok(client::Command::Quit)));
    assert!(client::Command::parse("QUIT now").is_err());
}

#[test]
fn client_roundtrip() {
    let cases = vec![
        client::Command::Get("alpha".to_string()),
        client::Command::Put("alpha".to_string(), "one two".to_string()),
        client::Command::Add("beta-key".to_string(), "three".to_string()),
        client::Command::Del("alpha".to_string()),
        client::Command::Quit,
    ];
    for c in cases {
        let wire = c.execute();
        let back = client::Command::parse(&wire).expect("round trip must parse");
        assert_eq!(format!("{:?}", back), format!("{:?}", c));
    }
}

#[test]
fn commands_parse_add_with_empty_value() {
    match commands::Command::parse("ADD key1") {
        Ok(commands::Command::Add(key, value)) => {
            assert_eq!(key, "key1");
            assert_eq!(value, "");
        }
        _ => panic!("ADD with a bare key parses in the reduced dialect"),
    }
}

#[test]
fn commands_parse_delete() {
    match commands::Command::parse("DELETE key1") {
        Ok(commands::Command::Delete(key)) => assert_eq!(key, "key1"),
        _ => panic!("DELETE must parse"),
    }
}

#[test]
fn commands_roundtrip() {
    let cases = vec![
        commands::Command::Get("alpha".to_string()),
        commands::Command::Add("beta".to_string(), "one two".to_string()),
        commands::Command::Add("gamma".to_string(), "".to_string()),
        commands::Command::Delete("alpha".to_string()),
        commands::Command::QUIT,
    ];
    for c in cases {
        let wire = c.execute();
        let back = commands::Command::parse(&wire).expect("round trip must parse");
        match (&c, &back) {
            (commands::Command::Get(a), commands::Command::Get(b)) => assert_eq!(a, b),
            (commands::Command::Add(a, x), commands::Command::Add(b, y)) => {
                assert_eq!(a, b);
                assert_eq!(x, y);
            }
            (commands::Command::Delete(a), commands::Command::Delete(b)) => assert_eq!(a, b),
            (commands::Command::QUIT, commands::Command::QUIT) => {}
            _ => panic!("round trip changed the command"),
        }
    }
}

#[test]
fn server_parse_ping_pong() {
    match server::Command::parse("PING replica-node-1") {
        Ok(server::Command::Ping(name)) => assert_eq!(name, "replica-node-1"),
        _ => panic!("PING must parse"),
    }
    match server::Command::parse("PONG primary-node") {
        Ok(server::Command::Pong(name)) => assert_eq!(name, "primary-node"),
        _ => panic!("PONG must parse"),
    }
    assert!(server::Command::parse("PING").is_err());
    assert!(server::Command::parse("ping node").is_err());
}
