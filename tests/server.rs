use wado::server::ServerGroup::{MainServerGroup, OtherServerGroup};
use wado::server::{apply_offsets, try_apply_offsets, Server, ServerParseError};

#[test]
fn apply_offsets_empty() {
    let servers = vec![];
    assert_eq!(apply_offsets(servers, 100), vec![]);
}

#[test]
fn apply_offsets_single_server() {
    let server = Server::parse_server("server1").unwrap();
    let input = vec![server.clone()];
    let expected = vec![server.clone()];
    assert_eq!(apply_offsets(input, 100), expected);
}

#[test]
fn apply_offsets_multiple_servers() {
    let server0 = Server::parse_server("server0").unwrap();
    let server1 = Server::parse_server("server1").unwrap();
    let server2 = Server::parse_server("server2").unwrap();
    let server3 = Server::parse_server("server3").unwrap();
    let input = vec![
        server0.clone(),
        server1.clone(),
        server2.clone(),
        server3.clone(),
    ];
    let expected = vec![
        server0.clone(),
        server1.with_offset(100),
        server2.with_offset(200),
        server3.with_offset(300),
    ];
    assert_eq!(apply_offsets(input, 100), expected);
}

#[test]
fn apply_offsets_multiple_servers_custom_offset() {
    let server0 = Server::parse_server("server0").unwrap();
    let server1 = Server::parse_server("server1").unwrap();
    let server2 = Server::parse_server("server2:50").unwrap();
    let server3 = Server::parse_server("server3").unwrap();
    let input = vec![
        server0.clone(),
        server1.clone(),
        server2.clone(),
        server3.clone(),
    ];
    let expected = vec![
        server0.clone(),
        server1.with_offset(100),
        server2.with_offset(50),
        server3.with_offset(150),
    ];
    assert_eq!(apply_offsets(input, 100), expected);
}

#[test]
fn apply_offsets_first_server_offset_does_not_seed_count() {
    let input = vec![
        Server::parse_server("a:500").unwrap(),
        Server::parse_server("b").unwrap(),
    ];
    let result = apply_offsets(input, 100);
    assert_eq!(result[0].offset, 500);
    assert_eq!(result[1].offset, 100);
}

#[test]
fn try_apply_offsets_overflow() {
    let input = vec![
        Server::parse_server("a").unwrap(),
        Server::parse_server("b:65500").unwrap(),
        Server::parse_server("c").unwrap(),
    ];
    assert_eq!(try_apply_offsets(input, 100), None);
    let input = vec![
        Server::parse_server("a").unwrap(),
        Server::parse_server("b").unwrap(),
    ];
    let result = try_apply_offsets(input, 100).unwrap();
    assert_eq!(result[1].offset, 100);
}

#[test]
fn parse_server_name_only() {
    let result = Server::parse_server("server1").unwrap();
    assert_eq!(result.name, "server1");
    assert_eq!(result.server_group, MainServerGroup);
    assert_eq!(result.offset, 0);
    assert!(!result.autostart);
}

#[test]
fn parse_server_name_server_group() {
    let result = Server::parse_server("server1:msg").unwrap();
    assert_eq!(result.name, "server1");
    assert_eq!(result.server_group, MainServerGroup);
    assert_eq!(result.offset, 0);
    assert!(!result.autostart);

    let result = Server::parse_server("server1:main-server-group").unwrap();
    assert_eq!(result.name, "server1");
    assert_eq!(result.server_group, MainServerGroup);
    assert_eq!(result.offset, 0);
    assert!(!result.autostart);

    let result = Server::parse_server("server1:osg").unwrap();
    assert_eq!(result.name, "server1");
    assert_eq!(result.server_group, OtherServerGroup);
    assert_eq!(result.offset, 0);
    assert!(!result.autostart);

    let result = Server::parse_server("server1:other-server-group").unwrap();
    assert_eq!(result.name, "server1");
    assert_eq!(result.server_group, OtherServerGroup);
    assert_eq!(result.offset, 0);
    assert!(!result.autostart);
}

#[test]
fn parse_server_name_offset() {
    let result = Server::parse_server("server1:123").unwrap();
    assert_eq!(result.name, "server1");
    assert_eq!(result.server_group, MainServerGroup);
    assert_eq!(result.offset, 123);
    assert!(!result.autostart);
}

#[test]
fn parse_server_name_autostart() {
    let result = Server::parse_server("server1:start").unwrap();
    assert_eq!(result.name, "server1");
    assert_eq!(result.server_group, MainServerGroup);
    assert_eq!(result.offset, 0);
    assert!(result.autostart);
}

#[test]
fn parse_server_name_server_group_offset() {
    let result = Server::parse_server("server1:msg:123").unwrap();
    assert_eq!(result.name, "server1");
    assert_eq!(result.server_group, MainServerGroup);
    assert_eq!(result.offset, 123);
    assert!(!result.autostart);
}

#[test]
fn parse_server_name_server_group_autostart() {
    let result = Server::parse_server("server1:msg:start").unwrap();
    assert_eq!(result.name, "server1");
    assert_eq!(result.server_group, MainServerGroup);
    assert_eq!(result.offset, 0);
    assert!(result.autostart);
}

#[test]
fn parse_server_name_offset_autostart() {
    let result = Server::parse_server("server1:123:start").unwrap();
    assert_eq!(result.name, "server1");
    assert_eq!(result.server_group, MainServerGroup);
    assert_eq!(result.offset, 123);
    assert!(result.autostart);
}

#[test]
fn parse_server_name_server_group_offset_autostart() {
    let result = Server::parse_server("server1:msg:123:start").unwrap();
    assert_eq!(result.name, "server1");
    assert_eq!(result.server_group, MainServerGroup);
    assert_eq!(result.offset, 123);
    assert!(result.autostart);
}

#[test]
fn parse_server_invalid() {
    let result = Server::parse_server("");
    assert!(result.is_err());
}

#[test]
fn parse_server_invalid_server_group() {
    let result = Server::parse_server("server1:groupA");
    assert!(result.is_err());
}

#[test]
fn parse_server_invalid_offset() {
    let result = Server::parse_server("server1:msg:abc:start");
    assert!(result.is_err());
}

#[test]
fn parse_server_offset_before_group() {
    let result = Server::parse_server("server1:123:groupA:start");
    assert!(result.is_err());
}

#[test]
fn add_server_op_no_offset() {
    let server = Server {
        name: "server-one".to_string(),
        server_group: MainServerGroup,
        offset: 0,
        autostart: true,
    };
    assert_eq!(
        server.add_server_op("primary"),
        "/host=primary/server-config=server-one:add(group=main-server-group,auto-start=true)"
    );
}

#[test]
fn add_server_op_with_offset() {
    let server = Server {
        name: "server-two".to_string(),
        server_group: OtherServerGroup,
        offset: 100,
        autostart: false,
    };
    assert_eq!(
        server.add_server_op("secondary"),
        "/host=secondary/server-config=server-two:add(group=other-server-group,socket-binding-port-offset=100,auto-start=false)"
    );
}

#[test]
fn parse_server_directive_examples() {
    let a = Server::parse_server("app:osg:start").unwrap();
    assert_eq!(a.name, "app");
    assert_eq!(a.server_group, OtherServerGroup);
    assert_eq!(a.offset, 0);
    assert!(a.autostart);

    let b = Server::parse_server("app:50:start").unwrap();
    assert_eq!(b.name, "app");
    assert_eq!(b.server_group, MainServerGroup);
    assert_eq!(b.offset, 50);
    assert!(b.autostart);

    assert_eq!(
        Server::parse_server("app:badtoken"),
        Err(ServerParseError::InvalidServerGroup("badtoken".to_string()))
    );
}

#[test]
fn parse_server_error_variants() {
    assert_eq!(Server::parse_server(":msg"), Err(ServerParseError::InvalidFormat));
    assert_eq!(Server::parse_server("s:12:x"), Err(ServerParseError::InvalidFormat));
    assert_eq!(
        Server::parse_server("s:groupA"),
        Err(ServerParseError::InvalidServerGroup("groupA".to_string()))
    );
}

#[test]
fn parse_server_case_and_plus_sign() {
    let s = Server::parse_server("s:OSG:+70:START").unwrap();
    assert_eq!(s.server_group, OtherServerGroup);
    assert_eq!(s.offset, 70);
    assert!(s.autostart);
    let big = Server::parse_server("s:65536");
    assert!(big.is_err());
    let max = Server::parse_server("s:65535").unwrap();
    assert_eq!(max.offset, 65535);
    assert_eq!(Server::parse_server("s::10"), Err(ServerParseError::InvalidFormat));
}

#[test]
fn parse_server_rejects_leftover_pieces() {
    for input in [
        "a:start:x",
        "app:msg:123:junk",
        "app:50:start:x",
        "app:msg:start:x",
        "app::start",
        "app:start:msg",
        "app:msg:osg",
        "app:1:2",
    ] {
        assert_eq!(Server::parse_server(input), Err(ServerParseError::InvalidFormat), "{}", input);
    }
    let s = Server::parse_server("app:osg:7").unwrap();
    assert_eq!(s.server_group, OtherServerGroup);
    assert_eq!(s.offset, 7);
    assert!(!s.autostart);
}

#[test]
fn parse_servers_list() {
    let servers = Server::parse_servers("a,b:osg,c:200:start").unwrap();
    assert_eq!(servers.len(), 3);
    assert_eq!(servers[0].name, "a");
    assert_eq!(servers[1].server_group, OtherServerGroup);
    assert_eq!(servers[2].offset, 200);
    assert!(servers[2].autostart);
    assert_eq!(
        Server::parse_servers("a,b:x,:c"),
        Err(ServerParseError::InvalidServerGroup("x".to_string()))
    );
    assert_eq!(Server::parse_servers("a,"), Err(ServerParseError::InvalidFormat));
}

#[test]
fn server_group_names() {
    assert_eq!(MainServerGroup.group_name(), "main-server-group");
    assert_eq!(OtherServerGroup.group_name(), "other-server-group");
}
