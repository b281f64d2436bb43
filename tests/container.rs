use wado::container::{
    domain_controller_arguments, host_controller_arguments, push_arguments,
    container_ps, parse_port_mapping, parse_ps_line, container_run, add_servers,
    get_instance, ContainerInstance, InstanceLookupError, InvalidIdentifier,
};
use wado::server::Server;
use wado::wildfly::{ManagementClient, Ports, ServerType, VersionRef};

fn version(identifier: u16) -> VersionRef {
    VersionRef {
        identifier,
        short_version: format!("{}", identifier),
        image_tag: "t".to_string(),
        core_version: "2.0.0".to_string(),
        http_port: 8000 + identifier,
        management_port: 9000 + identifier,
        multi_platform: false,
        development: false,
    }
}

#[test]
fn listing_rows() {
    let catalog = vec![version(33), version(34)];
    let ci = parse_ps_line("abc|34-dc|wado-34-dc|Up 2 minutes", &catalog).unwrap();
    assert_eq!(ci.container_id, "abc");
    assert_eq!(ci.name, "wado-34-dc");
    assert_eq!(ci.status, "Up 2 minutes");
    assert_eq!(ci.admin_container.server_type, ServerType::DomainController);
    assert_eq!(ci.ports, Some(Ports { http: 8034, management: 9034 }));
    assert!(ci.running);
    assert!(parse_ps_line("abc|34-dc|wado-34-dc", &catalog).is_none());
    assert!(parse_ps_line("abc|99-dc|n|s", &catalog).is_none());
    assert_eq!(
        ContainerInstance::new("99-sa", "id", "n", "s", &catalog).unwrap_err(),
        InvalidIdentifier { identifier: "99-sa".to_string() }
    );
    let client = ManagementClient::from_container_instance(&ci);
    assert_eq!(client.management_port, 9034);
}

#[test]
fn listing_filters() {
    let catalog = vec![version(33), version(34)];
    let rows = vec![
        "a|33-sa|one|up".to_string(),
        "b|34-dc|two|up".to_string(),
        "garbage".to_string(),
        "c|34-sa|three|up".to_string(),
    ];
    let all = container_ps(
        &rows,
        &catalog,
        &vec![ServerType::Standalone, ServerType::DomainController],
        &None,
        &None,
    );
    assert_eq!(all.len(), 3);
    let sa34 = container_ps(&rows, &catalog, &vec![ServerType::Standalone], &Some(vec![34]), &None);
    assert_eq!(sa34.len(), 1);
    assert_eq!(sa34[0].name, "three");
    let named = container_ps(
        &rows,
        &catalog,
        &vec![ServerType::Standalone],
        &None,
        &Some("one".to_string()),
    );
    assert_eq!(named.len(), 1);
    assert_eq!(named[0].container_id, "a");
}

#[test]
fn port_mappings() {
    assert_eq!(parse_port_mapping("8080|9990"), Ok(Some(Ports { http: 8080, management: 9990 })));
    assert_eq!(parse_port_mapping("8080"), Ok(None));
    assert_eq!(parse_port_mapping("x|9990"), Err(()));
}

#[test]
fn run_command_arguments() {
    let args = container_run("n", Some(Ports { http: 8081, management: 9991 }), &vec![
        "op1".to_string(),
        "op2".to_string(),
    ]);
    assert_eq!(
        args,
        vec![
            "run",
            "--rm",
            "--detach",
            "--name",
            "n",
            "--publish",
            "8081:8080",
            "--publish",
            "9991:9990",
            "--env",
            "WADO_BOOTSTRAP_OPERATIONS=op1,op2"
        ]
    );
    assert_eq!(container_run("m", None, &vec![]), vec!["run", "--rm", "--detach", "--name", "m"]);
}

#[test]
fn push_and_controller_arguments() {
    assert_eq!(push_arguments("img", false), vec!["push", "img"]);
    assert_eq!(push_arguments("img", true), vec!["manifest", "push", "img"]);
    let servers = vec![Server::parse_server("s1:start").unwrap()];
    assert_eq!(
        domain_controller_arguments("dc1", &servers),
        vec![
            "--network",
            "wado",
            "--env",
            "WADO_HOSTNAME=dc1",
            "--env",
            "WADO_SERVERS=/host=dc1/server-config=s1:add(group=main-server-group,auto-start=true)"
        ]
    );
    assert_eq!(
        host_controller_arguments("hc1", "dc1", &vec![]),
        vec![
            "--secret=username,type=env,target=WADO_USERNAME",
            "--secret=password,type=env,target=WADO_PASSWORD",
            "--network",
            "wado",
            "--env",
            "WADO_HOSTNAME=hc1",
            "--env",
            "WADO_DOMAIN_CONTROLLER=dc1"
        ]
    );
}

#[test]
fn servers_environment() {
    let servers = vec![Server::parse_server("s1").unwrap(), Server::parse_server("s2:osg:100").unwrap()];
    assert_eq!(
        add_servers("h", &servers).unwrap(),
        "WADO_SERVERS=/host=h/server-config=s1:add(group=main-server-group,auto-start=false),/host=h/server-config=s2:add(group=other-server-group,socket-binding-port-offset=100,auto-start=false)"
    );
    assert_eq!(add_servers("h", &vec![]), None);
}

#[test]
fn single_instance_lookup() {
    let catalog = vec![version(1)];
    let a = parse_ps_line("a|1-sa|x|up", &catalog).unwrap();
    let b = parse_ps_line("b|1-sa|y|up", &catalog).unwrap();
    assert_eq!(get_instance(vec![]).unwrap_err(), InstanceLookupError::NoContainer);
    assert_eq!(
        get_instance(vec![a.clone(), b]).unwrap_err(),
        InstanceLookupError::MultipleContainers
    );
    assert_eq!(get_instance(vec![a]).unwrap().container_id, "a");
}

#[test]
fn operations_split_at_commas() {
    let args = vec!["a,b".to_string(), "c".to_string(), "d,".to_string()];
    assert_eq!(
        wado::container::split_operations(&args),
        vec!["a", "b", "c", "d", ""]
    );
}
