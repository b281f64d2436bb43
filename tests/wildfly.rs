use wado::wildfly::{
    parse_identifier, select_management_clients, AdminContainer, ClientError, ClientSelection,
    ManagementClient, Ports, ServerType, VersionRef,
};

fn version(identifier: u16) -> VersionRef {
    VersionRef {
        identifier,
        short_version: format!("{}", identifier),
        image_tag: format!("{}.0.0.Final-jdk17", identifier),
        core_version: "26.1.0".to_string(),
        http_port: 8080 + identifier,
        management_port: 9990 + identifier,
        multi_platform: false,
        development: false,
    }
}

#[test]
fn admin_container_names() {
    let ac = AdminContainer::domain_controller(version(34));
    assert_eq!(ac.identifier(), "34-dc");
    assert_eq!(ac.container_name(), "wado-34-dc");
    assert_eq!(ac.image_name(), "quay.io/wado/wado-dc:34.0.0.Final-jdk17");
    assert_eq!(AdminContainer::all_types(version(1)).len(), 3);
    assert_eq!(AdminContainer::domain(version(1))[1].server_type, ServerType::HostController);
}

#[test]
fn server_type_tags() {
    assert_eq!(ServerType::Standalone.short_name(), "sa");
    assert_eq!(ServerType::HostController.short_name(), "hc");
    assert_eq!(ServerType::from_short_name("dc"), Some(ServerType::DomainController));
    assert_eq!(ServerType::from_short_name("DC"), None);
}

#[test]
fn identifiers_resolve_against_catalog() {
    assert_eq!(parse_identifier("340-hc"), Some((340, ServerType::HostController)));
    assert_eq!(parse_identifier("340"), None);
    assert_eq!(parse_identifier("340-hc-1"), None);
    assert_eq!(parse_identifier("x-hc"), None);
    let catalog = vec![version(33), version(34)];
    let ac = AdminContainer::from_identifier("34-sa", &catalog).unwrap();
    assert_eq!(ac.wildfly_container.identifier, 34);
    assert_eq!(ac.server_type, ServerType::Standalone);
    assert!(AdminContainer::from_identifier("35-sa", &catalog).is_none());
}

#[test]
fn ports_offsets() {
    let p = Ports::default_ports(&version(10));
    assert_eq!(p, Ports { http: 8090, management: 10000 });
    assert_eq!(p.with_offset(5), Ports { http: 8095, management: 10005 });
    assert_eq!(p.scaled(2), Ports { http: 8090 * 3, management: 30000 });
}

#[test]
fn management_client_urls() {
    let client = ManagementClient::custom_port(&version(1), 4242);
    assert_eq!(client.management_port, 4242);
    assert_eq!(
        client.cli_jar_url,
        "https://repo1.maven.org/maven2/org/wildfly/core/wildfly-cli/26.1.0.Final/wildfly-cli-26.1.0.Final-client.jar"
    );
    assert_eq!(
        client.cli_config_url,
        "https://raw.githubusercontent.com/wildfly/wildfly-core/refs/tags/26.1.0.Final/core-feature-pack/common/src/main/resources/content/bin/jboss-cli.xml"
    );
    assert_eq!(ManagementClient::default_port(&version(1)).management_port, 9991);
}

#[test]
fn management_client_selection() {
    let two = vec![version(1), version(2)];
    assert_eq!(
        select_management_clients(Some(two.clone()), Some("n".to_string()), None),
        Err(ClientError::NameNotAllowed)
    );
    assert_eq!(
        select_management_clients(None, Some("n".to_string()), None),
        Ok(ClientSelection::Named { name: "n".to_string(), versions: None })
    );
    assert_eq!(
        select_management_clients(Some(two.clone()), None, Some(1)),
        Err(ClientError::ManagementNotAllowed)
    );
    match select_management_clients(Some(two), None, None) {
        Ok(ClientSelection::Clients(cs)) => {
            assert_eq!(cs.len(), 2);
            assert_eq!(cs[1].management_port, 9992);
        }
        other => panic!("unexpected {:?}", other),
    }
    match select_management_clients(Some(vec![version(3)]), None, Some(7777)) {
        Ok(ClientSelection::Clients(cs)) => assert_eq!(cs[0].management_port, 7777),
        other => panic!("unexpected {:?}", other),
    }
    assert_eq!(select_management_clients(None, None, None), Ok(ClientSelection::Running));
}
