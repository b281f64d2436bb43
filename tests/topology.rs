use wado::topology::{
    admin_containers, domain_controller_instances, ensure_unique_names, explicit_ports,
    host_controller_instances, list_kinds, same_versions, standalone_instances, unique_names_fit,
    Overrides, ResolveError,
};
use wado::wildfly::{AdminContainer, Ports, ServerType, StandaloneInstance, VersionRef};

fn version(identifier: u16, http: u16, management: u16) -> VersionRef {
    VersionRef {
        identifier,
        short_version: format!("{}", identifier),
        image_tag: format!("{}.0.0.Final-jdk17", identifier),
        core_version: format!("{}.0.0", identifier),
        http_port: http,
        management_port: management,
        multi_platform: false,
        development: false,
    }
}

fn no_overrides() -> Overrides {
    Overrides { name: None, http: None, management: None, offset: None }
}

#[test]
fn resolve_duplicate_versions_are_numbered() {
    let v10 = version(10, 8100, 9100);
    let v11 = version(11, 8110, 9110);
    let versions = vec![v10.clone(), v10.clone(), v11.clone()];
    let instances = standalone_instances(&versions, &no_overrides()).unwrap();
    assert_eq!(instances.len(), 3);
    assert_eq!(instances[0].name, "wado-10-sa-0");
    assert_eq!(instances[0].ports, Ports { http: 8100, management: 9100 });
    assert_eq!(instances[1].name, "wado-10-sa-1");
    assert_eq!(instances[1].ports, Ports { http: 8100 + 8100, management: 9100 + 9100 });
    assert_eq!(instances[2].name, "wado-11-sa");
    assert_eq!(instances[2].ports, Ports { http: 8110, management: 9110 });
    assert_eq!(instances[2].admin_container, AdminContainer::standalone(v11));
}

#[test]
fn resolve_non_adjacent_duplicates_stay_equal() {
    let v10 = version(10, 8100, 9100);
    let v11 = version(11, 8110, 9110);
    let versions = vec![v10.clone(), v11, v10];
    let instances = standalone_instances(&versions, &no_overrides()).unwrap();
    assert_eq!(instances[0].name, "wado-10-sa");
    assert_eq!(instances[1].name, "wado-11-sa");
    assert_eq!(instances[2].name, "wado-10-sa");
}

#[test]
fn resolve_single_version_applies_overrides() {
    let versions = vec![version(26, 8260, 9260)];
    let overrides = Overrides {
        name: Some("mine".to_string()),
        http: Some(8000),
        management: None,
        offset: Some(5),
    };
    let instances = standalone_instances(&versions, &overrides).unwrap();
    assert_eq!(instances.len(), 1);
    assert_eq!(instances[0].name, "mine");
    assert_eq!(instances[0].ports, Ports { http: 8005, management: 9265 });

    let defaults = domain_controller_instances(&versions, &no_overrides()).unwrap();
    assert_eq!(defaults[0].name, "wado-26-dc");
    assert_eq!(defaults[0].ports, Ports { http: 8260, management: 9260 });
}

#[test]
fn resolve_overrides_refused_with_several_versions() {
    let versions = vec![version(10, 8100, 9100), version(11, 8110, 9110)];
    let mut o = no_overrides();
    o.offset = Some(1);
    assert_eq!(standalone_instances(&versions, &o).unwrap_err(), ResolveError::OffsetNotAllowed);
    o.management = Some(1);
    assert_eq!(standalone_instances(&versions, &o).unwrap_err(), ResolveError::ManagementNotAllowed);
    o.http = Some(1);
    assert_eq!(
        domain_controller_instances(&versions, &o).unwrap_err(),
        ResolveError::HttpNotAllowed
    );
    o.name = Some("x".to_string());
    assert_eq!(standalone_instances(&versions, &o).unwrap_err(), ResolveError::NameNotAllowed);
}

#[test]
fn resolve_port_out_of_range() {
    let versions = vec![version(10, 8100, 9100)];
    let mut o = no_overrides();
    o.offset = Some(60000);
    assert_eq!(standalone_instances(&versions, &o).unwrap_err(), ResolveError::OutOfRange);
    let many = vec![version(10, 30000, 30000); 3];
    assert_eq!(
        standalone_instances(&many, &no_overrides()).unwrap_err(),
        ResolveError::OutOfRange
    );
    let mut p = no_overrides();
    p.http = Some(65535);
    assert!(explicit_ports(&p, &versions[0]).is_ok());
}

#[test]
fn resolve_host_controllers() {
    let v = version(30, 8300, 9300);
    let single = host_controller_instances(&vec![v.clone()], &None, &None).unwrap();
    assert_eq!(single[0].name, "wado-30-hc");
    assert_eq!(single[0].domain_controller, "wado-30-dc");

    let two = vec![v.clone(), v.clone()];
    assert_eq!(
        host_controller_instances(&two, &None, &None).unwrap_err(),
        ResolveError::DomainControllerRequired
    );
    assert_eq!(
        host_controller_instances(&two, &Some("n".to_string()), &Some("dc".to_string()))
            .unwrap_err(),
        ResolveError::NameNotAllowed
    );
    let mixed = vec![v.clone(), version(31, 8310, 9310)];
    assert_eq!(
        host_controller_instances(&mixed, &None, &Some("dc".to_string())).unwrap_err(),
        ResolveError::DomainControllerRequired
    );
    let hcs = host_controller_instances(&two, &None, &Some("dc".to_string())).unwrap();
    assert_eq!(hcs[0].name, "wado-30-hc-0");
    assert_eq!(hcs[1].name, "wado-30-hc-1");
    assert_eq!(hcs[1].domain_controller, "dc");
    assert!(same_versions(&two));
    assert!(!same_versions(&mixed));
}

#[test]
fn unique_names_runs_of_one_unchanged() {
    let v = version(12, 8120, 9120);
    let items = vec![StandaloneInstance::new(
        AdminContainer::standalone(v),
        "a".to_string(),
        Ports { http: 1, management: 2 },
    )];
    assert!(unique_names_fit(&items));
    assert_eq!(ensure_unique_names(&items), items);
}

#[test]
fn unique_names_run_of_three() {
    let v = version(12, 100, 200);
    let item = StandaloneInstance::new(
        AdminContainer::standalone(v),
        "a".to_string(),
        Ports { http: 100, management: 200 },
    );
    let items = vec![item.clone(), item.clone(), item.clone()];
    let out = ensure_unique_names(&items);
    assert_eq!(out[0].name, "a-0");
    assert_eq!(out[1].name, "a-1");
    assert_eq!(out[2].name, "a-2");
    assert_eq!(out[2].ports, Ports { http: 300, management: 600 });
}

#[test]
fn admin_container_selection() {
    let versions = vec![version(20, 8200, 9200), version(21, 8210, 9210)];
    let sa = admin_containers(&versions, true, false);
    assert_eq!(sa.len(), 2);
    assert_eq!(sa[1].server_type, ServerType::Standalone);
    let domain = admin_containers(&versions, false, true);
    assert_eq!(domain.len(), 4);
    assert_eq!(domain[0].server_type, ServerType::DomainController);
    assert_eq!(domain[3].server_type, ServerType::HostController);
    assert_eq!(domain[3].wildfly_container.identifier, 21);
    let all = admin_containers(&versions, false, false);
    assert_eq!(all.len(), 6);
    assert_eq!(all[3].server_type, ServerType::Standalone);
    assert_eq!(all[3].wildfly_container.identifier, 21);
}

#[test]
fn listed_kinds_selection() {
    assert_eq!(list_kinds(true, false), vec![ServerType::Standalone]);
    assert_eq!(
        list_kinds(false, true),
        vec![ServerType::DomainController, ServerType::HostController]
    );
    assert_eq!(list_kinds(false, false).len(), 3);
    assert_eq!(list_kinds(true, true).len(), 3);
}
