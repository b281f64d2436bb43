//! What the container runtime is asked, and how its answers are read:
//! command arguments, container listings and published ports.
use vstd::prelude::*;
use crate::server::{add_server_op_spec, Server};
use crate::text::{
    chars_of, dec, join, parse_u16, parse_u16_spec, push_decimal, push_joined, push_str,
    split_chars, split_on, string_of, string_views, views,
};
use crate::wildfly::{
    cli_config_url_spec, cli_jar_url_spec, label_lookup, parse_identifier_spec, AdminContainer,
    ManagementClient, Ports, ServerType, VersionRef, WILDFLY_ADMIN_CONTAINER,
};

verus! {

broadcast use vstd::string::group_string_axioms;

/// Label that marks the containers of this tool.
pub const LABEL_NAME: &'static str = "org.wildfly.wado.id";

/// Environment variable with the bootstrap operations of a container.
pub const BOOTSTRAP_OPERATIONS_VARIABLE: &'static str = "WADO_BOOTSTRAP_OPERATIONS";

/// Environment variable with the operations that add servers to a host.
pub const SERVERS_VARIABLE: &'static str = "WADO_SERVERS";

/// Environment variable with the host name of a controller.
pub const HOSTNAME_VARIABLE: &'static str = "WADO_HOSTNAME";

/// Environment variable with the domain controller that a host joins.
pub const DOMAIN_CONTROLLER_VARIABLE: &'static str = "WADO_DOMAIN_CONTROLLER";

/// Secret argument that hands the management user name to a host controller.
pub const USERNAME_SECRET: &'static str = "--secret=username,type=env,target=WADO_USERNAME";

/// Secret argument that hands the management password to a host controller.
pub const PASSWORD_SECRET: &'static str = "--secret=password,type=env,target=WADO_PASSWORD";

// ------------------------------------------------------ running containers

/// A running container of this tool, as the runtime lists it.
#[derive(Debug, PartialEq, Eq)]
pub struct ContainerInstance {
    pub admin_container: AdminContainer,
    pub running: bool,
    pub container_id: String,
    pub name: String,
    pub ports: Option<Ports>,
    pub status: String,
}

impl Clone for ContainerInstance {
    fn clone(&self) -> (r: Self)
        ensures
            r == *self,
    {
        ContainerInstance {
            admin_container: self.admin_container.clone(),
            running: self.running,
            container_id: self.container_id.clone(),
            name: self.name.clone(),
            ports: self.ports,
            status: self.status.clone(),
        }
    }
}

/// A container label that names no known version and kind.
#[derive(Debug, PartialEq, Eq)]
pub struct InvalidIdentifier {
    pub identifier: String,
}

/// Whether `r` is the instance made from a listing row's fields: its label
/// resolves against the catalog, it is running, and its ports are the
/// version's defaults until they are inspected.
pub open spec fn instance_from(
    label: Seq<char>,
    id: Seq<char>,
    name: Seq<char>,
    status: Seq<char>,
    catalog: Seq<VersionRef>,
    r: Result<ContainerInstance, InvalidIdentifier>,
) -> bool {
    match r {
        Ok(ci) => {
            &&& label_lookup(label, catalog, Some(ci.admin_container))
            &&& ci.running
            &&& ci.container_id@ == id
            &&& ci.name@ == name
            &&& ci.status@ == status
            &&& ci.ports == Some(
                Ports {
                    http: ci.admin_container.wildfly_container.http_port,
                    management: ci.admin_container.wildfly_container.management_port,
                },
            )
        },
        Err(e) => label_lookup(label, catalog, None) && e.identifier@ == label,
    }
}

impl ContainerInstance {
    /// The instance of a listing row, or an error where its label names no
    /// version of the catalog.
    pub fn new(
        identifier: &str,
        container_id: &str,
        name: &str,
        status: &str,
        catalog: &Vec<VersionRef>,
    ) -> (r: Result<ContainerInstance, InvalidIdentifier>)
        ensures
            instance_from(identifier@, container_id@, name@, status@, catalog@, r),
    {
        let label = chars_of(identifier);
        match AdminContainer::from_identifier_chars(&label, catalog) {
            Some(admin_container) => {
                let ports = Ports::default_ports(&admin_container.wildfly_container);
                Ok(ContainerInstance {
                    admin_container,
                    running: true,
                    container_id: String::from_str(container_id),
                    name: String::from_str(name),
                    ports: Some(ports),
                    status: String::from_str(status),
                })
            },
            None => Err(InvalidIdentifier { identifier: String::from_str(identifier) }),
        }
    }
}

impl ManagementClient {
    /// A client of a running instance's version on that version's default
    /// management port.
    pub fn from_container_instance(container_instance: &ContainerInstance) -> (r: ManagementClient)
        ensures
            r.wildfly_container == container_instance.admin_container.wildfly_container,
            r.management_port
                == container_instance.admin_container.wildfly_container.management_port,
            r.cli_jar_url@ == cli_jar_url_spec(
                container_instance.admin_container.wildfly_container.core_version@,
            ),
            r.cli_config_url@ == cli_config_url_spec(
                container_instance.admin_container.wildfly_container.core_version@,
            ),
    {
        ManagementClient::default_port(&container_instance.admin_container.wildfly_container)
    }
}

/// Whether a listing row `ID|label|names|status` gives `r`: rows without
/// exactly four fields, or with an unknown label, give nothing.
pub open spec fn row_instance(row: Seq<char>, catalog: Seq<VersionRef>, r: Option<ContainerInstance>) -> bool {
    let p = split_on(row, '|');
    if p.len() != 4 {
        r is None
    } else {
        match r {
            Some(ci) => instance_from(p[1], p[0], p[2], p[3], catalog, Ok(ci)),
            None => label_lookup(p[1], catalog, None),
        }
    }
}

/// Reads one row of the runtime's container listing.
pub fn parse_ps_line(row: &str, catalog: &Vec<VersionRef>) -> (r: Option<ContainerInstance>)
    ensures
        row_instance(row@, catalog@, r),
{
    let chars = chars_of(row);
    let p = split_chars(&chars, '|');
    if p.len() != 4 {
        return None;
    }
    proof {
        assert(views(p@)[0] == p@[0]@);
        assert(views(p@)[1] == p@[1]@);
        assert(views(p@)[2] == p@[2]@);
        assert(views(p@)[3] == p@[3]@);
    }
    match AdminContainer::from_identifier_chars(&p[1], catalog) {
        Some(admin_container) => {
            let ports = Ports::default_ports(&admin_container.wildfly_container);
            Some(ContainerInstance {
                admin_container,
                running: true,
                container_id: string_of(&p[0]),
                name: string_of(&p[2]),
                ports: Some(ports),
                status: string_of(&p[3]),
            })
        },
        None => None,
    }
}

/// Whether an instance passes the filters of a listing: one of the kinds,
/// one of the versions if any are given, and the name if one is given.
pub open spec fn selected(
    ci: ContainerInstance,
    server_types: Seq<ServerType>,
    versions: Option<Seq<u16>>,
    name: Option<Seq<char>>,
) -> bool {
    &&& server_types.contains(ci.admin_container.server_type)
    &&& match versions {
        Some(v) => v.contains(ci.admin_container.wildfly_container.identifier),
        None => true,
    }
    &&& match name {
        Some(n) => ci.name@ == n,
        None => true,
    }
}

fn contains_type(types: &Vec<ServerType>, t: ServerType) -> (r: bool)
    ensures
        r == types@.contains(t),
{
    for i in 0..types.len()
        invariant
            forall|j: int| 0 <= j < i ==> types@[j] != t,
    {
        if types[i] == t {
            return true;
        }
    }
    false
}

fn contains_id(ids: &Vec<u16>, id: u16) -> (r: bool)
    ensures
        r == ids@.contains(id),
{
    for i in 0..ids.len()
        invariant
            forall|j: int| 0 <= j < i ==> ids@[j] != id,
    {
        if ids[i] == id {
            return true;
        }
    }
    false
}

/// Whether an instance passes the filters of a listing.
pub fn instance_selected(
    ci: &ContainerInstance,
    server_types: &Vec<ServerType>,
    versions: &Option<Vec<u16>>,
    name: &Option<String>,
) -> (r: bool)
    ensures
        r == selected(
            *ci,
            server_types@,
            match versions {
                Some(v) => Some(v@),
                None => None,
            },
            match name {
                Some(n) => Some(n@),
                None => None,
            },
        ),
{
    if !contains_type(server_types, ci.admin_container.server_type) {
        return false;
    }
    match versions {
        Some(v) => {
            if !contains_id(v, ci.admin_container.wildfly_container.identifier) {
                return false;
            }
        },
        None => {},
    }
    match name {
        Some(n) => ci.name == *n,
        None => true,
    }
}

/// Whether a listing row gives an instance that passes the filters.
pub open spec fn row_selected(
    row: Seq<char>,
    catalog: Seq<VersionRef>,
    server_types: Seq<ServerType>,
    versions: Option<Seq<u16>>,
    name: Option<Seq<char>>,
) -> bool {
    let p = split_on(row, '|');
    p.len() == 4 && match parse_identifier_spec(p[1]) {
        None => false,
        Some((id, kind)) => {
            &&& exists|k: int| 0 <= k < catalog.len() && #[trigger] catalog[k].identifier == id
            &&& server_types.contains(kind)
            &&& match versions {
                Some(v) => v.contains(id),
                None => true,
            }
            &&& match name {
                Some(n) => p[2] == n,
                None => true,
            }
        },
    }
}

/// The positions of the rows that give a selected instance, in order.
pub open spec fn selected_rows(
    rows: Seq<String>,
    catalog: Seq<VersionRef>,
    server_types: Seq<ServerType>,
    versions: Option<Seq<u16>>,
    name: Option<Seq<char>>,
) -> Seq<int> {
    Seq::new(rows.len(), |i: int| i).filter(
        |i: int| row_selected(rows[i]@, catalog, server_types, versions, name),
    )
}

pub open spec fn opt_view_ids(v: Option<Vec<u16>>) -> Option<Seq<u16>> {
    match v {
        Some(x) => Some(x@),
        None => None,
    }
}

pub open spec fn opt_view_name(n: Option<String>) -> Option<Seq<char>> {
    match n {
        Some(x) => Some(x@),
        None => None,
    }
}

/// Reads the runtime's container listing, one row per line, and keeps the
/// instances that pass the filters, in the order of the rows.
pub fn container_ps(
    rows: &Vec<String>,
    catalog: &Vec<VersionRef>,
    server_types: &Vec<ServerType>,
    versions: &Option<Vec<u16>>,
    name: &Option<String>,
) -> (r: Vec<ContainerInstance>)
    ensures
        ({
            let sel = selected_rows(
                rows@,
                catalog@,
                server_types@,
                opt_view_ids(*versions),
                opt_view_name(*name),
            );
            &&& r.len() == sel.len()
            &&& forall|k: int|
                0 <= k < r.len() ==> row_instance(rows@[sel[k]]@, catalog@, Some(#[trigger] r@[k]))
        }),
{
    let ghost vs = opt_view_ids(*versions);
    let ghost ns = opt_view_name(*name);
    let ghost pred = |i: int| row_selected(rows@[i]@, catalog@, server_types@, vs, ns);
    let mut out: Vec<ContainerInstance> = Vec::new();
    for i in 0..rows.len()
        invariant
            vs == opt_view_ids(*versions),
            ns == opt_view_name(*name),
            pred == (|i: int| row_selected(rows@[i]@, catalog@, server_types@, vs, ns)),
            out.len() == Seq::new(i as nat, |j: int| j).filter(pred).len(),
            forall|k: int|
                0 <= k < out.len() ==> row_instance(
                    rows@[Seq::new(i as nat, |j: int| j).filter(pred)[k]]@,
                    catalog@,
                    Some(#[trigger] out@[k]),
                ),
    {
        let ghost before = Seq::new(i as nat, |j: int| j);
        proof {
            assert(Seq::new((i + 1) as nat, |j: int| j) =~= before.push(i as int));
            before.lemma_filter_push(i as int, pred);
        }
        let ghost row = rows@[i as int]@;
        let ghost p = split_on(row, '|');
        match parse_ps_line(rows[i].as_str(), catalog) {
            Some(ci) => {
                let keep = instance_selected(&ci, server_types, versions, name);
                proof {
                    let (id, kind) = parse_identifier_spec(p[1])->0;
                    let k = choose|k: int|
                        0 <= k < catalog.len() && catalog@[k] == ci.admin_container.wildfly_container
                            && catalog@[k].identifier == id && forall|j: int|
                            0 <= j < k ==> #[trigger] catalog@[j].identifier != id;
                    assert(keep == pred(i as int));
                }
                if keep {
                    out.push(ci);
                }
            },
            None => {
                assert(!pred(i as int));
            },
        }
    }
    proof {
        assert(Seq::new(rows.len() as nat, |j: int| j) =~= Seq::new(rows@.len(), |i: int| i));
    }
    out
}

/// What the inspection of a container's ports says: `Ok(Some(_))` for two
/// ports `http|management`, `Ok(None)` for any other number of fields,
/// which leaves the ports as they were, and an error for a field that is
/// not a port.
pub open spec fn port_mapping_spec(text: Seq<char>) -> Result<Option<Ports>, ()> {
    let p = split_on(text, '|');
    if p.len() != 2 {
        Ok(None)
    } else if parse_u16_spec(p[0]) is None || parse_u16_spec(p[1]) is None {
        Err(())
    } else {
        Ok(Some(Ports { http: parse_u16_spec(p[0])->0, management: parse_u16_spec(p[1])->0 }))
    }
}

/// Reads the published ports from the (trimmed) output of an inspection.
pub fn parse_port_mapping(text: &str) -> (r: Result<Option<Ports>, ()>)
    ensures
        r == port_mapping_spec(text@),
{
    let chars = chars_of(text);
    let p = split_chars(&chars, '|');
    if p.len() != 2 {
        return Ok(None);
    }
    proof {
        assert(views(p@)[0] == p@[0]@);
        assert(views(p@)[1] == p@[1]@);
    }
    match (parse_u16(&p[0]), parse_u16(&p[1])) {
        (Some(http), Some(management)) => Ok(Some(Ports { http, management })),
        _ => Err(()),
    }
}

// ------------------------------------------------------ commands

/// The arguments of a `run` command for container `name`: detached,
/// removed on exit, publishing the ports if given, and with the bootstrap
/// operations if there are any.
pub open spec fn container_run_spec(name: Seq<char>, ports: Option<Ports>, operations: Seq<Seq<char>>) -> Seq<Seq<char>> {
    seq!["run"@, "--rm"@, "--detach"@, "--name"@, name] + match ports {
        Some(p) => seq![
            "--publish"@,
            dec(p.http as nat) + ":8080"@,
            "--publish"@,
            dec(p.management as nat) + ":9990"@,
        ],
        None => Seq::<Seq<char>>::empty(),
    } + if operations.len() > 0 {
        seq!["--env"@, BOOTSTRAP_OPERATIONS_VARIABLE@ + "="@ + join(operations, ","@)]
    } else {
        Seq::<Seq<char>>::empty()
    }
}

fn literal(s: &str) -> (r: String)
    ensures
        r@ == s@,
{
    String::from_str(s)
}

fn port_mapping(port: u16, target: &str) -> (r: String)
    ensures
        r@ == dec(port as nat) + target@,
{
    let mut r = String::new();
    push_decimal(&mut r, port as u64);
    push_str(&mut r, target);
    r
}

/// The arguments of a `run` command for container `name`.
pub fn container_run(name: &str, ports: Option<Ports>, operations: &Vec<String>) -> (r: Vec<String>)
    ensures
        string_views(r@) == container_run_spec(name@, ports, string_views(operations@)),
{
    let mut r: Vec<String> = Vec::new();
    r.push(literal("run"));
    r.push(literal("--rm"));
    r.push(literal("--detach"));
    r.push(literal("--name"));
    r.push(literal(name));
    let ghost head = string_views(r@);
    assert(head =~= seq!["run"@, "--rm"@, "--detach"@, "--name"@, name@]);
    match ports {
        Some(p) => {
            r.push(literal("--publish"));
            r.push(port_mapping(p.http, ":8080"));
            r.push(literal("--publish"));
            r.push(port_mapping(p.management, ":9990"));
        },
        None => {},
    }
    let ghost middle = string_views(r@);
    assert(middle =~= head + match ports {
        Some(p) => seq![
            "--publish"@,
            dec(p.http as nat) + ":8080"@,
            "--publish"@,
            dec(p.management as nat) + ":9990"@,
        ],
        None => Seq::<Seq<char>>::empty(),
    });
    if operations.len() > 0 {
        let mut env = String::new();
        push_str(&mut env, BOOTSTRAP_OPERATIONS_VARIABLE);
        push_str(&mut env, "=");
        push_joined(&mut env, operations, ",");
        r.push(literal("--env"));
        r.push(env);
        assert(string_views(r@) =~= middle + seq!["--env"@, env@]);
    } else {
        assert(string_views(r@) =~= middle);
    }
    assert(string_views(r@) =~= container_run_spec(name@, ports, string_views(operations@)));
    r
}

/// The operations that add each server to host `hostname`.
pub open spec fn server_ops(servers: Seq<Server>, hostname: Seq<char>) -> Seq<Seq<char>> {
    Seq::new(servers.len(), |i: int| add_server_op_spec(servers[i], hostname))
}

/// The environment entry that adds `servers` to host `hostname`, or `None`
/// when there are no servers.
pub open spec fn add_servers_spec(hostname: Seq<char>, servers: Seq<Server>) -> Option<Seq<char>> {
    if servers.len() == 0 {
        None
    } else {
        Some(
            SERVERS_VARIABLE@ + "="@ + join(server_ops(servers, hostname), ","@),
        )
    }
}

/// The environment entry that adds `servers` to host `hostname`.
pub fn add_servers(hostname: &str, servers: &Vec<Server>) -> (r: Option<String>)
    ensures
        match r {
            Some(e) => add_servers_spec(hostname@, servers@) == Some(e@),
            None => add_servers_spec(hostname@, servers@) is None,
        },
{
    if servers.len() == 0 {
        return None;
    }
    let mut ops: Vec<String> = Vec::new();
    for i in 0..servers.len()
        invariant
            ops.len() == i,
            string_views(ops@) == server_ops(servers@.take(i as int), hostname@),
    {
        let ghost before = ops@;
        let op = servers[i].add_server_op(hostname);
        assert(op@ == add_server_op_spec(servers@[i as int], hostname@));
        ops.push(op);
        assert forall|j: int| 0 <= j < i + 1 implies #[trigger] string_views(ops@)[j] == server_ops(
            servers@.take(i + 1),
            hostname@,
        )[j] by {
            if j < i {
                assert(ops@[j] == before[j]);
                assert(string_views(before)[j] == server_ops(servers@.take(i as int), hostname@)[j]);
            }
        }
        assert(string_views(ops@) =~= server_ops(servers@.take(i + 1), hostname@));
    }
    assert(servers@.take(servers.len() as int) =~= servers@);
    let mut env = String::new();
    push_str(&mut env, SERVERS_VARIABLE);
    push_str(&mut env, "=");
    push_joined(&mut env, &ops, ",");
    Some(env)
}

/// The arguments of a `push` of `image`: a manifest push for images built
/// for several platforms.
pub open spec fn push_arguments_spec(image: Seq<char>, multi_platform: bool) -> Seq<Seq<char>> {
    (if multi_platform {
        seq!["manifest"@]
    } else {
        Seq::<Seq<char>>::empty()
    }) + seq!["push"@, image]
}

/// The arguments of a `push` of `image`.
pub fn push_arguments(image: &str, multi_platform: bool) -> (r: Vec<String>)
    ensures
        string_views(r@) == push_arguments_spec(image@, multi_platform),
{
    let mut r: Vec<String> = Vec::new();
    if multi_platform {
        r.push(literal("manifest"));
    }
    r.push(literal("push"));
    r.push(literal(image));
    assert(string_views(r@) =~= push_arguments_spec(image@, multi_platform));
    r
}

/// `--env` with the entry that adds the servers, when there are any.
pub open spec fn servers_arguments_spec(hostname: Seq<char>, servers: Seq<Server>) -> Seq<Seq<char>> {
    match add_servers_spec(hostname, servers) {
        Some(e) => seq!["--env"@, e],
        None => Seq::<Seq<char>>::empty(),
    }
}

/// `<variable>=<value>`.
fn env_entry(variable: &str, value: &str) -> (r: String)
    ensures
        r@ == variable@ + "="@ + value@,
{
    let mut r = String::new();
    push_str(&mut r, variable);
    push_str(&mut r, "=");
    push_str(&mut r, value);
    r
}

fn push_servers_arguments(r: &mut Vec<String>, hostname: &str, servers: &Vec<Server>)
    ensures
        string_views(final(r)@) == string_views(old(r)@) + servers_arguments_spec(
            hostname@,
            servers@,
        ),
{
    let ghost before = string_views(r@);
    match add_servers(hostname, servers) {
        Some(e) => {
            r.push(literal("--env"));
            r.push(e);
            assert(string_views(r@) =~= before + servers_arguments_spec(hostname@, servers@));
        },
        None => {
            assert(string_views(r@) =~= before + servers_arguments_spec(hostname@, servers@));
        },
    }
}

/// The extra `run` arguments of domain controller `name`: the tool's
/// network, its host name, and the servers to add.
pub open spec fn domain_controller_arguments_spec(name: Seq<char>, servers: Seq<Server>) -> Seq<
    Seq<char>,
> {
    seq![
        "--network"@,
        WILDFLY_ADMIN_CONTAINER@,
        "--env"@,
        HOSTNAME_VARIABLE@ + "="@ + name,
    ] + servers_arguments_spec(name, servers)
}

/// The extra `run` arguments of domain controller `name`.
pub fn domain_controller_arguments(name: &str, servers: &Vec<Server>) -> (r: Vec<String>)
    ensures
        string_views(r@) == domain_controller_arguments_spec(name@, servers@),
{
    let mut r: Vec<String> = Vec::new();
    r.push(literal("--network"));
    r.push(literal(WILDFLY_ADMIN_CONTAINER));
    r.push(literal("--env"));
    r.push(env_entry(HOSTNAME_VARIABLE, name));
    assert(string_views(r@) =~= seq![
        "--network"@,
        WILDFLY_ADMIN_CONTAINER@,
        "--env"@,
        HOSTNAME_VARIABLE@ + "="@ + name@,
    ]);
    push_servers_arguments(&mut r, name, servers);
    r
}

/// The extra `run` arguments of host controller `name`: the management
/// user's secrets, the tool's network, its host name, the domain
/// controller it joins, and the servers to add.
pub open spec fn host_controller_arguments_spec(
    name: Seq<char>,
    domain_controller: Seq<char>,
    servers: Seq<Server>,
) -> Seq<Seq<char>> {
    seq![
        USERNAME_SECRET@,
        PASSWORD_SECRET@,
        "--network"@,
        WILDFLY_ADMIN_CONTAINER@,
        "--env"@,
        HOSTNAME_VARIABLE@ + "="@ + name,
        "--env"@,
        DOMAIN_CONTROLLER_VARIABLE@ + "="@ + domain_controller,
    ] + servers_arguments_spec(name, servers)
}

/// The extra `run` arguments of host controller `name`.
pub fn host_controller_arguments(
    name: &str,
    domain_controller: &str,
    servers: &Vec<Server>,
) -> (r: Vec<String>)
    ensures
        string_views(r@) == host_controller_arguments_spec(name@, domain_controller@, servers@),
{
    let mut r: Vec<String> = Vec::new();
    r.push(literal(USERNAME_SECRET));
    r.push(literal(PASSWORD_SECRET));
    r.push(literal("--network"));
    r.push(literal(WILDFLY_ADMIN_CONTAINER));
    r.push(literal("--env"));
    r.push(env_entry(HOSTNAME_VARIABLE, name));
    r.push(literal("--env"));
    r.push(env_entry(DOMAIN_CONTROLLER_VARIABLE, domain_controller));
    assert(string_views(r@) =~= seq![
        USERNAME_SECRET@,
        PASSWORD_SECRET@,
        "--network"@,
        WILDFLY_ADMIN_CONTAINER@,
        "--env"@,
        HOSTNAME_VARIABLE@ + "="@ + name@,
        "--env"@,
        DOMAIN_CONTROLLER_VARIABLE@ + "="@ + domain_controller@,
    ]);
    push_servers_arguments(&mut r, name, servers);
    r
}

// ------------------------------------------------------ single instance

/// Why a lookup that needs exactly one running instance failed.
#[derive(Clone, Copy, Debug, PartialEq, Eq, Structural)]
pub enum InstanceLookupError {
    NoContainer,
    MultipleContainers,
}

/// The one instance of a listing, or why there is not exactly one.
pub fn get_instance(instances: Vec<ContainerInstance>) -> (r: Result<
    ContainerInstance,
    InstanceLookupError,
>)
    ensures
        instances.len() == 0 ==> r == Err::<ContainerInstance, InstanceLookupError>(
            InstanceLookupError::NoContainer,
        ),
        instances.len() > 1 ==> r == Err::<ContainerInstance, InstanceLookupError>(
            InstanceLookupError::MultipleContainers,
        ),
        instances.len() == 1 ==> r == Ok::<ContainerInstance, InstanceLookupError>(instances@[0]),
{
    let mut instances = instances;
    if instances.len() == 0 {
        Err(InstanceLookupError::NoContainer)
    } else if instances.len() > 1 {
        Err(InstanceLookupError::MultipleContainers)
    } else {
        Ok(instances.remove(0))
    }
}

// ------------------------------------------------------ operations

/// The operations of all arguments, each argument split at its commas.
pub open spec fn split_operations_spec(arguments: Seq<Seq<char>>) -> Seq<Seq<char>>
    decreases arguments.len(),
{
    if arguments.len() == 0 {
        Seq::empty()
    } else {
        split_operations_spec(arguments.drop_last()) + split_on(arguments.last(), ',')
    }
}

/// Splits each operations argument at its commas, keeping the order.
pub fn split_operations(arguments: &Vec<String>) -> (r: Vec<String>)
    ensures
        string_views(r@) == split_operations_spec(string_views(arguments@)),
{
    let mut r: Vec<String> = Vec::new();
    for i in 0..arguments.len()
        invariant
            string_views(r@) == split_operations_spec(string_views(arguments@.take(i as int))),
    {
        let chars = chars_of(arguments[i].as_str());
        let pieces = split_chars(&chars, ',');
        let ghost before = string_views(r@);
        assert(r.len() == before.len());
        for j in 0..pieces.len()
            invariant
                r.len() == before.len() + j,
                string_views(r@) == before + views(pieces@).take(j as int),
        {
            let ghost prev = r@;
            let piece = string_of(&pieces[j]);
            assert(piece@ == views(pieces@)[j as int]);
            r.push(piece);
            assert forall|k: int| 0 <= k < r.len() implies #[trigger] string_views(r@)[k] == (before
                + views(pieces@).take(j + 1))[k] by {
                if k < prev.len() {
                    assert(r@[k] == prev[k]);
                    assert(string_views(prev)[k] == (before + views(pieces@).take(j as int))[k]);
                }
            }
            assert(string_views(r@) =~= before + views(pieces@).take(j + 1));
        }
        proof {
            assert(views(pieces@).take(pieces.len() as int) =~= views(pieces@));
            assert(string_views(arguments@.take(i + 1)).drop_last() =~= string_views(
                arguments@.take(i as int),
            ));
            assert(string_views(arguments@.take(i + 1)).last() == arguments@[i as int]@);
        }
    }
    assert(arguments@.take(arguments.len() as int) =~= arguments@);
    r
}

} // verus!
