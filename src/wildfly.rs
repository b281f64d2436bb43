//! Versions, server kinds, admin containers, ports and the instance types
//! that a run starts.
use vstd::prelude::*;
use crate::text::{
    chars_of, dec, decimal, eq_chars, parse_u16, parse_u16_spec, push_decimal, push_str,
    split_chars, split_on, views,
};

verus! {

broadcast use vstd::string::group_string_axioms;

/// Name of the admin containers, and prefix of their container names.
pub const WILDFLY_ADMIN_CONTAINER: &'static str = "wado";

/// Repository that the admin container images are pushed to.
pub const WILDFLY_ADMIN_CONTAINER_REPOSITORY: &'static str = "quay.io/wado";

// ------------------------------------------------------ server type

/// The kind of server that an admin container runs.
#[derive(Clone, Copy, Debug, PartialEq, Eq, Structural, PartialOrd, Ord, Hash)]
pub enum ServerType {
    Standalone,
    DomainController,
    HostController,
}

pub open spec fn short_name_spec(t: ServerType) -> Seq<char> {
    match t {
        ServerType::Standalone => "sa"@,
        ServerType::DomainController => "dc"@,
        ServerType::HostController => "hc"@,
    }
}

impl ServerType {
    /// The two-letter tag of the kind: `sa`, `dc` or `hc`.
    pub fn short_name(&self) -> (r: &'static str)
        ensures
            r@ == short_name_spec(*self),
    {
        match self {
            ServerType::Standalone => "sa",
            ServerType::DomainController => "dc",
            ServerType::HostController => "hc",
        }
    }

    /// The kind whose tag is exactly `input`.
    pub fn from_short_name(input: &str) -> (r: Option<ServerType>)
        ensures
            r == parse_server_type_spec(input@),
    {
        let chars = chars_of(input);
        ServerType::from_short_name_chars(&chars)
    }

    fn from_short_name_chars(input: &Vec<char>) -> (r: Option<ServerType>)
        ensures
            r == parse_server_type_spec(input@),
    {
        if eq_chars(input, "sa") {
            Some(ServerType::Standalone)
        } else if eq_chars(input, "dc") {
            Some(ServerType::DomainController)
        } else if eq_chars(input, "hc") {
            Some(ServerType::HostController)
        } else {
            None
        }
    }
}

pub open spec fn parse_server_type_spec(s: Seq<char>) -> Option<ServerType> {
    if s == "sa"@ {
        Some(ServerType::Standalone)
    } else if s == "dc"@ {
        Some(ServerType::DomainController)
    } else if s == "hc"@ {
        Some(ServerType::HostController)
    } else {
        None
    }
}

// ------------------------------------------------------ version

/// One product version as the version catalog describes it.
#[derive(Debug, PartialEq, Eq)]
pub struct VersionRef {
    /// Numeric identity of the version, unique within the catalog.
    pub identifier: u16,
    /// Human-readable short form, such as `34`.
    pub short_version: String,
    /// Tag of the admin container image for this version.
    pub image_tag: String,
    /// Version of the server core that this version ships, such as `26.0.0`.
    pub core_version: String,
    /// Default HTTP port.
    pub http_port: u16,
    /// Default management port.
    pub management_port: u16,
    /// Whether images are built for several platforms.
    pub multi_platform: bool,
    /// Whether this is a floating development build.
    pub development: bool,
}

impl Clone for VersionRef {
    fn clone(&self) -> (r: Self)
        ensures
            r == *self,
    {
        VersionRef {
            identifier: self.identifier,
            short_version: self.short_version.clone(),
            image_tag: self.image_tag.clone(),
            core_version: self.core_version.clone(),
            http_port: self.http_port,
            management_port: self.management_port,
            multi_platform: self.multi_platform,
            development: self.development,
        }
    }
}

impl VersionRef {
    /// Whether this is a floating development build.
    pub fn is_dev(&self) -> (r: bool)
        ensures
            r == self.development,
    {
        self.development
    }
}

// ------------------------------------------------------ admin container

/// The identity of an instance: a version together with a server kind.
#[derive(Debug, PartialEq, Eq)]
pub struct AdminContainer {
    pub wildfly_container: VersionRef,
    pub server_type: ServerType,
}

impl Clone for AdminContainer {
    fn clone(&self) -> (r: Self)
        ensures
            r == *self,
    {
        AdminContainer {
            wildfly_container: self.wildfly_container.clone(),
            server_type: self.server_type,
        }
    }
}

/// `<version identifier>-<kind tag>`, as in `34-sa`.
pub open spec fn identifier_spec(identifier: u16, t: ServerType) -> Seq<char> {
    dec(identifier as nat) + "-"@ + short_name_spec(t)
}

/// `wado-<identifier>`.
pub open spec fn container_name_spec(identifier: u16, t: ServerType) -> Seq<char> {
    WILDFLY_ADMIN_CONTAINER@ + "-"@ + identifier_spec(identifier, t)
}

/// `quay.io/wado/wado-<kind tag>:<image tag>`.
pub open spec fn image_name_spec(t: ServerType, tag: Seq<char>) -> Seq<char> {
    WILDFLY_ADMIN_CONTAINER_REPOSITORY@ + "/"@ + WILDFLY_ADMIN_CONTAINER@ + "-"@
        + short_name_spec(t) + ":"@ + tag
}

/// The version identifier and server kind that a container label names:
/// exactly two pieces around one `-`, a `u16` and a kind tag.
pub open spec fn parse_identifier_spec(s: Seq<char>) -> Option<(u16, ServerType)> {
    let parts = split_on(s, '-');
    if parts.len() == 2 && parse_u16_spec(parts[0]) is Some && parse_server_type_spec(
        parts[1],
    ) is Some {
        Some((parse_u16_spec(parts[0])->0, parse_server_type_spec(parts[1])->0))
    } else {
        None
    }
}

/// Parses a container label of the form `<version identifier>-<kind tag>`.
pub fn parse_identifier(identifier: &str) -> (r: Option<(u16, ServerType)>)
    ensures
        r == parse_identifier_spec(identifier@),
{
    let chars = chars_of(identifier);
    parse_identifier_chars(&chars)
}

fn parse_identifier_chars(chars: &Vec<char>) -> (r: Option<(u16, ServerType)>)
    ensures
        r == parse_identifier_spec(chars@),
{
    let parts = split_chars(chars, '-');
    if parts.len() != 2 {
        return None;
    }
    let number = parse_u16(&parts[0]);
    let kind = ServerType::from_short_name_chars(&parts[1]);
    proof {
        assert(views(parts@)[0] == parts@[0]@);
        assert(views(parts@)[1] == parts@[1]@);
    }
    match (number, kind) {
        (Some(n), Some(k)) => Some((n, k)),
        _ => None,
    }
}

/// Whether `r` is what a container label resolves to against the catalog:
/// `None` when the label does not parse or no entry carries its version
/// identifier; else the label's kind with the first such entry.
pub open spec fn label_lookup(label: Seq<char>, catalog: Seq<VersionRef>, r: Option<AdminContainer>) -> bool {
    &&& r is None <==> match parse_identifier_spec(label) {
        None => true,
        Some((id, _)) => forall|k: int|
            0 <= k < catalog.len() ==> #[trigger] catalog[k].identifier != id,
    }
    &&& r matches Some(ac) ==> {
        let (id, kind) = parse_identifier_spec(label)->0;
        &&& ac.server_type == kind
        &&& exists|k: int|
            0 <= k < catalog.len() && catalog[k] == ac.wildfly_container && catalog[k].identifier
                == id && forall|j: int| 0 <= j < k ==> #[trigger] catalog[j].identifier != id
    }
}

impl AdminContainer {
    pub fn standalone(wildfly_container: VersionRef) -> (r: AdminContainer)
        ensures
            r.wildfly_container == wildfly_container,
            r.server_type == ServerType::Standalone,
    {
        AdminContainer { wildfly_container, server_type: ServerType::Standalone }
    }

    pub fn domain_controller(wildfly_container: VersionRef) -> (r: AdminContainer)
        ensures
            r.wildfly_container == wildfly_container,
            r.server_type == ServerType::DomainController,
    {
        AdminContainer { wildfly_container, server_type: ServerType::DomainController }
    }

    pub fn host_controller(wildfly_container: VersionRef) -> (r: AdminContainer)
        ensures
            r.wildfly_container == wildfly_container,
            r.server_type == ServerType::HostController,
    {
        AdminContainer { wildfly_container, server_type: ServerType::HostController }
    }

    /// A domain controller and a host controller of one version.
    pub fn domain(wildfly_container: VersionRef) -> (r: Vec<AdminContainer>)
        ensures
            r@ == seq![
                AdminContainer { wildfly_container, server_type: ServerType::DomainController },
                AdminContainer { wildfly_container, server_type: ServerType::HostController },
            ],
    {
        let mut r = Vec::new();
        r.push(AdminContainer::domain_controller(wildfly_container.clone()));
        r.push(AdminContainer::host_controller(wildfly_container));
        assert(r@ =~= seq![
            AdminContainer { wildfly_container, server_type: ServerType::DomainController },
            AdminContainer { wildfly_container, server_type: ServerType::HostController },
        ]);
        r
    }

    /// One admin container of each kind for one version.
    pub fn all_types(wildfly_container: VersionRef) -> (r: Vec<AdminContainer>)
        ensures
            r@ == seq![
                AdminContainer { wildfly_container, server_type: ServerType::Standalone },
                AdminContainer { wildfly_container, server_type: ServerType::DomainController },
                AdminContainer { wildfly_container, server_type: ServerType::HostController },
            ],
    {
        let mut r = Vec::new();
        r.push(AdminContainer::standalone(wildfly_container.clone()));
        r.push(AdminContainer::domain_controller(wildfly_container.clone()));
        r.push(AdminContainer::host_controller(wildfly_container));
        assert(r@ =~= seq![
            AdminContainer { wildfly_container, server_type: ServerType::Standalone },
            AdminContainer { wildfly_container, server_type: ServerType::DomainController },
            AdminContainer { wildfly_container, server_type: ServerType::HostController },
        ]);
        r
    }

    /// Resolves a container label against the version catalog: the label's
    /// kind, with the first catalog entry that carries the label's version
    /// identifier.
    pub fn from_identifier(identifier: &str, catalog: &Vec<VersionRef>) -> (r: Option<
        AdminContainer,
    >)
        ensures
            label_lookup(identifier@, catalog@, r),
    {
        let chars = chars_of(identifier);
        AdminContainer::from_identifier_chars(&chars, catalog)
    }

    pub(crate) fn from_identifier_chars(identifier: &Vec<char>, catalog: &Vec<VersionRef>) -> (r:
        Option<AdminContainer>)
        ensures
            label_lookup(identifier@, catalog@, r),
    {
        match parse_identifier_chars(identifier) {
            None => None,
            Some((id, kind)) => {
                for k in 0..catalog.len()
                    invariant
                        parse_identifier_spec(identifier@) == Some((id, kind)),
                        forall|j: int| 0 <= j < k ==> #[trigger] catalog@[j].identifier != id,
                {
                    if catalog[k].identifier == id {
                        let ac = AdminContainer {
                            wildfly_container: catalog[k].clone(),
                            server_type: kind,
                        };
                        return Some(ac);
                    }
                }
                None
            },
        }
    }

    /// `<version identifier>-<kind tag>`, the label value of its containers.
    pub fn identifier(&self) -> (r: String)
        ensures
            r@ == identifier_spec(self.wildfly_container.identifier, self.server_type),
    {
        let mut r = decimal(self.wildfly_container.identifier as u64);
        push_str(&mut r, "-");
        push_str(&mut r, self.server_type.short_name());
        r
    }

    /// The full name of its image, tag included.
    pub fn image_name(&self) -> (r: String)
        ensures
            r@ == image_name_spec(self.server_type, self.wildfly_container.image_tag@),
    {
        let mut r = String::new();
        push_str(&mut r, WILDFLY_ADMIN_CONTAINER_REPOSITORY);
        push_str(&mut r, "/");
        push_str(&mut r, WILDFLY_ADMIN_CONTAINER);
        push_str(&mut r, "-");
        push_str(&mut r, self.server_type.short_name());
        push_str(&mut r, ":");
        push_str(&mut r, self.wildfly_container.image_tag.as_str());
        r
    }

    /// The default name of a container started from it.
    pub fn container_name(&self) -> (r: String)
        ensures
            r@ == container_name_spec(self.wildfly_container.identifier, self.server_type),
    {
        let mut r = String::new();
        push_str(&mut r, WILDFLY_ADMIN_CONTAINER);
        push_str(&mut r, "-");
        let id = self.identifier();
        push_str(&mut r, id.as_str());
        assert(r@ =~= container_name_spec(self.wildfly_container.identifier, self.server_type));
        r
    }
}

// ------------------------------------------------------ ports

/// The published HTTP and management ports of an instance.
#[derive(Clone, Copy, Debug, PartialEq, Eq, Structural, PartialOrd, Ord, Hash)]
pub struct Ports {
    pub http: u16,
    pub management: u16,
}

impl Ports {
    /// The default ports of a version.
    pub fn default_ports(wildfly_container: &VersionRef) -> (r: Ports)
        ensures
            r == (Ports {
                http: wildfly_container.http_port,
                management: wildfly_container.management_port,
            }),
    {
        Ports { http: wildfly_container.http_port, management: wildfly_container.management_port }
    }

    /// Both ports moved up by `offset`.
    pub fn with_offset(&self, offset: u16) -> (r: Ports)
        requires
            self.http + offset <= u16::MAX,
            self.management + offset <= u16::MAX,
        ensures
            r.http == self.http + offset,
            r.management == self.management + offset,
    {
        Ports { http: self.http + offset, management: self.management + offset }
    }

    /// Whether the ports of the copy with index `index` fit in `u16`.
    pub open spec fn scale_fits(self, index: nat) -> bool {
        &&& index <= u16::MAX
        &&& (index + 1) * self.http <= u16::MAX
        &&& (index + 1) * self.management <= u16::MAX
    }

    /// Each port moved up by `index` times itself.
    pub open spec fn scaled_spec(self, index: nat) -> Ports
        recommends
            self.scale_fits(index),
    {
        Ports {
            http: (self.http + index * self.http) as u16,
            management: (self.management + index * self.management) as u16,
        }
    }

    /// Each port moved up by `index` times itself, which keeps copies of
    /// one instance apart.
    pub fn scaled(&self, index: u16) -> (r: Ports)
        requires
            self.scale_fits(index as nat),
        ensures
            r == self.scaled_spec(index as nat),
    {
        let f = index as u32 + 1;
        proof {
            assert(f * self.http <= u16::MAX);
            assert(f * self.management <= u16::MAX);
        }
        let http = f * (self.http as u32);
        let management = f * (self.management as u32);
        assert(http == self.http + index * self.http) by (nonlinear_arith)
            requires
                http == f * self.http,
                f == index + 1,
        ;
        assert(management == self.management + index * self.management) by (nonlinear_arith)
            requires
                management == f * self.management,
                f == index + 1,
        ;
        Ports { http: http as u16, management: management as u16 }
    }
}

fn can_scale(ports: &Ports, index: u16) -> (r: bool)
    ensures
        r == ports.scale_fits(index as nat),
{
    let f = index as u64 + 1;
    assert(f * ports.http <= 65536 * 65535) by (nonlinear_arith)
        requires
            f <= 65536,
            ports.http <= 65535,
    ;
    assert(f * ports.management <= 65536 * 65535) by (nonlinear_arith)
        requires
            f <= 65536,
            ports.management <= 65535,
    ;
    let http = f * (ports.http as u64);
    let management = f * (ports.management as u64);
    http <= 65535 && management <= 65535
}

// ------------------------------------------------------ instances

/// What the uniqueness pass needs of an instance: its identity, and a copy
/// of it set apart by an index.
pub trait HasWildFlyContainer: Sized {
    /// The version identifier and kind that make up the identity.
    spec fn identity(&self) -> (u16, ServerType);

    /// Whether the copy with this index can be made.
    spec fn copy_fits(&self, index: nat) -> bool;

    /// Whether `other` is the copy of `self` with this index.
    spec fn is_copy(&self, index: nat, other: Self) -> bool;

    fn wildfly_container(&self) -> (r: &VersionRef)
        ensures
            self.identity().0 == r.identifier;

    fn identity_key(&self) -> (r: (u16, ServerType))
        ensures
            r == self.identity();

    /// Whether the copy with this index can be made.
    fn can_copy(&self, index: usize) -> (r: bool)
        ensures
            r == self.copy_fits(index as nat);

    fn indexed_copy(&self, index: usize) -> (r: Self)
        requires
            self.copy_fits(index as nat),
        ensures
            self.is_copy(index as nat, r);

    fn duplicate(&self) -> (r: Self)
        ensures
            r == *self;
}

/// The name of the copy with index `index`: `<name>-<index>`.
pub open spec fn indexed_name(name: Seq<char>, index: nat) -> Seq<char> {
    name + "-"@ + dec(index)
}

fn name_with_index(name: &String, index: u16) -> (r: String)
    ensures
        r@ == indexed_name(name@, index as nat),
{
    let mut r = name.clone();
    push_str(&mut r, "-");
    push_decimal(&mut r, index as u64);
    r
}

/// A standalone server to start.
#[derive(Debug, PartialEq, Eq)]
pub struct StandaloneInstance {
    pub admin_container: AdminContainer,
    pub name: String,
    pub ports: Ports,
}

impl StandaloneInstance {
    pub fn new(admin_container: AdminContainer, name: String, ports: Ports) -> (r:
        StandaloneInstance)
        ensures
            r == (StandaloneInstance { admin_container, name, ports }),
    {
        StandaloneInstance { admin_container, name, ports }
    }

    /// The copy with index `index`: the name gets `-<index>`, each port
    /// grows by `index` times itself.
    pub fn copy(&self, index: u16) -> (r: StandaloneInstance)
        requires
            self.ports.scale_fits(index as nat),
        ensures
            r.admin_container == self.admin_container,
            r.name@ == indexed_name(self.name@, index as nat),
            r.ports == self.ports.scaled_spec(index as nat),
    {
        StandaloneInstance {
            admin_container: self.admin_container.clone(),
            name: name_with_index(&self.name, index),
            ports: self.ports.scaled(index),
        }
    }
}

impl Clone for StandaloneInstance {
    fn clone(&self) -> (r: Self)
        ensures
            r == *self,
    {
        StandaloneInstance {
            admin_container: self.admin_container.clone(),
            name: self.name.clone(),
            ports: self.ports,
        }
    }
}

impl HasWildFlyContainer for StandaloneInstance {
    open spec fn identity(&self) -> (u16, ServerType) {
        (self.admin_container.wildfly_container.identifier, self.admin_container.server_type)
    }

    open spec fn copy_fits(&self, index: nat) -> bool {
        self.ports.scale_fits(index)
    }

    open spec fn is_copy(&self, index: nat, other: Self) -> bool {
        &&& other.admin_container == self.admin_container
        &&& other.name@ == indexed_name(self.name@, index)
        &&& other.ports == self.ports.scaled_spec(index)
    }

    fn wildfly_container(&self) -> (r: &VersionRef) {
        &self.admin_container.wildfly_container
    }

    fn identity_key(&self) -> (r: (u16, ServerType)) {
        (self.admin_container.wildfly_container.identifier, self.admin_container.server_type)
    }

    fn can_copy(&self, index: usize) -> (r: bool) {
        index <= 65535 && can_scale(&self.ports, index as u16)
    }

    fn indexed_copy(&self, index: usize) -> (r: Self) {
        self.copy(index as u16)
    }

    fn duplicate(&self) -> (r: Self) {
        self.clone()
    }
}

/// A domain controller to start.
#[derive(Debug, PartialEq, Eq)]
pub struct DomainController {
    pub admin_container: AdminContainer,
    pub name: String,
    pub ports: Ports,
}

impl DomainController {
    pub fn new(admin_container: AdminContainer, name: String, ports: Ports) -> (r:
        DomainController)
        ensures
            r == (DomainController { admin_container, name, ports }),
    {
        DomainController { admin_container, name, ports }
    }

    /// The copy with index `index`: the name gets `-<index>`, each port
    /// grows by `index` times itself.
    pub fn copy(&self, index: u16) -> (r: DomainController)
        requires
            self.ports.scale_fits(index as nat),
        ensures
            r.admin_container == self.admin_container,
            r.name@ == indexed_name(self.name@, index as nat),
            r.ports == self.ports.scaled_spec(index as nat),
    {
        DomainController {
            admin_container: self.admin_container.clone(),
            name: name_with_index(&self.name, index),
            ports: self.ports.scaled(index),
        }
    }
}

impl Clone for DomainController {
    fn clone(&self) -> (r: Self)
        ensures
            r == *self,
    {
        DomainController {
            admin_container: self.admin_container.clone(),
            name: self.name.clone(),
            ports: self.ports,
        }
    }
}

impl HasWildFlyContainer for DomainController {
    open spec fn identity(&self) -> (u16, ServerType) {
        (self.admin_container.wildfly_container.identifier, self.admin_container.server_type)
    }

    open spec fn copy_fits(&self, index: nat) -> bool {
        self.ports.scale_fits(index)
    }

    open spec fn is_copy(&self, index: nat, other: Self) -> bool {
        &&& other.admin_container == self.admin_container
        &&& other.name@ == indexed_name(self.name@, index)
        &&& other.ports == self.ports.scaled_spec(index)
    }

    fn wildfly_container(&self) -> (r: &VersionRef) {
        &self.admin_container.wildfly_container
    }

    fn identity_key(&self) -> (r: (u16, ServerType)) {
        (self.admin_container.wildfly_container.identifier, self.admin_container.server_type)
    }

    fn can_copy(&self, index: usize) -> (r: bool) {
        index <= 65535 && can_scale(&self.ports, index as u16)
    }

    fn indexed_copy(&self, index: usize) -> (r: Self) {
        self.copy(index as u16)
    }

    fn duplicate(&self) -> (r: Self) {
        self.clone()
    }
}

/// A host controller to start, which joins the domain controller that it
/// names.
#[derive(Debug, PartialEq, Eq)]
pub struct HostController {
    pub admin_container: AdminContainer,
    pub name: String,
    pub domain_controller: String,
}

impl HostController {
    pub fn new(admin_container: AdminContainer, name: String, domain_controller: String) -> (r:
        HostController)
        ensures
            r == (HostController { admin_container, name, domain_controller }),
    {
        HostController { admin_container, name, domain_controller }
    }

    /// The copy with index `index`: the name gets `-<index>`, the domain
    /// controller stays.
    pub fn copy(&self, index: u16) -> (r: HostController)
        ensures
            r.admin_container == self.admin_container,
            r.name@ == indexed_name(self.name@, index as nat),
            r.domain_controller == self.domain_controller,
    {
        HostController {
            admin_container: self.admin_container.clone(),
            name: name_with_index(&self.name, index),
            domain_controller: self.domain_controller.clone(),
        }
    }
}

impl Clone for HostController {
    fn clone(&self) -> (r: Self)
        ensures
            r == *self,
    {
        HostController {
            admin_container: self.admin_container.clone(),
            name: self.name.clone(),
            domain_controller: self.domain_controller.clone(),
        }
    }
}

impl HasWildFlyContainer for HostController {
    open spec fn identity(&self) -> (u16, ServerType) {
        (self.admin_container.wildfly_container.identifier, self.admin_container.server_type)
    }

    open spec fn copy_fits(&self, index: nat) -> bool {
        index <= u16::MAX
    }

    open spec fn is_copy(&self, index: nat, other: Self) -> bool {
        &&& other.admin_container == self.admin_container
        &&& other.name@ == indexed_name(self.name@, index)
        &&& other.domain_controller == self.domain_controller
    }

    fn wildfly_container(&self) -> (r: &VersionRef) {
        &self.admin_container.wildfly_container
    }

    fn identity_key(&self) -> (r: (u16, ServerType)) {
        (self.admin_container.wildfly_container.identifier, self.admin_container.server_type)
    }

    fn can_copy(&self, index: usize) -> (r: bool) {
        index <= 65535
    }

    fn indexed_copy(&self, index: usize) -> (r: Self) {
        self.copy(index as u16)
    }

    fn duplicate(&self) -> (r: Self) {
        self.clone()
    }
}

// ------------------------------------------------------ management client

/// Where the command line client of core version `v` is downloaded from.
pub open spec fn cli_jar_url_spec(v: Seq<char>) -> Seq<char> {
    "https://repo1.maven.org/maven2/org/wildfly/core/wildfly-cli/"@ + v + ".Final/wildfly-cli-"@
        + v + ".Final-client.jar"@
}

/// Where the configuration of the command line client of core version `v`
/// is downloaded from.
pub open spec fn cli_config_url_spec(v: Seq<char>) -> Seq<char> {
    "https://raw.githubusercontent.com/wildfly/wildfly-core/refs/tags/"@ + v
        + ".Final/core-feature-pack/common/src/main/resources/content/bin/jboss-cli.xml"@
}

/// How to reach the management interface of one version.
#[derive(Debug, PartialEq, Eq)]
pub struct ManagementClient {
    pub wildfly_container: VersionRef,
    pub management_port: u16,
    pub cli_jar_url: String,
    pub cli_config_url: String,
}

impl ManagementClient {
    /// A client of `v` on its default management port.
    pub fn default_port(wildfly_container: &VersionRef) -> (r: ManagementClient)
        ensures
            r.wildfly_container == *wildfly_container,
            r.management_port == wildfly_container.management_port,
            r.cli_jar_url@ == cli_jar_url_spec(wildfly_container.core_version@),
            r.cli_config_url@ == cli_config_url_spec(wildfly_container.core_version@),
    {
        ManagementClient::custom_port(wildfly_container, wildfly_container.management_port)
    }

    /// A client of `v` on the given management port.
    pub fn custom_port(wildfly_container: &VersionRef, management_port: u16) -> (r:
        ManagementClient)
        ensures
            r.wildfly_container == *wildfly_container,
            r.management_port == management_port,
            r.cli_jar_url@ == cli_jar_url_spec(wildfly_container.core_version@),
            r.cli_config_url@ == cli_config_url_spec(wildfly_container.core_version@),
    {
        let v = wildfly_container.core_version.as_str();
        let mut jar = String::new();
        push_str(&mut jar, "https://repo1.maven.org/maven2/org/wildfly/core/wildfly-cli/");
        push_str(&mut jar, v);
        push_str(&mut jar, ".Final/wildfly-cli-");
        push_str(&mut jar, v);
        push_str(&mut jar, ".Final-client.jar");
        let mut config = String::new();
        push_str(&mut config, "https://raw.githubusercontent.com/wildfly/wildfly-core/refs/tags/");
        push_str(&mut config, v);
        push_str(
            &mut config,
            ".Final/core-feature-pack/common/src/main/resources/content/bin/jboss-cli.xml",
        );
        ManagementClient {
            wildfly_container: wildfly_container.clone(),
            management_port,
            cli_jar_url: jar,
            cli_config_url: config,
        }
    }
}

/// Which management interfaces to reach.
#[derive(Debug, PartialEq, Eq)]
pub enum ClientSelection {
    /// The one running instance with this name, of the given version if any.
    Named { name: String, versions: Option<Vec<VersionRef>> },
    /// These clients.
    Clients(Vec<ManagementClient>),
    /// Every running standalone server and domain controller.
    Running,
}

/// Why a selection of management interfaces is refused.
#[derive(Clone, Copy, Debug, PartialEq, Eq, Structural)]
pub enum ClientError {
    /// A name was given together with several versions.
    NameNotAllowed,
    /// A management port was given together with several versions.
    ManagementNotAllowed,
}

/// Whether `c` is the client of `v` on `port`.
pub open spec fn client_of(v: VersionRef, port: u16, c: ManagementClient) -> bool {
    &&& c.wildfly_container == v
    &&& c.management_port == port
    &&& c.cli_jar_url@ == cli_jar_url_spec(v.core_version@)
    &&& c.cli_config_url@ == cli_config_url_spec(v.core_version@)
}

/// Chooses the management interfaces to reach: with a name, the running
/// instance of that name (refused with several versions); else with one
/// version, that version on the given or default port; with several, each
/// on its default port (a given port is refused); else every running one.
pub fn select_management_clients(
    versions: Option<Vec<VersionRef>>,
    name: Option<String>,
    management: Option<u16>,
) -> (r: Result<ClientSelection, ClientError>)
    ensures
        name is Some ==> match versions {
            Some(vs) if vs.len() > 1 => r == Err::<ClientSelection, ClientError>(
                ClientError::NameNotAllowed,
            ),
            _ => r == Ok::<ClientSelection, ClientError>(
                ClientSelection::Named { name: name->0, versions },
            ),
        },
        name is None ==> match versions {
            None => r == Ok::<ClientSelection, ClientError>(ClientSelection::Running),
            Some(vs) => if vs.len() == 1 {
                r matches Ok(ClientSelection::Clients(cs)) && cs.len() == 1 && client_of(
                    vs@[0],
                    match management {
                        Some(p) => p,
                        None => vs@[0].management_port,
                    },
                    cs@[0],
                )
            } else if management is Some {
                r == Err::<ClientSelection, ClientError>(ClientError::ManagementNotAllowed)
            } else {
                r matches Ok(ClientSelection::Clients(cs)) && cs.len() == vs.len() && forall|i: int|
                    0 <= i < vs.len() ==> client_of(vs@[i], vs@[i].management_port, #[trigger] cs@[i])
            },
        },
{
    match name {
        Some(name) => {
            match &versions {
                Some(vs) => {
                    if vs.len() > 1 {
                        return Err(ClientError::NameNotAllowed);
                    }
                },
                None => {},
            }
            Ok(ClientSelection::Named { name, versions })
        },
        None => match versions {
            None => Ok(ClientSelection::Running),
            Some(vs) => {
                if vs.len() == 1 {
                    let port = match management {
                        Some(p) => p,
                        None => vs[0].management_port,
                    };
                    let mut cs = Vec::new();
                    cs.push(ManagementClient::custom_port(&vs[0], port));
                    Ok(ClientSelection::Clients(cs))
                } else if management.is_some() {
                    Err(ClientError::ManagementNotAllowed)
                } else {
                    let mut cs: Vec<ManagementClient> = Vec::new();
                    for i in 0..vs.len()
                        invariant
                            cs.len() == i,
                            forall|j: int|
                                0 <= j < i ==> client_of(
                                    vs@[j],
                                    vs@[j].management_port,
                                    #[trigger] cs@[j],
                                ),
                    {
                        cs.push(ManagementClient::default_port(&vs[i]));
                    }
                    Ok(ClientSelection::Clients(cs))
                }
            },
        },
    }
}

} // verus!
