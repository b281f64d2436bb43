//! Turns a selection of versions into uniquely named instances.
use vstd::prelude::*;
use crate::wildfly::{
    AdminContainer, DomainController, HasWildFlyContainer, HostController, Ports, ServerType,
    StandaloneInstance, VersionRef,
};

verus! {

// ------------------------------------------------------ uniqueness pass

/// The identities of the items, in order.
pub open spec fn keys_of<T: HasWildFlyContainer>(items: Seq<T>) -> Seq<(u16, ServerType)> {
    items.map_values(|x: T| x.identity())
}

/// How many items right before `i` share its key without a break: its
/// 0-based index within its maximal run of equal keys.
pub open spec fn run_pos<K>(keys: Seq<K>, i: int) -> nat
    decreases i,
{
    if i <= 0 {
        0
    } else if keys[i] == keys[i - 1] {
        run_pos(keys, i - 1) + 1
    } else {
        0
    }
}

/// Whether item `i` belongs to a maximal run of equal keys longer than one.
pub open spec fn in_run<K>(keys: Seq<K>, i: int) -> bool {
    ||| (0 < i && keys[i] == keys[i - 1])
    ||| (i + 1 < keys.len() && keys[i + 1] == keys[i])
}

/// Whether every copy that the uniqueness pass makes can be made.
pub open spec fn copies_fit<T: HasWildFlyContainer>(items: Seq<T>) -> bool {
    forall|i: int|
        0 <= i < items.len() && in_run(keys_of(items), i) ==> #[trigger] items[i].copy_fits(
            run_pos(keys_of(items), i),
        )
}

/// What the uniqueness pass makes of `items`: a member of a run of equal
/// identities longer than one becomes its copy with its index in the run;
/// any other item stays as it is.
pub open spec fn unique_names_spec<T: HasWildFlyContainer>(items: Seq<T>, r: Seq<T>) -> bool {
    &&& r.len() == items.len()
    &&& forall|i: int|
        0 <= i < items.len() ==> if in_run(keys_of(items), i) {
            items[i].is_copy(run_pos(keys_of(items), i), #[trigger] r[i])
        } else {
            r[i] == items[i]
        }
}

fn same_key(a: (u16, ServerType), b: (u16, ServerType)) -> (r: bool)
    ensures
        r == (a == b),
{
    a.0 == b.0 && a.1 == b.1
}

fn identity_keys<T: HasWildFlyContainer>(items: &Vec<T>) -> (r: Vec<(u16, ServerType)>)
    ensures
        r@ == keys_of(items@),
{
    let mut r = Vec::new();
    for i in 0..items.len()
        invariant
            r@ == keys_of(items@).take(i as int),
    {
        r.push(items[i].identity_key());
        assert(r@ =~= keys_of(items@).take(i + 1));
    }
    assert(r@ =~= keys_of(items@));
    r
}

/// Whether `ensure_unique_names` can make every copy it needs.
pub fn unique_names_fit<T: HasWildFlyContainer>(items: &Vec<T>) -> (r: bool)
    ensures
        r == copies_fit(items@),
{
    let keys = identity_keys(items);
    let n = items.len();
    let mut pos: usize = 0;
    for i in 0..n
        invariant
            n == items.len(),
            keys@ == keys_of(items@),
            i > 0 ==> pos == run_pos(keys@, i - 1),
            i > 0 ==> pos < i,
            forall|j: int|
                0 <= j < i && in_run(keys@, j) ==> #[trigger] items@[j].copy_fits(
                    run_pos(keys@, j),
                ),
    {
        if i > 0 && same_key(keys[i], keys[i - 1]) {
            pos = pos + 1;
        } else {
            pos = 0;
        }
        let member = pos > 0 || (i + 1 < n && same_key(keys[i + 1], keys[i]));
        assert(pos == run_pos(keys@, i as int));
        assert(member == in_run(keys@, i as int));
        if member && !items[i].can_copy(pos) {
            assert(!copies_fit(items@)) by {
                assert(!items@[i as int].copy_fits(run_pos(keys_of(items@), i as int)));
            }
            return false;
        }
    }
    true
}

/// Sets apart the members of each maximal run of equal identities: each
/// member becomes its copy with its 0-based index in the run. Only
/// neighbours are compared, so equal identities that are not adjacent are
/// not set apart from each other.
pub fn ensure_unique_names<T: HasWildFlyContainer>(items: &Vec<T>) -> (r: Vec<T>)
    requires
        copies_fit(items@),
    ensures
        unique_names_spec(items@, r@),
{
    let keys = identity_keys(items);
    let n = items.len();
    let mut out: Vec<T> = Vec::new();
    let mut pos: usize = 0;
    for i in 0..n
        invariant
            n == items.len(),
            keys@ == keys_of(items@),
            copies_fit(items@),
            out.len() == i,
            i > 0 ==> pos == run_pos(keys@, i - 1),
            i > 0 ==> pos < i,
            forall|j: int|
                0 <= j < i ==> if in_run(keys_of(items@), j) {
                    items@[j].is_copy(run_pos(keys_of(items@), j), #[trigger] out@[j])
                } else {
                    out@[j] == items@[j]
                },
    {
        if i > 0 && same_key(keys[i], keys[i - 1]) {
            pos = pos + 1;
        } else {
            pos = 0;
        }
        let member = pos > 0 || (i + 1 < n && same_key(keys[i + 1], keys[i]));
        assert(pos == run_pos(keys@, i as int));
        assert(member == in_run(keys@, i as int));
        if member {
            assert(items@[i as int].copy_fits(run_pos(keys_of(items@), i as int)));
            out.push(items[i].indexed_copy(pos));
        } else {
            out.push(items[i].duplicate());
        }
    }
    out
}

proof fn lemma_run_pos_in_run<K>(keys: Seq<K>, a: int, i: int)
    requires
        0 <= a <= i < keys.len(),
        forall|t: int| a <= t <= i ==> #[trigger] keys[t] == keys[a],
        a == 0 || keys[a - 1] != keys[a],
    ensures
        run_pos(keys, i) == i - a,
    decreases i - a,
{
    if i > a {
        lemma_run_pos_in_run(keys, a, i - 1);
        assert(keys[i] == keys[a] && keys[i - 1] == keys[a]);
    }
}

/// Within a maximal run `[a, b)` of equal identities, the uniqueness pass
/// numbers the members `0 .. b - a` in order where the run is longer than
/// one, and leaves a run of one as it is.
pub proof fn lemma_unique_names_runs<T: HasWildFlyContainer>(
    items: Seq<T>,
    r: Seq<T>,
    a: int,
    b: int,
)
    requires
        unique_names_spec(items, r),
        0 <= a < b <= items.len(),
        forall|t: int| a <= t < b ==> #[trigger] items[t].identity() == items[a].identity(),
        a == 0 || items[a - 1].identity() != items[a].identity(),
        b == items.len() || items[b].identity() != items[a].identity(),
    ensures
        b - a > 1 ==> forall|i: int| a <= i < b ==> items[i].is_copy((i - a) as nat, #[trigger] r[i]),
        b - a == 1 ==> r[a] == items[a],
{
    let keys = keys_of(items);
    assert forall|t: int| a <= t < b implies #[trigger] keys[t] == keys[a] by {
        assert(items[t].identity() == items[a].identity());
    }
    if b - a > 1 {
        assert forall|i: int| a <= i < b implies items[i].is_copy((i - a) as nat, #[trigger] r[i]) by {
            lemma_run_pos_in_run(keys, a, i);
            if i > a {
                assert(keys[i] == keys[i - 1]);
            } else {
                assert(keys[i + 1] == keys[i]);
            }
            assert(in_run(keys, i));
        }
    } else {
        assert(!in_run(keys, a));
    }
}

// ------------------------------------------------------ resolution

/// Per-instance choices that a caller may make when exactly one version is
/// selected.
#[derive(Debug, PartialEq, Eq)]
pub struct Overrides {
    pub name: Option<String>,
    pub http: Option<u16>,
    pub management: Option<u16>,
    pub offset: Option<u16>,
}

/// Why a selection cannot be resolved into instances.
#[derive(Clone, Copy, Debug, PartialEq, Eq, Structural)]
pub enum ResolveError {
    /// A name was given together with several versions.
    NameNotAllowed,
    /// An HTTP port was given together with several versions.
    HttpNotAllowed,
    /// A management port was given together with several versions.
    ManagementNotAllowed,
    /// A port offset was given together with several versions.
    OffsetNotAllowed,
    /// Several host controllers need one version and a named domain controller.
    DomainControllerRequired,
    /// A port or a copy index does not fit in 16 bits.
    OutOfRange,
}

/// The ports of the single instance: the given or default ports, both
/// moved up by the given offset; `None` where one does not fit.
pub open spec fn explicit_ports_spec(o: Overrides, v: VersionRef) -> Option<Ports> {
    let off: int = match o.offset {
        Some(x) => x as int,
        None => 0,
    };
    let h: int = match o.http {
        Some(x) => x as int,
        None => v.http_port as int,
    } + off;
    let m: int = match o.management {
        Some(x) => x as int,
        None => v.management_port as int,
    } + off;
    if h <= u16::MAX && m <= u16::MAX {
        Some(Ports { http: h as u16, management: m as u16 })
    } else {
        None
    }
}

/// The first override that is refused when several versions are selected.
pub open spec fn override_error(o: Overrides) -> Option<ResolveError> {
    if o.name is Some {
        Some(ResolveError::NameNotAllowed)
    } else if o.http is Some {
        Some(ResolveError::HttpNotAllowed)
    } else if o.management is Some {
        Some(ResolveError::ManagementNotAllowed)
    } else if o.offset is Some {
        Some(ResolveError::OffsetNotAllowed)
    } else {
        None
    }
}

/// The given name, or else the default.
pub open spec fn chosen_name(given: Option<String>, default: Seq<char>) -> Seq<char> {
    match given {
        Some(n) => n@,
        None => default,
    }
}

/// The ports of the single instance, from the overrides and the version.
pub fn explicit_ports(overrides: &Overrides, version: &VersionRef) -> (r: Result<
    Ports,
    ResolveError,
>)
    ensures
        r == match explicit_ports_spec(*overrides, *version) {
            Some(p) => Ok(p),
            None => Err(ResolveError::OutOfRange),
        },
{
    let off: u32 = match overrides.offset {
        Some(x) => x as u32,
        None => 0,
    };
    let h: u32 = match overrides.http {
        Some(x) => x as u32,
        None => version.http_port as u32,
    } + off;
    let m: u32 = match overrides.management {
        Some(x) => x as u32,
        None => version.management_port as u32,
    } + off;
    if h <= 65535 && m <= 65535 {
        Ok(Ports { http: h as u16, management: m as u16 })
    } else {
        Err(ResolveError::OutOfRange)
    }
}

fn check_overrides(overrides: &Overrides) -> (r: Result<(), ResolveError>)
    ensures
        r == match override_error(*overrides) {
            Some(e) => Err(e),
            None => Ok(()),
        },
{
    if overrides.name.is_some() {
        Err(ResolveError::NameNotAllowed)
    } else if overrides.http.is_some() {
        Err(ResolveError::HttpNotAllowed)
    } else if overrides.management.is_some() {
        Err(ResolveError::ManagementNotAllowed)
    } else if overrides.offset.is_some() {
        Err(ResolveError::OffsetNotAllowed)
    } else {
        Ok(())
    }
}

fn name_or(given: &Option<String>, default: String) -> (r: String)
    ensures
        r@ == chosen_name(*given, default@),
{
    match given {
        Some(n) => n.clone(),
        None => default,
    }
}

/// A standalone instance of `v` with the default name and ports.
pub open spec fn default_standalone(v: VersionRef, x: StandaloneInstance) -> bool {
    &&& x.admin_container == (AdminContainer { wildfly_container: v, server_type: ServerType::Standalone })
    &&& x.name@ == crate::wildfly::container_name_spec(v.identifier, ServerType::Standalone)
    &&& x.ports == (Ports { http: v.http_port, management: v.management_port })
}

/// A domain controller of `v` with the default name and ports.
pub open spec fn default_domain_controller(v: VersionRef, x: DomainController) -> bool {
    &&& x.admin_container == (AdminContainer {
        wildfly_container: v,
        server_type: ServerType::DomainController,
    })
    &&& x.name@ == crate::wildfly::container_name_spec(v.identifier, ServerType::DomainController)
    &&& x.ports == (Ports { http: v.http_port, management: v.management_port })
}

/// A host controller of `v` with the default name, joining `dc`.
pub open spec fn default_host_controller(v: VersionRef, dc: Seq<char>, x: HostController) -> bool {
    &&& x.admin_container == (AdminContainer {
        wildfly_container: v,
        server_type: ServerType::HostController,
    })
    &&& x.name@ == crate::wildfly::container_name_spec(v.identifier, ServerType::HostController)
    &&& x.domain_controller@ == dc
}

/// The standalone instances for a selection of versions. With one version
/// the overrides apply to its instance; with any other number they are
/// refused, every version gets the default name and ports, and the
/// uniqueness pass sets apart equal neighbours.
pub fn standalone_instances(versions: &Vec<VersionRef>, overrides: &Overrides) -> (r: Result<
    Vec<StandaloneInstance>,
    ResolveError,
>)
    ensures
        versions.len() == 1 ==> match explicit_ports_spec(*overrides, versions@[0]) {
            None => r == Err::<Vec<StandaloneInstance>, ResolveError>(ResolveError::OutOfRange),
            Some(p) => r matches Ok(out) && out.len() == 1 && out@[0].admin_container
                == (AdminContainer {
                wildfly_container: versions@[0],
                server_type: ServerType::Standalone,
            }) && out@[0].name@ == chosen_name(
                overrides.name,
                crate::wildfly::container_name_spec(
                    versions@[0].identifier,
                    ServerType::Standalone,
                ),
            ) && out@[0].ports == p,
        },
        versions.len() != 1 && override_error(*overrides) is Some ==> r == Err::<
            Vec<StandaloneInstance>,
            ResolveError,
        >(override_error(*overrides)->0),
        versions.len() != 1 && override_error(*overrides) is None ==> exists|
            base: Seq<StandaloneInstance>,
        |
            {
                &&& base.len() == versions.len()
                &&& forall|i: int|
                    0 <= i < base.len() ==> default_standalone(versions@[i], #[trigger] base[i])
                &&& if crate::topology::copies_fit(base) {
                    r matches Ok(out) && unique_names_spec(base, out@)
                } else {
                    r == Err::<Vec<StandaloneInstance>, ResolveError>(ResolveError::OutOfRange)
                }
            },
{
    if versions.len() == 1 {
        let v = &versions[0];
        let ac = AdminContainer::standalone(v.clone());
        let name = name_or(&overrides.name, ac.container_name());
        let ports = explicit_ports(overrides, v)?;
        let mut out = Vec::new();
        out.push(StandaloneInstance::new(ac, name, ports));
        return Ok(out);
    }
    check_overrides(overrides)?;
    let mut base: Vec<StandaloneInstance> = Vec::new();
    for i in 0..versions.len()
        invariant
            base.len() == i,
            forall|j: int| 0 <= j < i ==> default_standalone(versions@[j], #[trigger] base@[j]),
    {
        let v = &versions[i];
        let ac = AdminContainer::standalone(v.clone());
        let name = ac.container_name();
        base.push(StandaloneInstance::new(ac, name, Ports::default_ports(v)));
    }
    if !unique_names_fit(&base) {
        return Err(ResolveError::OutOfRange);
    }
    Ok(ensure_unique_names(&base))
}

/// The domain controllers for a selection of versions. With one version
/// the overrides apply to its instance; with any other number they are
/// refused, every version gets the default name and ports, and the
/// uniqueness pass sets apart equal neighbours.
pub fn domain_controller_instances(versions: &Vec<VersionRef>, overrides: &Overrides) -> (r: Result<
    Vec<DomainController>,
    ResolveError,
>)
    ensures
        versions.len() == 1 ==> match explicit_ports_spec(*overrides, versions@[0]) {
            None => r == Err::<Vec<DomainController>, ResolveError>(ResolveError::OutOfRange),
            Some(p) => r matches Ok(out) && out.len() == 1 && out@[0].admin_container
                == (AdminContainer {
                wildfly_container: versions@[0],
                server_type: ServerType::DomainController,
            }) && out@[0].name@ == chosen_name(
                overrides.name,
                crate::wildfly::container_name_spec(
                    versions@[0].identifier,
                    ServerType::DomainController,
                ),
            ) && out@[0].ports == p,
        },
        versions.len() != 1 && override_error(*overrides) is Some ==> r == Err::<
            Vec<DomainController>,
            ResolveError,
        >(override_error(*overrides)->0),
        versions.len() != 1 && override_error(*overrides) is None ==> exists|
            base: Seq<DomainController>,
        |
            {
                &&& base.len() == versions.len()
                &&& forall|i: int|
                    0 <= i < base.len() ==> default_domain_controller(versions@[i], #[trigger] base[i])
                &&& if crate::topology::copies_fit(base) {
                    r matches Ok(out) && unique_names_spec(base, out@)
                } else {
                    r == Err::<Vec<DomainController>, ResolveError>(ResolveError::OutOfRange)
                }
            },
{
    if versions.len() == 1 {
        let v = &versions[0];
        let ac = AdminContainer::domain_controller(v.clone());
        let name = name_or(&overrides.name, ac.container_name());
        let ports = explicit_ports(overrides, v)?;
        let mut out = Vec::new();
        out.push(DomainController::new(ac, name, ports));
        return Ok(out);
    }
    check_overrides(overrides)?;
    let mut base: Vec<DomainController> = Vec::new();
    for i in 0..versions.len()
        invariant
            base.len() == i,
            forall|j: int| 0 <= j < i ==> default_domain_controller(versions@[j], #[trigger] base@[j]),
    {
        let v = &versions[i];
        let ac = AdminContainer::domain_controller(v.clone());
        let name = ac.container_name();
        base.push(DomainController::new(ac, name, Ports::default_ports(v)));
    }
    if !unique_names_fit(&base) {
        return Err(ResolveError::OutOfRange);
    }
    Ok(ensure_unique_names(&base))
}

/// Whether all versions carry the identifier of the first.
pub open spec fn same_versions_spec(versions: Seq<VersionRef>) -> bool {
    forall|i: int| 0 <= i < versions.len() ==> #[trigger] versions[i].identifier == versions[0].identifier
}

/// Whether all versions carry the identifier of the first.
pub fn same_versions(versions: &Vec<VersionRef>) -> (r: bool)
    ensures
        r == same_versions_spec(versions@),
{
    for i in 0..versions.len()
        invariant
            forall|j: int| 0 <= j < i ==> #[trigger] versions@[j].identifier == versions@[0].identifier,
    {
        if versions[i].identifier != versions[0].identifier {
            return false;
        }
    }
    true
}

/// The host controllers for a selection of versions. They join the given
/// domain controller, or else the default domain controller of the first
/// version. With one version the name applies to its instance; with several
/// a name is refused, and all versions must be the same and the domain
/// controller must be given; the uniqueness pass then numbers them.
pub fn host_controller_instances(
    versions: &Vec<VersionRef>,
    name: &Option<String>,
    domain_controller: &Option<String>,
) -> (r: Result<Vec<HostController>, ResolveError>)
    requires
        versions.len() >= 1,
    ensures
        ({
            let dc = chosen_name(
                *domain_controller,
                crate::wildfly::container_name_spec(
                    versions@[0].identifier,
                    ServerType::DomainController,
                ),
            );
            &&& versions.len() == 1 ==> (r matches Ok(out) && out.len() == 1
                && out@[0].admin_container == (AdminContainer {
                wildfly_container: versions@[0],
                server_type: ServerType::HostController,
            }) && out@[0].name@ == chosen_name(
                *name,
                crate::wildfly::container_name_spec(
                    versions@[0].identifier,
                    ServerType::HostController,
                ),
            ) && out@[0].domain_controller@ == dc)
            &&& versions.len() > 1 && name is Some ==> r == Err::<
                Vec<HostController>,
                ResolveError,
            >(ResolveError::NameNotAllowed)
            &&& versions.len() > 1 && name is None && (!same_versions_spec(versions@)
                || domain_controller is None) ==> r == Err::<Vec<HostController>, ResolveError>(
                ResolveError::DomainControllerRequired,
            )
            &&& versions.len() > 1 && name is None && same_versions_spec(versions@)
                && domain_controller is Some ==> exists|base: Seq<HostController>|
                {
                    &&& base.len() == versions.len()
                    &&& forall|i: int|
                        0 <= i < base.len() ==> default_host_controller(
                            versions@[i],
                            dc,
                            #[trigger] base[i],
                        )
                    &&& if crate::topology::copies_fit(base) {
                        r matches Ok(out) && unique_names_spec(base, out@)
                    } else {
                        r == Err::<Vec<HostController>, ResolveError>(ResolveError::OutOfRange)
                    }
                }
        }),
{
    let dc_admin = AdminContainer::domain_controller(versions[0].clone());
    let dc_name = name_or(domain_controller, dc_admin.container_name());
    if versions.len() == 1 {
        let ac = AdminContainer::host_controller(versions[0].clone());
        let hc_name = name_or(name, ac.container_name());
        let mut out = Vec::new();
        out.push(HostController::new(ac, hc_name, dc_name));
        return Ok(out);
    }
    if name.is_some() {
        return Err(ResolveError::NameNotAllowed);
    }
    if !same_versions(versions) || domain_controller.is_none() {
        return Err(ResolveError::DomainControllerRequired);
    }
    let mut base: Vec<HostController> = Vec::new();
    for i in 0..versions.len()
        invariant
            base.len() == i,
            forall|j: int|
                0 <= j < i ==> default_host_controller(versions@[j], dc_name@, #[trigger] base@[j]),
    {
        let ac = AdminContainer::host_controller(versions[i].clone());
        let hc_name = ac.container_name();
        base.push(HostController::new(ac, hc_name, dc_name.clone()));
    }
    if !unique_names_fit(&base) {
        return Err(ResolveError::OutOfRange);
    }
    Ok(ensure_unique_names(&base))
}

// ------------------------------------------------------ kind selection

/// The kinds that a selection builds or pushes: standalone only, or the
/// two domain kinds, or all three.
pub open spec fn selected_kinds(standalone: bool, domain: bool) -> Seq<ServerType> {
    if standalone {
        seq![ServerType::Standalone]
    } else if domain {
        seq![ServerType::DomainController, ServerType::HostController]
    } else {
        seq![ServerType::Standalone, ServerType::DomainController, ServerType::HostController]
    }
}

/// One admin container per version and selected kind, version by version.
pub open spec fn admin_containers_spec(versions: Seq<VersionRef>, kinds: Seq<ServerType>) -> Seq<
    AdminContainer,
>
    decreases versions.len(),
{
    if versions.len() == 0 {
        Seq::empty()
    } else {
        admin_containers_spec(versions.drop_last(), kinds) + kinds.map_values(
            |t: ServerType| AdminContainer { wildfly_container: versions.last(), server_type: t },
        )
    }
}

/// The admin containers that a selection of versions and kinds names.
pub fn admin_containers(versions: &Vec<VersionRef>, standalone: bool, domain: bool) -> (r: Vec<
    AdminContainer,
>)
    ensures
        r@ == admin_containers_spec(versions@, selected_kinds(standalone, domain)),
{
    let ghost kinds = selected_kinds(standalone, domain);
    let mut r: Vec<AdminContainer> = Vec::new();
    for i in 0..versions.len()
        invariant
            kinds == selected_kinds(standalone, domain),
            r@ == admin_containers_spec(versions@.take(i as int), kinds),
    {
        let v = &versions[i];
        let ghost before = r@;
        proof {
            assert(versions@.take(i + 1).drop_last() =~= versions@.take(i as int));
        }
        if standalone {
            r.push(AdminContainer::standalone(v.clone()));
        } else if domain {
            let mut d = AdminContainer::domain(v.clone());
            r.append(&mut d);
        } else {
            let mut a = AdminContainer::all_types(v.clone());
            r.append(&mut a);
        }
        assert(r@ =~= admin_containers_spec(versions@.take(i + 1), kinds));
    }
    assert(versions@.take(versions.len() as int) =~= versions@);
    r
}

/// The kinds that a listing shows: standalone servers, the domain kinds,
/// both when both are asked for, and all kinds when neither is.
pub open spec fn listed_kinds(standalone: bool, domain: bool) -> Seq<ServerType> {
    if !standalone && !domain {
        seq![ServerType::Standalone, ServerType::DomainController, ServerType::HostController]
    } else {
        (if standalone {
            seq![ServerType::Standalone]
        } else {
            Seq::empty()
        }) + (if domain {
            seq![ServerType::DomainController, ServerType::HostController]
        } else {
            Seq::empty()
        })
    }
}

/// The kinds that a listing shows.
pub fn list_kinds(standalone: bool, domain: bool) -> (r: Vec<ServerType>)
    ensures
        r@ == listed_kinds(standalone, domain),
{
    let mut r: Vec<ServerType> = Vec::new();
    if standalone {
        r.push(ServerType::Standalone);
    }
    if domain {
        r.push(ServerType::DomainController);
        r.push(ServerType::HostController);
    }
    if !standalone && !domain {
        r.push(ServerType::Standalone);
        r.push(ServerType::DomainController);
        r.push(ServerType::HostController);
    }
    assert(r@ =~= listed_kinds(standalone, domain));
    r
}

} // verus!
