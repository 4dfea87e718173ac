//! Turning containers into compose entries, with a sidecar where the mesh is on.
use crate::extract::Container;
use crate::extract::ContainerSpec;
use crate::extract::pairs;
use crate::service::entries;
use crate::service::one;
use crate::service::strings;
use crate::service::ContainerAppConfiguration;
use crate::service::ServiceEntry;
use crate::text::join;
use vstd::prelude::*;

verus! {

/// The characters of a field of a container, or none where the container lacks it.
pub open spec fn or_empty(value: Option<Seq<char>>) -> Seq<char> {
    match value {
        Some(s) => s,
        None => Seq::empty(),
    }
}

/// The entry of a container outside the mesh: its name and image, nothing else.
pub open spec fn plain_entry(container: Container) -> ServiceEntry {
    ServiceEntry {
        name: or_empty(container.name),
        depends_on: None,
        networks: None,
        image: or_empty(container.image),
        environment: None,
        ports: None,
        command: None,
        network_mode: None,
    }
}

/// The entry of a container in the mesh: it waits for the placement service and
/// joins the mesh's network.
pub open spec fn primary_entry(container: Container) -> ServiceEntry {
    ServiceEntry {
        name: or_empty(container.name),
        depends_on: Some(seq!["placement"@]),
        networks: Some(seq!["dapr-network"@]),
        image: or_empty(container.image),
        environment: None,
        ports: None,
        command: None,
        network_mode: None,
    }
}

/// The arguments with which the sidecar of the service `name` runs.
pub open spec fn sidecar_command(name: Seq<char>) -> Seq<Seq<char>> {
    seq![
        "./daprd"@,
        "-app-id"@,
        name,
        "-app-port"@,
        "port"@,
        "-placement-host-address"@,
        "placement:50006"@,
        "air"@,
    ]
}

/// The sidecar of a container in the mesh: it runs the mesh's runtime in the network
/// namespace of the container's own entry.
pub open spec fn sidecar_entry(container: Container) -> ServiceEntry {
    ServiceEntry {
        name: or_empty(container.name) + "_dapr"@,
        depends_on: Some(seq![or_empty(container.name)]),
        networks: None,
        image: "daprio/daprd:edge"@,
        environment: None,
        ports: None,
        command: Some(sidecar_command(or_empty(container.name))),
        network_mode: Some("service:"@ + or_empty(container.name)),
    }
}

/// The entries of one container: its own, and after it its sidecar where the mesh is on.
pub open spec fn rewritten(container: Container, mesh: bool) -> Seq<ServiceEntry> {
    if mesh {
        seq![primary_entry(container), sidecar_entry(container)]
    } else {
        seq![plain_entry(container)]
    }
}

/// The entries of a list of containers, in order.
pub open spec fn rewritten_all(containers: Seq<(Container, bool)>) -> Seq<ServiceEntry>
    decreases containers.len(),
{
    if containers.len() == 0 {
        Seq::empty()
    } else {
        rewritten_all(containers.drop_last()) + rewritten(
            containers.last().0,
            containers.last().1,
        )
    }
}

/// A copy of a field of a container, or the empty string where the container lacks it.
fn text_or_empty(value: &Option<String>) -> (r: String)
    ensures
        r@ == or_empty(
            match *value {
                Some(s) => Some(s@),
                None => None,
            },
        ),
{
    match value {
        Some(s) => s.clone(),
        None => String::new(),
    }
}

/// The arguments with which the sidecar of the service `name` runs.
fn sidecar_arguments(name: &String) -> (r: Vec<String>)
    ensures
        strings(r@) == sidecar_command(name@),
{
    let mut command: Vec<String> = Vec::new();
    command.push("./daprd".to_owned());
    command.push("-app-id".to_owned());
    command.push(name.clone());
    command.push("-app-port".to_owned());
    command.push("port".to_owned());
    command.push("-placement-host-address".to_owned());
    command.push("placement:50006".to_owned());
    command.push("air".to_owned());
    command
}

/// The entries of one container: its own, and after it its sidecar where the mesh is on.
pub fn parse_app_configuration(container: &ContainerSpec, mesh: bool) -> (r: Vec<
    ContainerAppConfiguration,
>)
    ensures
        entries(r@) == rewritten(container@, mesh),
{
    let image = text_or_empty(&container.image);
    let name = text_or_empty(&container.name);
    let mut r: Vec<ContainerAppConfiguration> = Vec::new();
    if mesh {
        let sidecar = ContainerAppConfiguration {
            image: "daprio/daprd:edge".to_owned(),
            name: join(name.as_str(), "_dapr"),
            depends_on: Some(one(name.clone())),
            network_mode: Some(join("service:", name.as_str())),
            environment: None,
            ports: None,
            networks: None,
            command: Some(sidecar_arguments(&name)),
        };
        let primary = ContainerAppConfiguration {
            image,
            name,
            depends_on: Some(one("placement".to_owned())),
            networks: Some(one("dapr-network".to_owned())),
            network_mode: None,
            environment: None,
            ports: None,
            command: None,
        };
        r.push(primary);
        r.push(sidecar);
    } else {
        let only = ContainerAppConfiguration {
            image,
            name,
            depends_on: None,
            networks: None,
            environment: None,
            network_mode: None,
            ports: None,
            command: None,
        };
        r.push(only);
    }
    r
}

/// The entries of a list of containers, in order.
pub fn rewrite(containers: &Vec<(ContainerSpec, bool)>) -> (r: Vec<ContainerAppConfiguration>)
    ensures
        entries(r@) == rewritten_all(pairs(containers@)),
{
    let ghost model = pairs(containers@);
    let mut r: Vec<ContainerAppConfiguration> = Vec::new();
    let mut i: usize = 0;
    while i < containers.len()
        invariant
            i <= containers.len(),
            model == pairs(containers@),
            entries(r@) == rewritten_all(model.take(i as int)),
        decreases containers.len() - i,
    {
        let mut more = parse_app_configuration(&containers[i].0, containers[i].1);
        r.append(&mut more);
        assert(model.take(i + 1).drop_last() =~= model.take(i as int));
        i += 1;
    }
    assert(model.take(i as int) =~= model);
    r
}

} // verus!
