//! Finding the container-app resources of an input document and their containers.
use crate::service::Failure;
use crate::text::str_eq;
use crate::yaml::tree_entries;
use crate::yaml::trees;
use crate::yaml::Node;
use crate::yaml::Tree;
use vstd::prelude::*;

verus! {

/// The mathematical model of a container of a resource.
pub struct Container {
    pub name: Option<Seq<char>>,
    pub image: Option<Seq<char>>,
}

/// A container of a resource: its name and its image, each where the input gives it.
#[derive(Debug, Clone, PartialEq, Eq)]
pub struct ContainerSpec {
    pub name: Option<String>,
    pub image: Option<String>,
}

impl View for ContainerSpec {
    type V = Container;

    open spec fn view(&self) -> Container {
        Container {
            name: match self.name {
                Some(s) => Some(s@),
                None => None,
            },
            image: match self.image {
                Some(s) => Some(s@),
                None => None,
            },
        }
    }
}

/// The containers that a list of pairs stands for, each with its mesh marker.
pub open spec fn pairs(items: Seq<(ContainerSpec, bool)>) -> Seq<(Container, bool)> {
    Seq::new(items.len(), |i: int| (items[i].0@, items[i].1))
}

/// The type of the resources that are converted.
pub open spec fn resource_type() -> Seq<char> {
    "azure-native:app:ContainerApp"@
}

/// Whether a resource is of the type that is converted. One without a type, or whose
/// type is no string, is not.
pub open spec fn is_container_app(resource: Tree) -> bool {
    match resource.get("type"@) {
        Some(t) => t.as_str() == Some(resource_type()),
        None => false,
    }
}

/// The sequence under `properties.template.containers` of a resource, if it is there.
pub open spec fn containers_of(resource: Tree) -> Option<Seq<Tree>> {
    match resource.get("properties"@) {
        Some(properties) => match properties.get("template"@) {
            Some(template) => match template.get("containers"@) {
                Some(containers) => containers.as_sequence(),
                None => None,
            },
            None => None,
        },
        None => None,
    }
}

/// Whether a resource has anything under `properties.configuration.dapr`.
pub open spec fn has_mesh(resource: Tree) -> bool {
    match resource.get("properties"@) {
        Some(properties) => match properties.get("configuration"@) {
            Some(configuration) => configuration.get("dapr"@) is Some,
            None => false,
        },
        None => false,
    }
}

/// The string under `key` of a container: `Some(None)` where the key is absent, and
/// `None` where it holds something that is no string.
pub open spec fn field(container: Tree, key: Seq<char>) -> Option<Option<Seq<char>>> {
    match container.get(key) {
        Some(value) => match value.as_str() {
            Some(s) => Some(Some(s)),
            None => None,
        },
        None => Some(None),
    }
}

/// What a container declares, unless its name or its image is no string.
pub open spec fn container_of(container: Tree) -> Option<Container> {
    match (field(container, "name"@), field(container, "image"@)) {
        (Some(name), Some(image)) => Some(Container { name, image }),
        _ => None,
    }
}

/// What the containers of one resource declare, each with the resource's mesh marker,
/// unless one of them declares a name or an image that is no string.
pub open spec fn containers_with(containers: Seq<Tree>, mesh: bool) -> Option<
    Seq<(Container, bool)>,
> {
    if forall|i: int| 0 <= i < containers.len() ==> container_of(#[trigger] containers[i]) is Some {
        Some(Seq::new(containers.len(), |i: int| (container_of(containers[i])->0, mesh)))
    } else {
        None
    }
}

/// What one resource contributes: nothing where it is of another type, else its
/// containers, unless something that is required of it is missing.
pub open spec fn resource_containers(resource: Tree) -> Option<Seq<(Container, bool)>> {
    if is_container_app(resource) {
        match containers_of(resource) {
            Some(containers) => containers_with(containers, has_mesh(resource)),
            None => None,
        }
    } else {
        Some(Seq::empty())
    }
}

/// What a list of resources contributes, in order, unless one of them fails.
pub open spec fn resources_containers(resources: Seq<Tree>) -> Option<Seq<(Container, bool)>>
    decreases resources.len(),
{
    if resources.len() == 0 {
        Some(Seq::empty())
    } else {
        match (
            resources_containers(resources.drop_last()),
            resource_containers(resources.last()),
        ) {
            (Some(before), Some(last)) => Some(before + last),
            _ => None,
        }
    }
}

/// The values of the entries of a mapping, in order.
pub open spec fn values(entries: Seq<(Tree, Tree)>) -> Seq<Tree> {
    Seq::new(entries.len(), |i: int| entries[i].1)
}

/// The containers of a document with their mesh markers, or the failure.
pub open spec fn extraction(document: Tree) -> Result<Seq<(Container, bool)>, Failure> {
    match document.get("resources"@) {
        Some(resources) => match resources.as_mapping() {
            Some(entries) => match resources_containers(values(entries)) {
                Some(found) => Ok(found),
                None => Err(Failure::StructuralError),
            },
            None => Err(Failure::StructuralError),
        },
        None => Err(Failure::StructuralError),
    }
}

/// Whether a resource is of the type that is converted.
pub fn filter_by_type(resource: &Node) -> (r: bool)
    ensures
        r == is_container_app(resource@),
{
    match resource.get("type") {
        Some(t) => match t.as_str() {
            Some(s) => str_eq(s, "azure-native:app:ContainerApp"),
            None => false,
        },
        None => false,
    }
}

/// The sequence under `properties.template.containers` of a resource.
pub fn containers(resource: &Node) -> (r: Option<&Vec<Node>>)
    ensures
        match r {
            Some(items) => containers_of(resource@) == Some(trees(items@)),
            None => containers_of(resource@) is None,
        },
{
    match resource.get("properties") {
        Some(properties) => match properties.get("template") {
            Some(template) => match template.get("containers") {
                Some(containers) => containers.as_sequence(),
                None => None,
            },
            None => None,
        },
        None => None,
    }
}

/// Whether a resource has anything under `properties.configuration.dapr`.
pub fn mesh_marker(resource: &Node) -> (r: bool)
    ensures
        r == has_mesh(resource@),
{
    match resource.get("properties") {
        Some(properties) => match properties.get("configuration") {
            Some(configuration) => configuration.get("dapr").is_some(),
            None => false,
        },
        None => false,
    }
}

/// The string under `key` of a container.
fn read_field(container: &Node, key: &str) -> (r: Option<Option<String>>)
    ensures
        match r {
            Some(Some(s)) => field(container@, key@) == Some(Some(s@)),
            Some(None) => field(container@, key@) == Some(None::<Seq<char>>),
            None => field(container@, key@) is None,
        },
{
    match container.get(key) {
        Some(value) => match value.as_str() {
            Some(s) => Some(Some(s.to_owned())),
            None => None,
        },
        None => Some(None),
    }
}

/// What a container declares, unless its name or its image is no string.
pub fn read_container(container: &Node) -> (r: Option<ContainerSpec>)
    ensures
        match r {
            Some(spec) => container_of(container@) == Some(spec@),
            None => container_of(container@) is None,
        },
{
    let name = match read_field(container, "name") {
        Some(name) => name,
        None => {
            return None;
        },
    };
    let image = match read_field(container, "image") {
        Some(image) => image,
        None => {
            return None;
        },
    };
    Some(ContainerSpec { name, image })
}

/// Appends what the containers of one resource declare to `found`, unless one of them
/// declares a name or an image that is no string.
fn read_containers(items: &Vec<Node>, mesh: bool, found: &mut Vec<(ContainerSpec, bool)>) -> (r:
    bool)
    ensures
        match containers_with(trees(items@), mesh) {
            Some(added) => r && pairs(final(found)@) == pairs(old(found)@) + added,
            None => !r,
        },
{
    let ghost before = pairs(found@);
    let ghost model = trees(items@);
    let mut i: usize = 0;
    while i < items.len()
        invariant
            i <= items.len(),
            model == trees(items@),
            forall|j: int| 0 <= j < i ==> container_of(#[trigger] model[j]) is Some,
            pairs(found@) == before + Seq::new(
                i as nat,
                |j: int| (container_of(model[j])->0, mesh),
            ),
        decreases items.len() - i,
    {
        match read_container(&items[i]) {
            Some(spec) => {
                let ghost earlier = pairs(found@);
                let ghost added = spec@;
                found.push((spec, mesh));
                assert(pairs(found@) =~= earlier.push((added, mesh)));
            },
            None => {
                assert(container_of(model[i as int]) is None);
                return false;
            },
        }
        i += 1;
    }
    true
}

/// The containers of a document, each with the mesh marker of its resource: resources
/// in the order of the document, and the containers of each in its order.
pub fn extract(document: &Node) -> (r: Result<Vec<(ContainerSpec, bool)>, Failure>)
    ensures
        match r {
            Ok(found) => extraction(document@) == Ok::<Seq<(Container, bool)>, Failure>(
                pairs(found@),
            ),
            Err(failure) => extraction(document@) == Err::<Seq<(Container, bool)>, Failure>(
                failure,
            ),
        },
{
    let resources = match document.get("resources") {
        Some(resources) => resources,
        None => {
            return Err(Failure::StructuralError);
        },
    };
    let entries = match resources.as_mapping() {
        Some(entries) => entries,
        None => {
            return Err(Failure::StructuralError);
        },
    };
    let ghost model = values(tree_entries(entries@));
    let mut found: Vec<(ContainerSpec, bool)> = Vec::new();
    let mut i: usize = 0;
    while i < entries.len()
        invariant
            i <= entries.len(),
            model == values(tree_entries(entries@)),
            resources_containers(model.take(i as int)) == Some(pairs(found@)),
            extraction(document@) == match resources_containers(model) {
                Some(all) => Ok::<Seq<(Container, bool)>, Failure>(all),
                None => Err(Failure::StructuralError),
            },
        decreases entries.len() - i,
    {
        let resource = &entries[i].1;
        assert(model.take(i + 1).drop_last() =~= model.take(i as int));
        if filter_by_type(resource) {
            let complete = match containers(resource) {
                Some(items) => read_containers(items, mesh_marker(resource), &mut found),
                None => false,
            };
            if !complete {
                proof {
                    lemma_failure_stays(model, i + 1);
                }
                return Err(Failure::StructuralError);
            }
        }
        i += 1;
    }
    assert(model.take(i as int) =~= model);
    Ok(found)
}

/// Once a prefix of the resources fails, the whole list fails.
pub proof fn lemma_failure_stays(resources: Seq<Tree>, n: int)
    requires
        0 <= n <= resources.len(),
        resources_containers(resources.take(n)) is None,
    ensures
        resources_containers(resources) is None,
    decreases resources.len() - n,
{
    if n < resources.len() {
        assert(resources.take(n + 1).drop_last() =~= resources.take(n));
        lemma_failure_stays(resources, n + 1);
    } else {
        assert(resources.take(n) =~= resources);
    }
}

} // verus!
