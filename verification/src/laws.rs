//! What holds of every conversion.
use crate::codec::yaml_tree;
use crate::compose::compose_tree;
use crate::compose::entry_tree;
use crate::compose::lemma_services_plain;
use crate::compose::services_entries;
use crate::driver::converted;
use crate::driver::deserialized;
use crate::extract::container_of;
use crate::extract::containers_of;
use crate::extract::containers_with;
use crate::extract::extraction;
use crate::extract::has_mesh;
use crate::extract::is_container_app;
use crate::extract::resource_containers;
use crate::extract::resources_containers;
use crate::extract::Container;
use crate::rewrite::or_empty;
use crate::rewrite::plain_entry;
use crate::rewrite::primary_entry;
use crate::rewrite::rewritten_all;
use crate::rewrite::sidecar_entry;
use crate::service::placement;
use crate::service::Failure;
use crate::service::ServiceEntry;
use crate::yaml::distinct_keys;
use crate::yaml::lemma_position_first;
use crate::yaml::lemma_position_spec;
use crate::yaml::lemma_upsert_other;
use crate::yaml::lemma_upsert_same;
use crate::yaml::lookup;
use crate::yaml::Tree;
use vstd::prelude::*;

verus! {

/// What two runs of resources contribute, one after the other.
pub open spec fn joined(
    first: Option<Seq<(Container, bool)>>,
    second: Option<Seq<(Container, bool)>>,
) -> Option<Seq<(Container, bool)>> {
    match (first, second) {
        (Some(a), Some(b)) => Some(a + b),
        _ => None,
    }
}

/// A list of resources contributes what its two parts contribute, in order, and fails
/// where one of them fails.
pub proof fn law_resources_split(first: Seq<Tree>, second: Seq<Tree>)
    ensures
        resources_containers(first + second) == joined(
            resources_containers(first),
            resources_containers(second),
        ),
    decreases second.len(),
{
    if second.len() > 0 {
        assert((first + second).drop_last() =~= first + second.drop_last());
        law_resources_split(first, second.drop_last());
    }
}

/// A document without `resources` fails with a structural error, and so does the text
/// that holds it.
pub proof fn law_missing_resources(document: Tree, text: Seq<char>)
    requires
        document.get("resources"@) is None,
    ensures
        extraction(document) == Err::<Seq<(Container, bool)>, Failure>(Failure::StructuralError),
        converted(document) == Err::<Seq<ServiceEntry>, Failure>(Failure::StructuralError),
        yaml_tree(text) == Some(document) ==> deserialized(text) == Err::<
            Seq<ServiceEntry>,
            Failure,
        >(Failure::StructuralError),
{
}

/// A resource of another type contributes nothing and causes no failure: the
/// resources around it contribute what they contribute without it.
pub proof fn law_other_type_ignored(before: Seq<Tree>, resource: Tree, after: Seq<Tree>)
    requires
        !is_container_app(resource),
    ensures
        resource_containers(resource) == Some(Seq::<(Container, bool)>::empty()),
        rewritten_all(resource_containers(resource)->0).len() == 0,
        resources_containers(before + seq![resource] + after) == resources_containers(
            before + after,
        ),
{
    let one = seq![resource];
    assert(resources_containers(one.drop_last()) == Some(Seq::<(Container, bool)>::empty()));
    assert(resources_containers(one) == Some(Seq::<(Container, bool)>::empty()));
    law_resources_split(before, one);
    law_resources_split(before + one, after);
    law_resources_split(before, after);
}

/// The entries of containers that all carry the same mesh marker start, for the
/// container at place `i`, at place `i` without the mesh and at place `2 * i` with it.
proof fn lemma_rewritten_uniform(containers: Seq<(Container, bool)>, mesh: bool)
    requires
        forall|i: int| 0 <= i < containers.len() ==> (#[trigger] containers[i]).1 == mesh,
    ensures
        !mesh ==> rewritten_all(containers).len() == containers.len(),
        !mesh ==> forall|i: int|
            0 <= i < containers.len() ==> (#[trigger] rewritten_all(containers)[i]) == plain_entry(
                containers[i].0,
            ),
        mesh ==> rewritten_all(containers).len() == 2 * containers.len(),
        mesh ==> forall|i: int|
            0 <= i < containers.len() ==> (#[trigger] rewritten_all(containers)[2 * i])
                == primary_entry(containers[i].0),
        mesh ==> forall|i: int|
            0 <= i < containers.len() ==> (#[trigger] rewritten_all(containers)[2 * i + 1])
                == sidecar_entry(containers[i].0),
    decreases containers.len(),
{
    if containers.len() > 0 {
        lemma_rewritten_uniform(containers.drop_last(), mesh);
    }
}

/// A container-app resource without a mesh marker gives one entry for each of its
/// containers, in order, with the container's name and image and nothing else. This
/// is said of resources whose containers declare no name or image that is no string.
pub proof fn law_one_entry_per_container(resource: Tree)
    requires
        is_container_app(resource),
        containers_of(resource) is Some,
        !has_mesh(resource),
        resource_containers(resource) is Some,
    ensures
        ({
            let containers = containers_of(resource)->0;
            let found = rewritten_all(resource_containers(resource)->0);
            &&& found.len() == containers.len()
            &&& forall|i: int|
                0 <= i < containers.len() ==> {
                    &&& (#[trigger] found[i]) == plain_entry(container_of(containers[i])->0)
                    &&& found[i].name == or_empty(container_of(containers[i])->0.name)
                    &&& found[i].image == or_empty(container_of(containers[i])->0.image)
                }
        }),
{
    let containers = containers_of(resource)->0;
    let specs = containers_with(containers, false)->0;
    lemma_rewritten_uniform(specs, false);
}

/// A container-app resource with a mesh marker gives two entries for each of its
/// containers, in order: the container's own entry and then its sidecar, which shares
/// the network namespace of the first and depends on it alone. This is said of
/// resources whose containers declare no name or image that is no string.
pub proof fn law_sidecar_follows_primary(resource: Tree)
    requires
        is_container_app(resource),
        containers_of(resource) is Some,
        has_mesh(resource),
        resource_containers(resource) is Some,
    ensures
        ({
            let containers = containers_of(resource)->0;
            let found = rewritten_all(resource_containers(resource)->0);
            &&& found.len() == 2 * containers.len()
            &&& forall|i: int|
                0 <= i < containers.len() ==> {
                    &&& (#[trigger] found[2 * i]) == primary_entry(
                        container_of(containers[i])->0,
                    )
                    &&& found[2 * i + 1] == sidecar_entry(container_of(containers[i])->0)
                    &&& found[2 * i + 1].network_mode == Some("service:"@ + found[2 * i].name)
                    &&& found[2 * i + 1].depends_on == Some(seq![found[2 * i].name])
                }
        }),
{
    let containers = containers_of(resource)->0;
    let specs = containers_with(containers, true)->0;
    lemma_rewritten_uniform(specs, true);
}

/// Whether `entry` runs in the network namespace of `other`.
pub open spec fn shares_namespace(entry: ServiceEntry, other: ServiceEntry) -> bool {
    entry.network_mode == Some("service:"@ + other.name)
}

/// An entry that names a network namespace names that of the entry just before it,
/// so the service it refers to is in the same list, and in the document under its name.
pub proof fn law_network_mode_resolves(containers: Seq<(Container, bool)>, i: int)
    requires
        0 <= i < rewritten_all(containers).len(),
        rewritten_all(containers)[i].network_mode is Some,
    ensures
        0 < i,
        shares_namespace(rewritten_all(containers)[i], rewritten_all(containers)[i - 1]),
        lookup(
            services_entries(rewritten_all(containers).push(placement())),
            Tree::String(rewritten_all(containers)[i - 1].name),
        ) is Some,
    decreases containers.len(),
{
    let found = rewritten_all(containers);
    if containers.len() > 0 {
        if i < rewritten_all(containers.drop_last()).len() {
            law_network_mode_resolves(containers.drop_last(), i);
        }
    }
    let all = found.push(placement());
    assert(all[i - 1] == found[i - 1]);
    law_services_names(all, found[i - 1].name);
}

/// The services of a document hold, under each name, the last entry of that name, and
/// hold each name once.
pub proof fn law_last_write_wins(services: Seq<ServiceEntry>, i: int)
    requires
        0 <= i < services.len(),
        forall|j: int| i < j < services.len() ==> (#[trigger] services[j]).name != services[i].name,
    ensures
        lookup(services_entries(services), Tree::String(services[i].name)) == Some(
            entry_tree(services[i]),
        ),
        distinct_keys(services_entries(services)),
    decreases services.len(),
{
    lemma_services_plain(services);
    let init = services.drop_last();
    let last = services.last();
    let key = Tree::String(services[i].name);
    if i == services.len() - 1 {
        lemma_upsert_same(services_entries(init), key, entry_tree(last));
    } else {
        law_last_write_wins(init, i);
        lemma_upsert_other(services_entries(init), Tree::String(last.name), entry_tree(last), key);
    }
}

/// The services of a document hold an entry under a name exactly where some entry
/// has that name.
pub proof fn law_services_names(services: Seq<ServiceEntry>, name: Seq<char>)
    ensures
        lookup(services_entries(services), Tree::String(name)) is Some <==> exists|i: int|
            0 <= i < services.len() && (#[trigger] services[i]).name == name,
    decreases services.len(),
{
    let key = Tree::String(name);
    if services.len() == 0 {
        lemma_position_spec(services_entries(services), key);
    } else {
        let init = services.drop_last();
        let last = services.last();
        law_services_names(init, name);
        if last.name == name {
            lemma_upsert_same(services_entries(init), key, entry_tree(last));
        } else {
            lemma_upsert_other(
                services_entries(init),
                Tree::String(last.name),
                entry_tree(last),
                key,
            );
            if exists|i: int| 0 <= i < services.len() && (#[trigger] services[i]).name == name {
                let i = choose|i: int|
                    0 <= i < services.len() && (#[trigger] services[i]).name == name;
                assert(init[i].name == name);
            }
        }
    }
}

/// Every compose document holds the placement service under `placement`, with the
/// image `daprio/dapr`, whatever the entries are.
pub proof fn law_placement_present(services: Seq<ServiceEntry>)
    ensures
        compose_tree(services).get("services"@) == Some(
            Tree::Mapping(services_entries(services.push(placement()))),
        ),
        lookup(services_entries(services.push(placement())), Tree::String("placement"@)) == Some(
            entry_tree(placement()),
        ),
        entry_tree(placement()).get("image"@) == Some(Tree::String("daprio/dapr"@)),
{
    reveal_strlit("version");
    reveal_strlit("services");
    reveal_strlit("networks");
    reveal_strlit("image");
    assert("services"@.len() == 8);
    assert("image"@.len() == 5);
    let all = services.push(placement());
    let top = compose_tree(services)->Mapping_0;
    lemma_position_first(top, Tree::String("services"@), 1);
    assert(all.drop_last() =~= services);
    lemma_upsert_same(
        services_entries(services),
        Tree::String("placement"@),
        entry_tree(placement()),
    );
    let fields = entry_tree(placement())->Mapping_0;
    lemma_position_first(fields, Tree::String("image"@), 1);
}

} // verus!
