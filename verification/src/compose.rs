//! Building the compose document from the entries and writing it out.
use crate::codec::render;
use crate::codec::yaml_text;
use crate::service::default_configuration;
use crate::service::entries;
use crate::service::placement;
use crate::service::strings;
use crate::service::ContainerAppConfiguration;
use crate::service::Failure;
use crate::service::ServiceEntry;
use crate::yaml::distinct_keys;
use crate::yaml::insert;
use crate::yaml::lemma_position_none;
use crate::yaml::lemma_upsert_keys;
use crate::yaml::string_keys;
use crate::yaml::tree_entries;
use crate::yaml::trees;
use crate::yaml::upsert;
use crate::yaml::Node;
use crate::yaml::Tree;
use vstd::prelude::*;
use vstd::string::StrSliceExecFns;
use vstd::utf8::encode_utf8;

verus! {

/// The sequence of strings that stands for a list.
pub open spec fn list_tree(items: Seq<Seq<char>>) -> Tree {
    Tree::Sequence(Seq::new(items.len(), |i: int| Tree::String(items[i])))
}

/// The field `key` of an entry where it holds a list, and nothing where it is absent.
pub open spec fn list_field(key: Seq<char>, items: Option<Seq<Seq<char>>>) -> Seq<(Tree, Tree)> {
    match items {
        Some(list) => seq![(Tree::String(key), list_tree(list))],
        None => Seq::empty(),
    }
}

/// The field `key` of an entry where it holds a string, and nothing where it is absent.
pub open spec fn text_field(key: Seq<char>, text: Option<Seq<char>>) -> Seq<(Tree, Tree)> {
    match text {
        Some(s) => seq![(Tree::String(key), Tree::String(s))],
        None => Seq::empty(),
    }
}

/// The fields under which an entry is written: the image always, each of the others
/// where it is present, and not the name, which is the key of the entry.
pub open spec fn entry_fields(entry: ServiceEntry) -> Seq<(Tree, Tree)> {
    list_field("depends_on"@, entry.depends_on) + list_field("networks"@, entry.networks)
        + text_field("image"@, Some(entry.image)) + list_field("environment"@, entry.environment)
        + list_field("ports"@, entry.ports) + list_field("command"@, entry.command) + text_field(
        "network_mode"@,
        entry.network_mode,
    )
}

/// The mapping that stands for an entry.
pub open spec fn entry_tree(entry: ServiceEntry) -> Tree {
    Tree::Mapping(entry_fields(entry))
}

/// The services of a document: each entry under its name, in the order in which the
/// names first occur, a later entry taking the place of an earlier one of its name.
pub open spec fn services_entries(services: Seq<ServiceEntry>) -> Seq<(Tree, Tree)>
    decreases services.len(),
{
    if services.len() == 0 {
        Seq::empty()
    } else {
        upsert(
            services_entries(services.drop_last()),
            Tree::String(services.last().name),
            entry_tree(services.last()),
        )
    }
}

/// A configuration with the schema version and the services put into it.
pub open spec fn merged(configuration: Seq<(Tree, Tree)>, services: Seq<(Tree, Tree)>) -> Seq<
    (Tree, Tree),
> {
    upsert(
        upsert(configuration, Tree::String("version"@), Tree::String("3.9"@)),
        Tree::String("services"@),
        Tree::Mapping(services),
    )
}

/// The compose document of a list of entries: the schema version, and the services
/// with the placement service after them.
pub open spec fn compose_tree(services: Seq<ServiceEntry>) -> Tree {
    Tree::Mapping(
        seq![
            (Tree::String("version"@), Tree::String("3.9"@)),
            (Tree::String("services"@), Tree::Mapping(services_entries(services.push(placement())))),
        ],
    )
}

/// The bytes of the compose document of a list of entries, or the failure where the
/// document cannot be written.
pub open spec fn composed(services: Seq<ServiceEntry>) -> Result<Seq<u8>, Failure> {
    match yaml_text(compose_tree(services)) {
        Some(text) => Ok(encode_utf8(text)),
        None => Err(Failure::UnsupportedFormat),
    }
}

/// Whether the values of `entries` are all plain.
pub open spec fn plain_values(entries: Seq<(Tree, Tree)>) -> bool {
    forall|i: int| 0 <= i < entries.len() ==> (#[trigger] entries[i]).1.plain()
}

/// The place of a key in the order in which the fields of an entry are written.
spec fn rank(key: Tree) -> int {
    if key == Tree::String("depends_on"@) {
        0
    } else if key == Tree::String("networks"@) {
        1
    } else if key == Tree::String("image"@) {
        2
    } else if key == Tree::String("environment"@) {
        3
    } else if key == Tree::String("ports"@) {
        4
    } else if key == Tree::String("command"@) {
        5
    } else if key == Tree::String("network_mode"@) {
        6
    } else {
        7
    }
}

/// Whether `fields` are plain, in the order of their ranks, and all below `bound`.
spec fn ranked(fields: Seq<(Tree, Tree)>, bound: int) -> bool {
    &&& string_keys(fields)
    &&& plain_values(fields)
    &&& forall|i: int| 0 <= i < fields.len() ==> rank((#[trigger] fields[i]).0) < bound
    &&& forall|i: int, j: int|
        0 <= i < j < fields.len() ==> rank((#[trigger] fields[i]).0) < rank(
            (#[trigger] fields[j]).0,
        )
}

/// Ranked fields stay ranked when at most one field of the next rank follows them.
proof fn lemma_ranked_step(fields: Seq<(Tree, Tree)>, more: Seq<(Tree, Tree)>, bound: int)
    requires
        ranked(fields, bound),
        more.len() <= 1,
        more.len() == 1 ==> more[0].0 is String && rank(more[0].0) == bound && more[0].1.plain(),
    ensures
        ranked(fields + more, bound + 1),
{
}

/// The ranks of the keys under which an entry is written.
proof fn lemma_ranks()
    ensures
        rank(Tree::String("depends_on"@)) == 0,
        rank(Tree::String("networks"@)) == 1,
        rank(Tree::String("image"@)) == 2,
        rank(Tree::String("environment"@)) == 3,
        rank(Tree::String("ports"@)) == 4,
        rank(Tree::String("command"@)) == 5,
        rank(Tree::String("network_mode"@)) == 6,
{
    reveal_strlit("depends_on");
    reveal_strlit("networks");
    reveal_strlit("image");
    reveal_strlit("environment");
    reveal_strlit("ports");
    reveal_strlit("command");
    reveal_strlit("network_mode");
    assert("depends_on"@.len() == 10);
    assert("networks"@.len() == 8);
    assert("image"@.len() == 5 && "image"@[0] == 'i');
    assert("environment"@.len() == 11);
    assert("ports"@.len() == 5 && "ports"@[0] == 'p');
    assert("command"@.len() == 7);
    assert("network_mode"@.len() == 12);
}

/// The tree of a list of strings is plain.
proof fn lemma_list_plain(items: Seq<Seq<char>>)
    ensures
        list_tree(items).plain(),
{
    let nodes = list_tree(items)->Sequence_0;
    assert forall|i: int| 0 <= i < nodes.len() implies (#[trigger] nodes[i]).plain() by {
        assert(nodes[i] == Tree::String(items[i]));
    }
}

/// A field of an entry that holds a list is at most one plain field under its key.
proof fn lemma_list_field(key: Seq<char>, items: Option<Seq<Seq<char>>>)
    ensures
        list_field(key, items).len() <= 1,
        list_field(key, items).len() == 1 ==> list_field(key, items)[0].0 == Tree::String(key)
            && list_field(key, items)[0].1.plain(),
{
    if let Some(list) = items {
        lemma_list_plain(list);
    }
}

/// The tree of an entry is plain: its fields are keyed by plain strings, each used once.
pub proof fn lemma_entry_plain(entry: ServiceEntry)
    ensures
        entry_tree(entry).plain(),
{
    lemma_ranks();
    let f0 = Seq::<(Tree, Tree)>::empty();
    let p1 = list_field("depends_on"@, entry.depends_on);
    let p2 = list_field("networks"@, entry.networks);
    let p3 = text_field("image"@, Some(entry.image));
    let p4 = list_field("environment"@, entry.environment);
    let p5 = list_field("ports"@, entry.ports);
    let p6 = list_field("command"@, entry.command);
    let p7 = text_field("network_mode"@, entry.network_mode);
    lemma_list_field("depends_on"@, entry.depends_on);
    lemma_list_field("networks"@, entry.networks);
    lemma_list_field("environment"@, entry.environment);
    lemma_list_field("ports"@, entry.ports);
    lemma_list_field("command"@, entry.command);
    lemma_ranked_step(f0, p1, 0);
    lemma_ranked_step(p1, p2, 1);
    lemma_ranked_step(p1 + p2, p3, 2);
    lemma_ranked_step(p1 + p2 + p3, p4, 3);
    lemma_ranked_step(p1 + p2 + p3 + p4, p5, 4);
    lemma_ranked_step(p1 + p2 + p3 + p4 + p5, p6, 5);
    lemma_ranked_step(p1 + p2 + p3 + p4 + p5 + p6, p7, 6);
}

/// The services of a document are keyed by plain strings, each used once, and each
/// entry under them is plain.
pub proof fn lemma_services_plain(services: Seq<ServiceEntry>)
    ensures
        string_keys(services_entries(services)),
        distinct_keys(services_entries(services)),
        plain_values(services_entries(services)),
    decreases services.len(),
{
    if services.len() > 0 {
        lemma_services_plain(services.drop_last());
        lemma_upsert_keys(
            services_entries(services.drop_last()),
            services.last().name,
            entry_tree(services.last()),
        );
        lemma_entry_plain(services.last());
    }
}

/// A configuration that was empty holds, once merged, the version and the services.
pub proof fn lemma_merged_empty(services: Seq<(Tree, Tree)>)
    ensures
        merged(Seq::empty(), services) == seq![
            (Tree::String("version"@), Tree::String("3.9"@)),
            (Tree::String("services"@), Tree::Mapping(services)),
        ],
{
    reveal_strlit("version");
    reveal_strlit("services");
    assert("version"@.len() == 7 && "services"@.len() == 8);
    let empty = Seq::<(Tree, Tree)>::empty();
    lemma_position_none(empty, Tree::String("version"@));
    let first = upsert(empty, Tree::String("version"@), Tree::String("3.9"@));
    lemma_position_none(first, Tree::String("services"@));
}

/// The compose document is plain.
pub proof fn lemma_compose_plain(services: Seq<ServiceEntry>)
    ensures
        compose_tree(services).plain(),
{
    reveal_strlit("version");
    reveal_strlit("services");
    assert("version"@.len() == 7 && "services"@.len() == 8);
    lemma_services_plain(services.push(placement()));
    let top = compose_tree(services)->Mapping_0;
    assert(string_keys(top) && distinct_keys(top) && plain_values(top));
}

/// The node of a list of strings.
fn list_node(items: &Vec<String>) -> (r: Node)
    ensures
        r@ == list_tree(strings(items@)),
{
    let mut nodes: Vec<Node> = Vec::new();
    let mut i: usize = 0;
    while i < items.len()
        invariant
            i <= items.len(),
            nodes@.len() == i,
            forall|j: int| 0 <= j < i ==> (#[trigger] nodes@[j])@ == Tree::String(items@[j]@),
        decreases items.len() - i,
    {
        nodes.push(Node::string(items[i].clone()));
        i += 1;
    }
    assert(trees(nodes@) =~= list_tree(strings(items@))->Sequence_0);
    Node::sequence(nodes)
}

/// Appends the field `key` to `fields` where `items` is present.
fn push_list(fields: &mut Vec<(Node, Node)>, key: &str, items: &Option<Vec<String>>)
    ensures
        tree_entries(final(fields)@) == tree_entries(old(fields)@) + list_field(
            key@,
            match *items {
                Some(list) => Some(strings(list@)),
                None => None,
            },
        ),
{
    if let Some(list) = items {
        fields.push((Node::string(key.to_owned()), list_node(list)));
    }
}

/// Appends the field `key` to `fields` where `text` is present.
fn push_text(fields: &mut Vec<(Node, Node)>, key: &str, text: Option<&String>)
    ensures
        tree_entries(final(fields)@) == tree_entries(old(fields)@) + text_field(
            key@,
            match text {
                Some(s) => Some(s@),
                None => None,
            },
        ),
{
    if let Some(s) = text {
        fields.push((Node::string(key.to_owned()), Node::string(s.clone())));
    }
}

/// The node that stands for an entry.
pub fn entry_node(service: &ContainerAppConfiguration) -> (r: Node)
    ensures
        r@ == entry_tree(service@),
{
    let mut fields: Vec<(Node, Node)> = Vec::new();
    push_list(&mut fields, "depends_on", &service.depends_on);
    push_list(&mut fields, "networks", &service.networks);
    push_text(&mut fields, "image", Some(&service.image));
    push_list(&mut fields, "environment", &service.environment);
    push_list(&mut fields, "ports", &service.ports);
    push_list(&mut fields, "command", &service.command);
    push_text(&mut fields, "network_mode", service.network_mode.as_ref());
    Node::mapping(fields)
}

/// Puts an entry under its name into the services gathered so far.
pub fn cast_struct_as_value(acc: Vec<(Node, Node)>, service: &ContainerAppConfiguration) -> (r:
    Vec<(Node, Node)>)
    ensures
        tree_entries(r@) == upsert(
            tree_entries(acc@),
            Tree::String(service@.name),
            entry_tree(service@),
        ),
{
    let mut acc = acc;
    insert(&mut acc, service.name.clone(), entry_node(service));
    acc
}

/// Puts the schema version and the services into a configuration.
pub fn merge_configuration(configuration: Vec<(Node, Node)>, services: Vec<(Node, Node)>) -> (r:
    Vec<(Node, Node)>)
    ensures
        tree_entries(r@) == merged(tree_entries(configuration@), tree_entries(services@)),
{
    let mut configuration = configuration;
    insert(&mut configuration, "version".to_owned(), Node::string("3.9".to_owned()));
    insert(&mut configuration, "services".to_owned(), Node::mapping(services));
    configuration
}

/// The node of the compose document of a list of entries.
pub fn compose(services: Vec<ContainerAppConfiguration>) -> (r: Node)
    ensures
        r@ == compose_tree(entries(services@)),
{
    let ghost given = entries(services@);
    let mut all = services;
    all.push(default_configuration());
    let ghost model = entries(all@);
    assert(model =~= given.push(placement()));
    let mut acc: Vec<(Node, Node)> = Vec::new();
    let mut i: usize = 0;
    while i < all.len()
        invariant
            i <= all.len(),
            model == entries(all@),
            tree_entries(acc@) == services_entries(model.take(i as int)),
        decreases all.len() - i,
    {
        assert(model.take(i + 1).drop_last() =~= model.take(i as int));
        acc = cast_struct_as_value(acc, &all[i]);
        i += 1;
    }
    assert(model.take(i as int) =~= model);
    let configuration = merge_configuration(Vec::new(), acc);
    proof {
        lemma_merged_empty(services_entries(model));
    }
    Node::mapping(configuration)
}

/// The bytes of the compose document of a list of entries.
pub fn serialize_to_compose(services: Vec<ContainerAppConfiguration>) -> (r: Result<
    Vec<u8>,
    Failure,
>)
    ensures
        match r {
            Ok(bytes) => composed(entries(services@)) == Ok::<Seq<u8>, Failure>(bytes@),
            Err(failure) => composed(entries(services@)) == Err::<Seq<u8>, Failure>(failure),
        },
{
    let ghost given = entries(services@);
    let document = compose(services);
    proof {
        lemma_compose_plain(given);
    }
    match render(&document) {
        Some(text) => Ok(text.as_str().as_bytes_vec()),
        None => Err(Failure::UnsupportedFormat),
    }
}

} // verus!
