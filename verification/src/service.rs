//! The entries of a compose document.
use vstd::prelude::*;

verus! {

/// The two ways in which a conversion fails.
#[derive(Debug, Clone, Copy, PartialEq, Eq, Structural)]
pub enum Failure {
    /// A required path is absent from the input document.
    StructuralError,
    /// The requested syntax has no driver, the text is not of that syntax, or the
    /// document cannot be written in it.
    UnsupportedFormat,
}

/// The mathematical model of one entry of a compose document.
pub struct ServiceEntry {
    pub name: Seq<char>,
    pub depends_on: Option<Seq<Seq<char>>>,
    pub networks: Option<Seq<Seq<char>>>,
    pub image: Seq<char>,
    pub environment: Option<Seq<Seq<char>>>,
    pub ports: Option<Seq<Seq<char>>>,
    pub command: Option<Seq<Seq<char>>>,
    pub network_mode: Option<Seq<char>>,
}

/// One deployable unit of a compose document.
#[derive(Debug, Clone, PartialEq, Eq)]
pub struct ContainerAppConfiguration {
    pub name: String,
    pub depends_on: Option<Vec<String>>,
    pub networks: Option<Vec<String>>,
    pub image: String,
    pub environment: Option<Vec<String>>,
    pub ports: Option<Vec<String>>,
    pub command: Option<Vec<String>>,
    pub network_mode: Option<String>,
}

/// The characters of each string of a list, in order.
pub open spec fn strings(items: Seq<String>) -> Seq<Seq<char>> {
    Seq::new(items.len(), |i: int| items[i]@)
}

/// The characters of each string of a list that may be absent.
pub open spec fn optional_strings(items: Option<Vec<String>>) -> Option<Seq<Seq<char>>> {
    match items {
        Some(list) => Some(strings(list@)),
        None => None,
    }
}

/// The characters of a string that may be absent.
pub open spec fn optional_string(item: Option<String>) -> Option<Seq<char>> {
    match item {
        Some(s) => Some(s@),
        None => None,
    }
}

impl View for ContainerAppConfiguration {
    type V = ServiceEntry;

    open spec fn view(&self) -> ServiceEntry {
        ServiceEntry {
            name: self.name@,
            depends_on: optional_strings(self.depends_on),
            networks: optional_strings(self.networks),
            image: self.image@,
            environment: optional_strings(self.environment),
            ports: optional_strings(self.ports),
            command: optional_strings(self.command),
            network_mode: optional_string(self.network_mode),
        }
    }
}

/// The entries that a list of services stands for, in order.
pub open spec fn entries(services: Seq<ContainerAppConfiguration>) -> Seq<ServiceEntry> {
    Seq::new(services.len(), |i: int| services[i]@)
}

/// What the result of a conversion stands for: the entries, or the failure.
pub open spec fn outcome(result: Result<Vec<ContainerAppConfiguration>, Failure>) -> Result<
    Seq<ServiceEntry>,
    Failure,
> {
    match result {
        Ok(services) => Ok(entries(services@)),
        Err(failure) => Err(failure),
    }
}

/// The placement service, which every compose document holds.
pub open spec fn placement() -> ServiceEntry {
    ServiceEntry {
        name: "placement"@,
        depends_on: None,
        networks: Some(seq!["dapr-network"@]),
        image: "daprio/dapr"@,
        environment: None,
        ports: Some(seq!["5006:5006"@]),
        command: Some(seq!["./placement"@, "-port"@, "50006"@]),
        network_mode: None,
    }
}

/// A list that holds the one string `item`.
pub fn one(item: String) -> (r: Vec<String>)
    ensures
        strings(r@) == seq![item@],
{
    let mut r: Vec<String> = Vec::new();
    r.push(item);
    assert(strings(r@) =~= seq![item@]);
    r
}

/// The placement service.
pub fn default_configuration() -> (r: ContainerAppConfiguration)
    ensures
        r@ == placement(),
{
    let mut command: Vec<String> = Vec::new();
    command.push("./placement".to_owned());
    command.push("-port".to_owned());
    command.push("50006".to_owned());
    assert(strings(command@) =~= seq!["./placement"@, "-port"@, "50006"@]);
    ContainerAppConfiguration {
        name: "placement".to_owned(),
        ports: Some(one("5006:5006".to_owned())),
        networks: Some(one("dapr-network".to_owned())),
        image: "daprio/dapr".to_owned(),
        command: Some(command),
        depends_on: None,
        environment: None,
        network_mode: None,
    }
}

} // verus!
