//! The drivers that read an input syntax, and the conversion of a YAML manifest.
use crate::codec::parse;
use crate::codec::yaml_tree;
use crate::extract::extract;
use crate::extract::extraction;
use crate::rewrite::rewrite;
use crate::rewrite::rewritten_all;
use crate::service::outcome;
use crate::service::ContainerAppConfiguration;
use crate::service::Failure;
use crate::service::ServiceEntry;
use crate::yaml::Node;
use crate::yaml::Tree;
use vstd::prelude::*;

verus! {

/// The syntax of an input, as the extension of its file tells it.
#[derive(Debug, Clone, Copy, PartialEq, Eq, Structural)]
pub enum Extension {
    Yaml,
    Typescript,
    Json,
    Bicep,
    NotSupported,
}

/// The driver for Pulumi manifests.
pub struct Pulumi<'a> {
    pub output: String,
    pub language: &'a Extension,
}

/// The entries of a document: those of its containers, or the failure of the search
/// for them.
pub open spec fn converted(document: Tree) -> Result<Seq<ServiceEntry>, Failure> {
    match extraction(document) {
        Ok(found) => Ok(rewritten_all(found)),
        Err(failure) => Err(failure),
    }
}

/// The entries of a YAML text: those of the document it holds; text that holds none
/// is of an unsupported format.
pub open spec fn deserialized(text: Seq<char>) -> Result<Seq<ServiceEntry>, Failure> {
    match yaml_tree(text) {
        Some(document) => converted(document),
        None => Err(Failure::UnsupportedFormat),
    }
}

/// A driver for one kind of manifest.
pub trait Convertor {
    /// Whether the driver answers for the syntax it was made for.
    spec fn implemented(&self) -> bool;

    /// What the driver reads from a text.
    spec fn reads(&self, input: Seq<char>) -> Result<Seq<ServiceEntry>, Failure>;

    /// The entries that a text declares.
    fn deserialize_value(&self, input: &str) -> (r: Result<
        Vec<ContainerAppConfiguration>,
        Failure,
    >)
        requires
            self.implemented(),
        ensures
            outcome(r) == self.reads(input@),
    ;

    /// Writes what the driver holds.
    fn serialize_value(&self) -> (r: Result<(), Failure>);
}

impl<'a> Pulumi<'a> {
    /// A driver that writes to `output` and reads the syntax `language`.
    pub fn new(output: String, language: &'a Extension) -> (r: Pulumi<'a>)
        ensures
            r.output == output,
            r.language == language,
    {
        Pulumi { output, language }
    }
}

impl<'a> Convertor for Pulumi<'a> {
    /// Every syntax but TypeScript is answered for: YAML is read, the others are refused.
    open spec fn implemented(&self) -> bool {
        *self.language != Extension::Typescript
    }

    open spec fn reads(&self, input: Seq<char>) -> Result<Seq<ServiceEntry>, Failure> {
        match *self.language {
            Extension::Yaml => deserialized(input),
            _ => Err(Failure::UnsupportedFormat),
        }
    }

    fn deserialize_value(&self, input: &str) -> (r: Result<
        Vec<ContainerAppConfiguration>,
        Failure,
    >) {
        match self.language {
            Extension::Yaml => deserialize_yaml(input),
            _ => Err(Failure::UnsupportedFormat),
        }
    }

    fn serialize_value(&self) -> (r: Result<(), Failure>)
        ensures
            r == Ok::<(), Failure>(()),
    {
        Ok(())
    }
}

/// The entries of a document.
pub fn convert(document: &Node) -> (r: Result<Vec<ContainerAppConfiguration>, Failure>)
    ensures
        outcome(r) == converted(document@),
{
    match extract(document) {
        Ok(found) => Ok(rewrite(&found)),
        Err(failure) => Err(failure),
    }
}

/// The entries of a YAML text.
pub fn deserialize_yaml(input: &str) -> (r: Result<Vec<ContainerAppConfiguration>, Failure>)
    ensures
        outcome(r) == deserialized(input@),
{
    match parse(input) {
        Some(document) => convert(&document),
        None => Err(Failure::UnsupportedFormat),
    }
}

} // verus!
