//! Conversion of container-app resource manifests into compose documents.
//!
//! A manifest is read as a YAML document ([`codec`], [`yaml`]), its container-app
//! resources and their containers are found ([`extract`]), each container becomes one
//! compose entry, or two where the mesh is on ([`rewrite`]), and the entries are
//! gathered with the placement service into a compose document and written out
//! ([`compose`]). [`driver`] holds the drivers by input syntax, [`laws`] what holds of
//! every conversion.
pub mod codec;
pub mod compose;
pub mod driver;
pub mod extract;
pub mod laws;
pub mod rewrite;
pub mod service;
pub mod text;
pub mod yaml;

pub use crate::compose::serialize_to_compose;
pub use crate::driver::deserialize_yaml;
pub use crate::driver::Convertor;
pub use crate::driver::Extension;
pub use crate::driver::Pulumi;
pub use crate::service::default_configuration;
pub use crate::service::ContainerAppConfiguration;
pub use crate::service::Failure;
