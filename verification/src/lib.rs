//! A verified model of an acausal event lattice: events ("achronons") become
//! real once all of their antecedents have, the topology engine selects the
//! next batch of events, and the context engine renders the lattice as text.

pub mod bitmap;
pub mod achronon;
pub mod registry;
pub mod topology;
pub mod text;
pub mod context;
pub mod response;
pub mod operators;
pub mod sandbox;
pub mod narrative;
pub mod driver;
pub mod laws;

pub use achronon::Achronon;
pub use context::CognitiveContextEngine;
pub use operators::OperatorTable;
pub use registry::PrecipitationRegistry;
pub use response::AchrononTemplate;
pub use sandbox::{AgentConfig, AgentRoster, InjectRequest, Sandbox};
pub use topology::LatticeTopologyEngine;
