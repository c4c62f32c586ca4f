//! Turns compose-shaped YAML into a stack spec that nub deploys
//! through its container, network, and volume operations. Variable
//! substitution, the field conversions, and the validation rules live
//! here; reading YAML text into the wire types happens at the edge.

pub mod configs;
pub mod duration;
pub mod secrets;
pub mod spec;
pub mod substitute;
pub mod transform;
pub mod wire;
