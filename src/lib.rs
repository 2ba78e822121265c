//! An English dictionary lookup adapter: it builds the request address for a
//! query and flattens the service's nested entries into displayable records.

pub mod model;
pub mod flatten;
pub mod lookup;
pub mod search;
pub mod laws;
