//! Translates parsed ad-filter records (network-blocking and element-hiding
//! rules) into the declarative content-blocking rule format used by
//! browser-level blocking engines: one source record becomes one or two
//! target rules, or a named failure for every source feature the target
//! format cannot express.

pub mod model;
pub mod records;
pub mod cosmetic;
pub mod dispatch;
pub mod laws;
pub mod network;
pub mod strutil;

pub use model::CbAction;
pub use model::CbLoadType;
pub use model::CbResourceType;
pub use model::CbResourceTypeSet;
pub use model::CbRule;
pub use model::CbTrigger;
pub use model::CbType;
pub use model::CbRuleCreationFailure;
pub use model::CbRuleEquivalent;
pub use model::CbRuleEquivalentIterator;
pub use model::non_empty;
pub use records::CosmeticFilter;
pub use records::CosmeticFilterMask;
pub use records::FilterPart;
pub use records::NetworkFilter;
pub use records::NetworkFilterMask;
pub use records::ParsedFilter;
