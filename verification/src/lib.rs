//! Locates every occurrence of a search term inside hierarchically
//! structured legal-statute XML and records, for each match, the structural
//! address (part / chapter / section / ... / supplementary provision) of the
//! containing text node, so the exact provision can be fetched again later.
//!
//! The core is a single pass over XML parse events: it tracks the current
//! structural address as elements open, tests every text node against the
//! search term, and finally emits the deduplicated, canonically ordered set
//! of addresses where matches occurred.

pub mod address;
pub mod order;
pub mod assemble;
pub mod events;
pub mod decode;
pub mod matcher;
pub mod tracker;
pub mod search;
pub mod laws;

pub use address::{AddrView, Chapter};
pub use assemble::{dedup_addresses, sort_addresses, LawParagraph};
pub use events::{ElementKind, XmlAttr, XmlEvent};
pub use search::{search_xml, search_xml_any};
pub use tracker::{step, ScanState, SearchError};
