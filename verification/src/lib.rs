//! A small verified library around a dataset of film-industry people.
//!
//! The library covers the logic of the system: decoding loosely-typed query
//! rows into person records, filtering, sorting and deduplicating those
//! records into an immutable dataset keyed by the numeric suffix of the
//! external identifier, classifying a person by the presence of parent
//! encyclopedia links, answering single-record HTTP lookups with a JSON body,
//! and planning the live command-line lookups. Network and HTTP plumbing
//! stay outside the library and hand it plain values.

pub mod classify;
pub mod cli;
pub mod dataset;
pub mod fetch;
pub mod ids;
pub mod jsonout;
pub mod paths;
pub mod records;
pub mod service;

pub use classify::determine_nepo_babiness;
pub use classify::NepoBabiness;
pub use paths::get_nepos_csv_path;
pub use paths::get_people_library_module_path;
pub use records::PersonData;
pub use records::StaticPersonData;
