//! Resolution of OpenAlias addresses: turning `local@domain` into the DNS
//! name to query, and turning the TXT records found there into payment
//! records, narrowed by currency.

pub mod split;
pub mod alias;
pub mod record;
pub mod select;
pub mod lookup;
pub mod options;

pub use alias::alias_to_fqdn;
pub use options::Options;
