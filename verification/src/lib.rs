//! Decoding and merging of satellite-navigation timing records.
//!
//! Records (almanac and ephemeris data for GPS, GLONASS and Galileo) arrive
//! as checksummed, comma-delimited ASCII sentences wrapping hex-encoded
//! binary payloads. Each sentence is tokenized, checksum-validated and
//! decoded into a [`records::SatRec`]; records from several sources are
//! merged in a [`registry::Registry`], which keeps for each satellite id
//! only the most recent record and yields them in ascending id order.

pub mod compare;
pub mod hexcodec;
pub mod layouts;
pub mod records;
pub mod registry;
pub mod sentence;
pub mod text;
