//! Decoders for the fixed-column text blocks served by the JPL Horizons
//! ephemeris system.
//!
//! The service answers queries with human-readable tables: a catalog of
//! celestial bodies, time series of position/velocity vectors, time series
//! of Keplerian orbital elements, and blocks of geophysical properties.
//! The modules here turn those text blocks into typed records. Numeric
//! fields are kept as the exact decimal text found in the input (validated
//! against the standard floating-point grammar); turning them into machine
//! floats, as well as all network traffic and unit conversion, is left to
//! unverified callers.

pub mod datetime;
pub mod ephemeris;
pub mod major_bodies;
pub mod numbers;
pub mod parsing;
pub mod properties;
pub mod text;
pub mod utilities;

pub use ephemeris::EphemerisOrbitalElementsItem;
pub use ephemeris::EphemerisOrbitalElementsParser;
pub use ephemeris::EphemerisVectorItem;
pub use ephemeris::EphemerisVectorParser;
pub use major_bodies::MajorBody;
pub use major_bodies::MajorBodyParseError;
pub use utilities::TakeExpectingError;
pub use utilities::take_expecting;
pub use utilities::take_or_empty;
