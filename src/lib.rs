//! A small HTTP service core: a shared hit counter behind a health check, and a
//! greeting that validates a picked number and echoes it back.
//!
//! The HTTP server, the lock around the counter, JSON rendering and the API
//! document live with the program that hosts this library; everything those
//! layers decide is computed and proved here.
pub mod counter;
pub mod number;
pub mod greeting;
pub mod health;

pub use counter::HitCounter;
pub use greeting::{greeting, hello, GreetingError, Person, MAX_PICKED_NUMBER};
pub use health::{health, HealthStatus};
pub use number::parse_number;
