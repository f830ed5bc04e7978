//! Flood alerts for a waterway segment: signed unsubscribe tokens, the
//! subscriber lifecycle, the tide archive with its flood query, and the
//! planning of notification batches.

pub mod notify;
pub mod subscriber;
pub mod text;
pub mod tides;
pub mod token;

pub use notify::{NotificationTemplate, OutgoingEmail, VerifyTemplate};
pub use subscriber::{SignUpRequest, UnsubscribeParams, User, VerifyParams};
pub use tides::{get_flood_predictions, update_tide_predictions, FloodDisplay};
