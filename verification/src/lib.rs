//! A boundary-enforcement layer for untrusted text and structured data:
//! character-level HTML encoding, lexical tag stripping, removal of a fixed
//! set of dangerous elements, field sanitizers for free text, e-mail
//! addresses and URLs, and a recursive sanitizer for JSON-shaped values —
//! each with a proved contract — together with the verified display
//! helpers (durations, pagination, calendar days, CSV rows, date labels)
//! that the host invokes around them.
mod chars;
mod encode;
mod strip;
mod dangerous;
mod fields;
mod value;
mod laws;
mod block_laws;
mod display;
mod timeparse;
mod csv;
mod labels;

pub use encode::encode_html;
pub use strip::strip_tags;
pub use dangerous::strip_dangerous_tags;
pub use fields::{sanitize_text, sanitize_email, sanitize_url};
pub use value::{StructuredValue, sanitize_value};
pub use display::{format_minutes_to_duration, resolution_duration_from_ms, compute_page_numbers, days_from_epoch};
pub use timeparse::{parse_iso_to_ms, compute_resolution_time};
pub use csv::{IncidentRecord, build_incidents_csv};
pub use labels::{format_period_date, capitalize_first};
