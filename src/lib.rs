//! A ledger of client accounts driven by a stream of payment events.
//!
//! The [`Analysis`] state machine takes deposits, withdrawals and the
//! dispute lifecycle (dispute, resolve, chargeback) one event at a time,
//! and finally turns into an [`AnalysisSummary`] with one record per client.
//! Its behaviour is stated over the model in [`model`]; [`laws`] proves
//! properties of whole event sequences over that model.

pub mod analysis;
pub mod error;
pub mod event;
pub mod laws;
pub mod model;
pub mod preservation;
pub mod summary;
pub mod sums;
pub mod text;
pub mod types;

pub use analysis::Analysis;
pub use error::{AnalysisResult, Error as AnalysisError};
pub use event::{generate_event, Event, EventType, MissingAmount, RawEvent};
pub use model::{Kind as OperationKind, Operation};
pub use summary::{AnalysisSummary, Summary as AccountSummary};
pub use types::{Amount, Client, Tx};
