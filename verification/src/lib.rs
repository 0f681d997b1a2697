//! Worker selection for a gateway that serves language models.
//!
//! A request names a model. The stage in [`stage`] picks the workers that will serve it: one
//! worker in regular mode, a prefill and a decode worker in disaggregated mode, and in addition
//! one encode worker per multimodal item where encoding is disaggregated too.
//!
//! [`execute`] runs the stage on a whole request. A request that finds every prefill worker full
//! waits; the caller runs it again when a worker has room, or when its time is up.

pub mod admission;
pub mod context;
pub mod encode_laws;
pub mod execute;
pub mod failure_laws;
pub mod headers;
pub mod laws;
pub mod multimodal;
pub mod notices;
pub mod outcome_laws;
pub mod pick_laws;
pub mod policy;
pub mod policy_laws;
pub mod policy_registry;
pub mod pool;
pub mod prefill;
pub mod registry;
pub mod response;
pub mod roster_laws;
pub mod run_laws;
pub mod selection;
pub mod stage;
pub mod worker;
