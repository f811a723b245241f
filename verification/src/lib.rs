//! Lowering of `ORDER BY` for a register-based query engine.
//!
//! A sorted `SELECT` is lowered in three phases that share one
//! [`context::TranslateCtx`]: [`order_by::init_order_by`] configures the
//! sorter, [`order_by::order_by_sorter_insert`] feeds it one record per
//! candidate row, and [`order_by::emit_order_by`] drains it in sorted order.
//!
//! The layout of the sorter record, and the way the output columns are found
//! in it again, is specified in [`layout`]. Which expressions can be
//! compiled is said in [`resolver`]. What the emitted instructions do
//! when they run is stated in [`soundness`], over the model of the engine in
//! [`engine`].

pub mod collate;
pub mod context;
pub mod emitter;
pub mod engine;
pub mod error;
pub mod expr;
pub mod layout;
pub mod order_by;
pub mod plan;
pub mod program;
pub mod resolver;
pub mod schema;
pub mod soundness;
