//! A small workflow execution engine: a workflow runs a named, ordered
//! sequence of actions against a shared run context, collects each action's
//! typed output, and makes prior outputs addressable by later actions
//! through a `<action>.<field>` variable-reference syntax.

pub mod table;
pub mod var;
pub mod action;
pub mod context;
pub mod workflow;
