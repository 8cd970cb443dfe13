//! The data that the runtime's logging and metrics carry: the service a
//! metrics collector reports for, and the context fields of an operation's
//! log records. Emitting the records is left to the program that hosts the
//! library.

use vstd::prelude::*;

verus! {

/// Collects the metrics of one service.
#[derive(Debug, Clone)]
pub struct MetricsCollector {
    pub service_name: String,
}

impl MetricsCollector {
    /// A collector reporting for `service_name`.
    pub fn new(service_name: String) -> (r: Self)
        ensures
            r.service_name@ == service_name@,
    {
        MetricsCollector { service_name }
    }
}

/// The context of an operation's log records: the operation, and the node,
/// session and model it concerns, when known.
#[derive(Debug, Clone)]
pub struct LogContext {
    pub operation: String,
    pub node_id: Option<String>,
    pub session_id: Option<String>,
    pub model_id: Option<String>,
}

impl LogContext {
    /// The context of an operation, concerning nothing in particular yet.
    pub fn new(operation: String) -> (r: Self)
        ensures
            r.operation@ == operation@,
            r.node_id is None,
            r.session_id is None,
            r.model_id is None,
    {
        LogContext { operation, node_id: None, session_id: None, model_id: None }
    }

    /// The context, concerning this node.
    pub fn with_node_id(self, node_id: String) -> (r: Self)
        ensures
            r.operation == self.operation,
            r.node_id == Some(node_id),
            r.session_id == self.session_id,
            r.model_id == self.model_id,
    {
        LogContext { node_id: Some(node_id), ..self }
    }

    /// The context, concerning this session.
    pub fn with_session_id(self, session_id: String) -> (r: Self)
        ensures
            r.operation == self.operation,
            r.node_id == self.node_id,
            r.session_id == Some(session_id),
            r.model_id == self.model_id,
    {
        LogContext { session_id: Some(session_id), ..self }
    }

    /// The context, concerning this model.
    pub fn with_model_id(self, model_id: String) -> (r: Self)
        ensures
            r.operation == self.operation,
            r.node_id == self.node_id,
            r.session_id == self.session_id,
            r.model_id == Some(model_id),
    {
        LogContext { model_id: Some(model_id), ..self }
    }
}

} // verus!
