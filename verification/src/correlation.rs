//! Per-request correlation: a fresh identifier plus attributes, carried as
//! an explicit value through every phase of a request — including across
//! the suspension point of the persistence call — so that all log records
//! of one request can be joined afterwards.
//!
//! The context is a plain value, never an ambient scope guard: whoever
//! resumes after the persistence call still holds it and keeps tagging.

use vstd::prelude::*;
use vstd::string::StringExecFns;
use crate::outside::fresh_id;

verus! {

/// One structured attribute attached to a request.
pub struct Attribute {
    pub key: String,
    pub value: String,
}

/// The identifier and attributes of one request in flight.
pub struct CorrelationContext {
    pub request_id: String,
    pub attributes: Vec<Attribute>,
}

/// One structured log line, tagged with the request it belongs to.
pub struct LogRecord {
    pub request_id: String,
    pub message: String,
}

/// Whether a record carries the identifier of this context.
pub open spec fn tagged_by(r: LogRecord, c: CorrelationContext) -> bool {
    r.request_id@ == c.request_id@
}

impl CorrelationContext {
    /// Opens the context of a fresh request under a newly drawn identifier,
    /// with no attributes yet.
    pub fn begin() -> (c: CorrelationContext)
        ensures
            c.request_id@.len() == 36,
            c.attributes@.len() == 0,
    {
        CorrelationContext { request_id: fresh_id(), attributes: Vec::new() }
    }

    /// Opens a context under a caller-supplied identifier.
    pub fn begin_with(request_id: String) -> (c: CorrelationContext)
        ensures
            c.request_id@ == request_id@,
            c.attributes@.len() == 0,
    {
        CorrelationContext { request_id, attributes: Vec::new() }
    }

    /// Adds one attribute; additions only, nothing is ever removed.
    pub fn with_attribute(self, key: String, value: String) -> (c: CorrelationContext)
        ensures
            c.request_id@ == self.request_id@,
            c.attributes@.len() == self.attributes@.len() + 1,
            forall|i: int| 0 <= i < self.attributes@.len() ==> c.attributes@[i]
                == self.attributes@[i],
            c.attributes@[c.attributes@.len() - 1].key@ == key@,
            c.attributes@[c.attributes@.len() - 1].value@ == value@,
    {
        let mut attributes = self.attributes;
        attributes.push(Attribute { key, value });
        CorrelationContext { request_id: self.request_id, attributes }
    }

    /// Emits one log record, tagged with this request's identifier.
    pub fn emit(&self, message: String) -> (r: LogRecord)
        ensures
            tagged_by(r, *self),
            r.message@ == message@,
    {
        let id = copy_string(&self.request_id);
        LogRecord { request_id: id, message }
    }
}

/// A copy of a string.
pub(crate) fn copy_string(s: &String) -> (r: String)
    ensures
        r@ == s@,
{
    String::from_str(s.as_str())
}

/// Law: two requests served under distinct identifiers can never produce
/// log records that share one — records are joined by identifier alone, so
/// the lines of concurrent requests stay apart.
pub proof fn lemma_concurrent_records_distinct(
    c1: CorrelationContext,
    c2: CorrelationContext,
    r1: LogRecord,
    r2: LogRecord,
)
    requires
        c1.request_id@ != c2.request_id@,
        tagged_by(r1, c1),
        tagged_by(r2, c2),
    ensures
        r1.request_id@ != r2.request_id@,
{
}

} // verus!
