//! Logs of CDN providers.
use vstd::prelude::*;

use crate::origin_cost::OriginCostConfig;
use crate::providers::records::{record_views, LogRecord, RecordView};

pub mod cloudflare;
pub mod cloudfront;
pub mod fastly;
pub mod fidelity;
pub mod lines;
pub mod order;
pub mod records;

verus! {

/// Why a line of a log was not read.
#[derive(Debug, Clone, Copy, PartialEq, Eq, Structural)]
pub enum LineError {
    MalformedJson,
    InvalidTimestamp,
}

/// Why a log was not read.
#[derive(Debug, Clone, Copy, PartialEq, Eq, Structural)]
pub enum LogError {
    /// The log is no UTF-8 text.
    NotText,
}

/// What a line of a log says.
pub enum LineView {
    Record(RecordView),
    Skipped,
    Rejected(LineError),
}

/// What was read from a line.
pub open spec fn line_view(r: Result<Option<LogRecord>, LineError>) -> LineView {
    match r {
        Ok(Some(record)) => LineView::Record(record@),
        Ok(None) => LineView::Skipped,
        Err(e) => LineView::Rejected(e),
    }
}

/// Trait for parsing provider-specific log formats into canonical records.
pub trait ProviderLogParser {
    /// The name of the provider.
    spec fn spec_name(&self) -> Seq<char>;

    /// What is read from a log.
    spec fn spec_parse(&self, log: Seq<u8>, config: OriginCostConfig) -> Result<
        Seq<RecordView>,
        LogError,
    >;

    /// The name of the provider.
    fn name(&self) -> (r: &str)
        ensures
            r@ == self.spec_name(),
    ;

    /// Parse a log into a list of records, in the order of their times.
    fn parse(&self, log: &[u8], config: &OriginCostConfig) -> (r: Result<Vec<LogRecord>, LogError>)
        ensures
            match self.spec_parse(log@, *config) {
                Ok(records) => r is Ok && record_views(r->Ok_0@) == records,
                Err(e) => r == Err::<Vec<LogRecord>, LogError>(e),
            },
    ;
}

} // verus!
