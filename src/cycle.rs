use vstd::prelude::*;
use crate::price::Price;
use crate::source::{FetchError, PriceSource, Response};
use crate::time::{format_log_line, log_line_text, UtcTime};

verus! {

/// How one source fared in one cycle.
#[derive(Debug)]
pub enum Outcome {
    /// The price was fetched and its record appended.
    Saved(Price),
    /// The server refused the call with HTTP 429; the next cycle retries.
    RateLimited,
    /// The fetch failed for any other reason.
    FetchFailed(FetchError),
    /// The price was fetched but its record could not be appended.
    PersistFailed(String),
}

/// A status of 429: the server throttles the caller.
pub open spec fn is_rate_limit(e: FetchError) -> bool {
    match e {
        FetchError::Status(code) => code == 429,
        _ => false,
    }
}

pub open spec fn spec_classify(e: FetchError) -> Outcome {
    if is_rate_limit(e) {
        Outcome::RateLimited
    } else {
        Outcome::FetchFailed(e)
    }
}

/// The outcome reported for a failed fetch: `RateLimited` for a 429
/// status, the failure itself otherwise.
pub fn classify_fetch_error(e: FetchError) -> (r: Outcome)
    ensures
        r == spec_classify(e),
{
    let limited = match &e {
        FetchError::Status(code) => *code == 429,
        _ => false,
    };
    if limited {
        Outcome::RateLimited
    } else {
        Outcome::FetchFailed(e)
    }
}

/// The outcome reported once a fetched price has been written, or not.
pub fn persist_outcome(price: Price, written: Result<(), String>) -> (r: Outcome)
    ensures
        r == (match written {
            Ok(()) => Outcome::Saved(price),
            Err(m) => Outcome::PersistFailed(m),
        }),
{
    match written {
        Ok(()) => Outcome::Saved(price),
        Err(m) => Outcome::PersistFailed(m),
    }
}

/// A record to append to a source's log.
#[derive(Debug)]
pub struct LogRecord {
    pub file: &'static str,
    pub line: String,
    pub price: Price,
}

/// What to do once a source's fetch has returned.
#[derive(Debug)]
pub enum Step {
    /// Append the record, then report `persist_outcome` of the write.
    Append(LogRecord),
    /// Nothing to write: report this outcome.
    Report(Outcome),
}

impl PriceSource {
    /// `r` is the step owed after `fetched`, with the record stamped `at`.
    pub open spec fn is_step_for(
        self,
        fetched: Result<Response, FetchError>,
        at: UtcTime,
        r: Step,
    ) -> bool {
        match self.spec_fetch_price(fetched) {
            Ok(p) => match r {
                Step::Append(rec) => rec.price == p && rec.file@ == self.spec_log_file()
                    && rec.line@ == log_line_text(at, p),
                Step::Report(_) => false,
            },
            Err(e) => r == Step::Report(spec_classify(e)),
        }
    }

    /// The step after a fetch, with the record stamped `at`: a price is to
    /// be appended to this source's log; a failure is to be reported.
    pub fn step_at(self, fetched: Result<Response, FetchError>, at: &UtcTime) -> (r: Step)
        ensures
            self.is_step_for(fetched, *at, r),
    {
        match self.fetch_price(fetched) {
            Ok(p) => Step::Append(
                LogRecord { file: self.log_file(), line: format_log_line(at, p), price: p },
            ),
            Err(e) => Step::Report(classify_fetch_error(e)),
        }
    }

    /// The step after a fetch, with the record stamped now.
    pub fn next_step(self, fetched: Result<Response, FetchError>) -> (r: Step)
        ensures
            exists|t: UtcTime| t.wf() && self.is_step_for(fetched, t, r),
    {
        let now = UtcTime::now();
        self.step_at(fetched, &now)
    }
}

/// One source's line in a cycle's account.
#[derive(Debug)]
pub struct Report {
    pub source: PriceSource,
    pub outcome: Outcome,
}

/// The account of one cycle: an outcome for each source polled so far.
pub struct Cycle {
    reports: Vec<Report>,
}

/// The account after one more outcome: it goes to the next source in
/// registration order; a full account stays as it is.
pub open spec fn record_spec(reports: Seq<Report>, o: Outcome) -> Seq<Report> {
    if reports.len() < PriceSource::registration_order().len() {
        reports.push(Report { source: PriceSource::registration_order()[reports.len() as int], outcome: o })
    } else {
        reports
    }
}

/// The source to poll after `reports`, if any is left.
pub open spec fn next_spec(reports: Seq<Report>) -> Option<PriceSource> {
    if reports.len() < PriceSource::registration_order().len() {
        Some(PriceSource::registration_order()[reports.len() as int])
    } else {
        None
    }
}

/// The account of a cycle fed `outcomes` one after another.
pub open spec fn cycle_after(outcomes: Seq<Outcome>) -> Seq<Report>
    decreases outcomes.len(),
{
    if outcomes.len() == 0 {
        Seq::empty()
    } else {
        record_spec(cycle_after(outcomes.drop_last()), outcomes.last())
    }
}

impl View for Cycle {
    type V = Seq<Report>;

    closed spec fn view(&self) -> Seq<Report> {
        self.reports@
    }
}

impl Cycle {
    /// A cycle with no source polled yet.
    pub fn new() -> (c: Cycle)
        ensures
            c@ == Seq::<Report>::empty(),
    {
        Cycle { reports: Vec::new() }
    }

    /// The next source to poll, in registration order; `None` once all are.
    pub fn next_source(&self) -> (r: Option<PriceSource>)
        ensures
            r == next_spec(self@),
    {
        let n = self.reports.len();
        if n == 0 {
            Some(PriceSource::Bitcoin)
        } else if n == 1 {
            Some(PriceSource::Ethereum)
        } else if n == 2 {
            Some(PriceSource::SP500)
        } else {
            None
        }
    }

    /// Records the outcome of the source that `next_source` named.
    pub fn record(&mut self, outcome: Outcome)
        ensures
            final(self)@ == record_spec(old(self)@, outcome),
    {
        match self.next_source() {
            Some(source) => self.reports.push(Report { source, outcome }),
            None => {},
        }
    }

    /// Whether every source has an outcome.
    pub fn is_complete(&self) -> (r: bool)
        ensures
            r == (next_spec(self@) is None),
    {
        self.reports.len() >= 3
    }

    /// The outcomes so far, in polling order.
    pub fn reports(&self) -> (r: &Vec<Report>)
        ensures
            r@ == self@,
    {
        &self.reports
    }
}

} // verus!
