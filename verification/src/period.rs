//! The bounded schedule-query period: a date interval guaranteed to span a
//! week or less, the unit in which the upstream schedule endpoint is queried.

use crate::dates::date_key;
use crate::dates::date_key_string;
use crate::dates::day_index;
use crate::dates::Date;
use crate::errors::PipelineError;
use vstd::prelude::*;

verus! {

/// A date interval whose inclusive length is at most seven days.  The only
/// way to obtain one is the validating constructor [`WeekOrShorterPeriod::try_new`];
/// the fields are private and nothing mutates them afterwards.
#[derive(Clone, Copy, Debug)]
pub struct WeekOrShorterPeriod {
    start_date: Date,
    end_date: Date,
}

/// Whether `date` falls inside `p`, both endpoints included.
pub open spec fn period_contains(p: WeekOrShorterPeriod, date: Date) -> bool {
    day_index(p.spec_start()) <= day_index(date) <= day_index(p.spec_end())
}

impl WeekOrShorterPeriod {
    pub closed spec fn spec_start(self) -> Date {
        self.start_date
    }

    pub closed spec fn spec_end(self) -> Date {
        self.end_date
    }

    /// Both endpoints are valid dates and the end is at most six days after
    /// the start.
    pub open spec fn wf(self) -> bool {
        &&& self.spec_start().valid()
        &&& self.spec_end().valid()
        &&& 0 <= day_index(self.spec_end()) - day_index(self.spec_start()) <= 6
    }

    /// Validating constructor.  Succeeds exactly when the end date does not
    /// come before the start date and is at most six days after it; otherwise
    /// fails with `InvalidPeriod` carrying the actual inclusive span in days.
    pub fn try_new(start_date: Date, end_date: Date) -> (r: Result<Self, PipelineError>)
        requires
            start_date.valid(),
            end_date.valid(),
        ensures
            (r is Ok) <==> (0 <= day_index(end_date) - day_index(start_date) <= 6),
            r is Ok ==> {
                &&& r->Ok_0.spec_start() == start_date
                &&& r->Ok_0.spec_end() == end_date
                &&& r->Ok_0.wf()
            },
            r is Err ==> r->Err_0 == (PipelineError::InvalidPeriod {
                span_days: (day_index(end_date) - day_index(start_date) + 1) as i64,
            }),
    {
        let start_idx = start_date.to_day_index();
        let end_idx = end_date.to_day_index();
        let diff: i64 = end_idx as i64 - start_idx as i64;
        if 0 <= diff && diff <= 6 {
            Ok(WeekOrShorterPeriod { start_date, end_date })
        } else {
            Err(PipelineError::InvalidPeriod { span_days: diff + 1 })
        }
    }

    /// The canonical `YYYY-MM-DD` key of the start date, the only value the
    /// schedule query needs.
    pub fn get_start_date(&self) -> (s: String)
        requires
            self.wf(),
        ensures
            s@ == date_key(self.spec_start()),
    {
        date_key_string(&self.start_date)
    }

    /// Whether `date` falls inside the period, both endpoints included.
    pub fn within(&self, date: &Date) -> (r: bool)
        requires
            self.wf(),
            date.valid(),
        ensures
            r == period_contains(*self, *date),
    {
        let s = self.start_date.to_day_index();
        let e = self.end_date.to_day_index();
        let d = date.to_day_index();
        s <= d && d <= e
    }

    /// The period as text, `start to end`.
    pub fn describe(&self) -> (s: String)
        requires
            self.wf(),
        ensures
            s@ == date_key(self.spec_start()) + " to "@ + date_key(self.spec_end()),
    {
        let mut s = date_key_string(&self.start_date);
        s.append(" to ");
        let e = date_key_string(&self.end_date);
        s.append(e.as_str());
        proof {
            assert(s@ =~= date_key(self.spec_start()) + " to "@ + date_key(self.spec_end()));
        }
        s
    }
}

} // verus!
