//! Human-readable rendering of a tracked duration, counted in whole
//! minutes, as `"D days H hrs M mins"` with leading all-zero components
//! omitted.

use vstd::prelude::*;

use crate::strutil::dec_str;
use crate::strutil::u64_to_string;

verus! {

pub const MINS_PER_HOUR: u64 = 60;

pub const MINS_PER_DAY: u64 = 1440;

/// A duration of `self.0` whole minutes, rendered in days, hours and
/// minutes.
pub struct PrettyDuration(pub u64);

pub open spec fn days_part(total: nat) -> Seq<char> {
    dec_str(total / 1440) + seq![' ', 'd', 'a', 'y', 's']
}

pub open spec fn hours_part(total: nat) -> Seq<char> {
    dec_str((total % 1440) / 60) + seq![' ', 'h', 'r', 's']
}

pub open spec fn mins_part(total: nat) -> Seq<char> {
    dec_str(total % 60) + seq![' ', 'm', 'i', 'n', 's']
}

/// What rendering a duration of `total` minutes yields: every component
/// from the most significant nonzero one down is printed, separated by
/// single spaces; a zero duration prints nothing.
pub open spec fn pretty_duration_str(total: nat) -> Seq<char> {
    if total / 1440 != 0 {
        days_part(total) + seq![' '] + hours_part(total) + seq![' '] + mins_part(total)
    } else if (total % 1440) / 60 != 0 {
        hours_part(total) + seq![' '] + mins_part(total)
    } else if total % 60 != 0 {
        mins_part(total)
    } else {
        Seq::empty()
    }
}

impl PrettyDuration {
    /// Renders the duration; mirrors the always-include-later-components
    /// rule of the textual form `"1 days 0 hrs 34 mins"`.
    pub fn render(&self) -> (r: String)
        ensures
            r@ == pretty_duration_str(self.0 as nat),
    {
        let total = self.0;
        let days = total / MINS_PER_DAY;
        let rem = total % MINS_PER_DAY;
        let hours = rem / MINS_PER_HOUR;
        let mins = rem % MINS_PER_HOUR;
        proof {
            reveal_strlit(" days");
            reveal_strlit(" hrs");
            reveal_strlit(" mins");
            reveal_strlit(" ");
            assert(" days"@ =~= seq![' ', 'd', 'a', 'y', 's']);
            assert(" hrs"@ =~= seq![' ', 'h', 'r', 's']);
            assert(" mins"@ =~= seq![' ', 'm', 'i', 'n', 's']);
            assert(" "@ =~= seq![' ']);
            assert(rem as nat == total as nat % 1440);
            assert(mins as nat == total as nat % 60) by {
                assert(total as nat % 1440 % 60 == total as nat % 60) by (nonlinear_arith);
            };
        }
        let mut r = String::new();
        let mut written = false;
        if days != 0 {
            let ds = u64_to_string(days);
            r.append(ds.as_str());
            r.append(" days");
            written = true;
        }
        if written {
            r.append(" ");
        }
        if written || hours != 0 {
            let hs = u64_to_string(hours);
            r.append(hs.as_str());
            r.append(" hrs");
            written = true;
        }
        if written {
            r.append(" ");
        }
        if written || mins != 0 {
            let ms = u64_to_string(mins);
            r.append(ms.as_str());
            r.append(" mins");
        }
        assert(r@ =~= pretty_duration_str(total as nat));
        r
    }
}

} // verus!
