//! Turning a raw tick count into the text that replaces it.
use crate::calendar::{
    local_offset_at, rfc3339, rfc3339_of, strftime_fixed, strftime_fixed_of, strftime_utc,
    strftime_utc_of, DAY_SECS, MAX_SECS,
};
use crate::text::string_of;
use vstd::prelude::*;

verus! {

/// How timestamps are rendered; fixed for a whole run.
pub struct Opt {
    /// A strftime-style pattern; `None` selects RFC 3339 text.
    pub format: Option<String>,
    /// Render in this machine's local time, with a numeric offset.
    pub local: bool,
    /// Wrap each rendering in double quotes.
    pub stringify: bool,
}

/// The divisors that turn a tick count into whole seconds.
pub open spec fn valid_divisor(divisor: int) -> bool {
    divisor == 1 || divisor == 1_000 || divisor == 1_000_000
}

/// A tick count that can be rendered with that divisor.
pub open spec fn ticks_in_range(ticks: int, divisor: int) -> bool {
    &&& valid_divisor(divisor)
    &&& 0 <= ticks
    &&& ticks / divisor <= MAX_SECS
}

/// An offset from UTC, in seconds east, that chrono accepts.
pub open spec fn offset_in_range(offset: int) -> bool {
    -DAY_SECS < offset < DAY_SECS
}

/// The rendering before any quoting. Without a pattern it is RFC 3339 text:
/// `Z` in UTC, a numeric offset in local time. A pattern that chrono reports
/// as malformed is shown as it was written.
pub open spec fn zone_text(secs: int, nanos: int, opt: Opt, offset: int) -> Seq<char> {
    match opt.format {
        None => if opt.local {
            rfc3339_of(secs, nanos, offset, false)
        } else {
            rfc3339_of(secs, nanos, 0, true)
        },
        Some(pattern) => {
            let made = if opt.local {
                strftime_fixed_of(secs, nanos, offset, pattern@)
            } else {
                strftime_utc_of(secs, nanos, pattern@)
            };
            match made {
                Some(t) => t,
                None => pattern@,
            }
        },
    }
}

/// Wraps `s` in double quotes.
pub open spec fn quoted(s: Seq<char>) -> Seq<char> {
    seq!['"'] + s + seq!['"']
}

/// The full rendering of `ticks` units of `1 / divisor` seconds since the
/// epoch; the remainder of the division is passed on as nanoseconds. The
/// offset counts only in local time.
pub open spec fn rendering_of(ticks: int, divisor: int, opt: Opt, offset: int) -> Seq<char> {
    let body = zone_text(ticks / divisor, ticks % divisor, opt, offset);
    if opt.stringify {
        quoted(body)
    } else {
        body
    }
}

/// What a rendering of `ticks` may be: the UTC text exactly, or in local time
/// the text at some offset within a day of UTC (the machine picks it).
pub open spec fn renders_as(r: Seq<char>, ticks: int, divisor: int, opt: Opt) -> bool {
    if opt.local {
        exists|offset: int| offset_in_range(offset) && r == #[trigger] rendering_of(ticks, divisor, opt, offset)
    } else {
        r == rendering_of(ticks, divisor, opt, 0)
    }
}

/// Renders `ticks` as seen at `offset` seconds east of UTC, where `opt` asks
/// for local time; in UTC otherwise.
pub fn render_at_offset(ticks: i64, divisor: i64, offset: i32, opt: &Opt) -> (r: String)
    requires
        ticks_in_range(ticks as int, divisor as int),
        offset_in_range(offset as int),
    ensures
        r@ == rendering_of(ticks as int, divisor as int, *opt, offset as int),
{
    let secs = ticks / divisor;
    let nanos = (ticks % divisor) as u32;
    let body: Vec<char> = match &opt.format {
        None => if opt.local {
            rfc3339(secs, nanos, offset, false)
        } else {
            rfc3339(secs, nanos, 0, true)
        },
        Some(pattern) => {
            let made = if opt.local {
                strftime_fixed(secs, nanos, offset, pattern.as_str())
            } else {
                strftime_utc(secs, nanos, pattern.as_str())
            };
            match made {
                Some(t) => t,
                None => crate::text::chars_of(pattern.as_str()),
            }
        },
    };
    if opt.stringify {
        let mut out: Vec<char> = Vec::new();
        out.push('"');
        let mut inner = body;
        out.append(&mut inner);
        out.push('"');
        assert(out@ =~= quoted(body@));
        string_of(&out)
    } else {
        string_of(&body)
    }
}

/// Renders `ticks` units of `1 / divisor` seconds since the epoch as `opt`
/// asks; in local time the offset is the machine's at that instant.
pub fn parse_ticks(ticks: i64, divisor: i64, opt: &Opt) -> (r: String)
    requires
        ticks_in_range(ticks as int, divisor as int),
    ensures
        renders_as(r@, ticks as int, divisor as int, *opt),
{
    let offset = if opt.local {
        local_offset_at(ticks / divisor)
    } else {
        0
    };
    render_at_offset(ticks, divisor, offset, opt)
}

} // verus!
