//! What is known of the memory.

use vstd::prelude::*;
use crate::fetch::{first_piece, second_piece, two_pieces, FetchError};
use crate::util::numeral::{parse_u64, read_u64};
use crate::util::text::{
    lines, remove_all, remove_char, remove_pattern, same_text, split_lines, strip_blanks,
    to_chars, trim, views, without_char,
};

verus! {

/// Amounts of memory, field by field.
pub struct MemInfo<T> {
    pub total: T,
    pub free: T,
    pub avail: T,
    pub used: T,
    pub cached: T,
    pub buffers: T,
    pub swap_used: T,
    pub swap_free: T,
    pub swap_total: T,
}

impl View for MemInfo<String> {
    type V = MemInfo<Seq<char>>;

    open spec fn view(&self) -> MemInfo<Seq<char>> {
        MemInfo {
            total: self.total@,
            free: self.free@,
            avail: self.avail@,
            used: self.used@,
            cached: self.cached@,
            buffers: self.buffers@,
            swap_used: self.swap_used@,
            swap_free: self.swap_free@,
            swap_total: self.swap_total@,
        }
    }
}

impl MemInfo<String> {
    /// Whether every field holds `text`.
    pub open spec fn all_are(&self, text: Seq<char>) -> bool {
        &&& self.total@ == text
        &&& self.free@ == text
        &&& self.avail@ == text
        &&& self.used@ == text
        &&& self.cached@ == text
        &&& self.buffers@ == text
        &&& self.swap_used@ == text
        &&& self.swap_free@ == text
        &&& self.swap_total@ == text
    }

    /// A record with `text` in every field.
    pub fn filled(text: &str) -> (r: Self)
        ensures
            r.all_are(text@),
    {
        MemInfo {
            total: text.to_owned(),
            free: text.to_owned(),
            avail: text.to_owned(),
            used: text.to_owned(),
            cached: text.to_owned(),
            buffers: text.to_owned(),
            swap_used: text.to_owned(),
            swap_free: text.to_owned(),
            swap_total: text.to_owned(),
        }
    }
}

/// Amounts of memory in MiB, each known or not.
pub type MemCounts = MemInfo<Option<u64>>;

/// No amount known.
pub open spec fn no_counts() -> MemCounts {
    MemInfo {
        total: None,
        free: None,
        avail: None,
        used: None,
        cached: None,
        buffers: None,
        swap_used: None,
        swap_free: None,
        swap_total: None,
    }
}

/// The amount that a line gives, in MiB: what stands behind the first colon,
/// without the unit `kB` and without spaces, trimmed and read as a number of
/// KiB, divided by 1024. A line without a colon, or with anything else
/// behind it, gives an error.
pub open spec fn amount(line: Seq<char>) -> Result<u64, FetchError> {
    match second_piece(line, ':') {
        None => Err(FetchError::MissingValue),
        Some(v) => match parse_u64(trim(without_char(remove_all(v, "kB"@), ' '))) {
            Some(n) => Ok(n / 1024),
            None => Err(FetchError::NotANumber),
        },
    }
}

/// The amounts after one more line was read: the line's amount goes to the
/// field that the line names, if it names any.
pub open spec fn counted(m: MemCounts, line: Seq<char>) -> Result<MemCounts, FetchError> {
    let key = trim(first_piece(line, ':'));
    match amount(line) {
        Err(e) => Err(e),
        Ok(n) => if key == "MemTotal"@ {
            Ok(MemInfo { total: Some(n), ..m })
        } else if key == "MemFree"@ {
            Ok(MemInfo { free: Some(n), ..m })
        } else if key == "MemAvailable"@ {
            Ok(MemInfo { avail: Some(n), ..m })
        } else if key == "Cached"@ {
            Ok(MemInfo { cached: Some(n), ..m })
        } else if key == "Buffers"@ {
            Ok(MemInfo { buffers: Some(n), ..m })
        } else if key == "SwapTotal"@ {
            Ok(MemInfo { swap_total: Some(n), ..m })
        } else if key == "SwapFree"@ {
            Ok(MemInfo { swap_free: Some(n), ..m })
        } else {
            Ok(m)
        },
    }
}

/// The amounts after the lines from `i` on were read, or the first error.
pub open spec fn counted_by(m: MemCounts, all: Seq<Seq<char>>, i: int) -> Result<
    MemCounts,
    FetchError,
>
    decreases all.len() - i,
{
    if i < 0 || i >= all.len() {
        Ok(m)
    } else {
        match counted(m, all[i]) {
            Ok(next) => counted_by(next, all, i + 1),
            Err(e) => Err(e),
        }
    }
}

/// The swap space in use: the total less the free, where both are known and
/// the free is no more than the total.
pub open spec fn swap_in_use(m: MemCounts) -> Option<u64> {
    match (m.swap_total, m.swap_free) {
        (Some(total), Some(free)) => if free <= total {
            Some((total - free) as u64)
        } else {
            None
        },
        _ => None,
    }
}

/// Reads one line.
fn count_line(m: &mut MemCounts, line: &Vec<char>) -> (r: Result<(), FetchError>)
    ensures
        match counted(*old(m), line@) {
            Ok(next) => r is Ok && *final(m) == next,
            Err(e) => r == Err::<(), FetchError>(e),
        },
{
    let (key, value) = two_pieces(line, ':');
    let key = strip_blanks(&key, true);
    let value = match value {
        Some(v) => v,
        None => {
            return Err(FetchError::MissingValue);
        },
    };
    let bare = strip_blanks(&remove_char(&remove_pattern(&value, &to_chars("kB")), ' '), true);
    let n = match read_u64(&bare) {
        Some(n) => n / 1024,
        None => {
            return Err(FetchError::NotANumber);
        },
    };
    if same_text(&key, &to_chars("MemTotal")) {
        m.total = Some(n);
    } else if same_text(&key, &to_chars("MemFree")) {
        m.free = Some(n);
    } else if same_text(&key, &to_chars("MemAvailable")) {
        m.avail = Some(n);
    } else if same_text(&key, &to_chars("Cached")) {
        m.cached = Some(n);
    } else if same_text(&key, &to_chars("Buffers")) {
        m.buffers = Some(n);
    } else if same_text(&key, &to_chars("SwapTotal")) {
        m.swap_total = Some(n);
    } else if same_text(&key, &to_chars("SwapFree")) {
        m.swap_free = Some(n);
    }
    Ok(())
}

/// Reads the amounts of memory from the text that lists them, line by line,
/// and works out the swap space in use. The memory in use is left unknown.
pub fn memory(meminfo: &str) -> (r: Result<MemCounts, FetchError>)
    ensures
        match counted_by(no_counts(), lines(meminfo@), 0) {
            Ok(m) => r == Ok::<MemCounts, FetchError>(
                MemInfo { swap_used: swap_in_use(m), ..m },
            ),
            Err(e) => r == Err::<MemCounts, FetchError>(e),
        },
{
    let all = split_lines(&to_chars(meminfo));
    let ghost every = lines(meminfo@);
    let mut m: MemCounts = MemInfo {
        total: None,
        free: None,
        avail: None,
        used: None,
        cached: None,
        buffers: None,
        swap_used: None,
        swap_free: None,
        swap_total: None,
    };
    let ghost goal = counted_by(m, every, 0);
    let mut i: usize = 0;
    while i < all.len()
        invariant
            i <= all@.len(),
            views(all@) == every,
            every == lines(meminfo@),
            goal == counted_by(no_counts(), every, 0),
            goal == counted_by(m, every, i as int),
        decreases all@.len() - i,
    {
        assert(every[i as int] == all@[i as int]@);
        match count_line(&mut m, &all[i]) {
            Ok(()) => {},
            Err(e) => {
                return Err(e);
            },
        }
        i += 1;
    }
    m.swap_used = match (m.swap_total, m.swap_free) {
        (Some(total), Some(free)) => if free <= total {
            Some(total - free)
        } else {
            None
        },
        _ => None,
    };
    Ok(m)
}

} // verus!
