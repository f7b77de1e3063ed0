//! What is known of the processor.

use vstd::prelude::*;
use crate::fetch::{begins_with, second_piece, starts_with, two_pieces, FetchError};
use crate::util::text::{
    lines, same_text, split_lines, string_of, strip_blanks, to_chars, trim, views,
};

verus! {

/// The processor, field by field.
pub struct CpuInfo<T> {
    pub mhz: T,
    pub ghz: T,
    pub bogomips: T,
    pub cores: T,
    pub threads: T,
    pub vendor: T,
    pub model: T,
    pub family: T,
    pub stepping: T,
    pub model_name: T,
    pub flags: T,
    pub cache_size: T,
    pub cpu_load: T,
}

impl View for CpuInfo<String> {
    type V = CpuInfo<Seq<char>>;

    open spec fn view(&self) -> CpuInfo<Seq<char>> {
        CpuInfo {
            mhz: self.mhz@,
            ghz: self.ghz@,
            bogomips: self.bogomips@,
            cores: self.cores@,
            threads: self.threads@,
            vendor: self.vendor@,
            model: self.model@,
            family: self.family@,
            stepping: self.stepping@,
            model_name: self.model_name@,
            flags: self.flags@,
            cache_size: self.cache_size@,
            cpu_load: self.cpu_load@,
        }
    }
}

impl CpuInfo<String> {
    /// Whether every field holds `text`.
    pub open spec fn all_are(&self, text: Seq<char>) -> bool {
        &&& self.mhz@ == text
        &&& self.ghz@ == text
        &&& self.bogomips@ == text
        &&& self.cores@ == text
        &&& self.threads@ == text
        &&& self.vendor@ == text
        &&& self.model@ == text
        &&& self.family@ == text
        &&& self.stepping@ == text
        &&& self.model_name@ == text
        &&& self.flags@ == text
        &&& self.cache_size@ == text
        &&& self.cpu_load@ == text
    }

    /// A record with `text` in every field.
    pub fn filled(text: &str) -> (r: Self)
        ensures
            r.all_are(text@),
    {
        CpuInfo {
            mhz: text.to_owned(),
            ghz: text.to_owned(),
            bogomips: text.to_owned(),
            cores: text.to_owned(),
            threads: text.to_owned(),
            vendor: text.to_owned(),
            model: text.to_owned(),
            family: text.to_owned(),
            stepping: text.to_owned(),
            model_name: text.to_owned(),
            flags: text.to_owned(),
            cache_size: text.to_owned(),
            cpu_load: text.to_owned(),
        }
    }
}

/// The fields that the description of a processor is read for.
#[derive(Clone, Copy, Debug, PartialEq, Eq, Structural)]
pub enum CpuField {
    Mhz,
    ModelName,
    Vendor,
    Cores,
    Bogomips,
    Family,
    Threads,
}

/// How a line starts that gives the field.
pub open spec fn field_prefix(field: CpuField) -> Seq<char> {
    match field {
        CpuField::Mhz => "cpu MHz"@,
        CpuField::ModelName => "model name"@,
        CpuField::Vendor => "vendor_id"@,
        CpuField::Cores => "cpu cores"@,
        CpuField::Bogomips => "bogomips"@,
        CpuField::Family => "cpu family"@,
        CpuField::Threads => "cpu threads"@,
    }
}

/// The short name of a vendor.
pub open spec fn vendor_name(id: Seq<char>) -> Seq<char> {
    if id == "GenuineIntel"@ {
        "Intel"@
    } else if id == "AuthenticAMD"@ {
        "AMD"@
    } else {
        id
    }
}

/// The record with `value` in `field`.
pub open spec fn with_field(c: CpuInfo<Seq<char>>, field: CpuField, value: Seq<char>) -> CpuInfo<
    Seq<char>,
> {
    match field {
        CpuField::Mhz => CpuInfo { mhz: value, ..c },
        CpuField::ModelName => CpuInfo { model_name: value, ..c },
        CpuField::Vendor => CpuInfo { vendor: vendor_name(value), ..c },
        CpuField::Cores => CpuInfo { cores: value, ..c },
        CpuField::Bogomips => CpuInfo { bogomips: value, ..c },
        CpuField::Family => CpuInfo { family: value, ..c },
        CpuField::Threads => CpuInfo { threads: value, ..c },
    }
}

/// The record after `line` was read for `field`: unchanged unless the line
/// starts as the field's lines do; then with what stands behind the first
/// colon, trimmed, or nothing where there is no colon.
pub open spec fn read_for(c: Option<CpuInfo<Seq<char>>>, line: Seq<char>, field: CpuField) -> Option<
    CpuInfo<Seq<char>>,
> {
    match c {
        None => None,
        Some(c) => if starts_with(line, field_prefix(field)) {
            match second_piece(line, ':') {
                Some(v) => Some(with_field(c, field, trim(v))),
                None => None,
            }
        } else {
            Some(c)
        },
    }
}

/// The record after `line` was read for every field.
pub open spec fn read_line(c: CpuInfo<Seq<char>>, line: Seq<char>) -> Option<CpuInfo<Seq<char>>> {
    read_for(
        read_for(
            read_for(
                read_for(
                    read_for(
                        read_for(read_for(Some(c), line, CpuField::Mhz), line, CpuField::ModelName),
                        line,
                        CpuField::Vendor,
                    ),
                    line,
                    CpuField::Cores,
                ),
                line,
                CpuField::Bogomips,
            ),
            line,
            CpuField::Family,
        ),
        line,
        CpuField::Threads,
    )
}

/// The record after the lines from `i` on were read.
pub open spec fn read_lines(c: CpuInfo<Seq<char>>, all: Seq<Seq<char>>, i: int) -> Option<
    CpuInfo<Seq<char>>,
>
    decreases all.len() - i,
{
    if i < 0 || i >= all.len() {
        Some(c)
    } else {
        match read_line(c, all[i]) {
            Some(next) => read_lines(next, all, i + 1),
            None => None,
        }
    }
}

/// How a line starts that gives the field.
fn prefix_of(field: CpuField) -> (r: Vec<char>)
    ensures
        r@ == field_prefix(field),
{
    match field {
        CpuField::Mhz => to_chars("cpu MHz"),
        CpuField::ModelName => to_chars("model name"),
        CpuField::Vendor => to_chars("vendor_id"),
        CpuField::Cores => to_chars("cpu cores"),
        CpuField::Bogomips => to_chars("bogomips"),
        CpuField::Family => to_chars("cpu family"),
        CpuField::Threads => to_chars("cpu threads"),
    }
}

/// Reads `line` for `field`.
fn read_field(data: &mut CpuInfo<String>, line: &Vec<char>, field: CpuField) -> (r: Result<
    (),
    FetchError,
>)
    ensures
        match read_for(Some(old(data)@), line@, field) {
            Some(c) => r is Ok && final(data)@ == c,
            None => r == Err::<(), FetchError>(FetchError::MissingValue),
        },
{
    if !begins_with(line, &prefix_of(field)) {
        return Ok(());
    }
    let (_, value) = two_pieces(line, ':');
    let value = match value {
        Some(v) => strip_blanks(&v, true),
        None => {
            return Err(FetchError::MissingValue);
        },
    };
    match field {
        CpuField::Mhz => {
            data.mhz = string_of(&value);
        },
        CpuField::ModelName => {
            data.model_name = string_of(&value);
        },
        CpuField::Vendor => {
            if same_text(&value, &to_chars("GenuineIntel")) {
                data.vendor = "Intel".to_owned();
            } else if same_text(&value, &to_chars("AuthenticAMD")) {
                data.vendor = "AMD".to_owned();
            } else {
                data.vendor = string_of(&value);
            }
        },
        CpuField::Cores => {
            data.cores = string_of(&value);
        },
        CpuField::Bogomips => {
            data.bogomips = string_of(&value);
        },
        CpuField::Family => {
            data.family = string_of(&value);
        },
        CpuField::Threads => {
            data.threads = string_of(&value);
        },
    }
    Ok(())
}

/// Records the processor from the text that describes it, line by line. The
/// clock in GHz and the load are not read here. Where a line names a field
/// and has no colon the reading ends there.
pub fn cpu(data: &mut CpuInfo<String>, cpuinfo: &str) -> (r: Result<(), FetchError>)
    ensures
        match read_lines(old(data)@, lines(cpuinfo@), 0) {
            Some(c) => r is Ok && final(data)@ == c,
            None => r == Err::<(), FetchError>(FetchError::MissingValue),
        },
{
    let all = split_lines(&to_chars(cpuinfo));
    let ghost every = lines(cpuinfo@);
    let ghost goal = read_lines(data@, every, 0);
    let mut i: usize = 0;
    while i < all.len()
        invariant
            i <= all@.len(),
            views(all@) == every,
            every == lines(cpuinfo@),
            goal == read_lines(old(data)@, every, 0),
            goal == read_lines(data@, every, i as int),
        decreases all@.len() - i,
    {
        assert(every[i as int] == all@[i as int]@);
        let line = &all[i];
        match read_field(data, line, CpuField::Mhz) {
            Ok(()) => {},
            Err(e) => {
                return Err(e);
            },
        }
        match read_field(data, line, CpuField::ModelName) {
            Ok(()) => {},
            Err(e) => {
                return Err(e);
            },
        }
        match read_field(data, line, CpuField::Vendor) {
            Ok(()) => {},
            Err(e) => {
                return Err(e);
            },
        }
        match read_field(data, line, CpuField::Cores) {
            Ok(()) => {},
            Err(e) => {
                return Err(e);
            },
        }
        match read_field(data, line, CpuField::Bogomips) {
            Ok(()) => {},
            Err(e) => {
                return Err(e);
            },
        }
        match read_field(data, line, CpuField::Family) {
            Ok(()) => {},
            Err(e) => {
                return Err(e);
            },
        }
        match read_field(data, line, CpuField::Threads) {
            Ok(()) => {},
            Err(e) => {
                return Err(e);
            },
        }
        i += 1;
    }
    Ok(())
}

} // verus!
