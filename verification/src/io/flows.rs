//! Where a node's lateral inflow comes from.
//!
//! Two sources, behind one interface: per-catchment CSV files, or the catchment models run in
//! process. [`FlowSource`] is the configuration and is shared between threads; [`FlowProvider`]
//! is what one thread keeps of it.

use crate::command::{text_of, value_of};
use crate::text::{
    chars_of, decimal, find_next, join_path, joined, line_ranges, lines, next_at, push_decimal,
    second_field, utf8_text,
};
use vstd::prelude::*;
use vstd::utf8::{decode_utf8, valid_utf8};

verus! {

/// How to obtain lateral inflows.
#[derive(Debug, Clone)]
pub enum FlowSource {
    /// Per-catchment CSV files, one column per variable.
    Csv {
        dir: String,
        /// Column to read. `None` falls back to the third column.
        variable: Option<String>,
    },
    /// Run the catchment models.
    Bmi {
        /// Directory holding `config/`, `forcings/` and the model libraries.
        data_dir: String,
        /// Realization config. `None` means `<data_dir>/config/realization.json`.
        config: Option<String>,
        /// Model output variable to route.
        variable: String,
    },
}

/// What one thread keeps to turn a node id into its lateral inflow; `C` is the conversion from
/// a model's units to metres per hour.
#[derive(Debug)]
pub enum FlowProvider<C> {
    Csv { dir: String, variable: Option<String> },
    Bmi {
        data_dir: String,
        config: Option<String>,
        variable: String,
        /// Resolved on first use, once the models have been loaded and can report their units.
        to_depth_per_hour: Option<C>,
    },
}

/// The name of a catchment.
pub open spec fn catchment(id: u32) -> Seq<char> {
    "cat-"@ + decimal(id as nat)
}

/// The name of a catchment's CSV file.
pub open spec fn catchment_file(id: u32) -> Seq<char> {
    catchment(id) + ".csv"@
}

/// The name of a catchment.
pub fn catchment_name(id: u32) -> (name: String)
    ensures
        name@ == catchment(id),
{
    let mut name: String = String::new();
    name.append("cat-");
    push_decimal(&mut name, id as usize);
    assert(name@ =~= catchment(id));
    name
}

/// The path of a catchment's CSV file.
fn catchment_path(dir: &String, id: u32) -> (path: String)
    ensures
        path@ == joined(dir@, catchment_file(id)),
{
    let mut name = catchment_name(id);
    name.append(".csv");
    join_path(dir.as_str(), name.as_str())
}

/// What has to be looked at to learn the simulation period.
#[derive(Debug)]
pub enum SpanSource {
    /// The CSV file of a sample catchment.
    CsvFile { path: String },
    /// The realization config of the models.
    Models { data_dir: String, config: Option<String> },
}

impl FlowSource {
    /// `provider` is what one thread keeps of this source before it has loaded anything.
    pub open spec fn provided_by<C>(self, provider: FlowProvider<C>) -> bool {
        match (self, provider) {
            (
                FlowSource::Csv { dir, variable },
                FlowProvider::Csv { dir: d, variable: v },
            ) => d@ == dir@ && value_of(v) == value_of(variable),
            (
                FlowSource::Bmi { data_dir, config, variable },
                FlowProvider::Bmi { data_dir: d, config: c, variable: v, to_depth_per_hour },
            ) => d@ == data_dir@ && value_of(c) == value_of(config) && v@ == variable@
                && to_depth_per_hour is None,
            _ => false,
        }
    }

    /// `source` is where this source's simulation period is found.
    pub open spec fn spans_by(self, sample_id: u32, source: SpanSource) -> bool {
        match (self, source) {
            (FlowSource::Csv { dir, variable }, SpanSource::CsvFile { path }) => path@ == joined(
                dir@,
                catchment_file(sample_id),
            ),
            (
                FlowSource::Bmi { data_dir, config, variable },
                SpanSource::Models { data_dir: d, config: c },
            ) => d@ == data_dir@ && value_of(c) == value_of(config),
            _ => false,
        }
    }

    /// What one thread needs: a fresh provider, with no units resolved yet.
    pub fn provider<C>(&self) -> (provider: FlowProvider<C>)
        ensures
            self.provided_by(provider),
    {
        match self {
            FlowSource::Csv { dir, variable } => FlowProvider::Csv {
                dir: dir.clone(),
                variable: variable.clone(),
            },
            FlowSource::Bmi { data_dir, config, variable } => FlowProvider::Bmi {
                data_dir: data_dir.clone(),
                config: config.clone(),
                variable: variable.clone(),
                to_depth_per_hour: None,
            },
        }
    }

    /// Where the number of external timesteps and the start time are found.
    pub fn simulation_span(&self, sample_id: u32) -> (source: SpanSource)
        ensures
            self.spans_by(sample_id, source),
    {
        match self {
            FlowSource::Csv { dir, variable } => SpanSource::CsvFile {
                path: catchment_path(dir, sample_id),
            },
            FlowSource::Bmi { data_dir, config, variable } => SpanSource::Models {
                data_dir: data_dir.clone(),
                config: config.clone(),
            },
        }
    }
}

/// What has to be done to load one node's lateral inflow.
#[derive(Debug)]
pub enum LoadRequest {
    /// Read a column of a CSV file.
    ReadCsv { path: String, variable: Option<String> },
    /// Run the models for a catchment; where `resolve_units` is set, first work out the
    /// conversion from their units.
    RunModels { location: String, variable: String, resolve_units: bool },
}

impl<C> FlowProvider<C> {
    /// `request` is how this provider loads the lateral inflow of a node.
    pub open spec fn loads_by(self, id: u32, request: LoadRequest) -> bool {
        match (self, request) {
            (
                FlowProvider::Csv { dir, variable },
                LoadRequest::ReadCsv { path, variable: v },
            ) => path@ == joined(dir@, catchment_file(id)) && value_of(v) == value_of(variable),
            (
                FlowProvider::Bmi { data_dir, config, variable, to_depth_per_hour },
                LoadRequest::RunModels { location, variable: v, resolve_units },
            ) => location@ == catchment(id) && v@ == variable@ && resolve_units == (
            to_depth_per_hour is None),
            _ => false,
        }
    }

    /// This provider with its conversion, where it lacks one.
    pub open spec fn converting(self, conversion: C) -> FlowProvider<C> {
        match self {
            FlowProvider::Bmi { data_dir, config, variable, to_depth_per_hour: None } =>
                FlowProvider::Bmi {
                data_dir,
                config,
                variable,
                to_depth_per_hour: Some(conversion),
            },
            other => other,
        }
    }

    /// How to load the lateral inflow of one node.
    pub fn load(&self, id: u32) -> (request: LoadRequest)
        ensures
            self.loads_by(id, request),
    {
        match self {
            FlowProvider::Csv { dir, variable } => LoadRequest::ReadCsv {
                path: catchment_path(dir, id),
                variable: variable.clone(),
            },
            FlowProvider::Bmi { data_dir, config, variable, to_depth_per_hour } =>
                LoadRequest::RunModels {
                location: catchment_name(id),
                variable: variable.clone(),
                resolve_units: to_depth_per_hour.is_none(),
            },
        }
    }

    /// The provider once the conversion is known; from then on it is used as it is.
    pub fn with_conversion(self, conversion: C) -> (provider: FlowProvider<C>)
        ensures
            provider == self.converting(conversion),
    {
        match self {
            FlowProvider::Bmi { data_dir, config, variable, to_depth_per_hour: None } =>
                FlowProvider::Bmi {
                data_dir,
                config,
                variable,
                to_depth_per_hour: Some(conversion),
            },
            other => other,
        }
    }
}

/// What to do about a model's units.
#[derive(Debug)]
pub enum DepthUnits {
    /// The model reports none: take them to be the router's, and say so.
    Assumed { warning: String },
    /// Convert from these.
    Reported { units: String },
}

/// `found` is what a model's report of its units comes to: units that are reported and not empty
/// are taken, and where there are none a warning says what is assumed.
pub open spec fn units_found(
    variable: Seq<char>,
    units: Option<Seq<char>>,
    found: DepthUnits,
) -> bool {
    match found {
        DepthUnits::Assumed { warning } => (units matches Some(u) ==> u.len() == 0) && warning@
            == "Warning: model does not report units for '"@ + variable + "'; assuming m h-1"@,
        DepthUnits::Reported { units: u } => units matches Some(r) && u@ == r && r.len() > 0,
    }
}

/// Works out what a model's report of its units comes to.
pub fn depth_units(variable: &str, units: Option<&str>) -> (found: DepthUnits)
    ensures
        units_found(variable@, text_of(units), found),
{
    match units {
        Some(u) if !u.is_empty() => DepthUnits::Reported { units: u.to_owned() },
        _ => {
            let mut warning: String = String::new();
            warning.append("Warning: model does not report units for '");
            warning.append(variable);
            warning.append("'; assuming m h-1");
            assert(warning@ =~= "Warning: model does not report units for '"@ + variable@
                + "'; assuming m h-1"@);
            DepthUnits::Assumed { warning }
        },
    }
}

/// Units that cannot be converted to metres per hour.
#[derive(Debug)]
pub struct ConversionError {
    pub message: String,
}

/// `resolved` is the conversion, or an error that says why it had to be guessed.
pub open spec fn conversion_taken<C>(
    variable: Seq<char>,
    units: Seq<char>,
    conversion: C,
    warning: Option<Seq<char>>,
    resolved: Result<C, ConversionError>,
) -> bool {
    match warning {
        None => resolved == Ok::<C, ConversionError>(conversion),
        Some(w) => resolved matches Err(e) && e.message@ == "Cannot convert '"@ + variable
            + "' from "@ + units + " to m h-1: "@ + w,
    }
}

/// Takes a conversion from a model's units to metres per hour, unless finding it came with a
/// warning: a conversion that had to be guessed is not used.
pub fn resolve_depth_conversion<C>(
    variable: &str,
    units: &str,
    conversion: C,
    warning: Option<&str>,
) -> (resolved: Result<C, ConversionError>)
    ensures
        conversion_taken(variable@, units@, conversion, text_of(warning), resolved),
{
    match warning {
        None => Ok(conversion),
        Some(w) => {
            let mut message: String = String::new();
            message.append("Cannot convert '");
            message.append(variable);
            message.append("' from ");
            message.append(units);
            message.append(" to m h-1: ");
            message.append(w);
            assert(message@ =~= "Cannot convert '"@ + variable@ + "' from "@ + units@
                + " to m h-1: "@ + w@);
            Err(ConversionError { message })
        },
    }
}

/// A point in time: seconds since 1970-01-01 00:00:00 UTC, and nanoseconds within the second,
/// a billion or more of them in a leap second.
#[derive(Debug, Clone, Copy, PartialEq, Eq, Structural)]
pub struct StartTime {
    pub seconds: i64,
    pub nanos: u32,
}

/// Why the simulation period is not known.
#[derive(Debug)]
pub enum SpanError {
    NotUtf8,
    Empty,
    OnlyHeader,
    /// The first record has no second field.
    NoTime,
    /// The time in the first record cannot be read.
    InvalidTime { text: String },
    /// The models start at a time that cannot be represented.
    InvalidStart { epoch: i64 },
}

/// The time that `chrono` reads from a text in a format.
pub uninterp spec fn chrono_parsed(text: Seq<char>, format: Seq<char>) -> Option<StartTime>;

/// `chrono::NaiveDateTime::parse_from_str`, the result taken as UTC: `chrono_parsed`, `None`
/// where the text does not fit the format.
#[verifier::external_body]
fn parse_time(text: &str, format: &str) -> (time: Option<StartTime>)
    ensures
        time == chrono_parsed(text@, format@),
{
    let time = chrono::NaiveDateTime::parse_from_str(text, format).ok()?.and_utc();
    Some(StartTime { seconds: time.timestamp(), nanos: time.timestamp_subsec_nanos() })
}

/// The seconds that `chrono` can represent: years -262143 to 262142.
pub open spec fn representable(seconds: int) -> bool {
    -8_334_601_228_800 <= seconds <= 8_210_266_876_799
}

/// `chrono::DateTime::from_timestamp` at a whole second: that second, `None` where it is out of
/// the range that `chrono` represents.
#[verifier::external_body]
fn time_at(seconds: i64) -> (time: Option<StartTime>)
    ensures
        time == if representable(seconds as int) {
            Some(StartTime { seconds, nanos: 0 })
        } else {
            None
        },
{
    let time = chrono::DateTime::from_timestamp(seconds, 0)?;
    Some(StartTime { seconds: time.timestamp(), nanos: time.timestamp_subsec_nanos() })
}

/// `span` is the simulation period of models that start at `start_epoch` and run for
/// `total_steps`, an error where the start cannot be represented.
pub open spec fn models_span(
    start_epoch: i64,
    total_steps: usize,
    span: Result<(usize, StartTime), SpanError>,
) -> bool {
    match span {
        Ok((steps, start)) => representable(start_epoch as int) && steps == total_steps && start
            == (StartTime { seconds: start_epoch, nanos: 0 }),
        Err(SpanError::InvalidStart { epoch }) => !representable(start_epoch as int) && epoch
            == start_epoch,
        Err(_) => false,
    }
}

/// The simulation period of models that start at `start_epoch` and run for `total_steps`.
pub fn bmi_simulation_span(start_epoch: i64, total_steps: usize) -> (span: Result<
    (usize, StartTime),
    SpanError,
>)
    ensures
        models_span(start_epoch, total_steps, span),
{
    match time_at(start_epoch) {
        Some(start) => Ok((total_steps, start)),
        None => Err(SpanError::InvalidStart { epoch: start_epoch }),
    }
}

/// The text of the time in a sample file: the second field of the second line.
pub open spec fn time_text(text: Seq<char>) -> Option<Seq<char>> {
    second_field(lines(text)[1])
}

/// What the contents of a sample file say about the simulation period, `parsed` being what the
/// text of its time comes to.
pub open spec fn span_read(
    content: Seq<u8>,
    parsed: spec_fn(Seq<char>) -> Option<StartTime>,
    span: Result<(usize, StartTime), SpanError>,
) -> bool {
    let text = decode_utf8(content);
    let all = lines(text);
    if !valid_utf8(content) {
        span matches Err(SpanError::NotUtf8)
    } else if all.len() == 0 {
        span matches Err(SpanError::Empty)
    } else if all.len() == 1 {
        span matches Err(SpanError::OnlyHeader)
    } else {
        match time_text(text) {
            None => span matches Err(SpanError::NoTime),
            Some(time) => match parsed(time) {
                None => span matches Err(SpanError::InvalidTime { text: t }) && t@ == time,
                Some(start) => span matches Ok((steps, at)) && steps == all.len() - 2 && at
                    == start,
            },
        }
    }
}

/// The times in an output file.
pub open spec fn file_time() -> spec_fn(Seq<char>) -> Option<StartTime> {
    |text: Seq<char>| chrono_parsed(text, "%Y-%m-%d %H:%M:%S"@)
}

/// What a sample file says before its time is read: the number of external timesteps, one less
/// than the file has records, and the text of the time.
pub fn span_text(content: &[u8]) -> (found: Result<(usize, String), SpanError>)
    ensures
        match found {
            Ok((steps, text)) => {
                let all = lines(decode_utf8(content@));
                &&& valid_utf8(content@)
                &&& all.len() >= 2
                &&& steps == all.len() - 2
                &&& time_text(decode_utf8(content@)) == Some(text@)
            },
            Err(SpanError::NotUtf8) => !valid_utf8(content@),
            Err(SpanError::Empty) => valid_utf8(content@) && lines(decode_utf8(content@)).len()
                == 0,
            Err(SpanError::OnlyHeader) => valid_utf8(content@) && lines(
                decode_utf8(content@),
            ).len() == 1,
            Err(SpanError::NoTime) => valid_utf8(content@) && lines(decode_utf8(content@)).len()
                >= 2 && time_text(decode_utf8(content@)) is None,
            Err(_) => false,
        },
{
    let text = match utf8_text(content) {
        Some(text) => text,
        None => {
            return Err(SpanError::NotUtf8);
        },
    };
    let chars = chars_of(text.as_str());
    let ranges = line_ranges(&chars);
    if ranges.len() == 0 {
        return Err(SpanError::Empty);
    }
    if ranges.len() == 1 {
        return Err(SpanError::OnlyHeader);
    }
    let max_external_steps: usize = ranges.len() - 2;
    let (start, end) = ranges[1];
    let ghost line = lines(chars@)[1];
    assert(line == chars@.subrange(start as int, end as int));
    let first: usize = find_next(&chars, ',', start, end);
    proof {
        lemma_next_in_line(chars@, ',', start as int, end as int, start as int);
    }
    if first == end {
        return Err(SpanError::NoTime);
    }
    let second: usize = find_next(&chars, ',', first + 1, end);
    proof {
        lemma_next_in_line(chars@, ',', start as int, end as int, first + 1);
        assert(line.subrange(first - start + 1, second - start) =~= chars@.subrange(
            first + 1,
            second as int,
        ));
    }
    let time = text.as_str().substring_char(first + 1, second).to_owned();
    Ok((max_external_steps, time))
}

/// Looking for a separator within a line is looking within the text up to the line's end.
proof fn lemma_next_in_line(s: Seq<char>, sep: char, start: int, end: int, from: int)
    requires
        0 <= start <= from <= end <= s.len(),
    ensures
        next_at(s.take(end), sep, from) == start + next_at(s.subrange(start, end), sep, from - start),
    decreases end - from,
{
    if from < end && s[from] != sep {
        lemma_next_in_line(s, sep, start, end, from + 1);
    }
}

/// Reads the simulation period out of the contents of a sample CSV file.
pub fn csv_simulation_span(content: &[u8]) -> (span: Result<(usize, StartTime), SpanError>)
    ensures
        span_read(content@, file_time(), span),
{
    match span_text(content) {
        Err(e) => Err(e),
        Ok((steps, text)) => match parse_time(text.as_str(), "%Y-%m-%d %H:%M:%S") {
            Some(start) => Ok((steps, start)),
            None => Err(SpanError::InvalidTime { text }),
        },
    }
}

} // verus!
