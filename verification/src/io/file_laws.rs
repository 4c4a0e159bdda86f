//! What is taken out of the files of a run, and where they are.

use crate::command::{text_of, value_of, values_of, words_of};
use crate::io::csv::{
    csv_rows, fields_of, flow_read, is_flow_column, loaded, loaded_by, name_of, reads_all,
    reads_as, reads_column, row_of, rows_of, FlowColumn, FlowError, FlowFault,
};
use crate::io::flows::{
    catchment, catchment_file, chrono_parsed, conversion_taken, file_time, models_span, span_read,
    time_text, units_found, ConversionError, DepthUnits, FlowProvider, FlowSource, LoadRequest,
    SpanError, SpanSource, StartTime,
};
use crate::text::{decimal, is_white_space, joined, lines, second_field};
use crate::text_laws::{
    lacks, law_a_line_feed_ends_a_line, law_joined_paths_keep_their_parts,
    law_the_second_field_stands_between_commas,
};
use vstd::prelude::*;
use vstd::utf8::{decode_utf8, encode_utf8, valid_utf8};

verus! {

/// A record whose second field is `time`: with more fields after it, or as the last one, which
/// then does not end in a carriage return.
pub open spec fn record_at(
    record: Seq<char>,
    first: Seq<char>,
    time: Seq<char>,
    rest: Seq<char>,
) -> bool {
    ||| record == first + seq![','] + time + seq![','] + rest
    ||| record == first + seq![','] + time && (time.len() == 0 || time[time.len() - 1] != '\r')
}

/// The first lines of a text with a header and a record, and how many follow.
proof fn lemma_header_and_record(header: Seq<char>, record: Seq<char>, more: Seq<char>)
    requires
        lacks(header, '\n'),
        lacks(record, '\n'),
    ensures
        ({
            let all = lines(header + seq!['\n'] + record + seq!['\n'] + more);
            &&& all.len() == 2 + lines(more).len()
            &&& all[1] == if record.len() > 0 && record[record.len() - 1] == '\r' {
                record.take(record.len() - 1)
            } else {
                record
            }
        }),
{
    let below = record + seq!['\n'] + more;
    assert(header + seq!['\n'] + record + seq!['\n'] + more =~= header + seq!['\n'] + below);
    law_a_line_feed_ends_a_line(header, below);
    law_a_line_feed_ends_a_line(record, more);
}

/// The second field of a record is found whatever ends the line.
proof fn lemma_time_of(
    record: Seq<char>,
    first: Seq<char>,
    time: Seq<char>,
    rest: Seq<char>,
    line: Seq<char>,
)
    requires
        lacks(first, ','),
        lacks(time, ','),
        record_at(record, first, time, rest),
        line == if record.len() > 0 && record[record.len() - 1] == '\r' {
            record.take(record.len() - 1)
        } else {
            record
        },
    ensures
        second_field(line) == Some(time),
{
    law_the_second_field_stands_between_commas(first, time, rest);
    let long = first + seq![','] + time + seq![','] + rest;
    if record == long {
        if line != record {
            assert(rest.len() > 0) by {
                if rest.len() == 0 {
                    assert(long[long.len() - 1] == ',');
                }
            }
            let shorter = rest.take(rest.len() - 1);
            assert(line =~= first + seq![','] + time + seq![','] + shorter);
            law_the_second_field_stands_between_commas(first, time, shorter);
        }
    } else {
        let short = first + seq![','] + time;
        assert(line == short) by {
            if time.len() == 0 {
                assert(short[short.len() - 1] == ',');
            } else {
                assert(short[short.len() - 1] == time[time.len() - 1]);
            }
        }
    }
}

/// The start time of a simulation is the one in the first record, whatever follows it: the text
/// between the record's first comma and its next one, or its end. The simulation takes a step for
/// each line after the first record.
pub proof fn law_the_first_record_gives_the_start(
    content: Seq<u8>,
    header: Seq<char>,
    record: Seq<char>,
    first: Seq<char>,
    time: Seq<char>,
    rest: Seq<char>,
    more: Seq<char>,
    parsed: spec_fn(Seq<char>) -> Option<StartTime>,
    span: Result<(usize, StartTime), SpanError>,
)
    requires
        valid_utf8(content),
        decode_utf8(content) == header + seq!['\n'] + record + seq!['\n'] + more,
        lacks(header, '\n'),
        lacks(record, '\n'),
        lacks(first, ','),
        lacks(time, ','),
        record_at(record, first, time, rest),
        span_read(content, parsed, span),
    ensures
        time_text(decode_utf8(content)) == Some(time),
        match parsed(time) {
            Some(start) => span matches Ok((steps, at)) && at == start && steps == lines(more).len(),
            None => span matches Err(SpanError::InvalidTime { text }) && text@ == time,
        },
{
    lemma_header_and_record(header, record, more);
    lemma_time_of(record, first, time, rest, lines(decode_utf8(content))[1]);
}

/// Lines as a file holds them, each ended by a line feed.
pub open spec fn each_ended(rows: Seq<Seq<char>>) -> Seq<char>
    decreases rows.len(),
{
    if rows.len() == 0 {
        Seq::empty()
    } else {
        rows[0] + seq!['\n'] + each_ended(rows.skip(1))
    }
}

proof fn lemma_each_ended_counts(rows: Seq<Seq<char>>, last: Seq<char>)
    requires
        forall|i: int| 0 <= i < rows.len() ==> lacks(#[trigger] rows[i], '\n'),
        lacks(last, '\n'),
    ensures
        lines(each_ended(rows)).len() == rows.len(),
        last.len() > 0 ==> lines(each_ended(rows) + last).len() == rows.len() + 1,
    decreases rows.len(),
{
    if rows.len() == 0 {
        law_a_line_feed_ends_a_line(last, Seq::empty());
        assert(each_ended(rows) + last =~= last);
    } else {
        let below = rows.skip(1);
        assert forall|i: int| 0 <= i < below.len() implies lacks(#[trigger] below[i], '\n') by {
            assert(below[i] == rows[i + 1]);
        }
        lemma_each_ended_counts(below, last);
        assert(lacks(rows[0], '\n'));
        law_a_line_feed_ends_a_line(rows[0], each_ended(below));
        law_a_line_feed_ends_a_line(rows[0], each_ended(below) + last);
        assert(each_ended(rows) + last =~= rows[0] + seq!['\n'] + (each_ended(below) + last));
    }
}

/// A simulation has one step less than its sample file has records: a header, the first record and
/// `rows` after it make as many steps as there are `rows`, and one more where a last line is not
/// ended.
pub proof fn law_steps_are_one_less_than_records(
    content: Seq<u8>,
    header: Seq<char>,
    record: Seq<char>,
    rows: Seq<Seq<char>>,
    last: Seq<char>,
    parsed: spec_fn(Seq<char>) -> Option<StartTime>,
    span: Result<(usize, StartTime), SpanError>,
)
    requires
        valid_utf8(content),
        decode_utf8(content) == header + seq!['\n'] + record + seq!['\n'] + (each_ended(rows)
            + last),
        lacks(header, '\n'),
        lacks(record, '\n'),
        forall|i: int| 0 <= i < rows.len() ==> lacks(#[trigger] rows[i], '\n'),
        lacks(last, '\n'),
        span_read(content, parsed, span),
        span is Ok,
    ensures
        span->Ok_0.0 == rows.len() + if last.len() > 0 {
            1int
        } else {
            0
        },
{
    lemma_header_and_record(header, record, each_ended(rows) + last);
    lemma_each_ended_counts(rows, last);
    if last.len() == 0 {
        assert(each_ended(rows) + last =~= each_ended(rows));
    }
}

/// What is wrong with a sample file is told apart: bytes that are no text, no text at all, a header
/// with nothing below it, and a first record without a comma.
pub proof fn law_faulty_sample_files_are_refused(
    content: Seq<u8>,
    header: Seq<char>,
    record: Seq<char>,
    more: Seq<char>,
    parsed: spec_fn(Seq<char>) -> Option<StartTime>,
    span: Result<(usize, StartTime), SpanError>,
)
    requires
        lacks(header, '\n'),
        lacks(record, '\n'),
        lacks(record, ','),
        span_read(content, parsed, span),
    ensures
        !valid_utf8(content) ==> span == Err::<(usize, StartTime), SpanError>(SpanError::NotUtf8),
        valid_utf8(content) && decode_utf8(content).len() == 0 ==> span == Err::<
            (usize, StartTime),
            SpanError,
        >(SpanError::Empty),
        valid_utf8(content) && (decode_utf8(content) == header && header.len() > 0 || decode_utf8(
            content,
        ) == header + seq!['\n']) ==> span == Err::<(usize, StartTime), SpanError>(
            SpanError::OnlyHeader,
        ),
        valid_utf8(content) && decode_utf8(content) == header + seq!['\n'] + record + seq!['\n']
            + more ==> span == Err::<(usize, StartTime), SpanError>(SpanError::NoTime),
{
    let text = decode_utf8(content);
    law_a_line_feed_ends_a_line(header, Seq::empty());
    assert(header + seq!['\n'] + Seq::empty() =~= header + seq!['\n']);
    if text.len() == 0 {
        assert(text =~= Seq::<char>::empty());
    }
    if text == header + seq!['\n'] + record + seq!['\n'] + more {
        lemma_header_and_record(header, record, more);
        law_the_second_field_stands_between_commas(record, Seq::empty(), Seq::empty());
        if record.len() > 0 && record[record.len() - 1] == '\r' {
            let line = record.take(record.len() - 1);
            assert(lacks(line, ','));
            law_the_second_field_stands_between_commas(line, Seq::empty(), Seq::empty());
        }
    }
}

/// Times in files are year, month and day, then hour, minute and second.
pub proof fn law_times_have_one_format(text: Seq<char>)
    ensures
        file_time()(text) == chrono_parsed(text, "%Y-%m-%d %H:%M:%S"@),
{
}

/// The file of catchment `id` stands in its directory under the name cat-`id`.csv, and the models
/// know the catchment as cat-`id`.
pub proof fn law_catchment_files_bear_the_id(dir: Seq<char>, id: u32)
    requires
        dir.len() > 0,
        dir[dir.len() - 1] != '/',
    ensures
        catchment(id) == seq!['c', 'a', 't', '-'] + decimal(id as nat),
        joined(dir, catchment_file(id)) == dir + seq!['/', 'c', 'a', 't', '-'] + decimal(id as nat)
            + seq!['.', 'c', 's', 'v'],
{
    reveal_strlit("cat-");
    reveal_strlit(".csv");
    assert("cat-"@ =~= seq!['c', 'a', 't', '-']);
    assert(".csv"@ =~= seq!['.', 'c', 's', 'v']);
    law_joined_paths_keep_their_parts(dir, catchment_file(id));
    assert(catchment_file(id)[0] == 'c');
    assert(joined(dir, catchment_file(id)) =~= dir + seq!['/', 'c', 'a', 't', '-'] + decimal(
        id as nat,
    ) + seq!['.', 'c', 's', 'v']);
}

/// `column` is where the flow is read: under the first header that is the variable's name in
/// UTF-8, and in the third column where no variable is named or no header is its name.
pub open spec fn flow_stands_at(
    headers: Option<Seq<Seq<u8>>>,
    var_name: Option<Seq<char>>,
    column: int,
) -> bool {
    match var_name {
        None => column == 2,
        Some(name) => match headers {
            None => false,
            Some(fields) => if exists|k: int|
                0 <= k < fields.len() && #[trigger] fields[k] == encode_utf8(name) {
                &&& 0 <= column < fields.len()
                &&& fields[column] == encode_utf8(name)
                &&& forall|k: int| 0 <= k < column ==> #[trigger] fields[k] != encode_utf8(name)
            } else {
                column == 2
            },
        },
    }
}

/// The record can be read, has the column, and its text there is UTF-8.
pub open spec fn has_flow(row: Option<Seq<Seq<u8>>>, column: int) -> bool {
    row matches Some(fields) && column < fields.len() && valid_utf8(fields[column])
}

/// `text` is what stands in the column, white space around it left out.
pub open spec fn flow_text(row: Option<Seq<Seq<u8>>>, column: int, text: Seq<char>) -> bool {
    &&& has_flow(row, column)
    &&& exists|lead: Seq<char>, trail: Seq<char>|
        #![trigger lead + text + trail]
        decode_utf8(row->0[column]) == lead + text + trail && (forall|i: int|
            0 <= i < lead.len() ==> is_white_space(#[trigger] lead[i])) && (forall|i: int|
            0 <= i < trail.len() ==> is_white_space(#[trigger] trail[i]))
    &&& text.len() > 0 ==> !is_white_space(text[0]) && !is_white_space(text[text.len() - 1])
}

proof fn lemma_column_is_one(
    headers: Option<Seq<Seq<u8>>>,
    var_name: Option<Seq<char>>,
    column: int,
    found: int,
)
    requires
        !(headers is None && var_name is Some),
        flow_stands_at(headers, var_name, column),
        is_flow_column(headers, var_name, found),
    ensures
        found == column,
{
    if headers is Some && var_name is Some {
        let fields = headers->0;
        let wanted = encode_utf8(var_name->0);
        if exists|k: int| 0 <= k < fields.len() && #[trigger] fields[k] == wanted {
            assert(fields[column] == wanted);
            if column < found {
                assert(fields[column] != wanted);
            }
        }
    }
}

proof fn lemma_flow_text(row: Option<Seq<Seq<u8>>>, column: int, record: int, text: Seq<char>)
    requires
        flow_read(row, column, record, Ok(text)),
    ensures
        flow_text(row, column, text),
{
    let field = decode_utf8(row->0[column]);
    let (from, to) = choose|from: int, to: int|
        #![trigger field.subrange(from, to)]
        0 <= from <= to <= field.len() && text == field.subrange(from, to) && (forall|i: int|
            0 <= i < from || to <= i < field.len() ==> is_white_space(#[trigger] field[i])) && (
        text.len() > 0 ==> !is_white_space(text[0]) && !is_white_space(text.last()));
    let lead = field.take(from);
    let trail = field.skip(to);
    assert(field =~= lead + text + trail);
    assert forall|i: int| 0 <= i < trail.len() implies is_white_space(#[trigger] trail[i]) by {
        assert(trail[i] == field[to + i]);
    }
}

/// A file that loads gives one flow per record, in their order: what the text in the flow column of
/// that record, without white space around it, is converted to.
pub proof fn law_flows_are_read_record_by_record<T, P: Fn(&str) -> Option<T>>(
    to_flow: P,
    bytes: Seq<u8>,
    var_name: Option<Seq<char>>,
    column: int,
    values: Vec<T>,
    i: int,
)
    requires
        flow_stands_at(csv_rows(bytes, 0x2c, true, true).0, var_name, column),
        loaded(to_flow, bytes, var_name, Ok::<Vec<T>, FlowError>(values)),
    ensures
        values@.len() == csv_rows(bytes, 0x2c, true, true).1.len(),
        0 <= i < values@.len() ==> exists|text: &str| #[trigger]
            call_ensures(to_flow, (text,), Some(values@[i])) && flow_text(
                csv_rows(bytes, 0x2c, true, true).1[i],
                column,
                text@,
            ),
{
    let rows = csv_rows(bytes, 0x2c, true, true);
    let flows = Ok::<Vec<T>, FlowError>(values);
    let read = choose|read: FlowColumn| #[trigger]
        loaded_by(to_flow, rows, var_name, read, flows);
    let found = choose|found: int| #[trigger]
        is_flow_column(rows.0, var_name, found) && reads_column(rows.1, found, read);
    lemma_column_is_one(rows.0, var_name, column, found);
    if 0 <= i < values@.len() {
        let text = read.texts@[i];
        assert(reads_as(to_flow, read.texts@[i]@, Some(values@[i])));
        lemma_flow_text(rows.1[i], column, i, text@);
    }
}

/// The record has a flow that converts.
pub open spec fn converts<T, P: Fn(&str) -> Option<T>>(
    to_flow: P,
    row: Option<Seq<Seq<u8>>>,
    column: int,
) -> bool {
    exists|text: &str, flow: T| #[trigger]
        call_ensures(to_flow, (text,), Some(flow)) && flow_text(row, column, text@)
}

/// A file that does not load is refused for the first thing wrong from the top, and named for what
/// it is: a header row that is needed and cannot be read; a record that cannot be read; one that
/// ends before the flow column; one whose flow is not UTF-8; one whose flow does not convert. The
/// flows of all records before it convert.
pub proof fn law_the_first_fault_is_reported<T, P: Fn(&str) -> Option<T>>(
    to_flow: P,
    bytes: Seq<u8>,
    var_name: Option<Seq<char>>,
    column: int,
    error: FlowError,
    k: int,
)
    requires
        csv_rows(bytes, 0x2c, true, true).0 is None && var_name is Some || flow_stands_at(
            csv_rows(bytes, 0x2c, true, true).0,
            var_name,
            column,
        ),
        loaded(to_flow, bytes, var_name, Err::<Vec<T>, FlowError>(error)),
    ensures
        ({
            let (headers, records) = csv_rows(bytes, 0x2c, true, true);
            &&& error == FlowError::Fault(FlowFault::Headers) <==> headers is None
                && var_name is Some
            &&& match error {
                FlowError::Fault(FlowFault::Headers) => true,
                FlowError::Fault(FlowFault::Record { record }) => {
                    &&& record < records.len()
                    &&& records[record as int] is None
                    &&& 0 <= k < record ==> converts(to_flow, records[k], column)
                },
                FlowError::Fault(FlowFault::MissingColumn { column: c, record }) => {
                    &&& c == column
                    &&& record < records.len()
                    &&& records[record as int] matches Some(fields) && fields.len() <= column
                    &&& 0 <= k < record ==> converts(to_flow, records[k], column)
                },
                FlowError::Fault(FlowFault::NotUtf8 { record }) => {
                    &&& record < records.len()
                    &&& records[record as int] matches Some(fields) && column < fields.len()
                        && !valid_utf8(fields[column])
                    &&& 0 <= k < record ==> converts(to_flow, records[k], column)
                },
                FlowError::NotANumber { text, record } => {
                    &&& record < records.len()
                    &&& flow_text(records[record as int], column, text@)
                    &&& exists|s: &str|
                        s@ == text@ && #[trigger] call_ensures(to_flow, (s,), None::<T>)
                    &&& 0 <= k < record ==> converts(to_flow, records[k], column)
                },
            }
        }),
{
    let rows = csv_rows(bytes, 0x2c, true, true);
    let flows = Err::<Vec<T>, FlowError>(error);
    let read = choose|read: FlowColumn| #[trigger]
        loaded_by(to_flow, rows, var_name, read, flows);
    if !(rows.0 is None && var_name is Some) {
        let found = choose|found: int| #[trigger]
            is_flow_column(rows.0, var_name, found) && reads_column(rows.1, found, read);
        lemma_column_is_one(rows.0, var_name, column, found);
        let sound: int = match error {
            FlowError::NotANumber { record, .. } => record as int,
            _ => read.texts@.len() as int,
        };
        let values = choose|values: Seq<T>| #[trigger]
            reads_all(to_flow, read.texts@, values) && values.len() == sound;
        if 0 <= k < sound {
            let text = read.texts@[k];
            lemma_flow_text(rows.1[k], column, k, text@);
            assert(reads_as(to_flow, read.texts@[k]@, Some(values[k])));
        }
        if let FlowError::NotANumber { text, record } = error {
            let written = read.texts@[record as int];
            lemma_flow_text(rows.1[record as int], column, record as int, written@);
            assert(reads_as(to_flow, text@, None::<T>));
        }
    }
}

/// Strings are the texts they hold, one by one, and what is not there is not.
pub proof fn law_values_are_their_texts(
    value: Option<String>,
    text: Option<&str>,
    values: Seq<Option<String>>,
    words: Seq<String>,
    i: int,
)
    ensures
        value is None ==> value_of(value) is None,
        value is Some ==> value_of(value) == Some(value->0@),
        text is None ==> text_of(text) is None && name_of(text) is None,
        text is Some ==> text_of(text) == Some(text->0@) && name_of(text) == Some(text->0@),
        values_of(values).len() == values.len(),
        0 <= i < values.len() ==> values_of(values)[i] == value_of(values[i]),
        words_of(words).len() == words.len(),
        0 <= i < words.len() ==> words_of(words)[i] == words[i]@,
{
}

/// Rows are the fields they hold, one by one, and a row that was not read is not there.
pub proof fn law_rows_are_their_fields(
    row: Option<Vec<Vec<u8>>>,
    rows: Seq<Option<Vec<Vec<u8>>>>,
    i: int,
)
    ensures
        row is None ==> row_of(row) is None,
        row is Some ==> row_of(row) == Some(fields_of(row->0@)) && fields_of(row->0@).len()
            == row->0@.len(),
        row is Some && 0 <= i < row->0@.len() ==> fields_of(row->0@)[i] == row->0@[i]@,
        rows_of(rows).len() == rows.len(),
        0 <= i < rows.len() ==> rows_of(rows)[i] == row_of(rows[i]),
{
}

/// What one thread keeps of files is the directory and the variable, and of models the directory,
/// the config and the variable, all as they were given; units are yet to be worked out.
pub proof fn law_providers_keep_their_source<C>(source: FlowSource, provider: FlowProvider<C>)
    requires
        source.provided_by(provider),
    ensures
        match source {
            FlowSource::Csv { dir, variable } => {
                provider matches FlowProvider::Csv { dir: d, variable: v } && d@ == dir@ && value_of(
                    v,
                ) == value_of(variable)
            },
            FlowSource::Bmi { data_dir, config, variable } => {
                provider matches FlowProvider::Bmi {
                    data_dir: d,
                    config: c,
                    variable: v,
                    to_depth_per_hour,
                } && d@ == data_dir@ && value_of(c) == value_of(config) && v@ == variable@
                    && to_depth_per_hour is None
            },
        },
{
}

/// The period of a simulation on files is found in the sample catchment's own file, and that of one
/// on models in their config.
pub proof fn law_periods_are_found_with_the_source(
    source: FlowSource,
    sample_id: u32,
    found: SpanSource,
)
    requires
        source.spans_by(sample_id, found),
    ensures
        match source {
            FlowSource::Csv { dir, .. } => {
                found matches SpanSource::CsvFile { path } && path@ == joined(
                    dir@,
                    "cat-"@ + decimal(sample_id as nat) + ".csv"@,
                )
            },
            FlowSource::Bmi { data_dir, config, .. } => {
                found matches SpanSource::Models { data_dir: d, config: c } && d@ == data_dir@
                    && value_of(c) == value_of(config)
            },
        },
{
}

/// A node's lateral inflow is read from its own file, in the column that was asked for, or computed
/// by the models for its own catchment and the variable that was asked for; units are worked out
/// exactly where no conversion is known, and once one is known it stays.
pub proof fn law_nodes_load_their_own_flows<C>(
    provider: FlowProvider<C>,
    id: u32,
    request: LoadRequest,
    conversion: C,
    later: C,
)
    requires
        provider.loads_by(id, request),
    ensures
        match provider {
            FlowProvider::Csv { dir, variable } => {
                &&& request matches LoadRequest::ReadCsv { path, variable: v } && path@ == joined(
                    dir@,
                    "cat-"@ + decimal(id as nat) + ".csv"@,
                ) && value_of(v) == value_of(variable)
                &&& provider.converting(conversion) == provider
            },
            FlowProvider::Bmi { data_dir, config, variable, to_depth_per_hour } => {
                &&& request matches LoadRequest::RunModels {
                    location,
                    variable: v,
                    resolve_units,
                } && location@ == "cat-"@ + decimal(id as nat) && v@ == variable@ && (resolve_units
                    <==> to_depth_per_hour is None)
                &&& provider.converting(conversion) == (FlowProvider::Bmi {
                    data_dir,
                    config,
                    variable,
                    to_depth_per_hour: if to_depth_per_hour is None {
                        Some(conversion)
                    } else {
                        to_depth_per_hour
                    },
                })
            },
        },
        provider.converting(conversion).converting(later) == provider.converting(conversion),
{
}

/// Units that a model reports are used as it reports them, however short; they are assumed, with a
/// warning that names the variable, exactly where it reports none or nothing.
pub proof fn law_reported_units_are_used(
    variable: Seq<char>,
    units: Option<Seq<char>>,
    found: DepthUnits,
)
    requires
        units_found(variable, units, found),
    ensures
        units is Some && units->0.len() > 0 ==> (found matches DepthUnits::Reported { units: u }
            && u@ == units->0),
        units is None || units->0.len() == 0 ==> (found matches DepthUnits::Assumed { warning }
            && warning@ == "Warning: model does not report units for '"@ + variable
            + "'; assuming m h-1"@),
{
}

/// A conversion is taken exactly where it came without a warning; otherwise the error names the
/// variable, the units and the warning.
pub proof fn law_guessed_conversions_are_refused<C>(
    variable: Seq<char>,
    units: Seq<char>,
    conversion: C,
    warning: Option<Seq<char>>,
    resolved: Result<C, ConversionError>,
)
    requires
        conversion_taken(variable, units, conversion, warning, resolved),
    ensures
        resolved is Ok <==> warning is None,
        resolved is Ok ==> resolved->Ok_0 == conversion,
        resolved is Err ==> resolved->Err_0.message@ == "Cannot convert '"@ + variable + "' from "@
            + units + " to m h-1: "@ + warning->0,
{
}

/// Models run from their own start, at a whole second, for all of their steps, in the years -262143
/// to 262142; a start outside them is refused by its value.
pub proof fn law_models_run_from_their_start(
    start_epoch: i64,
    total_steps: usize,
    span: Result<(usize, StartTime), SpanError>,
)
    requires
        models_span(start_epoch, total_steps, span),
    ensures
        -8_334_601_228_800 <= start_epoch <= 8_210_266_876_799 ==> span == Ok::<
            (usize, StartTime),
            SpanError,
        >((total_steps, StartTime { seconds: start_epoch, nanos: 0 })),
        !(-8_334_601_228_800 <= start_epoch <= 8_210_266_876_799) ==> span == Err::<
            (usize, StartTime),
            SpanError,
        >(SpanError::InvalidStart { epoch: start_epoch }),
{
}

} // verus!
