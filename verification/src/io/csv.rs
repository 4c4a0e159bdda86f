//! Lateral inflow files.

use crate::text::{is_trimmed, law_trimming_is_unique, trim, utf8_text};
use vstd::prelude::*;
use vstd::utf8::{decode_utf8, encode_utf8, valid_utf8};

verus! {

/// The rows of a CSV file as fields of bytes.
pub struct CsvRows {
    /// The header row, `None` where it could not be read.
    pub headers: Option<Vec<Vec<u8>>>,
    /// The rows below it, each `None` where it could not be read.
    pub records: Vec<Option<Vec<Vec<u8>>>>,
}

/// The fields of a row.
pub open spec fn fields_of(fields: Seq<Vec<u8>>) -> Seq<Seq<u8>> {
    Seq::new(fields.len(), |i: int| fields[i]@)
}

/// The fields of a row that may not have been read.
pub open spec fn row_of(row: Option<Vec<Vec<u8>>>) -> Option<Seq<Seq<u8>>> {
    match row {
        Some(fields) => Some(fields_of(fields@)),
        None => None,
    }
}

pub open spec fn rows_of(rows: Seq<Option<Vec<Vec<u8>>>>) -> Seq<Option<Seq<Seq<u8>>>> {
    Seq::new(rows.len(), |i: int| row_of(rows[i]))
}

/// The header row and the rows below it that the `csv` crate reads off a file, header fields
/// stripped of surrounding ASCII white space.
pub uninterp spec fn csv_rows(
    bytes: Seq<u8>,
    delimiter: u8,
    has_headers: bool,
    flexible: bool,
) -> (Option<Seq<Seq<u8>>>, Seq<Option<Seq<Seq<u8>>>>);

/// `csv::Reader::byte_headers` and then `csv::Reader::byte_records` over all of `bytes`, on a
/// reader with these settings that trims headers. Quoting, escaping and line ends are as the
/// `csv` crate reads them: what comes out is `csv_rows`.
#[verifier::external_body]
fn read_rows(bytes: &[u8], delimiter: u8, has_headers: bool, flexible: bool) -> (rows: CsvRows)
    ensures
        csv_rows(bytes@, delimiter, has_headers, flexible) == (
            row_of(rows.headers),
            rows_of(rows.records@),
        ),
{
    let mut reader = csv::ReaderBuilder::new().has_headers(has_headers).delimiter(delimiter)
        .flexible(flexible).trim(csv::Trim::Headers).from_reader(bytes);
    let headers = reader.byte_headers().ok().map(|h| h.iter().map(|f| f.to_vec()).collect());
    let records = reader.byte_records()
        .map(|r| r.ok().map(|r| r.iter().map(|f| f.to_vec()).collect())).collect();
    CsvRows { headers, records }
}

/// Why a lateral inflow file cannot be read to its end.
#[derive(Debug, Clone, Copy, PartialEq, Eq, Structural)]
pub enum FlowFault {
    /// The header row cannot be read.
    Headers,
    /// A record cannot be read.
    Record { record: usize },
    /// A record ends before the column of the flow.
    MissingColumn { column: usize, record: usize },
    /// The flow of a record is not UTF-8.
    NotUtf8 { record: usize },
}

/// The flow column of a lateral inflow file, up to the first record that cannot be read.
pub struct FlowColumn {
    /// The flow values as written, without surrounding white space.
    pub texts: Vec<String>,
    /// What ended the reading before the end of the file.
    pub fault: Option<FlowFault>,
}

/// The position of the first header equal to the variable's name, the third column where there
/// is none or no variable is named.
pub open spec fn is_flow_column(
    headers: Option<Seq<Seq<u8>>>,
    var_name: Option<Seq<char>>,
    column: int,
) -> bool {
    match (headers, var_name) {
        (Some(fields), Some(name)) => {
            ||| 0 <= column < fields.len() && fields[column] == encode_utf8(name) && forall|k: int|
                0 <= k < column ==> #[trigger] fields[k] != encode_utf8(name)
            ||| column == 2 && forall|k: int|
                0 <= k < fields.len() ==> #[trigger] fields[k] != encode_utf8(name)
        },
        _ => column == 2,
    }
}

/// What reading the flow of one record comes to.
pub open spec fn flow_read(
    row: Option<Seq<Seq<u8>>>,
    column: int,
    record: int,
    read: Result<Seq<char>, FlowFault>,
) -> bool {
    match row {
        None => read matches Err(FlowFault::Record { record: r }) && r == record,
        Some(fields) => if column >= fields.len() {
            read matches Err(FlowFault::MissingColumn { column: c, record: r }) && c == column && r
                == record
        } else if !valid_utf8(fields[column]) {
            read matches Err(FlowFault::NotUtf8 { record: r }) && r == record
        } else {
            read matches Ok(text) && is_trimmed(decode_utf8(fields[column]), text)
        },
    }
}

/// The text in an optional string.
pub open spec fn name_of(name: Option<&str>) -> Option<Seq<char>> {
    match name {
        Some(n) => Some(n@),
        None => None,
    }
}

/// `column` is what reading column `c` of the records from the top gives: the flow of each
/// record, until one cannot be read.
pub open spec fn reads_column(
    records: Seq<Option<Seq<Seq<u8>>>>,
    c: int,
    column: FlowColumn,
) -> bool {
    let len = column.texts@.len() as int;
    &&& len <= records.len()
    &&& forall|i: int|
        #![trigger column.texts@[i]]
        0 <= i < len ==> flow_read(records[i], c, i, Ok(column.texts@[i]@))
    &&& match column.fault {
        None => len == records.len(),
        Some(f) => len < records.len() && flow_read(records[len], c, len, Err(f)),
    }
}

/// `column` is what reading the flow column of the rows gives.
pub open spec fn column_read(
    rows: (Option<Seq<Seq<u8>>>, Seq<Option<Seq<Seq<u8>>>>),
    var_name: Option<Seq<char>>,
    column: FlowColumn,
) -> bool {
    if rows.0 is None && var_name is Some {
        column.texts@.len() == 0 && column.fault == Some(FlowFault::Headers)
    } else {
        exists|c: int| #[trigger]
            is_flow_column(rows.0, var_name, c) && reads_column(rows.1, c, column)
    }
}

fn same_bytes(a: &[u8], b: &[u8]) -> (same: bool)
    ensures
        same == (a@ == b@),
{
    if a.len() != b.len() {
        return false;
    }
    let mut i: usize = 0;
    while i < a.len()
        invariant
            i <= a@.len(),
            a@.len() == b@.len(),
            forall|k: int| 0 <= k < i ==> #[trigger] a@[k] == b@[k],
        decreases a@.len() - i,
    {
        if a[i] != b[i] {
            assert(a@[i as int] != b@[i as int]);
            return false;
        }
        i += 1;
    }
    assert(a@ =~= b@);
    true
}

/// The position of the column called `name`, the third where no column is.
fn column_index(headers: &Vec<Vec<u8>>, name: &str) -> (column: usize)
    ensures
        is_flow_column(Some(fields_of(headers@)), Some(name@), column as int),
{
    let wanted = name.as_bytes();
    let ghost fields = fields_of(headers@);
    let mut i: usize = 0;
    while i < headers.len()
        invariant
            i <= headers@.len(),
            fields == fields_of(headers@),
            wanted@ == encode_utf8(name@),
            forall|k: int| 0 <= k < i ==> #[trigger] fields[k] != encode_utf8(name@),
        decreases headers@.len() - i,
    {
        if same_bytes(headers[i].as_slice(), wanted) {
            assert(fields[i as int] == encode_utf8(name@));
            return i;
        }
        i += 1;
    }
    2
}

/// The flow of one record.
fn read_flow(row: &Option<Vec<Vec<u8>>>, column: usize, record: usize) -> (read: Result<
    String,
    FlowFault,
>)
    ensures
        match read {
            Ok(text) => flow_read(row_of(*row), column as int, record as int, Ok(text@)),
            Err(f) => flow_read(row_of(*row), column as int, record as int, Err(f)),
        },
{
    match row {
        None => Err(FlowFault::Record { record }),
        Some(fields) => {
            if column >= fields.len() {
                return Err(FlowFault::MissingColumn { column, record });
            }
            match utf8_text(fields[column].as_slice()) {
                None => Err(FlowFault::NotUtf8 { record }),
                Some(text) => Ok(trim(text.as_str()).to_owned()),
            }
        },
    }
}

/// The flow column of a file's rows.
pub fn flow_column(rows: &CsvRows, var_name: Option<&str>) -> (column: FlowColumn)
    ensures
        column_read(
            (row_of(rows.headers), rows_of(rows.records@)),
            name_of(var_name),
            column,
        ),
{
    let ghost table = (row_of(rows.headers), rows_of(rows.records@));
    let qlat_index: usize = match (&rows.headers, var_name) {
        (None, Some(_)) => {
            return FlowColumn { texts: Vec::new(), fault: Some(FlowFault::Headers) };
        },
        (Some(headers), Some(name)) => column_index(headers, name),
        (_, None) => 2,
    };
    assert(is_flow_column(table.0, name_of(var_name), qlat_index as int));
    let mut texts: Vec<String> = Vec::new();
    let mut i: usize = 0;
    while i < rows.records.len()
        invariant
            table == (row_of(rows.headers), rows_of(rows.records@)),
            i <= rows.records@.len(),
            texts@.len() == i,
            !(table.0 is None && var_name is Some),
            is_flow_column(table.0, name_of(var_name), qlat_index as int),
            forall|k: int|
                #![trigger texts@[k]]
                0 <= k < i ==> flow_read(table.1[k], qlat_index as int, k, Ok(texts@[k]@)),
            table.1.len() == rows.records@.len(),
        decreases rows.records@.len() - i,
    {
        match read_flow(&rows.records[i], qlat_index, i) {
            Err(f) => {
                return FlowColumn { texts, fault: Some(f) };
            },
            Ok(text) => {
                texts.push(text);
            },
        }
        i += 1;
    }
    FlowColumn { texts, fault: None }
}

/// Why a lateral inflow file gives no flows.
#[derive(Debug)]
pub enum FlowError {
    /// It cannot be read to its end.
    Fault(FlowFault),
    /// The flow of a record is not a number.
    NotANumber { text: String, record: usize },
}

/// `to_flow` makes `flow` of a text, `None` where the text is not a number.
pub open spec fn reads_as<T, P: Fn(&str) -> Option<T>>(
    to_flow: P,
    text: Seq<char>,
    flow: Option<T>,
) -> bool {
    exists|s: &str| s@ == text && #[trigger] call_ensures(to_flow, (s,), flow)
}

/// The texts from the top read as `values`.
pub open spec fn reads_all<T, P: Fn(&str) -> Option<T>>(
    to_flow: P,
    texts: Seq<String>,
    values: Seq<T>,
) -> bool {
    &&& values.len() <= texts.len()
    &&& forall|i: int|
        #![trigger values[i]]
        0 <= i < values.len() ==> reads_as(to_flow, texts[i]@, Some(values[i]))
}

/// What the texts of a flow column come to: one flow per record, or the first thing that went
/// wrong from the top.
pub open spec fn flows_read<T, P: Fn(&str) -> Option<T>>(
    to_flow: P,
    column: FlowColumn,
    flows: Result<Vec<T>, FlowError>,
) -> bool {
    let texts = column.texts@;
    match flows {
        Ok(values) => {
            &&& column.fault is None
            &&& values@.len() == texts.len()
            &&& reads_all(to_flow, texts, values@)
        },
        Err(FlowError::NotANumber { text, record }) => {
            &&& record < texts.len()
            &&& text@ == texts[record as int]@
            &&& reads_as(to_flow, text@, None)
            &&& exists|values: Seq<T>| #[trigger]
                reads_all(to_flow, texts, values) && values.len() == record
        },
        Err(FlowError::Fault(fault)) => {
            &&& column.fault == Some(fault)
            &&& exists|values: Seq<T>| #[trigger]
                reads_all(to_flow, texts, values) && values.len() == texts.len()
        },
    }
}

/// Turns the texts of a flow column into flows, `to_flow` being what one text comes to.
pub fn convert_flows<T, P: Fn(&str) -> Option<T>>(column: FlowColumn, to_flow: &P) -> (flows:
    Result<Vec<T>, FlowError>)
    requires
        forall|text: &str| #[trigger] call_requires(*to_flow, (text,)),
    ensures
        flows_read(*to_flow, column, flows),
{
    let mut flows: Vec<T> = Vec::new();
    let mut i: usize = 0;
    while i < column.texts.len()
        invariant
            i <= column.texts@.len(),
            flows@.len() == i,
            forall|text: &str| #[trigger] call_requires(*to_flow, (text,)),
            reads_all(*to_flow, column.texts@, flows@),
        decreases column.texts@.len() - i,
    {
        match to_flow(column.texts[i].as_str()) {
            Some(flow) => {
                assert(reads_as(*to_flow, column.texts@[i as int]@, Some(flow)));
                flows.push(flow);
            },
            None => {
                let text = column.texts[i].clone();
                return Err(FlowError::NotANumber { text, record: i });
            },
        }
        i += 1;
    }
    match column.fault {
        None => Ok(flows),
        Some(fault) => Err(FlowError::Fault(fault)),
    }
}

/// `flows` is what the flow column of the rows comes to, `column` being its texts.
pub open spec fn loaded_by<T, P: Fn(&str) -> Option<T>>(
    to_flow: P,
    rows: (Option<Seq<Seq<u8>>>, Seq<Option<Seq<Seq<u8>>>>),
    var_name: Option<Seq<char>>,
    column: FlowColumn,
    flows: Result<Vec<T>, FlowError>,
) -> bool {
    column_read(rows, var_name, column) && flows_read(to_flow, column, flows)
}

/// What loading the lateral inflow of one node from the contents of its file comes to.
pub open spec fn loaded<T, P: Fn(&str) -> Option<T>>(
    to_flow: P,
    bytes: Seq<u8>,
    var_name: Option<Seq<char>>,
    flows: Result<Vec<T>, FlowError>,
) -> bool {
    exists|column: FlowColumn| #[trigger]
        loaded_by(to_flow, csv_rows(bytes, 0x2c, true, true), var_name, column, flows)
}

/// Reads the lateral inflow of one node from the contents of its file; a node without a file
/// has none.
///
/// The texts in the flow column are depths per hour; `to_flow` is what one of them comes to
/// over the catchment's area.
pub fn load_external_flows<T, P: Fn(&str) -> Option<T>>(
    file: Option<&[u8]>,
    var_name: Option<&str>,
    to_flow: &P,
) -> (flows: Result<Vec<T>, FlowError>)
    requires
        forall|text: &str| #[trigger] call_requires(*to_flow, (text,)),
    ensures
        match file {
            None => flows matches Ok(values) && values@.len() == 0,
            Some(bytes) => loaded(*to_flow, bytes@, name_of(var_name), flows),
        },
{
    match file {
        None => Ok(Vec::new()),
        Some(bytes) => {
            let rows = read_rows(bytes, 0x2c, true, true);
            let column = flow_column(&rows, var_name);
            let ghost read = column;
            let flows = convert_flows(column, to_flow);
            assert(loaded_by(
                *to_flow,
                csv_rows(bytes@, 0x2c, true, true),
                name_of(var_name),
                read,
                flows,
            ));
            flows
        },
    }
}

/// Two ways of loading came to the same.
pub open spec fn same_flows<T>(
    a: Result<Vec<T>, FlowError>,
    b: Result<Vec<T>, FlowError>,
) -> bool {
    match (a, b) {
        (Ok(x), Ok(y)) => x@ == y@,
        (
            Err(FlowError::NotANumber { text: s, record: i }),
            Err(FlowError::NotANumber { text: t, record: j }),
        ) => s@ == t@ && i == j,
        (Err(FlowError::Fault(f)), Err(FlowError::Fault(g))) => f == g,
        _ => false,
    }
}

/// Reading a record has one answer.
proof fn lemma_flow_read_once(
    row: Option<Seq<Seq<u8>>>,
    c: int,
    record: int,
    a: Result<Seq<char>, FlowFault>,
    b: Result<Seq<char>, FlowFault>,
)
    requires
        flow_read(row, c, record, a),
        flow_read(row, c, record, b),
    ensures
        a == b,
{
    if row is Some && c < row->0.len() && valid_utf8(row->0[c]) {
        law_trimming_is_unique(decode_utf8(row->0[c]), a->Ok_0, b->Ok_0);
    }
}

/// Reading a column has one answer.
proof fn lemma_column_read_once(
    records: Seq<Option<Seq<Seq<u8>>>>,
    c: int,
    a: FlowColumn,
    b: FlowColumn,
)
    requires
        reads_column(records, c, a),
        reads_column(records, c, b),
        a.texts@.len() <= b.texts@.len(),
    ensures
        a.texts@.len() == b.texts@.len(),
        forall|i: int| 0 <= i < a.texts@.len() ==> #[trigger] a.texts@[i]@ == b.texts@[i]@,
        a.fault == b.fault,
{
    let len = a.texts@.len() as int;
    if len < b.texts@.len() {
        let next = b.texts@[len];
        lemma_flow_read_once(records[len], c, len, Err(a.fault->0), Ok(next@));
    } else if a.fault is Some && b.fault is Some {
        lemma_flow_read_once(records[len], c, len, Err(a.fault->0), Err(b.fault->0));
    }
    assert forall|i: int| 0 <= i < len implies #[trigger] a.texts@[i]@ == b.texts@[i]@ by {
        let t = b.texts@[i];
        lemma_flow_read_once(records[i], c, i, Ok(a.texts@[i]@), Ok(t@));
    }
}

/// Converting the same texts has one answer.
proof fn lemma_flows_read_once<T, P: Fn(&str) -> Option<T>>(
    to_flow: P,
    rule: spec_fn(Seq<char>) -> Option<T>,
    a: FlowColumn,
    b: FlowColumn,
    x: Result<Vec<T>, FlowError>,
    y: Result<Vec<T>, FlowError>,
)
    requires
        forall|text: Seq<char>, flow: Option<T>| #[trigger]
            reads_as(to_flow, text, flow) ==> flow == rule(text),
        a.texts@.len() == b.texts@.len(),
        forall|i: int| 0 <= i < a.texts@.len() ==> #[trigger] a.texts@[i]@ == b.texts@[i]@,
        a.fault == b.fault,
        flows_read(to_flow, a, x),
        flows_read(to_flow, b, y),
    ensures
        same_flows(x, y),
{
    let n = a.texts@.len() as int;
    let good_x = lemma_numbers_until(to_flow, rule, a, x);
    let good_y = lemma_numbers_until(to_flow, rule, b, y);
    assert forall|i: int| 0 <= i < n implies rule(a.texts@[i]@) == #[trigger] rule(
        b.texts@[i]@,
    ) by {
        assert(a.texts@[i]@ == b.texts@[i]@);
    }
    if good_x < good_y {
        assert(rule(b.texts@[good_x]@) is Some);
        assert(a.texts@[good_x]@ == b.texts@[good_x]@);
    } else if good_y < good_x {
        assert(rule(a.texts@[good_y]@) is Some);
        assert(a.texts@[good_y]@ == b.texts@[good_y]@);
    } else if good_x < n {
        assert(a.texts@[good_x]@ == b.texts@[good_x]@);
    }
    if x is Ok && y is Ok {
        let (u, v) = (x->Ok_0@, y->Ok_0@);
        assert forall|i: int| 0 <= i < n implies u[i] == v[i] by {
            assert(reads_as(to_flow, a.texts@[i]@, Some(u[i])));
            assert(reads_as(to_flow, b.texts@[i]@, Some(v[i])));
            assert(a.texts@[i]@ == b.texts@[i]@);
        }
        assert(u =~= v);
    }
}

/// How many texts are numbers before the first that is not.
proof fn lemma_numbers_until<T, P: Fn(&str) -> Option<T>>(
    to_flow: P,
    rule: spec_fn(Seq<char>) -> Option<T>,
    column: FlowColumn,
    flows: Result<Vec<T>, FlowError>,
) -> (n: int)
    requires
        forall|text: Seq<char>, flow: Option<T>| #[trigger]
            reads_as(to_flow, text, flow) ==> flow == rule(text),
        flows_read(to_flow, column, flows),
    ensures
        0 <= n <= column.texts@.len(),
        forall|i: int| 0 <= i < n ==> rule(#[trigger] column.texts@[i]@) is Some,
        match flows {
            Err(FlowError::NotANumber { text, record }) => n == record && n < column.texts@.len()
                && rule(column.texts@[n]@) is None,
            _ => n == column.texts@.len(),
        },
{
    let texts = column.texts@;
    let n: int = match flows {
        Err(FlowError::NotANumber { text, record }) => record as int,
        _ => texts.len() as int,
    };
    let values: Seq<T> = match flows {
        Ok(values) => values@,
        Err(_) => choose|values: Seq<T>| #[trigger]
            reads_all(to_flow, texts, values) && values.len() == n,
    };
    assert forall|i: int| 0 <= i < n implies rule(#[trigger] texts[i]@) is Some by {
        assert(reads_as(to_flow, texts[i]@, Some(values[i])));
    }
    n
}

/// A variable that no header names makes no difference: the third column is read, as it is when
/// no variable is named. `rule` is what a text comes to.
pub proof fn law_unknown_variables_fall_back_to_the_third_column<T, P: Fn(&str) -> Option<T>>(
    to_flow: P,
    rule: spec_fn(Seq<char>) -> Option<T>,
    bytes: Seq<u8>,
    name: Seq<char>,
    named: Result<Vec<T>, FlowError>,
    unnamed: Result<Vec<T>, FlowError>,
)
    requires
        forall|text: Seq<char>, flow: Option<T>| #[trigger]
            reads_as(to_flow, text, flow) ==> flow == rule(text),
        csv_rows(bytes, 0x2c, true, true).0 matches Some(fields) && forall|k: int|
            0 <= k < fields.len() ==> #[trigger] fields[k] != encode_utf8(name),
        loaded(to_flow, bytes, Some(name), named),
        loaded(to_flow, bytes, None, unnamed),
    ensures
        same_flows(named, unnamed),
        exists|column: FlowColumn| #[trigger]
            reads_column(csv_rows(bytes, 0x2c, true, true).1, 2, column) && flows_read(
                to_flow,
                column,
                named,
            ),
{
    let rows = csv_rows(bytes, 0x2c, true, true);
    let a = choose|column: FlowColumn| #[trigger]
        loaded_by(to_flow, rows, Some(name), column, named);
    let b = choose|column: FlowColumn| #[trigger]
        loaded_by(to_flow, rows, None, column, unnamed);
    assert(reads_column(rows.1, 2, a));
    assert(reads_column(rows.1, 2, b));
    if a.texts@.len() <= b.texts@.len() {
        lemma_column_read_once(rows.1, 2, a, b);
    } else {
        lemma_column_read_once(rows.1, 2, b, a);
    }
    assert forall|i: int| 0 <= i < a.texts@.len() implies #[trigger] a.texts@[i]@
        == b.texts@[i]@ by {
        assert(b.texts@[i]@ == a.texts@[i]@);
    }
    lemma_flows_read_once(to_flow, rule, a, b, named, unnamed);
}

/// Of the headers equal to the variable's name, the first one's column is read.
pub proof fn law_the_first_matching_header_is_read<T, P: Fn(&str) -> Option<T>>(
    to_flow: P,
    bytes: Seq<u8>,
    name: Seq<char>,
    fields: Seq<Seq<u8>>,
    c: int,
    flows: Result<Vec<T>, FlowError>,
)
    requires
        csv_rows(bytes, 0x2c, true, true).0 == Some(fields),
        0 <= c < fields.len(),
        fields[c] == encode_utf8(name),
        forall|k: int| 0 <= k < c ==> #[trigger] fields[k] != encode_utf8(name),
        loaded(to_flow, bytes, Some(name), flows),
    ensures
        exists|column: FlowColumn| #[trigger]
            reads_column(csv_rows(bytes, 0x2c, true, true).1, c, column) && flows_read(
                to_flow,
                column,
                flows,
            ),
{
    let rows = csv_rows(bytes, 0x2c, true, true);
    let column = choose|column: FlowColumn| #[trigger]
        loaded_by(to_flow, rows, Some(name), column, flows);
    let found = choose|found: int| #[trigger]
        is_flow_column(rows.0, Some(name), found) && reads_column(rows.1, found, column);
    assert(is_flow_column(Some(fields), Some(name), found));
    if found != c {
        assert(fields[c] == encode_utf8(name) && fields[found] == fields[found]);
    }
}

/// The header row of an output file.
pub open spec fn output_header() -> Seq<Seq<char>> {
    seq!["step"@, "feature_id"@, "flow"@, "velocity"@, "depth"@]
}

/// The header row that a new output file starts with.
pub fn csv_header() -> (header: [&'static str; 5])
    ensures
        header@.len() == 5,
        forall|i: int| 0 <= i < 5 ==> (#[trigger] header@[i])@ == output_header()[i],
{
    ["step", "feature_id", "flow", "velocity", "depth"]
}

} // verus!
