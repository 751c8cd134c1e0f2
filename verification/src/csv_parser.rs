//! Parser of the instrument's CSV files.
//!
//! A file is named `DataYYYYMMDD_HHMM.csv` after the minute its recording
//! starts. Its first line names the columns, its second gives their units,
//! and every further line is one record, one second after the previous.
use vstd::prelude::*;
use vstd::string::StringExecFns;
use crate::ascii_parser::{byte_from_word, byte_value_of};
use crate::csv_error::CsvError;
use crate::data::CementingData;
use crate::record::{
    column_is_real, column_name, column_name_str, byte_reading, ByteValue, CementingRecord,
    FieldValue, FloatLiteral, Reading, COLUMNS,
};
use crate::time::{in_utc_range, is_random_uuid, parse_error_text, parse_utc_millis, parsed_utc_millis};
use crate::text::{
    chars_of, float_literal_ok, is_float_literal, push_char, strings_view, text_of, trim, trim_chars,
};
use crate::units::CementingUnits;

verus! {

/// The CSV parser (its operations are associated functions).
pub struct CsvParser;

/// The extension that file names end in.
pub open spec fn csv_suffix() -> Seq<char> {
    seq!['.', 'c', 's', 'v']
}

/// `s` without every trailing `.csv`, as `str::trim_end_matches(".csv")`.
pub open spec fn strip_csv(s: Seq<char>) -> Seq<char>
    decreases s.len(),
{
    if s.len() >= 4 && s.subrange(s.len() - 4, s.len() as int) == csv_suffix() {
        strip_csv(s.take(s.len() - 4))
    } else {
        s
    }
}

/// Bytes that `c` takes in UTF-8.
pub open spec fn utf8_width(c: char) -> nat {
    if (c as u32) < 0x80 {
        1
    } else if (c as u32) < 0x800 {
        2
    } else if (c as u32) < 0x10000 {
        3
    } else {
        4
    }
}

/// Bytes that `s` takes in UTF-8 (`str::len`).
pub open spec fn utf8_len(s: Seq<char>) -> nat
    decreases s.len(),
{
    if s.len() == 0 {
        0
    } else {
        utf8_len(s.drop_last()) + utf8_width(s.last())
    }
}

/// Byte offset `b` of `s` falls between two characters.
pub open spec fn is_boundary(s: Seq<char>, b: int) -> bool {
    exists|k: int| 0 <= k <= s.len() && utf8_len(#[trigger] s.take(k)) == b
}

/// The number of characters before byte offset `b`.
pub open spec fn chars_before(s: Seq<char>, b: int) -> int {
    choose|k: int| 0 <= k <= s.len() && utf8_len(#[trigger] s.take(k)) == b
}

/// The name starts with `Data` and is 17 bytes long once `.csv` is gone.
pub open spec fn has_data_shape(n: Seq<char>) -> bool {
    n.len() >= 4 && n.take(4) == seq!['D', 'a', 't', 'a'] && utf8_len(n) == 17
}

/// The name can be cut at bytes 12 and 13, where the date ends and the
/// time starts; otherwise slicing it would panic.
pub open spec fn cuts_cleanly(n: Seq<char>) -> bool {
    is_boundary(n, 12) && is_boundary(n, 13)
}

/// `YYYYMMDD HHMM00` from a name of the form `DataYYYYMMDD_HHMM`.
pub open spec fn stamp_text(n: Seq<char>) -> Seq<char> {
    n.subrange(4, chars_before(n, 12)) + seq![' '] + n.subrange(chars_before(n, 13), n.len() as int)
        + seq!['0', '0']
}

/// The format in which `stamp_text` is parsed.
pub open spec fn stamp_format() -> Seq<char> {
    "%Y%m%d %H%M%S"@
}

/// Whether extracting the start time from `filename` completes without
/// the slicing panic (see `cuts_cleanly`).
pub open spec fn start_time_defined(filename: Seq<char>) -> bool {
    has_data_shape(strip_csv(filename)) ==> cuts_cleanly(strip_csv(filename))
}

/// What `extract_start_time` returns for `filename`.
pub open spec fn start_time_result(filename: Seq<char>, r: Result<i64, CsvError>) -> bool {
    let n = strip_csv(filename);
    if !has_data_shape(n) {
        r matches Err(CsvError::InvalidFilename(s)) && s@ == filename
    } else {
        match parsed_utc_millis(stamp_text(n), stamp_format()) {
            Some(ms) => r == Ok::<i64, CsvError>(ms),
            None => r matches Err(CsvError::InvalidDate(_)),
        }
    }
}

proof fn lemma_utf8_len_take_step(s: Seq<char>, k: int)
    requires
        0 <= k < s.len(),
    ensures
        utf8_len(s.take(k + 1)) == utf8_len(s.take(k)) + utf8_width(s[k]),
{
    assert(s.take(k + 1).drop_last() =~= s.take(k));
}

/// Prefix byte lengths grow strictly with the number of characters.
proof fn lemma_utf8_len_take_grows(s: Seq<char>, j: int, k: int)
    requires
        0 <= j < k <= s.len(),
    ensures
        utf8_len(s.take(j)) < utf8_len(s.take(k)),
    decreases k - j,
{
    lemma_utf8_len_take_step(s, k - 1);
    if j < k - 1 {
        lemma_utf8_len_take_grows(s, j, k - 1);
    }
}

/// The character index where byte offset `b` falls, if it falls between
/// characters.
fn boundary_at(cs: &Vec<char>, b: u64) -> (r: Option<usize>)
    requires
        b <= 64,
    ensures
        is_boundary(cs@, b as int) <==> r is Some,
        r matches Some(k) ==> k as int == chars_before(cs@, b as int) && 0 <= k <= cs@.len()
            && utf8_len(cs@.take(k as int)) == b,
{
    let mut off: u64 = 0;
    let mut k: usize = 0;
    assert(cs@.take(0) =~= Seq::<char>::empty());
    while k < cs.len() && off < b
        invariant
            k <= cs@.len(),
            off == utf8_len(cs@.take(k as int)),
            off <= b + 4,
            b <= 64,
            forall|j: int| 0 <= j < k ==> utf8_len(#[trigger] cs@.take(j)) < b,
        decreases cs@.len() - k,
    {
        proof {
            lemma_utf8_len_take_step(cs@, k as int);
        }
        let c = cs[k];
        let u = c as u32;
        let w: u64 = if u < 0x80 {
            1
        } else if u < 0x800 {
            2
        } else if u < 0x10000 {
            3
        } else {
            4
        };
        off = off + w;
        k = k + 1;
    }
    if off == b {
        proof {
            assert(utf8_len(cs@.take(k as int)) == b);
            let c = chars_before(cs@, b as int);
            assert(0 <= c <= cs@.len() && utf8_len(cs@.take(c)) == b);
            if c < k {
                lemma_utf8_len_take_grows(cs@, c, k as int);
            } else if c > k {
                lemma_utf8_len_take_grows(cs@, k as int, c);
            }
        }
        Some(k)
    } else {
        proof {
            assert forall|j: int| 0 <= j <= cs@.len() implies utf8_len(#[trigger] cs@.take(j))
                != b by {
                if j < k {
                } else if j == k {
                } else {
                    lemma_utf8_len_take_grows(cs@, k as int, j);
                    assert(off > b || k == cs@.len());
                }
            }
        }
        None
    }
}

/// Decides `has_data_shape`.
fn data_shape(n: &Vec<char>) -> (r: bool)
    ensures
        r == has_data_shape(n@),
{
    if n.len() < 4 || !(n[0] == 'D' && n[1] == 'a' && n[2] == 't' && n[3] == 'a') {
        proof {
            if n@.len() >= 4 && n@.take(4) == seq!['D', 'a', 't', 'a'] {
                assert(n@.take(4)[0] == n@[0]);
                assert(n@.take(4)[1] == n@[1]);
                assert(n@.take(4)[2] == n@[2]);
                assert(n@.take(4)[3] == n@[3]);
            }
        }
        return false;
    }
    assert(n@.take(4) =~= seq!['D', 'a', 't', 'a']);
    let total = boundary_at(n, 17);
    proof {
        if utf8_len(n@) == 17 {
            assert(n@.take(n@.len() as int) =~= n@);
        }
    }
    match total {
        Some(k) => {
            proof {
                if k < n@.len() {
                    lemma_utf8_len_take_grows(n@, k as int, n@.len() as int);
                    assert(n@.take(n@.len() as int) =~= n@);
                }
            }
            k == n.len()
        },
        None => false,
    }
}

/// The first `end` characters of `f` end in `.csv`.
fn ends_with_csv(f: &Vec<char>, end: usize) -> (r: bool)
    requires
        end <= f@.len(),
    ensures
        r == {
            let t = f@.take(end as int);
            t.len() >= 4 && t.subrange(t.len() - 4, t.len() as int) == csv_suffix()
        },
{
    let ghost t = f@.take(end as int);
    if end < 4 {
        return false;
    }
    let r = f[end - 4] == '.' && f[end - 3] == 'c' && f[end - 2] == 's' && f[end - 1] == 'v';
    proof {
        let tail = t.subrange(t.len() - 4, t.len() as int);
        assert(tail[0] == f@[end - 4]);
        assert(tail[1] == f@[end - 3]);
        assert(tail[2] == f@[end - 2]);
        assert(tail[3] == f@[end - 1]);
        if r {
            assert(tail =~= csv_suffix());
        }
    }
    r
}

/// `filename` without its trailing `.csv`s.
fn strip_csv_chars(f: &Vec<char>) -> (r: Vec<char>)
    ensures
        r@ == strip_csv(f@),
{
    let mut end = f.len();
    assert(f@.take(end as int) =~= f@);
    while ends_with_csv(f, end)
        invariant
            end <= f@.len(),
            strip_csv(f@) == strip_csv(f@.take(end as int)),
        decreases end,
    {
        assert(f@.take(end as int).take(end - 4) =~= f@.take(end - 4));
        end = end - 4;
    }
    let r = crate::text::sub_chars(f, 0, end);
    assert(r@ =~= f@.take(end as int));
    r
}

proof fn lemma_utf8_len_data(n: Seq<char>)
    requires
        n.len() >= 4,
        n.take(4) == seq!['D', 'a', 't', 'a'],
    ensures
        utf8_len(n.take(4)) == 4,
{
    let t = n.take(4);
    assert(t.drop_last() =~= seq!['D', 'a', 't']);
    assert(t.drop_last().drop_last() =~= seq!['D', 'a']);
    assert(t.drop_last().drop_last().drop_last() =~= seq!['D']);
    assert(t.drop_last().drop_last().drop_last().drop_last() =~= Seq::<char>::empty());
    reveal_with_fuel(utf8_len, 5);
}

/// `stamp_text(n)`, given where bytes 12 and 13 fall.
fn stamp_of(n: &Vec<char>, k12: usize, k13: usize) -> (r: String)
    requires
        has_data_shape(n@),
        k12 as int == chars_before(n@, 12),
        k13 as int == chars_before(n@, 13),
        k12 <= n@.len(),
        k13 <= n@.len(),
        utf8_len(n@.take(k12 as int)) == 12,
        utf8_len(n@.take(k13 as int)) == 13,
    ensures
        r@ == stamp_text(n@),
{
    proof {
        lemma_utf8_len_data(n@);
        if k12 < 4 {
            lemma_utf8_len_take_grows(n@, k12 as int, 4);
        }
    }
    let mut text = String::new();
    let mut i: usize = 4;
    while i < k12
        invariant
            4 <= i <= k12 <= n@.len(),
            text@ == n@.subrange(4, i as int),
        decreases k12 - i,
    {
        push_char(&mut text, n[i]);
        i = i + 1;
        assert(text@ =~= n@.subrange(4, i as int));
    }
    push_char(&mut text, ' ');
    let ghost before_time = text@;
    let mut i: usize = k13;
    while i < n.len()
        invariant
            k13 <= i <= n@.len(),
            text@ == before_time + n@.subrange(k13 as int, i as int),
        decreases n@.len() - i,
    {
        push_char(&mut text, n[i]);
        i = i + 1;
        assert(text@ =~= before_time + n@.subrange(k13 as int, i as int));
    }
    push_char(&mut text, '0');
    push_char(&mut text, '0');
    assert(text@ =~= stamp_text(n@));
    text
}

impl CsvParser {
    /// Whether `extract_start_time(filename)` is defined: the name does
    /// not have the `Data…` shape, or it can be cut where date and time
    /// are taken out. Where it cannot, the extraction panics.
    pub fn start_time_is_defined(filename: &str) -> (r: bool)
        ensures
            r == start_time_defined(filename@),
    {
        let f = chars_of(filename);
        let n = strip_csv_chars(&f);
        if !data_shape(&n) {
            return true;
        }
        boundary_at(&n, 12).is_some() && boundary_at(&n, 13).is_some()
    }

    /// The instant at which a recording starts, from its file name
    /// `DataYYYYMMDD_HHMM.csv` (read as UTC, seconds zero).
    pub fn extract_start_time(filename: &str) -> (r: Result<i64, CsvError>)
        requires
            start_time_defined(filename@),
        ensures
            start_time_result(filename@, r),
            r matches Ok(ms) ==> in_utc_range(ms as int),
    {
        let f = chars_of(filename);
        let n = strip_csv_chars(&f);
        if !data_shape(&n) {
            return Err(CsvError::InvalidFilename(String::from_str(filename)));
        }
        let k12 = boundary_at(&n, 12).unwrap();
        let k13 = boundary_at(&n, 13).unwrap();
        let text = stamp_of(&n, k12, k13);
        match parse_utc_millis(text.as_str(), "%Y%m%d %H%M%S") {
            Ok(ms) => Ok(ms),
            Err(e) => Err(CsvError::InvalidDate(parse_error_text(&e))),
        }
    }
}

/// The CSV reader's output: the header row and every later row, each as
/// its fields or the error met while reading it.
pub struct CsvTable {
    pub headers: Result<Vec<String>, csv::Error>,
    pub rows: Vec<Result<Vec<String>, csv::Error>>,
}

/// The fields of a row that was read, `None` for a row that failed.
pub open spec fn row_cells(row: Result<Vec<String>, csv::Error>) -> Option<Seq<Seq<char>>> {
    match row {
        Ok(v) => Some(strings_view(v@)),
        Err(_) => None,
    }
}

/// The rows of a table by their fields.
pub open spec fn table_rows(t: CsvTable) -> Seq<Option<Seq<Seq<char>>>> {
    t.rows@.map_values(|r: Result<Vec<String>, csv::Error>| row_cells(r))
}

/// What the `csv` crate reads from `content` with headers on and rows of
/// any length allowed: the header row, and every data row.
pub uninterp spec fn csv_table(content: Seq<u8>) -> (
    Option<Seq<Seq<char>>>,
    Seq<Option<Seq<Seq<char>>>>,
);

/// Reads `content` with `csv::ReaderBuilder::new().has_headers(true)
/// .flexible(true)`: `headers()`, then every item of `records()`, each
/// record's fields converted to strings. The result is named `csv_table`.
#[verifier::external_body]
fn read_table(content: &[u8]) -> (r: CsvTable)
    ensures
        (row_cells(r.headers), table_rows(r)) == csv_table(content@),
{
    let mut reader = csv::ReaderBuilder::new().has_headers(true).flexible(true).from_reader(content);
    let headers = reader.headers().map(|h| h.iter().map(|f| f.to_string()).collect());
    let rows = reader.records().map(|r| r.map(|rec| rec.iter().map(|f| f.to_string()).collect())).collect();
    CsvTable { headers, rows }
}

/// The text of the error that `f32::from_str` reports for `t`.
pub open spec fn float_error_text(t: Seq<char>) -> Seq<char> {
    if t.len() == 0 {
        "cannot parse float from empty string"@
    } else {
        "invalid float literal"@
    }
}

/// Reading of column `i` of a data row, or why it fails. A real column
/// must be present and hold a real literal (spaces around it ignored). A
/// byte column that is missing or empty reads as 0; otherwise it holds a
/// byte literal or a real literal to be truncated.
pub open spec fn csv_cell(row: Seq<Seq<char>>, i: int) -> Result<Reading, Seq<char>> {
    if column_is_real(i) {
        if i < row.len() {
            let t = trim(row[i]);
            if is_float_literal(t) {
                Ok(Reading::Number(t))
            } else {
                Err(float_error_text(t))
            }
        } else {
            Err("missing column"@)
        }
    } else {
        let t = if i < row.len() {
            trim(row[i])
        } else {
            seq!['0']
        };
        if t.len() == 0 {
            Ok(Reading::Whole(0))
        } else {
            match byte_reading(t) {
                Some(r) => Ok(r),
                None => Err(float_error_text(t)),
            }
        }
    }
}

/// The first of the leading `n` columns of a row that fails.
pub open spec fn first_bad_cell(row: Seq<Seq<char>>, n: nat) -> Option<int>
    decreases n,
{
    if n == 0 {
        None
    } else {
        match first_bad_cell(row, (n - 1) as nat) {
            Some(i) => Some(i),
            None => if csv_cell(row, n - 1) is Err {
                Some(n - 1)
            } else {
                None
            },
        }
    }
}

/// A row fails when it could not be read or one of its columns fails.
pub open spec fn row_fails(row: Option<Seq<Seq<char>>>) -> bool {
    match row {
        Some(cells) => first_bad_cell(cells, 16) is Some,
        None => true,
    }
}

/// The first failing data row among rows `1..n` (row 0 holds the units).
pub open spec fn first_bad_row(rows: Seq<Option<Seq<Seq<char>>>>, n: nat) -> Option<int>
    decreases n,
{
    if n <= 1 {
        None
    } else {
        match first_bad_row(rows, (n - 1) as nat) {
            Some(k) => Some(k),
            None => if row_fails(rows[n - 1]) {
                Some(n - 1)
            } else {
                None
            },
        }
    }
}

/// Unit given for column `i` (trimmed), empty when the column is missing.
pub open spec fn unit_cell(row: Seq<Seq<char>>, i: int) -> Seq<char> {
    if i < row.len() {
        trim(row[i])
    } else {
        seq![]
    }
}

/// `e` reports the first failing column of data row `row` on line `row_num`.
pub open spec fn row_error(row: Seq<Seq<char>>, row_num: int, e: CsvError) -> bool {
    match first_bad_cell(row, 16) {
        Some(i) => e matches CsvError::ParseError { row: line, field, reason } && line == row_num
            && field@ == column_name(i) && reason@ == csv_cell(row, i)->Err_0,
        None => false,
    }
}

/// `r` is the outcome of decoding the data row `row`, line `row_num`.
pub open spec fn row_result(row: Seq<Seq<char>>, row_num: int, r: Result<CementingRecord, CsvError>) -> bool {
    match first_bad_cell(row, 16) {
        Some(i) => r matches Err(e) && row_error(row, row_num, e),
        None => r matches Ok(rec) && forall|i: int|
            0 <= i < 16 ==> #[trigger] csv_cell(row, i) == Ok::<Reading, Seq<char>>(rec.column(i)),
    }
}

/// The table is small enough that its records fit the address space and
/// their instants fit chrono's range (beyond that, loading panics).
pub open spec fn table_fits(start_time: int, rows: nat) -> bool {
    rows > 1 ==> (rows - 1) * 52 <= usize::MAX && in_utc_range(start_time + (rows - 2) * 1000)
}

/// `d` holds what a table with units row `units` and data rows `rows[1..]`
/// yields for a file at `file_path` named `file_name` of `file_size` bytes.
pub open spec fn loaded_from(
    d: CementingData,
    file_path: String,
    file_name: String,
    start_time: i64,
    file_size: u64,
    rows: Seq<Option<Seq<Seq<char>>>>,
) -> bool {
    let n = (rows.len() - 1) as int;
    &&& is_random_uuid(d.id)
    &&& d.file_path == file_path
    &&& d.file_name == file_name
    &&& d.start_time == start_time
    &&& d.end_time == start_time + (n - 1) * 1000
    &&& d.sample_interval_ms == 1000
    &&& match rows[0] {
        Some(units_row) => forall|i: int|
            0 <= i < 16 ==> #[trigger] d.units.column_unit(i) == unit_cell(units_row, i),
        None => d.units.is_default(),
    }
    &&& d.records@.len() == n
    &&& forall|j: int, i: int|
        0 <= j < n && 0 <= i < 16 ==> #[trigger] csv_cell(rows[j + 1]->0, i) == Ok::<
            Reading,
            Seq<char>,
        >(#[trigger] d.records@[j].column(i))
    &&& d.meta.file_path == file_path
    &&& d.meta.file_name == file_name
    &&& d.meta.total_rows == n
    &&& d.meta.total_columns == 32
    &&& d.meta.columns_used == 16
    &&& d.meta.file_size_bytes == file_size
    &&& d.meta.memory_size_bytes == n * 52
    &&& in_utc_range(d.meta.parsed_at as int)
}

/// What `from_table` returns: header problems first, then the first data
/// row that fails, and the loaded data otherwise. A units row that could
/// not be read gives the default units.
pub open spec fn table_result(
    file_path: String,
    file_name: String,
    start_time: i64,
    file_size: u64,
    t: CsvTable,
    r: Result<CementingData, CsvError>,
) -> bool {
    let rows = table_rows(t);
    match t.headers {
        Err(e) => r matches Err(CsvError::CsvError(e2)) && e2 == e,
        Ok(h) => if h@.len() < 16 {
            r matches Err(CsvError::InvalidHeaders(n)) && n == h@.len()
        } else if rows.len() == 0 {
            r matches Err(CsvError::EmptyFile)
        } else {
            match first_bad_row(rows, rows.len()) {
                Some(k) => if rows[k] is None {
                    r matches Err(CsvError::CsvError(e2)) && t.rows@[k] == Err::<
                        Vec<String>,
                        csv::Error,
                    >(e2)
                } else {
                    r matches Err(e) && row_error(rows[k]->0, k + 2, e)
                },
                None => if rows.len() == 1 {
                    r matches Err(CsvError::EmptyFile)
                } else {
                    r matches Ok(d) && loaded_from(
                        d,
                        file_path,
                        file_name,
                        start_time,
                        file_size,
                        rows,
                    )
                },
            }
        },
    }
}

/// A byte reading taken from column `c` of a data row: 0 when the cell is
/// empty; the word `0` when the row has no such column; otherwise decoded
/// from the trimmed cell (see `byte_from_word`).
pub open spec fn csv_byte_from_cell(v: ByteValue, row: Seq<Seq<char>>, c: int) -> bool {
    if c >= row.len() {
        byte_from_word(v, seq!['0'])
    } else if trim(row[c]).len() == 0 {
        v == ByteValue::Int(0)
    } else {
        byte_from_word(v, trim(row[c]))
    }
}

/// Every loaded record is filled from its own data row, each field from
/// its fixed file column (recirculation density in column 0, the valve
/// percentages in 10 and 11, the rates in 12 and 13): a real field holds
/// the trimmed cell itself.
pub proof fn lemma_loaded_rows_fill_fields(
    file_path: String,
    file_name: String,
    start_time: i64,
    file_size: u64,
    t: CsvTable,
    d: CementingData,
    j: int,
)
    requires
        table_result(file_path, file_name, start_time, file_size, t, Ok::<CementingData, CsvError>(d)),
        0 <= j < d.records@.len(),
    ensures
        ({
            let row = table_rows(t)[j + 1]->0;
            let rec = d.records@[j];
            &&& row.len() > 13
            &&& rec.recirc_density.text@ == trim(row[0])
            &&& rec.downhole_density.text@ == trim(row[1])
            &&& rec.mix_water_rate.text@ == trim(row[2])
            &&& rec.combo_rate.text@ == trim(row[3])
            &&& rec.ps_pressure.text@ == trim(row[4])
            &&& rec.ds_pressure.text@ == trim(row[5])
            &&& rec.mix_wtr_stg_ttl.text@ == trim(row[6])
            &&& rec.mix_wtr_job_ttl.text@ == trim(row[7])
            &&& rec.combo_pump_stg_ttl.text@ == trim(row[8])
            &&& rec.combo_pump_job_ttl.text@ == trim(row[9])
            &&& csv_byte_from_cell(rec.cement_vlv_percent, row, 10)
            &&& csv_byte_from_cell(rec.wtr_vlv_percent, row, 11)
            &&& rec.ps_rate.text@ == trim(row[12])
            &&& rec.ds_rate.text@ == trim(row[13])
            &&& csv_byte_from_cell(rec.digital_outs, row, 14)
            &&& csv_byte_from_cell(rec.event_num, row, 15)
        }),
{
    let rows = table_rows(t);
    assert(csv_cell(rows[j + 1]->0, 0) == Ok::<Reading, Seq<char>>(d.records@[j].column(0)));
    assert(csv_cell(rows[j + 1]->0, 1) == Ok::<Reading, Seq<char>>(d.records@[j].column(1)));
    assert(csv_cell(rows[j + 1]->0, 2) == Ok::<Reading, Seq<char>>(d.records@[j].column(2)));
    assert(csv_cell(rows[j + 1]->0, 3) == Ok::<Reading, Seq<char>>(d.records@[j].column(3)));
    assert(csv_cell(rows[j + 1]->0, 4) == Ok::<Reading, Seq<char>>(d.records@[j].column(4)));
    assert(csv_cell(rows[j + 1]->0, 5) == Ok::<Reading, Seq<char>>(d.records@[j].column(5)));
    assert(csv_cell(rows[j + 1]->0, 6) == Ok::<Reading, Seq<char>>(d.records@[j].column(6)));
    assert(csv_cell(rows[j + 1]->0, 7) == Ok::<Reading, Seq<char>>(d.records@[j].column(7)));
    assert(csv_cell(rows[j + 1]->0, 8) == Ok::<Reading, Seq<char>>(d.records@[j].column(8)));
    assert(csv_cell(rows[j + 1]->0, 9) == Ok::<Reading, Seq<char>>(d.records@[j].column(9)));
    assert(csv_cell(rows[j + 1]->0, 10) == Ok::<Reading, Seq<char>>(d.records@[j].column(10)));
    assert(csv_cell(rows[j + 1]->0, 11) == Ok::<Reading, Seq<char>>(d.records@[j].column(11)));
    assert(csv_cell(rows[j + 1]->0, 12) == Ok::<Reading, Seq<char>>(d.records@[j].column(12)));
    assert(csv_cell(rows[j + 1]->0, 13) == Ok::<Reading, Seq<char>>(d.records@[j].column(13)));
    assert(csv_cell(rows[j + 1]->0, 14) == Ok::<Reading, Seq<char>>(d.records@[j].column(14)));
    assert(csv_cell(rows[j + 1]->0, 15) == Ok::<Reading, Seq<char>>(d.records@[j].column(15)));
}

/// A loaded file takes each field's unit from the units row, in the file's
/// column order (the valve percentages in columns 10 and 11, the rates in
/// 12 and 13); an unreadable units row gives the default units.
pub proof fn lemma_loaded_units(
    file_path: String,
    file_name: String,
    start_time: i64,
    file_size: u64,
    t: CsvTable,
    d: CementingData,
)
    requires
        table_result(file_path, file_name, start_time, file_size, t, Ok::<CementingData, CsvError>(d)),
    ensures
        table_rows(t)[0] is None ==> d.units.is_default(),
        table_rows(t)[0] matches Some(units_row) ==> {
            &&& d.units.recirc_density@ == unit_cell(units_row, 0)
            &&& d.units.downhole_density@ == unit_cell(units_row, 1)
            &&& d.units.mix_water_rate@ == unit_cell(units_row, 2)
            &&& d.units.combo_rate@ == unit_cell(units_row, 3)
            &&& d.units.ps_pressure@ == unit_cell(units_row, 4)
            &&& d.units.ds_pressure@ == unit_cell(units_row, 5)
            &&& d.units.mix_wtr_stg_ttl@ == unit_cell(units_row, 6)
            &&& d.units.mix_wtr_job_ttl@ == unit_cell(units_row, 7)
            &&& d.units.combo_pump_stg_ttl@ == unit_cell(units_row, 8)
            &&& d.units.combo_pump_job_ttl@ == unit_cell(units_row, 9)
            &&& d.units.cement_vlv_percent@ == unit_cell(units_row, 10)
            &&& d.units.wtr_vlv_percent@ == unit_cell(units_row, 11)
            &&& d.units.ps_rate@ == unit_cell(units_row, 12)
            &&& d.units.ds_rate@ == unit_cell(units_row, 13)
            &&& d.units.digital_outs@ == unit_cell(units_row, 14)
            &&& d.units.event_num@ == unit_cell(units_row, 15)
        },
{
    if let Some(units_row) = table_rows(t)[0] {
        assert(d.units.column_unit(0) == unit_cell(units_row, 0));
        assert(d.units.column_unit(1) == unit_cell(units_row, 1));
        assert(d.units.column_unit(2) == unit_cell(units_row, 2));
        assert(d.units.column_unit(3) == unit_cell(units_row, 3));
        assert(d.units.column_unit(4) == unit_cell(units_row, 4));
        assert(d.units.column_unit(5) == unit_cell(units_row, 5));
        assert(d.units.column_unit(6) == unit_cell(units_row, 6));
        assert(d.units.column_unit(7) == unit_cell(units_row, 7));
        assert(d.units.column_unit(8) == unit_cell(units_row, 8));
        assert(d.units.column_unit(9) == unit_cell(units_row, 9));
        assert(d.units.column_unit(10) == unit_cell(units_row, 10));
        assert(d.units.column_unit(11) == unit_cell(units_row, 11));
        assert(d.units.column_unit(12) == unit_cell(units_row, 12));
        assert(d.units.column_unit(13) == unit_cell(units_row, 13));
        assert(d.units.column_unit(14) == unit_cell(units_row, 14));
        assert(d.units.column_unit(15) == unit_cell(units_row, 15));
    }
}

/// Trimmed text of column `i`, if the row has one.
fn cell_text(row: &Vec<String>, i: usize) -> (r: Option<Vec<char>>)
    ensures
        i < row@.len() ==> (r matches Some(t) && t@ == trim(strings_view(row@)[i as int])),
        i >= row@.len() ==> r is None,
{
    if i < row.len() {
        let cs = chars_of(row[i].as_str());
        Some(trim_chars(&cs))
    } else {
        None
    }
}

fn float_error_message(t: &Vec<char>) -> (r: String)
    ensures
        r@ == float_error_text(t@),
{
    if t.len() == 0 {
        String::from_str("cannot parse float from empty string")
    } else {
        String::from_str("invalid float literal")
    }
}

/// Decodes column `i` of a data row.
fn decode_cell(row: &Vec<String>, i: usize) -> (r: Result<FieldValue, String>)
    requires
        i < COLUMNS,
    ensures
        match r {
            Ok(v) => csv_cell(strings_view(row@), i as int) == Ok::<Reading, Seq<char>>(v.reading())
                && v.fits_column(i as int),
            Err(reason) => csv_cell(strings_view(row@), i as int) == Err::<Reading, Seq<char>>(
                reason@,
            ),
        },
{
    let cell = cell_text(row, i);
    if !(i == 10 || i == 11 || i == 14 || i == 15) {
        match cell {
            Some(t) => {
                if float_literal_ok(&t) {
                    Ok(FieldValue::Number(FloatLiteral { text: text_of(&t) }))
                } else {
                    Err(float_error_message(&t))
                }
            },
            None => Err(String::from_str("missing column")),
        }
    } else {
        let t = match cell {
            Some(t) => t,
            None => {
                let z = vec!['0'];
                assert(z@ =~= seq!['0']);
                z
            },
        };
        if t.len() == 0 {
            Ok(FieldValue::Byte(crate::record::ByteValue::Int(0)))
        } else {
            match byte_value_of(&t) {
                Some(b) => Ok(FieldValue::Byte(b)),
                None => Err(float_error_message(&t)),
            }
        }
    }
}

/// Once a bad column is found among the first `m`, it stays the first.
proof fn lemma_first_bad_cell_stays(row: Seq<Seq<char>>, m: nat, n: nat)
    requires
        m <= n,
        first_bad_cell(row, m) is Some,
    ensures
        first_bad_cell(row, n) == first_bad_cell(row, m),
    decreases n - m,
{
    if m < n {
        lemma_first_bad_cell_stays(row, m, (n - 1) as nat);
    }
}

/// Decodes one data row, found on line `row_num`.
fn parse_row(row: &Vec<String>, row_num: usize) -> (r: Result<CementingRecord, CsvError>)
    ensures
        row_result(strings_view(row@), row_num as int, r),
{
    let ghost cells = strings_view(row@);
    let mut rec = CementingRecord::zero();
    let mut i: usize = 0;
    while i < COLUMNS
        invariant
            cells == strings_view(row@),
            0 <= i <= 16,
            first_bad_cell(cells, i as nat) is None,
            forall|j: int|
                0 <= j < i ==> #[trigger] csv_cell(cells, j) == Ok::<Reading, Seq<char>>(
                    rec.column(j),
                ),
        decreases 16 - i,
    {
        match decode_cell(row, i) {
            Ok(v) => {
                rec.set_column(i, v);
            },
            Err(reason) => {
                proof {
                    assert(first_bad_cell(cells, (i + 1) as nat) == Some(i as int));
                    lemma_first_bad_cell_stays(cells, (i + 1) as nat, 16);
                }
                return Err(
                    CsvError::ParseError {
                        row: row_num,
                        field: String::from_str(column_name_str(i)),
                        reason,
                    },
                );
            },
        }
        i = i + 1;
    }
    Ok(rec)
}

/// The units (the row after the header), column by column, trimmed; a
/// missing column has an empty unit.
fn parse_units(row: &Vec<String>) -> (r: CementingUnits)
    ensures
        forall|i: int| 0 <= i < 16 ==> #[trigger] r.column_unit(i) == unit_cell(strings_view(row@), i),
{
    CementingUnits {
        recirc_density: unit_text(row, 0),
        downhole_density: unit_text(row, 1),
        mix_water_rate: unit_text(row, 2),
        combo_rate: unit_text(row, 3),
        ps_pressure: unit_text(row, 4),
        ds_pressure: unit_text(row, 5),
        mix_wtr_stg_ttl: unit_text(row, 6),
        mix_wtr_job_ttl: unit_text(row, 7),
        combo_pump_stg_ttl: unit_text(row, 8),
        combo_pump_job_ttl: unit_text(row, 9),
        cement_vlv_percent: unit_text(row, 10),
        wtr_vlv_percent: unit_text(row, 11),
        ps_rate: unit_text(row, 12),
        ds_rate: unit_text(row, 13),
        digital_outs: unit_text(row, 14),
        event_num: unit_text(row, 15),
    }
}

fn unit_text(row: &Vec<String>, i: usize) -> (r: String)
    ensures
        r@ == unit_cell(strings_view(row@), i as int),
{
    match cell_text(row, i) {
        Some(t) => text_of(&t),
        None => String::new(),
    }
}

/// Once a failing row is found among the first `m`, it stays the first.
proof fn lemma_first_bad_row_stays(rows: Seq<Option<Seq<Seq<char>>>>, m: nat, n: nat)
    requires
        m <= n,
        first_bad_row(rows, m) is Some,
    ensures
        first_bad_row(rows, n) == first_bad_row(rows, m),
    decreases n - m,
{
    if m < n {
        lemma_first_bad_row_stays(rows, m, (n - 1) as nat);
    }
}

/// Decides `table_fits`.
fn fits(start_time: i64, rows: usize) -> (r: bool)
    requires
        in_utc_range(start_time as int),
    ensures
        r == table_fits(start_time as int, rows as nat),
{
    if rows <= 1 {
        return true;
    }
    if rows - 1 > usize::MAX / 52 {
        return false;
    }
    let last = start_time as i128 + (rows as i128 - 2) * 1000;
    -8334601315200000i128 <= last && last <= 8210266876799999i128
}

impl CsvParser {
    /// Builds the data of a file from what the CSV reader read of it.
    ///
    /// In order: a header row that could not be read, or has fewer than
    /// sixteen columns, is an error; a table without rows is empty; the
    /// first row gives the units (the default units when that row could not
    /// be read); the first data row that could not be
    /// read or has a failing column is an error (lines count from 1, the
    /// header being line 1); a table with no data rows is empty.
    pub fn from_table(
        file_path: String,
        file_name: String,
        start_time: i64,
        file_size: u64,
        table: CsvTable,
    ) -> (r: Result<CementingData, CsvError>)
        requires
            in_utc_range(start_time as int),
            table_fits(start_time as int, table.rows@.len()),
        ensures
            table_result(file_path, file_name, start_time, file_size, table, r),
    {
        let ghost t = table;
        let ghost rv = table_rows(table);
        let CsvTable { headers, rows } = table;
        let mut rows = rows;
        match headers {
            Err(e) => {
                return Err(CsvError::CsvError(e));
            },
            Ok(h) => {
                if h.len() < COLUMNS {
                    return Err(CsvError::InvalidHeaders(h.len()));
                }
            },
        }
        let n = rows.len();
        if n == 0 {
            return Err(CsvError::EmptyFile);
        }
        let units = match &rows[0] {
            Ok(u) => parse_units(u),
            Err(_) => CementingUnits::default_units(),
        };
        assert(rv[0] == row_cells(t.rows@[0]));
        let mut records: Vec<CementingRecord> = Vec::new();
        let mut k: usize = 1;
        while k < n
            invariant
                t == table,
                rows@ == t.rows@,
                rv == table_rows(t),
                t.headers matches Ok(h) && h@.len() >= 16,
                n == rows@.len(),
                rv.len() == n,
                1 <= k <= n,
                table_fits(start_time as int, n as nat),
                first_bad_row(rv, k as nat) is None,
                records@.len() == k - 1,
                forall|j: int, i: int|
                    0 <= j < k - 1 && 0 <= i < 16 ==> #[trigger] csv_cell(rv[j + 1]->0, i) == Ok::<
                        Reading,
                        Seq<char>,
                    >(#[trigger] records@[j].column(i)),
                forall|j: int| 1 <= j < k ==> rv[j] is Some,
            decreases n - k,
        {
            assert(rv[k as int] == row_cells(rows@[k as int]));
            match &rows[k] {
                Ok(cells) => {
                    match parse_row(cells, k + 2) {
                        Ok(rec) => {
                            records.push(rec);
                        },
                        Err(e) => {
                            proof {
                                assert(rv[k as int] == Some(strings_view(cells@)));
                                assert(row_error(rv[k as int]->0, k + 2, e));
                                assert(row_fails(rv[k as int]));
                                assert(first_bad_row(rv, (k + 1) as nat) == Some(k as int));
                                lemma_first_bad_row_stays(rv, (k + 1) as nat, n as nat);
                            }
                            return Err(e);
                        },
                    }
                },
                Err(_) => {
                    proof {
                        assert(first_bad_row(rv, (k + 1) as nat) == Some(k as int));
                        lemma_first_bad_row_stays(rv, (k + 1) as nat, n as nat);
                    }
                    let removed = rows.remove(k);
                    match removed {
                        Err(e) => {
                            return Err(CsvError::CsvError(e));
                        },
                        Ok(_) => {
                            return Err(CsvError::EmptyFile);
                        },
                    }
                },
            }
            k = k + 1;
        }
        if records.len() == 0 {
            return Err(CsvError::EmptyFile);
        }
        let mut data = CementingData::new(file_path, file_name, start_time, units, records);
        data.set_file_size(file_size);
        Ok(data)
    }

    /// Reads `content` as CSV and builds the file's data from it
    /// (`from_table`). `None` when the file has so many rows that their
    /// instants or their memory size would overflow; loading such a file
    /// panics.
    pub fn parse_content(
        file_path: String,
        file_name: String,
        start_time: i64,
        file_size: u64,
        content: &[u8],
    ) -> (r: Option<Result<CementingData, CsvError>>)
        requires
            in_utc_range(start_time as int),
        ensures
            r is None <==> !table_fits(start_time as int, csv_table(content@).1.len()),
            r matches Some(res) ==> exists|t: CsvTable|
                (row_cells(t.headers), table_rows(t)) == csv_table(content@) && table_result(
                    file_path,
                    file_name,
                    start_time,
                    file_size,
                    t,
                    res,
                ),
    {
        let table = read_table(content);
        assert(table_rows(table).len() == table.rows@.len());
        if !fits(start_time, table.rows.len()) {
            return None;
        }
        let ghost t = table;
        let res = CsvParser::from_table(file_path, file_name, start_time, file_size, table);
        assert((row_cells(t.headers), table_rows(t)) == csv_table(content@));
        Some(res)
    }
}

} // verus!
