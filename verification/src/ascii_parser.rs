//! Decoding of one ASCII telemetry line into a record.
//!
//! A line holds at least sixteen comma-separated fields, each a number
//! followed by its unit (`13.44 ppg`); the last field carries no unit.
use vstd::prelude::*;
use crate::ascii_error::AsciiError;
use crate::record::{
    byte_reading, column_is_real, column_name, column_name_str, ByteValue, CementingRecord, FieldValue, FloatLiteral, Reading, COLUMNS,
};
use crate::text::{
    after_first_word, chars_of, first_word, float_literal_ok, is_float_literal, parse_u8_chars,
    lemma_split_on_join, same_chars, skip_ws, span, span_end, split_on, split_trimmed, sub_chars,
    text_of, trim, u8_literal, CharClass,
};

verus! {

/// Unit that an ASCII line must give for column `i` (none for the last).
pub open spec fn line_unit(i: int) -> Seq<char> {
    if i == 0 || i == 1 {
        "ppg"@
    } else if i == 2 {
        "gpm"@
    } else if i == 3 || i == 12 || i == 13 {
        "bpm"@
    } else if i == 4 || i == 5 {
        "psi"@
    } else if i == 6 || i == 7 {
        "gal"@
    } else if i == 8 || i == 9 {
        "bbl"@
    } else if i == 10 {
        "cmt%"@
    } else if i == 11 {
        "wtr%"@
    } else if i == 14 {
        "DigOut"@
    } else {
        ""@
    }
}

/// Why one field was refused.
pub enum FieldFault {
    /// The unit (second word) differs from the column's.
    Unit(Seq<char>),
    /// The number (first word) does not parse.
    Number,
}

/// Outcome of decoding field `raw` (already trimmed) as column `i`:
/// its unit is checked first, then its number.
pub open spec fn line_field(i: int, raw: Seq<char>) -> Result<Reading, FieldFault> {
    let v = first_word(raw);
    let u = first_word(after_first_word(raw));
    if u != line_unit(i) {
        Err(FieldFault::Unit(u))
    } else if column_is_real(i) {
        if is_float_literal(v) {
            Ok(Reading::Number(v))
        } else {
            Err(FieldFault::Number)
        }
    } else {
        match byte_reading(v) {
            Some(r) => Ok(r),
            None => Err(FieldFault::Number),
        }
    }
}

/// The fields of a line: split at every comma, each trimmed.
pub open spec fn line_fields(line: Seq<char>) -> Seq<Seq<char>> {
    split_on(line, ',').map_values(|p: Seq<char>| trim(p))
}

/// The first of the leading `n` fields that fails to decode.
pub open spec fn first_bad_field(f: Seq<Seq<char>>, n: nat) -> Option<int>
    decreases n,
{
    if n == 0 {
        None
    } else {
        match first_bad_field(f, (n - 1) as nat) {
            Some(i) => Some(i),
            None => if line_field(n - 1, f[n - 1]) is Err {
                Some(n - 1)
            } else {
                None
            },
        }
    }
}

/// `e` is the error reported for field `raw` in column `i`.
pub open spec fn is_field_error(e: AsciiError, i: int, raw: Seq<char>) -> bool {
    match line_field(i, raw) {
        Err(FieldFault::Unit(u)) => e matches AsciiError::InvalidUnit { field, expected, actual }
            && field@ == column_name(i) && expected@ == line_unit(i) && actual@ == u,
        Err(FieldFault::Number) => if column_is_real(i) {
            e matches AsciiError::ParseFloat { field, value } && field@ == column_name(i) && value@
                == raw
        } else {
            e matches AsciiError::ParseU8 { field, value } && field@ == column_name(i) && value@
                == raw
        },
        Ok(_) => false,
    }
}

/// What `parse_line` returns for `line`.
pub open spec fn parse_line_result(line: Seq<char>, r: Result<CementingRecord, AsciiError>) -> bool {
    let f = line_fields(line);
    if f.len() < 16 {
        r matches Err(AsciiError::NotEnoughFields(n)) && n == f.len()
    } else {
        match first_bad_field(f, 16) {
            Some(i) => r matches Err(e) && is_field_error(e, i, f[i]),
            None => r matches Ok(rec) && forall|i: int|
                0 <= i < 16 ==> (#[trigger] line_field(i, f[i])) == Ok::<Reading, FieldFault>(
                    rec.column(i),
                ),
        }
    }
}

/// Expected unit of column `i` in a line.
fn line_unit_str(i: usize) -> (r: &'static str)
    requires
        i < COLUMNS,
    ensures
        r@ == line_unit(i as int),
{
    if i == 0 || i == 1 {
        "ppg"
    } else if i == 2 {
        "gpm"
    } else if i == 3 || i == 12 || i == 13 {
        "bpm"
    } else if i == 4 || i == 5 {
        "psi"
    } else if i == 6 || i == 7 {
        "gal"
    } else if i == 8 || i == 9 {
        "bbl"
    } else if i == 10 {
        "cmt%"
    } else if i == 11 {
        "wtr%"
    } else if i == 14 {
        "DigOut"
    } else {
        ""
    }
}

/// The literal `cs` as a real-number reading.
fn literal_of(cs: &Vec<char>) -> (r: FloatLiteral)
    ensures
        r.text@ == cs@,
{
    FloatLiteral { text: text_of(cs) }
}

/// Decodes the number part of a byte-valued field: a byte literal, or a
/// real literal to be truncated.
pub fn byte_value_of(v: &Vec<char>) -> (r: Option<ByteValue>)
    ensures
        match byte_reading(v@) {
            Some(rd) => r matches Some(b) && b.reading() == rd,
            None => r is None,
        },
{
    match parse_u8_chars(v) {
        Some(b) => Some(ByteValue::Int(b)),
        None => {
            if float_literal_ok(v) {
                Some(ByteValue::Truncated(literal_of(v)))
            } else {
                None
            }
        },
    }
}

/// The first two whitespace-separated words of `cs` (each empty when
/// missing), as the first two items of `str::split_whitespace`.
pub fn split_value_and_unit(cs: &Vec<char>) -> (r: (Vec<char>, Vec<char>))
    ensures
        r.0@ == first_word(cs@),
        r.1@ == first_word(after_first_word(cs@)),
{
    let a = span_end(cs, 0, &CharClass::Whitespace);
    let b = span_end(cs, a, &CharClass::Word);
    let c = span_end(cs, b, &CharClass::Whitespace);
    let d = span_end(cs, c, &CharClass::Word);
    proof {
        assert(cs@.skip(0) == cs@);
        let t = skip_ws(cs@);
        assert(t == cs@.skip(a as int));
        assert(t.skip(span(t, CharClass::Word) as int) == cs@.skip(b as int));
        let t2 = skip_ws(after_first_word(cs@));
        assert(t2 == cs@.skip(c as int));
    }
    (sub_chars(cs, a, b), sub_chars(cs, c, d))
}

/// Checks that a field's unit is the expected one.
pub fn validate_unit(field: &'static str, expected: &'static str, actual: &Vec<char>) -> (r: Result<
    (),
    AsciiError,
>)
    ensures
        actual@ == expected@ ==> r is Ok,
        actual@ != expected@ ==> (r matches Err(AsciiError::InvalidUnit { field: f, expected: x, actual: a })
            && f == field && x == expected && a@ == actual@),
{
    let want = chars_of(expected);
    if same_chars(actual, &want) {
        Ok(())
    } else {
        Err(AsciiError::InvalidUnit { field, expected, actual: text_of(actual) })
    }
}

/// The number of a byte-valued field: a byte literal, or else a real
/// literal to be truncated; otherwise an error quoting the whole field.
pub fn parse_u8_value(value_part: &Vec<char>, field: &'static str, raw: &Vec<char>) -> (r: Result<
    ByteValue,
    AsciiError,
>)
    ensures
        match byte_reading(value_part@) {
            Some(rd) => r matches Ok(b) && b.reading() == rd,
            None => r matches Err(AsciiError::ParseU8 { field: f, value }) && f == field
                && value@ == raw@,
        },
{
    match byte_value_of(value_part) {
        Some(b) => Ok(b),
        None => Err(AsciiError::ParseU8 { field, value: text_of(raw) }),
    }
}

/// A real-valued field with its unit: the unit is checked, then the number.
pub fn parse_f32_with_unit(raw: &Vec<char>, field: &'static str, expected_unit: &'static str) -> (r:
    Result<FloatLiteral, AsciiError>)
    ensures
        ({
            let v = first_word(raw@);
            let u = first_word(after_first_word(raw@));
            &&& u != expected_unit@ ==> (r matches Err(
                AsciiError::InvalidUnit { field: f, expected: x, actual: a },
            ) && f == field && x == expected_unit && a@ == u)
            &&& u == expected_unit@ && is_float_literal(v) ==> (r matches Ok(lit) && lit.text@ == v)
            &&& u == expected_unit@ && !is_float_literal(v) ==> (r matches Err(
                AsciiError::ParseFloat { field: f, value },
            ) && f == field && value@ == raw@)
        }),
{
    let (value_part, unit_part) = split_value_and_unit(raw);
    validate_unit(field, expected_unit, &unit_part)?;
    if float_literal_ok(&value_part) {
        Ok(literal_of(&value_part))
    } else {
        Err(AsciiError::ParseFloat { field, value: text_of(raw) })
    }
}

/// A byte-valued field with its unit: the unit is checked, then the number.
pub fn parse_u8_with_unit(raw: &Vec<char>, field: &'static str, expected_unit: &'static str) -> (r:
    Result<ByteValue, AsciiError>)
    ensures
        ({
            let v = first_word(raw@);
            let u = first_word(after_first_word(raw@));
            &&& u != expected_unit@ ==> (r matches Err(
                AsciiError::InvalidUnit { field: f, expected: x, actual: a },
            ) && f == field && x == expected_unit && a@ == u)
            &&& u == expected_unit@ ==> match byte_reading(v) {
                Some(rd) => r matches Ok(b) && b.reading() == rd,
                None => r matches Err(AsciiError::ParseU8 { field: f, value }) && f == field
                    && value@ == raw@,
            }
        }),
{
    let (value_part, unit_part) = split_value_and_unit(raw);
    validate_unit(field, expected_unit, &unit_part)?;
    parse_u8_value(&value_part, field, raw)
}

/// A byte-valued field that carries no unit: a second word is an error.
pub fn parse_u8_without_unit(raw: &Vec<char>, field: &'static str) -> (r: Result<
    ByteValue,
    AsciiError,
>)
    ensures
        ({
            let v = first_word(raw@);
            let u = first_word(after_first_word(raw@));
            &&& u.len() > 0 ==> (r matches Err(
                AsciiError::InvalidUnit { field: f, expected: x, actual: a },
            ) && f == field && x@ == ""@ && a@ == u)
            &&& u.len() == 0 ==> match byte_reading(v) {
                Some(rd) => r matches Ok(b) && b.reading() == rd,
                None => r matches Err(AsciiError::ParseU8 { field: f, value }) && f == field
                    && value@ == raw@,
            }
        }),
{
    let (value_part, unit_part) = split_value_and_unit(raw);
    if unit_part.len() > 0 {
        return Err(AsciiError::InvalidUnit { field, expected: "", actual: text_of(&unit_part) });
    }
    parse_u8_value(&value_part, field, raw)
}

/// Decodes field `raw` (trimmed) as column `i` of a line.
fn decode_field(i: usize, raw: &Vec<char>) -> (r: Result<FieldValue, AsciiError>)
    requires
        i < COLUMNS,
    ensures
        match r {
            Ok(v) => line_field(i as int, raw@) == Ok::<Reading, FieldFault>(v.reading())
                && v.fits_column(i as int),
            Err(e) => is_field_error(e, i as int, raw@),
        },
{
    let name = column_name_str(i);
    let unit = line_unit_str(i);
    proof {
        reveal_strlit("");
        assert(line_unit(i as int) == unit@);
        assert(column_name(i as int) == name@);
        assert(column_is_real(i as int) <==> !(i == 10 || i == 11 || i == 14 || i == 15));
    }
    if i == 15 {
        proof {
            let u = first_word(after_first_word(raw@));
            assert(u.len() == 0 ==> u =~= ""@);
        }
        match parse_u8_without_unit(raw, name) {
            Ok(b) => Ok(FieldValue::Byte(b)),
            Err(e) => Err(e),
        }
    } else if i == 10 || i == 11 || i == 14 {
        match parse_u8_with_unit(raw, name, unit) {
            Ok(b) => Ok(FieldValue::Byte(b)),
            Err(e) => Err(e),
        }
    } else {
        match parse_f32_with_unit(raw, name, unit) {
            Ok(f) => Ok(FieldValue::Number(f)),
            Err(e) => Err(e),
        }
    }
}

/// Decodes one ASCII line into a record.
///
/// The line is split at every comma and each field trimmed; fewer than
/// sixteen fields is an error. The first sixteen fields are decoded in
/// column order, each by its unit and then its number, and the first
/// failure is reported. Fields after the sixteenth are ignored.
pub fn parse_line(line: &str) -> (r: Result<CementingRecord, AsciiError>)
    ensures
        parse_line_result(line@, r),
{
    let cs = chars_of(line);
    let fields = split_trimmed(&cs, ',');
    let ghost f = line_fields(line@);
    proof {
        assert(f.len() == fields@.len());
        assert forall|j: int| 0 <= j < f.len() implies (#[trigger] fields@[j])@ == f[j] by {}
    }
    if fields.len() < COLUMNS {
        return Err(AsciiError::NotEnoughFields(fields.len()));
    }
    let mut rec = CementingRecord::zero();
    let mut i: usize = 0;
    while i < COLUMNS
        invariant
            f == line_fields(line@),
            fields@.len() == f.len(),
            f.len() >= 16,
            forall|j: int| 0 <= j < f.len() ==> (#[trigger] fields@[j])@ == f[j],
            0 <= i <= 16,
            first_bad_field(f, i as nat) is None,
            forall|j: int|
                0 <= j < i ==> (#[trigger] line_field(j, f[j])) == Ok::<Reading, FieldFault>(
                    rec.column(j),
                ),
        decreases 16 - i,
    {
        assert(fields@[i as int]@ == f[i as int]);
        match decode_field(i, &fields[i]) {
            Ok(v) => {
                rec.set_column(i, v);
            },
            Err(e) => {
                proof {
                    assert(line_field(i as int, f[i as int]) is Err);
                    assert(first_bad_field(f, (i + 1) as nat) == Some(i as int));
                    lemma_first_bad_stays(f, (i + 1) as nat, 16);
                }
                return Err(e);
            },
        }
        i = i + 1;
    }
    Ok(rec)
}

/// Once a bad field is found among the first `m`, it stays the first.
proof fn lemma_first_bad_stays(f: Seq<Seq<char>>, m: nat, n: nat)
    requires
        m <= n,
        first_bad_field(f, m) is Some,
    ensures
        first_bad_field(f, n) == first_bad_field(f, m),
    decreases n - m,
{
    if m < n {
        lemma_first_bad_stays(f, m, (n - 1) as nat);
    }
}

/// A byte reading decoded from the word `w`: the byte that `w` spells, or
/// else (when `w` is a real literal) that literal, to be truncated.
pub open spec fn byte_from_word(v: ByteValue, w: Seq<char>) -> bool {
    match v {
        ByteValue::Int(b) => u8_literal(w) == Some(b),
        ByteValue::Truncated(l) => u8_literal(w) is None && is_float_literal(w) && l.text@ == w,
    }
}

/// A decoded line fills each record field from the line field at its fixed
/// position (recirculation density first, event number sixteenth): the
/// field's number, the first word of the trimmed line field. Each field
/// carries its column's unit as second word (densities in ppg, mix water
/// rate in gpm, pressures in psi, ...), and the event number carries none.
pub proof fn lemma_parsed_line_fills_fields(line: Seq<char>, rec: CementingRecord)
    requires
        parse_line_result(line, Ok::<CementingRecord, AsciiError>(rec)),
    ensures
        ({
            let f = line_fields(line);
            &&& f.len() >= 16
            &&& rec.recirc_density.text@ == first_word(f[0])
            &&& rec.downhole_density.text@ == first_word(f[1])
            &&& rec.mix_water_rate.text@ == first_word(f[2])
            &&& rec.combo_rate.text@ == first_word(f[3])
            &&& rec.ps_pressure.text@ == first_word(f[4])
            &&& rec.ds_pressure.text@ == first_word(f[5])
            &&& rec.mix_wtr_stg_ttl.text@ == first_word(f[6])
            &&& rec.mix_wtr_job_ttl.text@ == first_word(f[7])
            &&& rec.combo_pump_stg_ttl.text@ == first_word(f[8])
            &&& rec.combo_pump_job_ttl.text@ == first_word(f[9])
            &&& byte_from_word(rec.cement_vlv_percent, first_word(f[10]))
            &&& byte_from_word(rec.wtr_vlv_percent, first_word(f[11]))
            &&& rec.ps_rate.text@ == first_word(f[12])
            &&& rec.ds_rate.text@ == first_word(f[13])
            &&& byte_from_word(rec.digital_outs, first_word(f[14]))
            &&& byte_from_word(rec.event_num, first_word(f[15]))
            &&& first_word(after_first_word(f[0])) == "ppg"@
            &&& first_word(after_first_word(f[1])) == "ppg"@
            &&& first_word(after_first_word(f[2])) == "gpm"@
            &&& first_word(after_first_word(f[3])) == "bpm"@
            &&& first_word(after_first_word(f[4])) == "psi"@
            &&& first_word(after_first_word(f[5])) == "psi"@
            &&& first_word(after_first_word(f[6])) == "gal"@
            &&& first_word(after_first_word(f[7])) == "gal"@
            &&& first_word(after_first_word(f[8])) == "bbl"@
            &&& first_word(after_first_word(f[9])) == "bbl"@
            &&& first_word(after_first_word(f[10])) == "cmt%"@
            &&& first_word(after_first_word(f[11])) == "wtr%"@
            &&& first_word(after_first_word(f[12])) == "bpm"@
            &&& first_word(after_first_word(f[13])) == "bpm"@
            &&& first_word(after_first_word(f[14])) == "DigOut"@
            &&& first_word(after_first_word(f[15])).len() == 0
        }),
{
    let f = line_fields(line);
    reveal_strlit("");
    assert(line_field(0, f[0]) == Ok::<Reading, FieldFault>(rec.column(0)));
    assert(line_field(1, f[1]) == Ok::<Reading, FieldFault>(rec.column(1)));
    assert(line_field(2, f[2]) == Ok::<Reading, FieldFault>(rec.column(2)));
    assert(line_field(3, f[3]) == Ok::<Reading, FieldFault>(rec.column(3)));
    assert(line_field(4, f[4]) == Ok::<Reading, FieldFault>(rec.column(4)));
    assert(line_field(5, f[5]) == Ok::<Reading, FieldFault>(rec.column(5)));
    assert(line_field(6, f[6]) == Ok::<Reading, FieldFault>(rec.column(6)));
    assert(line_field(7, f[7]) == Ok::<Reading, FieldFault>(rec.column(7)));
    assert(line_field(8, f[8]) == Ok::<Reading, FieldFault>(rec.column(8)));
    assert(line_field(9, f[9]) == Ok::<Reading, FieldFault>(rec.column(9)));
    assert(line_field(10, f[10]) == Ok::<Reading, FieldFault>(rec.column(10)));
    assert(line_field(11, f[11]) == Ok::<Reading, FieldFault>(rec.column(11)));
    assert(line_field(12, f[12]) == Ok::<Reading, FieldFault>(rec.column(12)));
    assert(line_field(13, f[13]) == Ok::<Reading, FieldFault>(rec.column(13)));
    assert(line_field(14, f[14]) == Ok::<Reading, FieldFault>(rec.column(14)));
    assert(line_field(15, f[15]) == Ok::<Reading, FieldFault>(rec.column(15)));
}

/// Field lists that agree on their first `n` entries have the same first
/// failing field among them.
proof fn lemma_first_bad_field_same(f: Seq<Seq<char>>, g: Seq<Seq<char>>, n: nat)
    requires
        n <= f.len(),
        n <= g.len(),
        forall|j: int| 0 <= j < n ==> f[j] == g[j],
    ensures
        first_bad_field(f, n) == first_bad_field(g, n),
    decreases n,
{
    if n > 0 {
        lemma_first_bad_field_same(f, g, (n - 1) as nat);
        assert(f[n - 1] == g[n - 1]);
    }
}

/// Fields after the sixteenth are never read: cutting a line at the comma
/// that ends its sixteenth field does not change what `parse_line`
/// returns, so a valid line with anything appended after a further comma
/// still gives the same record, and an invalid one the same error.
pub proof fn lemma_parse_line_reads_sixteen_fields(
    line: Seq<char>,
    cut: int,
    r: Result<CementingRecord, AsciiError>,
)
    requires
        0 <= cut < line.len(),
        line[cut] == ',',
        split_on(line.take(cut), ',').len() == 16,
    ensures
        parse_line_result(line, r) == parse_line_result(line.take(cut), r),
{
    let head = line.take(cut);
    let tail = line.skip(cut + 1);
    assert(line =~= head + seq![','] + tail);
    lemma_split_on_join(head, ',', tail);
    let f = line_fields(line);
    let g = line_fields(head);
    assert(split_on(line, ',') == split_on(head, ',') + split_on(tail, ','));
    assert forall|j: int| 0 <= j < 16 implies f[j] == g[j] by {
        assert(split_on(line, ',')[j] == split_on(head, ',')[j]);
    }
    lemma_first_bad_field_same(f, g, 16);
    crate::text::lemma_split_on_nonempty(tail, ',');
    assert(f.len() >= 16 && g.len() == 16);
    assert forall|i: int| 0 <= i < 16 implies #[trigger] line_field(i, f[i]) == line_field(i, g[i]) by {
        assert(f[i] == g[i]);
    }
    match first_bad_field(f, 16) {
        Some(i) => {
            lemma_first_bad_field_range(f, 16);
            assert(f[i] == g[i]);
        },
        None => {},
    }
}

/// The first failing field lies among the fields looked at.
proof fn lemma_first_bad_field_range(f: Seq<Seq<char>>, n: nat)
    ensures
        first_bad_field(f, n) matches Some(i) ==> 0 <= i < n,
    decreases n,
{
    if n > 0 {
        lemma_first_bad_field_range(f, (n - 1) as nat);
    }
}

} // verus!
