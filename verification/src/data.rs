//! The aggregate of one loaded CSV file: its records, units, timing and
//! metadata, and the chart series drawn from it.
use vstd::prelude::*;
use vstd::string::StringExecFns;
use crate::metadata::CsvMetadata;
use crate::record::{lemma_field_reads_same_name, CementingRecord, FieldValue, Reading, RecordField};
use crate::time::{
    clock_label, clock_text, in_utc_range, is_random_uuid, new_session_id, push_signed_decimal,
    signed_decimal,
};
use crate::units::CementingUnits;

verus! {

/// Bytes that one parsed record is taken to occupy.
pub const RECORD_SIZE: usize = 52;

/// Milliseconds between consecutive records.
pub const SAMPLE_INTERVAL_MS: u32 = 1000;

/// Quotient of `a / b` rounded toward zero, as Rust's `/` on integers.
pub open spec fn trunc_div(a: int, b: int) -> int {
    if a >= 0 {
        a / b
    } else {
        -((-a) / b)
    }
}

/// Remainder that goes with `trunc_div`, as Rust's `%` on integers.
pub open spec fn trunc_rem(a: int, b: int) -> int {
    a - trunc_div(a, b) * b
}

/// Text of a duration of `total` seconds: hours and minutes when there is
/// at least an hour ("1ч 23м"), else minutes and seconds ("23м 5с") when
/// there is at least a minute, else seconds ("5с").
pub open spec fn duration_text(total: int) -> Seq<char> {
    let hours = trunc_div(total, 3600);
    let mins = trunc_div(trunc_rem(total, 3600), 60);
    let secs = trunc_rem(total, 60);
    if hours > 0 {
        signed_decimal(hours) + "ч "@ + signed_decimal(mins) + "м"@
    } else if mins > 0 {
        signed_decimal(mins) + "м "@ + signed_decimal(secs) + "с"@
    } else {
        signed_decimal(secs) + "с"@
    }
}

/// One point of a chart series.
#[derive(Debug, PartialEq)]
pub struct ChartPoint {
    /// Instant of the sample, in milliseconds since the epoch.
    pub x_ms: i64,
    /// The sampled reading.
    pub y: FieldValue,
    /// `%H:%M:%S` of the instant, for tooltips.
    pub time_label: String,
}

/// All data of one CSV file.
#[derive(Debug, PartialEq)]
pub struct CementingData {
    /// Session identifier (a random UUID's 128-bit value).
    pub id: u128,
    pub file_path: String,
    pub file_name: String,
    /// Instant of the first record, in milliseconds since the epoch (UTC).
    pub start_time: i64,
    /// Instant of the last record.
    pub end_time: i64,
    pub sample_interval_ms: u32,
    pub units: CementingUnits,
    pub records: Vec<CementingRecord>,
    pub meta: CsvMetadata,
}

impl CementingData {
    /// The two hold the same data (records compared by their contents).
    pub open spec fn same_as(self, other: Self) -> bool {
        &&& self.id == other.id
        &&& self.file_path == other.file_path
        &&& self.file_name == other.file_name
        &&& self.start_time == other.start_time
        &&& self.end_time == other.end_time
        &&& self.sample_interval_ms == other.sample_interval_ms
        &&& self.units == other.units
        &&& self.records@ == other.records@
        &&& self.meta == other.meta
    }

    /// Instant of record `index`.
    pub open spec fn time_at(self, index: int) -> int {
        self.start_time + index * self.sample_interval_ms
    }

    /// Every record's instant is one that chrono can represent.
    pub open spec fn times_representable(self) -> bool {
        &&& in_utc_range(self.start_time as int)
        &&& forall|i: int| 0 <= i < self.records@.len() ==> in_utc_range(#[trigger] self.time_at(i))
    }

    /// Duration of the recording in whole seconds, rounded toward zero.
    pub open spec fn duration(self) -> int {
        trunc_div(self.end_time - self.start_time, 1000)
    }

    /// The point that record `index` gives for `field`.
    pub open spec fn point_is(self, p: ChartPoint, index: int, field: RecordField) -> bool {
        &&& p.x_ms == self.time_at(index)
        &&& p.y.reading() == self.records@[index].column(field.index())
        &&& p.time_label@ == clock_text(self.time_at(index))
    }

    /// Gathers the records of a file that starts at `start_time`; samples
    /// are one second apart, so the last one is `len - 1` seconds later.
    /// The file size is zero until `set_file_size`.
    pub fn new(
        file_path: String,
        file_name: String,
        start_time: i64,
        units: CementingUnits,
        records: Vec<CementingRecord>,
    ) -> (r: Self)
        requires
            in_utc_range(start_time as int),
            records@.len() * 52 <= usize::MAX,
            records@.len() > 0 ==> in_utc_range(start_time + (records@.len() - 1) * 1000),
        ensures
            is_random_uuid(r.id),
            r.file_path == file_path,
            r.file_name == file_name,
            r.start_time == start_time,
            r.end_time == if records@.len() > 0 {
                start_time + (records@.len() - 1) * 1000
            } else {
                start_time as int
            },
            r.sample_interval_ms == 1000,
            r.units == units,
            r.records == records,
            r.meta.file_path == file_path,
            r.meta.file_name == file_name,
            r.meta.total_rows == records@.len(),
            r.meta.total_columns == 32,
            r.meta.columns_used == 16,
            r.meta.file_size_bytes == 0,
            r.meta.memory_size_bytes == records@.len() * 52,
            in_utc_range(r.meta.parsed_at as int),
    {
        let total_rows = records.len();
        let meta = CsvMetadata::new(file_path.clone(), file_name.clone(), total_rows, 0, RECORD_SIZE);
        let end_time = if total_rows > 0 {
            let offset = (total_rows - 1) as i128 * 1000;
            (start_time as i128 + offset) as i64
        } else {
            start_time
        };
        CementingData {
            id: new_session_id(),
            file_path,
            file_name,
            start_time,
            end_time,
            sample_interval_ms: SAMPLE_INTERVAL_MS,
            units,
            records,
            meta,
        }
    }

    /// Instant of record `index`: `index` intervals after the start.
    pub fn timestamp_at(&self, index: usize) -> (r: i64)
        requires
            in_utc_range(self.start_time as int),
            in_utc_range(self.time_at(index as int)),
        ensures
            r == self.time_at(index as int),
    {
        let offset = (index as i128) * (self.sample_interval_ms as i128);
        (self.start_time as i128 + offset) as i64
    }

    /// First and last instant.
    pub fn time_range(&self) -> (r: (i64, i64))
        ensures
            r == (self.start_time, self.end_time),
    {
        (self.start_time, self.end_time)
    }

    /// Duration of the recording in whole seconds (`duration`).
    pub fn duration_secs(&self) -> (r: i64)
        requires
            in_utc_range(self.start_time as int),
            in_utc_range(self.end_time as int),
        ensures
            r == self.duration(),
    {
        let diff = self.end_time - self.start_time;
        if diff >= 0 {
            diff / 1000
        } else {
            -((-diff) / 1000)
        }
    }

    /// The duration as text, e.g. "1ч 23м", "23м 5с" or "5с".
    pub fn duration_human(&self) -> (r: String)
        requires
            in_utc_range(self.start_time as int),
            in_utc_range(self.end_time as int),
        ensures
            r@ == duration_text(self.duration()),
    {
        let total = self.duration_secs();
        let negative = total < 0;
        let magnitude: i64 = if negative {
            -total
        } else {
            total
        };
        let h_abs = magnitude / 3600;
        let m_abs = (magnitude % 3600) / 60;
        let s_abs = magnitude % 60;
        let hours = if negative {
            -h_abs
        } else {
            h_abs
        };
        let mins = if negative {
            -m_abs
        } else {
            m_abs
        };
        let secs = if negative {
            -s_abs
        } else {
            s_abs
        };
        assert(hours == trunc_div(total as int, 3600));
        assert(mins == trunc_div(trunc_rem(total as int, 3600), 60));
        assert(secs == trunc_rem(total as int, 60));
        let mut out = String::new();
        if hours > 0 {
            push_signed_decimal(&mut out, hours);
            out.append("ч ");
            push_signed_decimal(&mut out, mins);
            out.append("м");
        } else if mins > 0 {
            push_signed_decimal(&mut out, mins);
            out.append("м ");
            push_signed_decimal(&mut out, secs);
            out.append("с");
        } else {
            push_signed_decimal(&mut out, secs);
            out.append("с");
        }
        assert(out@ =~= duration_text(total as int));
        out
    }

    /// The chart point of record `index` for `field`; `None` past the end.
    pub fn to_chart_point(&self, index: usize, field: RecordField) -> (r: Option<ChartPoint>)
        requires
            index < self.records@.len() ==> in_utc_range(self.start_time as int) && in_utc_range(
                self.time_at(index as int),
            ),
        ensures
            index >= self.records@.len() ==> r is None,
            index < self.records@.len() ==> (r matches Some(p) && self.point_is(
                p,
                index as int,
                field,
            )),
    {
        if index >= self.records.len() {
            return None;
        }
        let x_ms = self.timestamp_at(index);
        let y = self.records[index].get(field);
        Some(ChartPoint { x_ms, y, time_label: clock_label(x_ms) })
    }

    /// The series of `field` over all records, in order.
    pub fn get_chart_data(&self, field: RecordField) -> (r: Vec<ChartPoint>)
        requires
            self.times_representable(),
        ensures
            r@.len() == self.records@.len(),
            forall|i: int| 0 <= i < r@.len() ==> self.point_is(#[trigger] r@[i], i, field),
    {
        let mut out: Vec<ChartPoint> = Vec::new();
        let mut i: usize = 0;
        while i < self.records.len()
            invariant
                self.times_representable(),
                i <= self.records@.len(),
                out@.len() == i,
                forall|j: int| 0 <= j < i ==> self.point_is(#[trigger] out@[j], j, field),
            decreases self.records@.len() - i,
        {
            assert(in_utc_range(self.time_at(i as int)));
            match self.to_chart_point(i, field) {
                Some(p) => out.push(p),
                None => {},
            }
            i = i + 1;
        }
        out
    }

    /// Records the size of the file on disk.
    pub fn set_file_size(&mut self, size_bytes: u64)
        ensures
            *final(self) == (CementingData {
                meta: CsvMetadata { file_size_bytes: size_bytes, ..old(self).meta },
                ..*old(self)
            }),
    {
        self.meta.file_size_bytes = size_bytes;
    }

    /// Whether there is at least one record.
    pub fn has_data(&self) -> (r: bool)
        ensures
            r == (self.records@.len() > 0),
    {
        self.records.len() > 0
    }

    /// The first record, if any.
    pub fn first_record(&self) -> (r: Option<&CementingRecord>)
        ensures
            self.records@.len() == 0 ==> r is None,
            self.records@.len() > 0 ==> r == Some(&self.records@[0]),
    {
        if self.records.len() > 0 {
            Some(&self.records[0])
        } else {
            None
        }
    }

    /// The last record, if any.
    pub fn last_record(&self) -> (r: Option<&CementingRecord>)
        ensures
            self.records@.len() == 0 ==> r is None,
            self.records@.len() > 0 ==> r == Some(&self.records@.last()),
    {
        let n = self.records.len();
        if n > 0 {
            Some(&self.records[n - 1])
        } else {
            None
        }
    }
}

impl Clone for CementingData {
    fn clone(&self) -> (r: Self)
        ensures
            r.same_as(*self),
    {
        let records = self.records.clone();
        assert(records@ =~= self.records@);
        CementingData {
            id: self.id,
            file_path: self.file_path.clone(),
            file_name: self.file_name.clone(),
            start_time: self.start_time,
            end_time: self.end_time,
            sample_interval_ms: self.sample_interval_ms,
            units: self.units.clone(),
            records,
            meta: self.meta.clone(),
        }
    }
}

/// A chart point of `field` carries the reading of the record field of the
/// same name (e.g. the pump-side rate for `PsRate`), at the record's time.
pub proof fn lemma_chart_point_reads_named_field(
    d: CementingData,
    p: ChartPoint,
    index: int,
    field: RecordField,
)
    requires
        d.point_is(p, index, field),
    ensures
        p.x_ms == d.start_time + index * d.sample_interval_ms,
        p.y.reading() == match field {
            RecordField::RecircDensity => Reading::Number(d.records@[index].recirc_density.text@),
            RecordField::DownholeDensity => Reading::Number(
                d.records@[index].downhole_density.text@,
            ),
            RecordField::MixWaterRate => Reading::Number(d.records@[index].mix_water_rate.text@),
            RecordField::ComboRate => Reading::Number(d.records@[index].combo_rate.text@),
            RecordField::PsPressure => Reading::Number(d.records@[index].ps_pressure.text@),
            RecordField::DsPressure => Reading::Number(d.records@[index].ds_pressure.text@),
            RecordField::MixWtrStgTtl => Reading::Number(d.records@[index].mix_wtr_stg_ttl.text@),
            RecordField::MixWtrJobTtl => Reading::Number(d.records@[index].mix_wtr_job_ttl.text@),
            RecordField::ComboPumpStgTtl => Reading::Number(
                d.records@[index].combo_pump_stg_ttl.text@,
            ),
            RecordField::ComboPumpJobTtl => Reading::Number(
                d.records@[index].combo_pump_job_ttl.text@,
            ),
            RecordField::CementVlvPercent => d.records@[index].cement_vlv_percent.reading(),
            RecordField::WtrVlvPercent => d.records@[index].wtr_vlv_percent.reading(),
            RecordField::PsRate => Reading::Number(d.records@[index].ps_rate.text@),
            RecordField::DsRate => Reading::Number(d.records@[index].ds_rate.text@),
            RecordField::DigitalOuts => d.records@[index].digital_outs.reading(),
            RecordField::EventNum => d.records@[index].event_num.reading(),
        },
{
    lemma_field_reads_same_name(d.records@[index], field);
}

/// A file of `n` records, built by `new`, starts with its first record,
/// ends with its last, and lasts `n - 1` seconds.
pub proof fn lemma_new_data_timing(d: CementingData, n: nat)
    requires
        n > 0,
        d.records@.len() == n,
        d.sample_interval_ms == 1000,
        d.end_time == d.start_time + (n - 1) * 1000,
    ensures
        d.time_at(0) == d.start_time,
        d.time_at(n - 1) == d.end_time,
        d.duration() == n - 1,
{
    assert(d.end_time - d.start_time == (n - 1) * 1000);
    assert(((n - 1) * 1000) / 1000 == n - 1) by (nonlinear_arith);
}

} // verus!
