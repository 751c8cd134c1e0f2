//! One row of cementing telemetry: sixteen readings, in the column order of
//! the instrument's CSV files and ASCII lines.
//!
//! Readings that the instrument reports as real numbers are kept as the
//! literal text that was validated against the syntax of `f32::from_str`;
//! turning that text into a binary float is left to the caller.
use vstd::prelude::*;
use crate::text::{is_float_literal, u8_literal};

verus! {

/// A number exactly as it was written, in the syntax that `f32::from_str`
/// accepts (see `text::is_float_literal`).
#[derive(Debug, PartialEq)]
pub struct FloatLiteral {
    pub text: String,
}

/// A byte-sized reading: either an integer literal, or a real-number literal
/// that is converted to a byte by truncation (`as u8` on its `f32` value).
#[derive(Debug, PartialEq)]
pub enum ByteValue {
    Int(u8),
    Truncated(FloatLiteral),
}

/// Abstract value of one reading.
pub enum Reading {
    Number(Seq<char>),
    Whole(u8),
    TruncatedNumber(Seq<char>),
}

/// A reading of either kind, as a chart or a parser hands it over.
#[derive(Debug, PartialEq)]
pub enum FieldValue {
    Number(FloatLiteral),
    Byte(ByteValue),
}

/// The sixteen columns, in file order.
#[derive(Debug, Clone, Copy, PartialEq, Eq)]
pub enum RecordField {
    RecircDensity,
    DownholeDensity,
    MixWaterRate,
    ComboRate,
    PsPressure,
    DsPressure,
    MixWtrStgTtl,
    MixWtrJobTtl,
    ComboPumpStgTtl,
    ComboPumpJobTtl,
    CementVlvPercent,
    WtrVlvPercent,
    PsRate,
    DsRate,
    DigitalOuts,
    EventNum,
}

/// One data row.
#[derive(Debug, PartialEq)]
pub struct CementingRecord {
    pub recirc_density: FloatLiteral,
    pub downhole_density: FloatLiteral,
    pub mix_water_rate: FloatLiteral,
    pub combo_rate: FloatLiteral,
    pub ps_pressure: FloatLiteral,
    pub ds_pressure: FloatLiteral,
    pub mix_wtr_stg_ttl: FloatLiteral,
    pub mix_wtr_job_ttl: FloatLiteral,
    pub combo_pump_stg_ttl: FloatLiteral,
    pub combo_pump_job_ttl: FloatLiteral,
    pub ps_rate: FloatLiteral,
    pub ds_rate: FloatLiteral,
    pub cement_vlv_percent: ByteValue,
    pub wtr_vlv_percent: ByteValue,
    pub digital_outs: ByteValue,
    pub event_num: ByteValue,
}

/// Number of columns in a record.
pub const COLUMNS: usize = 16;

/// Name of the record field in column `i`.
pub open spec fn column_name(i: int) -> Seq<char> {
    if i == 0 {
        "recirc_density"@
    } else if i == 1 {
        "downhole_density"@
    } else if i == 2 {
        "mix_water_rate"@
    } else if i == 3 {
        "combo_rate"@
    } else if i == 4 {
        "ps_pressure"@
    } else if i == 5 {
        "ds_pressure"@
    } else if i == 6 {
        "mix_wtr_stg_ttl"@
    } else if i == 7 {
        "mix_wtr_job_ttl"@
    } else if i == 8 {
        "combo_pump_stg_ttl"@
    } else if i == 9 {
        "combo_pump_job_ttl"@
    } else if i == 10 {
        "cement_vlv_percent"@
    } else if i == 11 {
        "wtr_vlv_percent"@
    } else if i == 12 {
        "ps_rate"@
    } else if i == 13 {
        "ds_rate"@
    } else if i == 14 {
        "digital_outs"@
    } else {
        "event_num"@
    }
}

/// A byte reading: an integer literal, or failing that a real literal.
pub open spec fn byte_reading(v: Seq<char>) -> Option<Reading> {
    match u8_literal(v) {
        Some(b) => Some(Reading::Whole(b)),
        None => if is_float_literal(v) {
            Some(Reading::TruncatedNumber(v))
        } else {
            None
        },
    }
}

/// Columns 10, 11, 14 and 15 hold byte-sized readings; all others hold reals.
pub open spec fn column_is_real(i: int) -> bool {
    !(i == 10 || i == 11 || i == 14 || i == 15)
}

impl FloatLiteral {
    pub open spec fn view(self) -> Seq<char> {
        self.text@
    }
}

impl Clone for FloatLiteral {
    fn clone(&self) -> (r: Self)
        ensures
            r == *self,
    {
        FloatLiteral { text: self.text.clone() }
    }
}

impl ByteValue {
    pub open spec fn reading(self) -> Reading {
        match self {
            ByteValue::Int(b) => Reading::Whole(b),
            ByteValue::Truncated(f) => Reading::TruncatedNumber(f.text@),
        }
    }
}

impl Clone for ByteValue {
    fn clone(&self) -> (r: Self)
        ensures
            r == *self,
    {
        match self {
            ByteValue::Int(b) => ByteValue::Int(*b),
            ByteValue::Truncated(f) => ByteValue::Truncated(f.clone()),
        }
    }
}

impl FieldValue {
    pub open spec fn reading(self) -> Reading {
        match self {
            FieldValue::Number(f) => Reading::Number(f.text@),
            FieldValue::Byte(b) => b.reading(),
        }
    }

    /// The value has the kind that column `i` holds.
    pub open spec fn fits_column(self, i: int) -> bool {
        match self {
            FieldValue::Number(_) => column_is_real(i),
            FieldValue::Byte(_) => !column_is_real(i),
        }
    }
}

impl Clone for FieldValue {
    fn clone(&self) -> (r: Self)
        ensures
            r == *self,
    {
        match self {
            FieldValue::Number(f) => FieldValue::Number(f.clone()),
            FieldValue::Byte(b) => FieldValue::Byte(b.clone()),
        }
    }
}

impl RecordField {
    pub open spec fn index(self) -> int {
        match self {
            RecordField::RecircDensity => 0,
            RecordField::DownholeDensity => 1,
            RecordField::MixWaterRate => 2,
            RecordField::ComboRate => 3,
            RecordField::PsPressure => 4,
            RecordField::DsPressure => 5,
            RecordField::MixWtrStgTtl => 6,
            RecordField::MixWtrJobTtl => 7,
            RecordField::ComboPumpStgTtl => 8,
            RecordField::ComboPumpJobTtl => 9,
            RecordField::CementVlvPercent => 10,
            RecordField::WtrVlvPercent => 11,
            RecordField::PsRate => 12,
            RecordField::DsRate => 13,
            RecordField::DigitalOuts => 14,
            RecordField::EventNum => 15,
        }
    }

    /// The column that this field occupies.
    pub fn column(&self) -> (r: usize)
        ensures
            r == self.index(),
            r < COLUMNS,
    {
        match self {
            RecordField::RecircDensity => 0,
            RecordField::DownholeDensity => 1,
            RecordField::MixWaterRate => 2,
            RecordField::ComboRate => 3,
            RecordField::PsPressure => 4,
            RecordField::DsPressure => 5,
            RecordField::MixWtrStgTtl => 6,
            RecordField::MixWtrJobTtl => 7,
            RecordField::ComboPumpStgTtl => 8,
            RecordField::ComboPumpJobTtl => 9,
            RecordField::CementVlvPercent => 10,
            RecordField::WtrVlvPercent => 11,
            RecordField::PsRate => 12,
            RecordField::DsRate => 13,
            RecordField::DigitalOuts => 14,
            RecordField::EventNum => 15,
        }
    }
}

impl CementingRecord {
    /// The reading in column `i`.
    pub open spec fn column(self, i: int) -> Reading {
        if i == 0 {
            Reading::Number(self.recirc_density.text@)
        } else if i == 1 {
            Reading::Number(self.downhole_density.text@)
        } else if i == 2 {
            Reading::Number(self.mix_water_rate.text@)
        } else if i == 3 {
            Reading::Number(self.combo_rate.text@)
        } else if i == 4 {
            Reading::Number(self.ps_pressure.text@)
        } else if i == 5 {
            Reading::Number(self.ds_pressure.text@)
        } else if i == 6 {
            Reading::Number(self.mix_wtr_stg_ttl.text@)
        } else if i == 7 {
            Reading::Number(self.mix_wtr_job_ttl.text@)
        } else if i == 8 {
            Reading::Number(self.combo_pump_stg_ttl.text@)
        } else if i == 9 {
            Reading::Number(self.combo_pump_job_ttl.text@)
        } else if i == 10 {
            self.cement_vlv_percent.reading()
        } else if i == 11 {
            self.wtr_vlv_percent.reading()
        } else if i == 12 {
            Reading::Number(self.ps_rate.text@)
        } else if i == 13 {
            Reading::Number(self.ds_rate.text@)
        } else if i == 14 {
            self.digital_outs.reading()
        } else {
            self.event_num.reading()
        }
    }

    /// The record whose readings are all zero.
    pub fn zero() -> (r: Self)
        ensures
            forall|i: int|
                0 <= i < 16 ==> #[trigger] r.column(i) == if column_is_real(i) {
                    Reading::Number(seq!['0'])
                } else {
                    Reading::Whole(0)
                },
    {
        let r = CementingRecord {
            recirc_density: zero_literal(),
            downhole_density: zero_literal(),
            mix_water_rate: zero_literal(),
            combo_rate: zero_literal(),
            ps_pressure: zero_literal(),
            ds_pressure: zero_literal(),
            mix_wtr_stg_ttl: zero_literal(),
            mix_wtr_job_ttl: zero_literal(),
            combo_pump_stg_ttl: zero_literal(),
            combo_pump_job_ttl: zero_literal(),
            ps_rate: zero_literal(),
            ds_rate: zero_literal(),
            cement_vlv_percent: ByteValue::Int(0),
            wtr_vlv_percent: ByteValue::Int(0),
            digital_outs: ByteValue::Int(0),
            event_num: ByteValue::Int(0),
        };
        r
    }

    /// The reading in `field`.
    pub fn get(&self, field: RecordField) -> (r: FieldValue)
        ensures
            r.reading() == self.column(field.index()),
            r.fits_column(field.index()),
    {
        match field {
            RecordField::RecircDensity => FieldValue::Number(self.recirc_density.clone()),
            RecordField::DownholeDensity => FieldValue::Number(self.downhole_density.clone()),
            RecordField::MixWaterRate => FieldValue::Number(self.mix_water_rate.clone()),
            RecordField::ComboRate => FieldValue::Number(self.combo_rate.clone()),
            RecordField::PsPressure => FieldValue::Number(self.ps_pressure.clone()),
            RecordField::DsPressure => FieldValue::Number(self.ds_pressure.clone()),
            RecordField::MixWtrStgTtl => FieldValue::Number(self.mix_wtr_stg_ttl.clone()),
            RecordField::MixWtrJobTtl => FieldValue::Number(self.mix_wtr_job_ttl.clone()),
            RecordField::ComboPumpStgTtl => FieldValue::Number(self.combo_pump_stg_ttl.clone()),
            RecordField::ComboPumpJobTtl => FieldValue::Number(self.combo_pump_job_ttl.clone()),
            RecordField::CementVlvPercent => FieldValue::Byte(self.cement_vlv_percent.clone()),
            RecordField::WtrVlvPercent => FieldValue::Byte(self.wtr_vlv_percent.clone()),
            RecordField::PsRate => FieldValue::Number(self.ps_rate.clone()),
            RecordField::DsRate => FieldValue::Number(self.ds_rate.clone()),
            RecordField::DigitalOuts => FieldValue::Byte(self.digital_outs.clone()),
            RecordField::EventNum => FieldValue::Byte(self.event_num.clone()),
        }
    }

    /// Replaces the reading in column `i` with `v`, which must be of the
    /// column's kind.
    pub fn set_column(&mut self, i: usize, v: FieldValue)
        requires
            i < COLUMNS,
            v.fits_column(i as int),
        ensures
            forall|j: int|
                0 <= j < 16 ==> #[trigger] final(self).column(j) == if j == i {
                    v.reading()
                } else {
                    old(self).column(j)
                },
    {
        match v {
            FieldValue::Number(f) => {
                if i == 0 {
                    self.recirc_density = f;
                } else if i == 1 {
                    self.downhole_density = f;
                } else if i == 2 {
                    self.mix_water_rate = f;
                } else if i == 3 {
                    self.combo_rate = f;
                } else if i == 4 {
                    self.ps_pressure = f;
                } else if i == 5 {
                    self.ds_pressure = f;
                } else if i == 6 {
                    self.mix_wtr_stg_ttl = f;
                } else if i == 7 {
                    self.mix_wtr_job_ttl = f;
                } else if i == 8 {
                    self.combo_pump_stg_ttl = f;
                } else if i == 9 {
                    self.combo_pump_job_ttl = f;
                } else if i == 12 {
                    self.ps_rate = f;
                } else {
                    self.ds_rate = f;
                }
            },
            FieldValue::Byte(b) => {
                if i == 10 {
                    self.cement_vlv_percent = b;
                } else if i == 11 {
                    self.wtr_vlv_percent = b;
                } else if i == 14 {
                    self.digital_outs = b;
                } else {
                    self.event_num = b;
                }
            },
        }
    }
}

fn zero_literal() -> (r: FloatLiteral)
    ensures
        r.text@ == seq!['0'],
{
    let mut s = String::new();
    crate::text::push_char(&mut s, '0');
    FloatLiteral { text: s }
}

impl Clone for CementingRecord {
    fn clone(&self) -> (r: Self)
        ensures
            r == *self,
    {
        CementingRecord {
            recirc_density: self.recirc_density.clone(),
            downhole_density: self.downhole_density.clone(),
            mix_water_rate: self.mix_water_rate.clone(),
            combo_rate: self.combo_rate.clone(),
            ps_pressure: self.ps_pressure.clone(),
            ds_pressure: self.ds_pressure.clone(),
            mix_wtr_stg_ttl: self.mix_wtr_stg_ttl.clone(),
            mix_wtr_job_ttl: self.mix_wtr_job_ttl.clone(),
            combo_pump_stg_ttl: self.combo_pump_stg_ttl.clone(),
            combo_pump_job_ttl: self.combo_pump_job_ttl.clone(),
            ps_rate: self.ps_rate.clone(),
            ds_rate: self.ds_rate.clone(),
            cement_vlv_percent: self.cement_vlv_percent.clone(),
            wtr_vlv_percent: self.wtr_vlv_percent.clone(),
            digital_outs: self.digital_outs.clone(),
            event_num: self.event_num.clone(),
        }
    }
}

/// Name of the field in column `i`, as a static string.
pub fn column_name_str(i: usize) -> (r: &'static str)
    requires
        i < COLUMNS,
    ensures
        r@ == column_name(i as int),
{
    if i == 0 {
        "recirc_density"
    } else if i == 1 {
        "downhole_density"
    } else if i == 2 {
        "mix_water_rate"
    } else if i == 3 {
        "combo_rate"
    } else if i == 4 {
        "ps_pressure"
    } else if i == 5 {
        "ds_pressure"
    } else if i == 6 {
        "mix_wtr_stg_ttl"
    } else if i == 7 {
        "mix_wtr_job_ttl"
    } else if i == 8 {
        "combo_pump_stg_ttl"
    } else if i == 9 {
        "combo_pump_job_ttl"
    } else if i == 10 {
        "cement_vlv_percent"
    } else if i == 11 {
        "wtr_vlv_percent"
    } else if i == 12 {
        "ps_rate"
    } else if i == 13 {
        "ds_rate"
    } else if i == 14 {
        "digital_outs"
    } else {
        "event_num"
    }
}

/// A named field reads the record field of the same name: the column
/// that `field` occupies holds exactly that field of the record.
pub proof fn lemma_field_reads_same_name(rec: CementingRecord, field: RecordField)
    ensures
        rec.column(field.index()) == match field {
            RecordField::RecircDensity => Reading::Number(rec.recirc_density.text@),
            RecordField::DownholeDensity => Reading::Number(rec.downhole_density.text@),
            RecordField::MixWaterRate => Reading::Number(rec.mix_water_rate.text@),
            RecordField::ComboRate => Reading::Number(rec.combo_rate.text@),
            RecordField::PsPressure => Reading::Number(rec.ps_pressure.text@),
            RecordField::DsPressure => Reading::Number(rec.ds_pressure.text@),
            RecordField::MixWtrStgTtl => Reading::Number(rec.mix_wtr_stg_ttl.text@),
            RecordField::MixWtrJobTtl => Reading::Number(rec.mix_wtr_job_ttl.text@),
            RecordField::ComboPumpStgTtl => Reading::Number(rec.combo_pump_stg_ttl.text@),
            RecordField::ComboPumpJobTtl => Reading::Number(rec.combo_pump_job_ttl.text@),
            RecordField::CementVlvPercent => rec.cement_vlv_percent.reading(),
            RecordField::WtrVlvPercent => rec.wtr_vlv_percent.reading(),
            RecordField::PsRate => Reading::Number(rec.ps_rate.text@),
            RecordField::DsRate => Reading::Number(rec.ds_rate.text@),
            RecordField::DigitalOuts => rec.digital_outs.reading(),
            RecordField::EventNum => rec.event_num.reading(),
        },
{
}

} // verus!
