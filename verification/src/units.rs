//! Units of measurement of the sixteen columns, from the second CSV line.
use vstd::prelude::*;
use vstd::string::StringExecFns;
use crate::text::text_eq;

verus! {

/// Units of the sixteen fields, in the order of `CementingRecord`.
#[derive(Debug, PartialEq)]
pub struct CementingUnits {
    pub recirc_density: String,
    pub downhole_density: String,
    pub mix_water_rate: String,
    pub combo_rate: String,
    pub ps_pressure: String,
    pub ds_pressure: String,
    pub mix_wtr_stg_ttl: String,
    pub mix_wtr_job_ttl: String,
    pub combo_pump_stg_ttl: String,
    pub combo_pump_job_ttl: String,
    pub ps_rate: String,
    pub ds_rate: String,
    pub cement_vlv_percent: String,
    pub wtr_vlv_percent: String,
    pub digital_outs: String,
    pub event_num: String,
}

impl CementingUnits {
    /// Unit of the field called `name`, if there is such a field.
    pub open spec fn unit_named(self, name: Seq<char>) -> Option<Seq<char>> {
        if name == "recirc_density"@ {
            Some(self.recirc_density@)
        } else if name == "downhole_density"@ {
            Some(self.downhole_density@)
        } else if name == "mix_water_rate"@ {
            Some(self.mix_water_rate@)
        } else if name == "combo_rate"@ {
            Some(self.combo_rate@)
        } else if name == "ps_pressure"@ {
            Some(self.ps_pressure@)
        } else if name == "ds_pressure"@ {
            Some(self.ds_pressure@)
        } else if name == "mix_wtr_stg_ttl"@ {
            Some(self.mix_wtr_stg_ttl@)
        } else if name == "mix_wtr_job_ttl"@ {
            Some(self.mix_wtr_job_ttl@)
        } else if name == "combo_pump_stg_ttl"@ {
            Some(self.combo_pump_stg_ttl@)
        } else if name == "combo_pump_job_ttl"@ {
            Some(self.combo_pump_job_ttl@)
        } else if name == "ps_rate"@ {
            Some(self.ps_rate@)
        } else if name == "ds_rate"@ {
            Some(self.ds_rate@)
        } else if name == "cement_vlv_percent"@ {
            Some(self.cement_vlv_percent@)
        } else if name == "wtr_vlv_percent"@ {
            Some(self.wtr_vlv_percent@)
        } else if name == "digital_outs"@ {
            Some(self.digital_outs@)
        } else if name == "event_num"@ {
            Some(self.event_num@)
        } else {
            None
        }
    }

    /// Unit at position `index` of the lookup table: the real-valued
    /// fields come first (rates last among them), then the byte fields.
    pub open spec fn unit_at(self, index: int) -> Option<Seq<char>> {
        if index == 0 {
            Some(self.recirc_density@)
        } else if index == 1 {
            Some(self.downhole_density@)
        } else if index == 2 {
            Some(self.mix_water_rate@)
        } else if index == 3 {
            Some(self.combo_rate@)
        } else if index == 4 {
            Some(self.ps_pressure@)
        } else if index == 5 {
            Some(self.ds_pressure@)
        } else if index == 6 {
            Some(self.mix_wtr_stg_ttl@)
        } else if index == 7 {
            Some(self.mix_wtr_job_ttl@)
        } else if index == 8 {
            Some(self.combo_pump_stg_ttl@)
        } else if index == 9 {
            Some(self.combo_pump_job_ttl@)
        } else if index == 10 {
            Some(self.ps_rate@)
        } else if index == 11 {
            Some(self.ds_rate@)
        } else if index == 12 {
            Some(self.cement_vlv_percent@)
        } else if index == 13 {
            Some(self.wtr_vlv_percent@)
        } else if index == 14 {
            Some(self.digital_outs@)
        } else if index == 15 {
            Some(self.event_num@)
        } else {
            None
        }
    }

    /// Unit of column `i` of the CSV file (columns 10 and 11 are the valve
    /// percentages, 12 and 13 the rates).
    pub open spec fn column_unit(self, i: int) -> Seq<char> {
        if i == 0 {
            self.recirc_density@
        } else if i == 1 {
            self.downhole_density@
        } else if i == 2 {
            self.mix_water_rate@
        } else if i == 3 {
            self.combo_rate@
        } else if i == 4 {
            self.ps_pressure@
        } else if i == 5 {
            self.ds_pressure@
        } else if i == 6 {
            self.mix_wtr_stg_ttl@
        } else if i == 7 {
            self.mix_wtr_job_ttl@
        } else if i == 8 {
            self.combo_pump_stg_ttl@
        } else if i == 9 {
            self.combo_pump_job_ttl@
        } else if i == 10 {
            self.cement_vlv_percent@
        } else if i == 11 {
            self.wtr_vlv_percent@
        } else if i == 12 {
            self.ps_rate@
        } else if i == 13 {
            self.ds_rate@
        } else if i == 14 {
            self.digital_outs@
        } else {
            self.event_num@
        }
    }

    /// Every unit but those of `digital_outs` and `event_num` is non-empty.
    pub open spec fn complete(self) -> bool {
        &&& self.recirc_density@.len() > 0
        &&& self.downhole_density@.len() > 0
        &&& self.mix_water_rate@.len() > 0
        &&& self.combo_rate@.len() > 0
        &&& self.ps_pressure@.len() > 0
        &&& self.ds_pressure@.len() > 0
        &&& self.mix_wtr_stg_ttl@.len() > 0
        &&& self.mix_wtr_job_ttl@.len() > 0
        &&& self.combo_pump_stg_ttl@.len() > 0
        &&& self.combo_pump_job_ttl@.len() > 0
        &&& self.ps_rate@.len() > 0
        &&& self.ds_rate@.len() > 0
        &&& self.cement_vlv_percent@.len() > 0
        &&& self.wtr_vlv_percent@.len() > 0
    }

    /// These are the units that the instrument normally reports.
    pub open spec fn is_default(self) -> bool {
        &&& self.recirc_density@ == "ppg"@
        &&& self.downhole_density@ == "ppg"@
        &&& self.mix_water_rate@ == "gpm"@
        &&& self.combo_rate@ == "bpm"@
        &&& self.ps_pressure@ == "psi"@
        &&& self.ds_pressure@ == "psi"@
        &&& self.mix_wtr_stg_ttl@ == "gal"@
        &&& self.mix_wtr_job_ttl@ == "gal"@
        &&& self.combo_pump_stg_ttl@ == "bbl"@
        &&& self.combo_pump_job_ttl@ == "bbl"@
        &&& self.ps_rate@ == "bpm"@
        &&& self.ds_rate@ == "bpm"@
        &&& self.cement_vlv_percent@ == "cmt%"@
        &&& self.wtr_vlv_percent@ == "wtr%"@
        &&& self.digital_outs@.len() == 0
        &&& self.event_num@.len() == 0
    }

    /// The units that the instrument normally reports, used when a file
    /// gives none.
    pub fn default_units() -> (r: Self)
        ensures
            r.is_default(),
            r.complete(),
            r.recirc_density@ == "ppg"@,
            r.downhole_density@ == "ppg"@,
            r.mix_water_rate@ == "gpm"@,
            r.combo_rate@ == "bpm"@,
            r.ps_pressure@ == "psi"@,
            r.ds_pressure@ == "psi"@,
            r.mix_wtr_stg_ttl@ == "gal"@,
            r.mix_wtr_job_ttl@ == "gal"@,
            r.combo_pump_stg_ttl@ == "bbl"@,
            r.combo_pump_job_ttl@ == "bbl"@,
            r.ps_rate@ == "bpm"@,
            r.ds_rate@ == "bpm"@,
            r.cement_vlv_percent@ == "cmt%"@,
            r.wtr_vlv_percent@ == "wtr%"@,
            r.digital_outs@.len() == 0,
            r.event_num@.len() == 0,
    {
        proof {
            reveal_strlit("ppg");
            reveal_strlit("gpm");
            reveal_strlit("bpm");
            reveal_strlit("psi");
            reveal_strlit("gal");
            reveal_strlit("bbl");
            reveal_strlit("cmt%");
            reveal_strlit("wtr%");
        }
        CementingUnits {
            recirc_density: String::from_str("ppg"),
            downhole_density: String::from_str("ppg"),
            mix_water_rate: String::from_str("gpm"),
            combo_rate: String::from_str("bpm"),
            ps_pressure: String::from_str("psi"),
            ds_pressure: String::from_str("psi"),
            mix_wtr_stg_ttl: String::from_str("gal"),
            mix_wtr_job_ttl: String::from_str("gal"),
            combo_pump_stg_ttl: String::from_str("bbl"),
            combo_pump_job_ttl: String::from_str("bbl"),
            ps_rate: String::from_str("bpm"),
            ds_rate: String::from_str("bpm"),
            cement_vlv_percent: String::from_str("cmt%"),
            wtr_vlv_percent: String::from_str("wtr%"),
            digital_outs: String::new(),
            event_num: String::new(),
        }
    }

    /// Unit of the field called `field_name`; `None` for an unknown name.
    pub fn get_by_field(&self, field_name: &str) -> (r: Option<&str>)
        ensures
            match self.unit_named(field_name@) {
                Some(u) => r matches Some(s) && s@ == u,
                None => r is None,
            },
    {
        if text_eq(field_name, "recirc_density") {
            Some(self.recirc_density.as_str())
        } else if text_eq(field_name, "downhole_density") {
            Some(self.downhole_density.as_str())
        } else if text_eq(field_name, "mix_water_rate") {
            Some(self.mix_water_rate.as_str())
        } else if text_eq(field_name, "combo_rate") {
            Some(self.combo_rate.as_str())
        } else if text_eq(field_name, "ps_pressure") {
            Some(self.ps_pressure.as_str())
        } else if text_eq(field_name, "ds_pressure") {
            Some(self.ds_pressure.as_str())
        } else if text_eq(field_name, "mix_wtr_stg_ttl") {
            Some(self.mix_wtr_stg_ttl.as_str())
        } else if text_eq(field_name, "mix_wtr_job_ttl") {
            Some(self.mix_wtr_job_ttl.as_str())
        } else if text_eq(field_name, "combo_pump_stg_ttl") {
            Some(self.combo_pump_stg_ttl.as_str())
        } else if text_eq(field_name, "combo_pump_job_ttl") {
            Some(self.combo_pump_job_ttl.as_str())
        } else if text_eq(field_name, "ps_rate") {
            Some(self.ps_rate.as_str())
        } else if text_eq(field_name, "ds_rate") {
            Some(self.ds_rate.as_str())
        } else if text_eq(field_name, "cement_vlv_percent") {
            Some(self.cement_vlv_percent.as_str())
        } else if text_eq(field_name, "wtr_vlv_percent") {
            Some(self.wtr_vlv_percent.as_str())
        } else if text_eq(field_name, "digital_outs") {
            Some(self.digital_outs.as_str())
        } else if text_eq(field_name, "event_num") {
            Some(self.event_num.as_str())
        } else {
            None
        }
    }

    /// Unit at position `index` (see `unit_at`); `None` past 15.
    pub fn get_by_index(&self, index: usize) -> (r: Option<&str>)
        ensures
            match self.unit_at(index as int) {
                Some(u) => r matches Some(s) && s@ == u,
                None => r is None,
            },
    {
        match index {
            0 => Some(self.recirc_density.as_str()),
            1 => Some(self.downhole_density.as_str()),
            2 => Some(self.mix_water_rate.as_str()),
            3 => Some(self.combo_rate.as_str()),
            4 => Some(self.ps_pressure.as_str()),
            5 => Some(self.ds_pressure.as_str()),
            6 => Some(self.mix_wtr_stg_ttl.as_str()),
            7 => Some(self.mix_wtr_job_ttl.as_str()),
            8 => Some(self.combo_pump_stg_ttl.as_str()),
            9 => Some(self.combo_pump_job_ttl.as_str()),
            10 => Some(self.ps_rate.as_str()),
            11 => Some(self.ds_rate.as_str()),
            12 => Some(self.cement_vlv_percent.as_str()),
            13 => Some(self.wtr_vlv_percent.as_str()),
            14 => Some(self.digital_outs.as_str()),
            15 => Some(self.event_num.as_str()),
            _ => None,
        }
    }

    /// Whether every unit that must be given is given (`complete`).
    pub fn is_complete(&self) -> (r: bool)
        ensures
            r == self.complete(),
    {
        !self.recirc_density.as_str().is_empty() && !self.downhole_density.as_str().is_empty()
            && !self.mix_water_rate.as_str().is_empty() && !self.combo_rate.as_str().is_empty()
            && !self.ps_pressure.as_str().is_empty() && !self.ds_pressure.as_str().is_empty()
            && !self.mix_wtr_stg_ttl.as_str().is_empty() && !self.mix_wtr_job_ttl.as_str().is_empty()
            && !self.combo_pump_stg_ttl.as_str().is_empty() && !self.combo_pump_job_ttl.as_str().is_empty()
            && !self.ps_rate.as_str().is_empty() && !self.ds_rate.as_str().is_empty()
            && !self.cement_vlv_percent.as_str().is_empty() && !self.wtr_vlv_percent.as_str().is_empty()
    }
}

impl Clone for CementingUnits {
    fn clone(&self) -> (r: Self)
        ensures
            r == *self,
    {
        CementingUnits {
            recirc_density: self.recirc_density.clone(),
            downhole_density: self.downhole_density.clone(),
            mix_water_rate: self.mix_water_rate.clone(),
            combo_rate: self.combo_rate.clone(),
            ps_pressure: self.ps_pressure.clone(),
            ds_pressure: self.ds_pressure.clone(),
            mix_wtr_stg_ttl: self.mix_wtr_stg_ttl.clone(),
            mix_wtr_job_ttl: self.mix_wtr_job_ttl.clone(),
            combo_pump_stg_ttl: self.combo_pump_stg_ttl.clone(),
            combo_pump_job_ttl: self.combo_pump_job_ttl.clone(),
            ps_rate: self.ps_rate.clone(),
            ds_rate: self.ds_rate.clone(),
            cement_vlv_percent: self.cement_vlv_percent.clone(),
            wtr_vlv_percent: self.wtr_vlv_percent.clone(),
            digital_outs: self.digital_outs.clone(),
            event_num: self.event_num.clone(),
        }
    }
}

/// Name of the field at position `i` of the unit lookup table (the
/// declaration order of `CementingUnits` and `CementingRecord`).
pub open spec fn table_field_name(i: int) -> Seq<char> {
    if i == 0 {
        "recirc_density"@
    } else if i == 1 {
        "downhole_density"@
    } else if i == 2 {
        "mix_water_rate"@
    } else if i == 3 {
        "combo_rate"@
    } else if i == 4 {
        "ps_pressure"@
    } else if i == 5 {
        "ds_pressure"@
    } else if i == 6 {
        "mix_wtr_stg_ttl"@
    } else if i == 7 {
        "mix_wtr_job_ttl"@
    } else if i == 8 {
        "combo_pump_stg_ttl"@
    } else if i == 9 {
        "combo_pump_job_ttl"@
    } else if i == 10 {
        "ps_rate"@
    } else if i == 11 {
        "ds_rate"@
    } else if i == 12 {
        "cement_vlv_percent"@
    } else if i == 13 {
        "wtr_vlv_percent"@
    } else if i == 14 {
        "digital_outs"@
    } else {
        "event_num"@
    }
}

/// The two lookups agree: the unit at position `i` is the unit of the
/// field named at that position.
pub proof fn lemma_lookups_agree(u: CementingUnits, i: int)
    requires
        0 <= i < 16,
    ensures
        u.unit_named(table_field_name(i)) == u.unit_at(i),
{
    reveal_strlit("recirc_density");
    reveal_strlit("downhole_density");
    reveal_strlit("mix_water_rate");
    reveal_strlit("combo_rate");
    reveal_strlit("ps_pressure");
    reveal_strlit("ds_pressure");
    reveal_strlit("mix_wtr_stg_ttl");
    reveal_strlit("mix_wtr_job_ttl");
    reveal_strlit("combo_pump_stg_ttl");
    reveal_strlit("combo_pump_job_ttl");
    reveal_strlit("ps_rate");
    reveal_strlit("ds_rate");
    reveal_strlit("cement_vlv_percent");
    reveal_strlit("wtr_vlv_percent");
    reveal_strlit("digital_outs");
    reveal_strlit("event_num");
    // The name at `i` differs from every earlier name, so the chain of
    // comparisons in `unit_named` stops at position `i`.
    let a = table_field_name(i);
    assert forall|j: int| 0 <= j < i implies #[trigger] table_field_name(j) != a by {
        let b = table_field_name(j);
        if a.len() == b.len() {
            assert(a[0] != b[0] || a[1] != b[1] || a[8] != b[8] || a[11] != b[11]);
        }
    }
    // Each position's name, so that the comparisons above are instantiated.
    assert(table_field_name(0) == "recirc_density"@);
    assert(table_field_name(1) == "downhole_density"@);
    assert(table_field_name(2) == "mix_water_rate"@);
    assert(table_field_name(3) == "combo_rate"@);
    assert(table_field_name(4) == "ps_pressure"@);
    assert(table_field_name(5) == "ds_pressure"@);
    assert(table_field_name(6) == "mix_wtr_stg_ttl"@);
    assert(table_field_name(7) == "mix_wtr_job_ttl"@);
    assert(table_field_name(8) == "combo_pump_stg_ttl"@);
    assert(table_field_name(9) == "combo_pump_job_ttl"@);
    assert(table_field_name(10) == "ps_rate"@);
    assert(table_field_name(11) == "ds_rate"@);
    assert(table_field_name(12) == "cement_vlv_percent"@);
    assert(table_field_name(13) == "wtr_vlv_percent"@);
    assert(table_field_name(14) == "digital_outs"@);
    assert(table_field_name(15) == "event_num"@);
}

/// Each lookup gives the unit of the field it names: by name, the field
/// of that name; by position, the field at that position of the table
/// (the real-valued fields first, rates last among them, then the byte
/// fields).
pub proof fn lemma_lookup_gives_named_field(u: CementingUnits)
    ensures
        u.unit_named("recirc_density"@) == Some(u.recirc_density@),
        u.unit_at(0) == Some(u.recirc_density@),
        u.unit_named("downhole_density"@) == Some(u.downhole_density@),
        u.unit_at(1) == Some(u.downhole_density@),
        u.unit_named("mix_water_rate"@) == Some(u.mix_water_rate@),
        u.unit_at(2) == Some(u.mix_water_rate@),
        u.unit_named("combo_rate"@) == Some(u.combo_rate@),
        u.unit_at(3) == Some(u.combo_rate@),
        u.unit_named("ps_pressure"@) == Some(u.ps_pressure@),
        u.unit_at(4) == Some(u.ps_pressure@),
        u.unit_named("ds_pressure"@) == Some(u.ds_pressure@),
        u.unit_at(5) == Some(u.ds_pressure@),
        u.unit_named("mix_wtr_stg_ttl"@) == Some(u.mix_wtr_stg_ttl@),
        u.unit_at(6) == Some(u.mix_wtr_stg_ttl@),
        u.unit_named("mix_wtr_job_ttl"@) == Some(u.mix_wtr_job_ttl@),
        u.unit_at(7) == Some(u.mix_wtr_job_ttl@),
        u.unit_named("combo_pump_stg_ttl"@) == Some(u.combo_pump_stg_ttl@),
        u.unit_at(8) == Some(u.combo_pump_stg_ttl@),
        u.unit_named("combo_pump_job_ttl"@) == Some(u.combo_pump_job_ttl@),
        u.unit_at(9) == Some(u.combo_pump_job_ttl@),
        u.unit_named("ps_rate"@) == Some(u.ps_rate@),
        u.unit_at(10) == Some(u.ps_rate@),
        u.unit_named("ds_rate"@) == Some(u.ds_rate@),
        u.unit_at(11) == Some(u.ds_rate@),
        u.unit_named("cement_vlv_percent"@) == Some(u.cement_vlv_percent@),
        u.unit_at(12) == Some(u.cement_vlv_percent@),
        u.unit_named("wtr_vlv_percent"@) == Some(u.wtr_vlv_percent@),
        u.unit_at(13) == Some(u.wtr_vlv_percent@),
        u.unit_named("digital_outs"@) == Some(u.digital_outs@),
        u.unit_at(14) == Some(u.digital_outs@),
        u.unit_named("event_num"@) == Some(u.event_num@),
        u.unit_at(15) == Some(u.event_num@),
        u.unit_at(16) is None,
{
    lemma_lookups_agree(u, 0);
    assert(table_field_name(0) == "recirc_density"@);
    lemma_lookups_agree(u, 1);
    assert(table_field_name(1) == "downhole_density"@);
    lemma_lookups_agree(u, 2);
    assert(table_field_name(2) == "mix_water_rate"@);
    lemma_lookups_agree(u, 3);
    assert(table_field_name(3) == "combo_rate"@);
    lemma_lookups_agree(u, 4);
    assert(table_field_name(4) == "ps_pressure"@);
    lemma_lookups_agree(u, 5);
    assert(table_field_name(5) == "ds_pressure"@);
    lemma_lookups_agree(u, 6);
    assert(table_field_name(6) == "mix_wtr_stg_ttl"@);
    lemma_lookups_agree(u, 7);
    assert(table_field_name(7) == "mix_wtr_job_ttl"@);
    lemma_lookups_agree(u, 8);
    assert(table_field_name(8) == "combo_pump_stg_ttl"@);
    lemma_lookups_agree(u, 9);
    assert(table_field_name(9) == "combo_pump_job_ttl"@);
    lemma_lookups_agree(u, 10);
    assert(table_field_name(10) == "ps_rate"@);
    lemma_lookups_agree(u, 11);
    assert(table_field_name(11) == "ds_rate"@);
    lemma_lookups_agree(u, 12);
    assert(table_field_name(12) == "cement_vlv_percent"@);
    lemma_lookups_agree(u, 13);
    assert(table_field_name(13) == "wtr_vlv_percent"@);
    lemma_lookups_agree(u, 14);
    assert(table_field_name(14) == "digital_outs"@);
    lemma_lookups_agree(u, 15);
    assert(table_field_name(15) == "event_num"@);
}

} // verus!
