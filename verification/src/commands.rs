//! Library side of the front end's commands.
use vstd::prelude::*;
use vstd::string::StringExecFns;
use crate::csv_error::CsvError;
use crate::csv_manager::{not_cached_text, CsvManager};
use crate::data::CementingData;
use crate::record::{column_is_real, CementingRecord, FloatLiteral, Reading};
use crate::time::{in_utc_range, now_millis, parse_session_id, parsed_uuid, uuid_text};
use crate::units::CementingUnits;

verus! {

/// A sample data set for checking the front end's decoding: one record
/// with recirculation density 1.23 and pump-side pressure 45.6, every other
/// reading zero, default units, starting now.
pub fn debug_serialize() -> (r: Result<CementingData, String>)
    ensures
        r matches Ok(d) && {
            &&& d.file_path@ == "/fake/path.csv"@
            &&& d.file_name@ == "debug.csv"@
            &&& d.units.is_default()
            &&& d.records@.len() == 1
            &&& d.start_time == d.end_time
            &&& in_utc_range(d.start_time as int)
            &&& d.records@[0].column(0) == Reading::Number("1.23"@)
            &&& d.records@[0].column(4) == Reading::Number("45.6"@)
            &&& forall|i: int|
                0 <= i < 16 && i != 0 && i != 4 ==> #[trigger] d.records@[0].column(i) == if column_is_real(i) {
                    Reading::Number(seq!['0'])
                } else {
                    Reading::Whole(0)
                }
        },
{
    let zero = CementingRecord::zero();
    let record = CementingRecord {
        recirc_density: FloatLiteral { text: String::from_str("1.23") },
        ps_pressure: FloatLiteral { text: String::from_str("45.6") },
        ..zero
    };
    assert(forall|i: int| 0 <= i < 16 && i != 0 && i != 4 ==> #[trigger] record.column(i) == zero.column(i));
    let start = now_millis();
    let data = CementingData::new(
        String::from_str("/fake/path.csv"),
        String::from_str("debug.csv"),
        start,
        CementingUnits::default_units(),
        vec![record],
    );
    Ok(data)
}

/// The loaded data of the session whose identifier is written
/// `session_id`, or the text to show when there is none.
pub fn get_csv_data(manager: &CsvManager, session_id: &str) -> (r: Result<CementingData, String>)
    ensures
        parsed_uuid(session_id@) is None ==> (r matches Err(m) && m@
            == "Невалидный session_id формат"@),
        parsed_uuid(session_id@) matches Some(id) ==> {
            &&& manager.files().contains_key(id) ==> (r matches Ok(d) && d.same_as(
                manager.files()[id],
            ))
            &&& !manager.files().contains_key(id) ==> (r matches Err(m) && m@
                == "Не удалось получить данные: "@ + "Файл не найден: "@ + not_cached_text(id))
        },
        forall|id: u128|
            #[trigger] uuid_text(id) == session_id@ && manager.files().contains_key(id) ==> (
            r matches Ok(d) && d.same_as(manager.files()[id])),
{
    let id = match parse_session_id(session_id) {
        Some(id) => id,
        None => {
            return Err(String::from_str("Невалидный session_id формат"));
        },
    };
    match manager.get_data_result(id) {
        Ok(data) => Ok(data),
        Err(e) => {
            let text = e.message();
            let mut out = String::from_str("Не удалось получить данные: ");
            out.append(text.as_str());
            proof {
                if let CsvError::FileNotFound(msg) = e {
                    assert(text@ == "Файл не найден: "@ + msg@);
                }
            }
            Err(out)
        },
    }
}

} // verus!
