//! Errors of the CSV file parser.
use vstd::prelude::*;
use vstd::string::StringExecFns;
use crate::time::{decimal, push_decimal};

verus! {

#[verifier::external_type_specification]
#[verifier::external_body]
pub struct ExCsvCrateError(csv::Error);

#[verifier::external_type_specification]
#[verifier::external_body]
pub struct ExIoError(std::io::Error);

/// What can go wrong while loading a cementing CSV file.
#[derive(Debug)]
pub enum CsvError {
    /// The file does not exist.
    FileNotFound(String),
    /// The file may not be read.
    PermissionDenied(String),
    /// The file name does not have the form `DataYYYYMMDD_HHMM.csv`.
    InvalidFilename(String),
    /// The date and time in the file name are not a valid instant.
    InvalidDate(String),
    /// The header line has fewer than sixteen columns.
    InvalidHeaders(usize),
    /// A data cell does not parse; `row` counts lines from 1.
    ParseError { row: usize, field: String, reason: String },
    /// The file holds no data rows.
    EmptyFile,
    /// The file is not valid text.
    EncodingError(String),
    /// Reading the file failed.
    IoError(std::io::Error),
    /// The CSV reader failed.
    CsvError(csv::Error),
}

/// The text of an error, as it is shown to the user. `outside` stands for
/// the description of the I/O or CSV reader error that the last two kinds
/// carry; the other kinds do not use it.
pub open spec fn csv_error_text(e: CsvError, outside: Seq<char>) -> Seq<char> {
    match e {
        CsvError::FileNotFound(s) => "Файл не найден: "@ + s@,
        CsvError::PermissionDenied(s) => "Нет прав на чтение файла: "@ + s@,
        CsvError::InvalidFilename(s) => "Неверный формат имени файла: "@ + s@
            + ". Ожидается DataYYYYMMDD_HHMM.csv"@,
        CsvError::InvalidDate(s) => "Ошибка парсинга даты из имени файла: "@ + s@,
        CsvError::InvalidHeaders(n) => "Неверные заголовки. Ожидается 32 колонки, получено: "@
            + decimal(n as nat),
        CsvError::ParseError { row, field, reason } => "Ошибка парсинга строки "@ + decimal(
            row as nat,
        ) + ", поле '"@ + field@ + "': "@ + reason@,
        CsvError::EmptyFile => "Файл пустой или не содержит данных"@,
        CsvError::EncodingError(s) => "Ошибка кодировки файла: "@ + s@,
        CsvError::IoError(_) => "Ошибка IO: "@ + outside,
        CsvError::CsvError(_) => "Ошибка CSV: "@ + outside,
    }
}

/// `std::io::Error::to_string`: the error's description. What it says is
/// not stated (it comes from the operating system).
#[verifier::external_body]
fn io_error_description(e: &std::io::Error) -> String {
    e.to_string()
}

/// `csv::Error::to_string`: the CSV reader's description of the error.
/// What it says is not stated.
#[verifier::external_body]
fn csv_error_description(e: &csv::Error) -> String {
    e.to_string()
}

impl CsvError {
    /// The error's text (`csv_error_text`, with the description of the
    /// wrapped outside error where there is one).
    pub fn message(&self) -> (r: String)
        ensures
            exists|outside: Seq<char>| r@ == csv_error_text(*self, outside),
    {
        let ghost mut outside: Seq<char> = seq![];
        let r = match self {
            CsvError::FileNotFound(s) => {
                let mut out = String::from_str("Файл не найден: ");
                out.append(s.as_str());
                out
            },
            CsvError::PermissionDenied(s) => {
                let mut out = String::from_str("Нет прав на чтение файла: ");
                out.append(s.as_str());
                out
            },
            CsvError::InvalidFilename(s) => {
                let mut out = String::from_str("Неверный формат имени файла: ");
                out.append(s.as_str());
                out.append(". Ожидается DataYYYYMMDD_HHMM.csv");
                out
            },
            CsvError::InvalidDate(s) => {
                let mut out = String::from_str("Ошибка парсинга даты из имени файла: ");
                out.append(s.as_str());
                out
            },
            CsvError::InvalidHeaders(n) => {
                let mut out = String::from_str(
                    "Неверные заголовки. Ожидается 32 колонки, получено: ",
                );
                push_decimal(&mut out, *n as u64);
                out
            },
            CsvError::ParseError { row, field, reason } => {
                let mut out = String::from_str("Ошибка парсинга строки ");
                push_decimal(&mut out, *row as u64);
                out.append(", поле '");
                out.append(field.as_str());
                out.append("': ");
                out.append(reason.as_str());
                out
            },
            CsvError::EmptyFile => String::from_str("Файл пустой или не содержит данных"),
            CsvError::EncodingError(s) => {
                let mut out = String::from_str("Ошибка кодировки файла: ");
                out.append(s.as_str());
                out
            },
            CsvError::IoError(e) => {
                let d = io_error_description(e);
                let mut out = String::from_str("Ошибка IO: ");
                out.append(d.as_str());
                proof {
                    outside = d@;
                }
                out
            },
            CsvError::CsvError(e) => {
                let d = csv_error_description(e);
                let mut out = String::from_str("Ошибка CSV: ");
                out.append(d.as_str());
                proof {
                    outside = d@;
                }
                out
            },
        };
        assert(r@ == csv_error_text(*self, outside));
        r
    }
}

} // verus!
