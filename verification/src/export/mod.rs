//! Data export: CSV tables and the data of the JSON export.

pub mod csv;
pub mod json;

pub use csv::{export_apps_csv, export_categories_csv, export_daily_csv, escape_csv_field, CsvExportType};
pub use json::{days_in_range, export_range, DateRange, ExportData, SessionExport};
