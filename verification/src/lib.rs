//! Extraction and aggregation core for weekly mortality tables.
//!
//! A loaded spreadsheet is modelled as an ordered table of rows of typed
//! cells. [`locator::RowLocator`] finds the unique row named by a pair of
//! labels and coerces its numeric payload into an [`series::AgeGroupSeries`];
//! [`report::AnnualReport`] gathers one series per tracked age group plus the
//! overall series for one year, and [`dataset::MultiYearDataset`] collects one
//! report per requested year, all-or-nothing. File loading, chart rendering
//! and table printing are collaborators outside this crate; they hand tables
//! in and read the finished values out.

pub mod cell;
pub mod dataset;
pub mod discovery;
pub mod error;
pub mod locator;
pub mod report;
pub mod series;
