//! Reading of package-manager verification reports in rpm's `-V` format: the eight-column
//! status token of one file, and the selection of a file's line in a whole report.

pub mod result;
pub mod verifiers;
