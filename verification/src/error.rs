use vstd::prelude::*;

verus! {

/// Everything that can go wrong while preparing an Xfoil run or reading
/// its report back.
#[derive(Debug, PartialEq)]
pub enum XfoilError {
    /// A runner was requested from a configuration with no airfoil source
    /// (neither a NACA code nor a coordinate file).
    ConfigError,
    /// Talking to the process or reading the report file failed.
    IoError,
    /// A data row of the report held a token that is not a decimal number.
    /// `line` is the zero-based index of the offending line in the report,
    /// `token` the offending text.
    ParseError { line: usize, token: String },
}

impl XfoilError {
    /// A short description of the error, usable where a display string is
    /// wanted.
    pub fn message(&self) -> (r: String)
        ensures
            self is ConfigError ==> r@ == "xfoil cannot run without an airfoil"@,
            self is IoError ==> r@ == "i/o error while driving xfoil or reading its polar"@,
            self is ParseError ==> r@ == "polar data row holds a token that is not a number"@,
    {
        match self {
            XfoilError::ConfigError => "xfoil cannot run without an airfoil".to_owned(),
            XfoilError::IoError => "i/o error while driving xfoil or reading its polar".to_owned(),
            XfoilError::ParseError { .. } => "polar data row holds a token that is not a number".to_owned(),
        }
    }
}

} // verus!
