use crate::text::{decimal, decimal_of};
use vstd::prelude::*;
use vstd::string::StringExecFns;

verus! {

/// What is wrong with the packages that a chain needs.
#[derive(Debug)]
pub enum PackageError {
    /// Packages that the chain needs are not installed.
    MissingPackages { number_missed_packages: usize, missed_packages: String, chain_name: String },
    /// No command is known that installs with this package manager.
    UnsupportedPackageManager { name: String },
    /// No package manager is known for this platform.
    UnsupportedPlatform { os: String },
    /// None of the platform's package managers is installed.
    NoPackageManager,
}

impl PackageError {
    /// The error in words.
    pub open spec fn text(&self) -> Seq<char> {
        match *self {
            PackageError::MissingPackages {
                number_missed_packages,
                missed_packages,
                chain_name,
            } => decimal(number_missed_packages as nat) + " required packages are missing in "@
                + chain_name@ + ". Please install the following packages:"@ + missed_packages@,
            PackageError::UnsupportedPackageManager { name } => "Unsupported package manager: "@
                + name@,
            PackageError::UnsupportedPlatform { os } => "Unsupported OS platform: "@ + os@
                + ". Please install a package manager, or file an issue on GitHub."@,
            PackageError::NoPackageManager => "No package managers detected."@,
        }
    }

    /// The error in words.
    pub fn message(&self) -> (text: String)
        ensures
            text@ == self.text(),
    {
        match self {
            PackageError::MissingPackages {
                number_missed_packages,
                missed_packages,
                chain_name,
            } => decimal_of(*number_missed_packages).concat(
                " required packages are missing in ",
            ).concat(chain_name.as_str()).concat(
                ". Please install the following packages:",
            ).concat(missed_packages.as_str()),
            PackageError::UnsupportedPackageManager { name } => String::from_str(
                "Unsupported package manager: ",
            ).concat(name.as_str()),
            PackageError::UnsupportedPlatform { os } => String::from_str(
                "Unsupported OS platform: ",
            ).concat(os.as_str()).concat(
                ". Please install a package manager, or file an issue on GitHub.",
            ),
            PackageError::NoPackageManager => String::from_str("No package managers detected."),
        }
    }
}

} // verus!
