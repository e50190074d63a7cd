use crate::commons::errors::PackageError;
use crate::text::{
    char_texts, chars_of, pieces, same, slice, split_pieces, string_of, texts,
};
use vstd::prelude::*;
use vstd::string::StringExecFns;

verus! {

/// A program that a chain calls.
#[derive(Debug)]
pub struct Package {
    pub name: String,
}

/// The names of a list of packages.
pub open spec fn names_of(packages: Seq<Package>) -> Seq<Seq<char>> {
    packages.map_values(|package: Package| package.name@)
}

/// A piece of text before a line feed, as a line: without the carriage
/// return that it may end with.
pub open spec fn ended_line(piece: Seq<char>) -> Seq<char> {
    if piece.len() > 0 && piece.last() == '\r' {
        piece.drop_last()
    } else {
        piece
    }
}

/// The first `n` pieces of a text as lines. Every piece but the last
/// stands before a line feed; the last is a line unless it is empty.
pub open spec fn lines_upto(parts: Seq<Seq<char>>, n: nat) -> Seq<Seq<char>>
    decreases n,
{
    if n == 0 {
        Seq::empty()
    } else {
        let before = lines_upto(parts, (n - 1) as nat);
        if n < parts.len() {
            before.push(ended_line(parts[n - 1]))
        } else if parts[n - 1].len() > 0 {
            before.push(parts[n - 1])
        } else {
            before
        }
    }
}

/// The lines of a text: what stands between its line feeds, each line
/// without the carriage return before its line feed.
pub open spec fn lines_of(text: Seq<char>) -> Seq<Seq<char>> {
    lines_upto(pieces(text, '\n'), pieces(text, '\n').len())
}

/// The first `n` names without those that occurred before.
pub open spec fn distinct(names: Seq<Seq<char>>, n: nat) -> Seq<Seq<char>>
    decreases n,
{
    if n == 0 {
        Seq::empty()
    } else {
        let before = distinct(names, (n - 1) as nat);
        if before.contains(names[n - 1]) {
            before
        } else {
            before.push(names[n - 1])
        }
    }
}

/// Those of the first `n` names that are not among `known`, in order.
pub open spec fn lacking(names: Seq<Seq<char>>, known: Seq<Seq<char>>, n: nat) -> Seq<Seq<char>>
    decreases n,
{
    if n == 0 {
        Seq::empty()
    } else {
        let before = lacking(names, known, (n - 1) as nat);
        if known.contains(names[n - 1]) {
            before
        } else {
            before.push(names[n - 1])
        }
    }
}

/// Tells whether a package of this name is in the list.
pub fn has_package(packages: &Vec<Package>, name: &str) -> (found: bool)
    ensures
        found == names_of(packages@).contains(name@),
{
    let mut i: usize = 0;
    while i < packages.len()
        invariant
            i <= packages.len(),
            forall|j: int| 0 <= j < i ==> (#[trigger] names_of(packages@)[j]) != name@,
        decreases packages.len() - i,
    {
        if same(packages[i].name.as_str(), name) {
            assert(names_of(packages@)[i as int] == name@);
            return true;
        }
        i += 1;
    }
    false
}

impl Package {
    pub fn new(name: String) -> (package: Self)
        ensures
            package.name == name,
    {
        Package { name }
    }

    pub fn access_package_name(&self) -> (name: &str)
        ensures
            name@ == self.name@,
    {
        self.name.as_str()
    }

    /// The packages that a listing names, one on each line, each once.
    pub fn from_listing(listing: &str) -> (packages: Vec<Package>)
        ensures
            names_of(packages@) == distinct(lines_of(listing@), lines_of(listing@).len()),
    {
        let parts = split_pieces(&chars_of(listing), '\n');
        let mut lines: Vec<String> = Vec::new();
        let mut i: usize = 0;
        assert(texts(lines@) =~= Seq::<Seq<char>>::empty());
        while i < parts.len()
            invariant
                i <= parts.len(),
                texts(lines@) == lines_upto(char_texts(parts@), i as nat),
            decreases parts.len() - i,
        {
            let ghost before = texts(lines@);
            let part = &parts[i];
            if i + 1 < parts.len() {
                let end = if part.len() > 0 && part[part.len() - 1] == '\r' {
                    part.len() - 1
                } else {
                    part.len()
                };
                let line = string_of(&slice(part, 0, end));
                assert(line@ =~= ended_line(part@));
                lines.push(line);
                assert(texts(lines@) =~= before.push(ended_line(part@)));
            } else if part.len() > 0 {
                lines.push(string_of(part));
                assert(texts(lines@) =~= before.push(part@));
            }
            i += 1;
        }
        let mut packages: Vec<Package> = Vec::new();
        let mut k: usize = 0;
        assert(names_of(packages@) =~= Seq::<Seq<char>>::empty());
        while k < lines.len()
            invariant
                k <= lines.len(),
                names_of(packages@) == distinct(texts(lines@), k as nat),
            decreases lines.len() - k,
        {
            let ghost before = names_of(packages@);
            if !has_package(&packages, lines[k].as_str()) {
                packages.push(Package { name: lines[k].clone() });
                assert(names_of(packages@) =~= before.push(lines[k as int]@));
            }
            k += 1;
        }
        packages
    }

    /// Those of the required packages that are not available, in order.
    pub fn missing(required: &Vec<Package>, available: &Vec<Package>) -> (missing: Vec<Package>)
        ensures
            names_of(missing@) == lacking(
                names_of(required@),
                names_of(available@),
                required.len() as nat,
            ),
    {
        let mut missing: Vec<Package> = Vec::new();
        let mut i: usize = 0;
        assert(names_of(missing@) =~= Seq::<Seq<char>>::empty());
        while i < required.len()
            invariant
                i <= required.len(),
                names_of(missing@) == lacking(names_of(required@), names_of(available@), i as nat),
            decreases required.len() - i,
        {
            let ghost before = names_of(missing@);
            if !has_package(available, required[i].name.as_str()) {
                missing.push(Package { name: required[i].name.clone() });
                assert(names_of(missing@) =~= before.push(required[i as int].name@));
            }
            i += 1;
        }
        missing
    }
}

impl Clone for Package {
    fn clone(&self) -> (copy: Self)
        ensures
            copy == *self,
    {
        Package { name: self.name.clone() }
    }
}

/// A program that installs packages.
#[derive(Debug)]
pub struct PackageManager {
    pub name: String,
    pub path: String,
}

/// What stands before the name of a package in the command that
/// installs it; `None` for a manager that is not known.
pub open spec fn install_prefix(manager: Seq<char>) -> Option<Seq<char>> {
    if manager == "brew"@ {
        Some("brew install "@)
    } else if manager == "MacPorts"@ {
        Some("port install "@)
    } else if manager == "apt"@ {
        Some("sudo apt-get install -y "@)
    } else if manager == "snap"@ {
        Some("sudo snap install "@)
    } else if manager == "yum"@ {
        Some("sudo yum install -y "@)
    } else if manager == "dnf"@ {
        Some("sudo dnf install -y "@)
    } else if manager == "pacman"@ {
        Some("sudo pacman -S --noconfirm "@)
    } else if manager == "zypper"@ {
        Some("sudo zypper install -y "@)
    } else if manager == "emerge"@ {
        Some("sudo emerge "@)
    } else if manager == "choco"@ {
        Some("choco install -y "@)
    } else if manager == "scoop"@ {
        Some("scoop install "@)
    } else if manager == "winget"@ {
        Some("winget install --id "@)
    } else {
        None
    }
}

/// The package managers that are looked for on a platform; `None` for
/// a platform that is not known.
pub open spec fn managers_of(os: Seq<char>) -> Option<Seq<Seq<char>>> {
    if os == "macos"@ {
        Some(seq!["brew"@, "MacPorts"@])
    } else if os == "linux"@ {
        Some(seq!["apt"@, "snap"@, "yum"@, "dnf"@, "pacman"@, "zypper"@, "emerge"@])
    } else if os == "windows"@ {
        Some(seq!["choco"@, "scoop"@, "winget"@])
    } else {
        None
    }
}

/// The text in an optional string.
pub open spec fn found_path(path: Option<String>) -> Option<Seq<char>> {
    match path {
        Some(path) => Some(path@),
        None => None,
    }
}

/// Those of the first `n` candidates that were found, each with the
/// path at which it was found, in order.
pub open spec fn installed(candidates: Seq<Seq<char>>, paths: Seq<Option<Seq<char>>>, n: nat) -> Seq<
    (Seq<char>, Seq<char>),
>
    decreases n,
{
    if n == 0 {
        Seq::empty()
    } else {
        let before = installed(candidates, paths, (n - 1) as nat);
        match paths[n - 1] {
            Some(path) => before.push((candidates[n - 1], path)),
            None => before,
        }
    }
}

/// The names and paths of a list of package managers.
pub open spec fn managers(found: Seq<PackageManager>) -> Seq<(Seq<char>, Seq<char>)> {
    found.map_values(|manager: PackageManager| (manager.name@, manager.path@))
}

/// The found paths of a list of lookups.
pub open spec fn found_paths(paths: Seq<Option<String>>) -> Seq<Option<Seq<char>>> {
    paths.map_values(|path: Option<String>| found_path(path))
}

impl PackageManager {
    /// The command line that installs a package with this manager. A
    /// manager that is not known is refused.
    pub fn install_command(&self, package_name: &str) -> (command: Result<String, PackageError>)
        ensures
            match command {
                Ok(line) => install_prefix(self.name@) matches Some(prefix) && line@ == prefix
                    + package_name@,
                Err(error) => {
                    &&& install_prefix(self.name@) is None
                    &&& error matches PackageError::UnsupportedPackageManager { name } && name@
                        == self.name@
                },
            },
    {
        let name = self.name.as_str();
        let prefix = if same(name, "brew") {
            "brew install "
        } else if same(name, "MacPorts") {
            "port install "
        } else if same(name, "apt") {
            "sudo apt-get install -y "
        } else if same(name, "snap") {
            "sudo snap install "
        } else if same(name, "yum") {
            "sudo yum install -y "
        } else if same(name, "dnf") {
            "sudo dnf install -y "
        } else if same(name, "pacman") {
            "sudo pacman -S --noconfirm "
        } else if same(name, "zypper") {
            "sudo zypper install -y "
        } else if same(name, "emerge") {
            "sudo emerge "
        } else if same(name, "choco") {
            "choco install -y "
        } else if same(name, "scoop") {
            "scoop install "
        } else if same(name, "winget") {
            "winget install --id "
        } else {
            return Err(PackageError::UnsupportedPackageManager { name: self.name.clone() });
        };
        Ok(String::from_str(prefix).concat(package_name))
    }

    /// The package managers that are looked for on a platform. A
    /// platform that is not known is refused.
    pub fn candidates(os: &str) -> (names: Result<Vec<String>, PackageError>)
        ensures
            match names {
                Ok(names) => managers_of(os@) == Some(texts(names@)),
                Err(error) => {
                    &&& managers_of(os@) is None
                    &&& error matches PackageError::UnsupportedPlatform { os: refused } && refused@
                        == os@
                },
            },
    {
        let mut names: Vec<String> = Vec::new();
        if same(os, "macos") {
            names.push(String::from_str("brew"));
            names.push(String::from_str("MacPorts"));
            assert(texts(names@) =~= seq!["brew"@, "MacPorts"@]);
        } else if same(os, "linux") {
            names.push(String::from_str("apt"));
            names.push(String::from_str("snap"));
            names.push(String::from_str("yum"));
            names.push(String::from_str("dnf"));
            names.push(String::from_str("pacman"));
            names.push(String::from_str("zypper"));
            names.push(String::from_str("emerge"));
            assert(texts(names@) =~= seq![
                "apt"@,
                "snap"@,
                "yum"@,
                "dnf"@,
                "pacman"@,
                "zypper"@,
                "emerge"@,
            ]);
        } else if same(os, "windows") {
            names.push(String::from_str("choco"));
            names.push(String::from_str("scoop"));
            names.push(String::from_str("winget"));
            assert(texts(names@) =~= seq!["choco"@, "scoop"@, "winget"@]);
        } else {
            return Err(PackageError::UnsupportedPlatform { os: String::from_str(os) });
        }
        Ok(names)
    }

    /// The package managers that were found, given for each candidate
    /// the path at which it was found, if it was.
    pub fn check_package_managers_availability(
        candidates: &Vec<String>,
        paths: &Vec<Option<String>>,
    ) -> (found: Vec<PackageManager>)
        requires
            candidates.len() == paths.len(),
        ensures
            managers(found@) == installed(
                texts(candidates@),
                found_paths(paths@),
                candidates.len() as nat,
            ),
    {
        let mut found: Vec<PackageManager> = Vec::new();
        let mut i: usize = 0;
        assert(managers(found@) =~= Seq::<(Seq<char>, Seq<char>)>::empty());
        while i < candidates.len()
            invariant
                i <= candidates.len(),
                candidates.len() == paths.len(),
                managers(found@) == installed(texts(candidates@), found_paths(paths@), i as nat),
            decreases candidates.len() - i,
        {
            let ghost before = managers(found@);
            match &paths[i] {
                Some(path) => {
                    found.push(PackageManager { name: candidates[i].clone(), path: path.clone() });
                    assert(managers(found@) =~= before.push((candidates[i as int]@, path@)));
                },
                None => {},
            }
            i += 1;
        }
        found
    }

    /// The package managers of a platform that were found, given for
    /// each candidate of that platform the path at which it was found.
    /// An unknown platform is refused, and so is one on which none of
    /// its package managers was found.
    pub fn get_available_package_managers(os: &str, paths: &Vec<Option<String>>) -> (found: Result<
        Vec<PackageManager>,
        PackageError,
    >)
        requires
            managers_of(os@) matches Some(names) ==> names.len() == paths.len(),
        ensures
            match found {
                Ok(found) => managers_of(os@) matches Some(names) && managers(found@) == installed(
                    names,
                    found_paths(paths@),
                    names.len(),
                ) && found.len() > 0,
                Err(PackageError::UnsupportedPlatform { os: refused }) => managers_of(os@) is None
                    && refused@ == os@,
                Err(PackageError::NoPackageManager) => managers_of(os@) matches Some(names)
                    && installed(names, found_paths(paths@), names.len()).len() == 0,
                Err(_) => false,
            },
    {
        let names = match Self::candidates(os) {
            Ok(names) => names,
            Err(error) => {
                return Err(error);
            },
        };
        let found = Self::check_package_managers_availability(&names, paths);
        if found.len() == 0 {
            Err(PackageError::NoPackageManager)
        } else {
            Ok(found)
        }
    }
}

/// Something that can tell whether a package manager is at hand.
pub trait AvailablePackageManager {
    fn get_available_package_managers(&self) -> bool;
}

/// Something that needs packages.
pub trait AvailablePackages {
    /// The names of the packages that are needed.
    spec fn required(&self) -> Seq<Seq<char>>;

    /// The packages that are needed.
    fn get_required_packages(&self) -> (packages: Vec<Package>)
        ensures
            names_of(packages@) == self.required(),
    ;
}

} // verus!
