use crate::commons::naming::HumanReadable;
use crate::text::{
    after_last, chars_of, display_name, display_name_of, last_index_of, matches_at, rfind, slice,
    starts_at, string_of, strip_prefixes, strip_suffixes, tail_after, without_prefixes,
    without_suffixes,
};
use vstd::prelude::*;
use vstd::string::StringExecFns;

verus! {

/// Something that lives at a path.
pub trait TrackPath {
    /// The path.
    spec fn path(&self) -> Seq<char>;

    /// The path.
    fn get_path(&self) -> (path: &str)
        ensures
            path@ == self.path(),
    ;
}

/// Why a path gave no reference to a chain.
#[derive(Debug)]
pub enum ReferenceError {
    /// Nothing is found at the path.
    DoesNotExist { path: String },
    /// What is found is no file named like a chain.
    WrongNaming { path: String },
}

impl ReferenceError {
    /// The error in words.
    pub open spec fn text(&self) -> Seq<char> {
        match *self {
            ReferenceError::DoesNotExist { path } => "Chain at "@ + path@ + " does not exist"@,
            ReferenceError::WrongNaming { path } => "Chain at "@ + path@
                + " has a wrong naming convention"@,
        }
    }

    /// The error in words.
    pub fn message(&self) -> (text: String)
        ensures
            text@ == self.text(),
    {
        match self {
            ReferenceError::DoesNotExist { path } => String::from_str("Chain at ").concat(
                path.as_str(),
            ).concat(" does not exist"),
            ReferenceError::WrongNaming { path } => String::from_str("Chain at ").concat(
                path.as_str(),
            ).concat(" has a wrong naming convention"),
        }
    }
}

/// A reference to a chain: the path of its file.
#[derive(Debug)]
pub struct ChainReference {
    pub chain_path: String,
}

/// The name of the file at a path: what follows the last `/`.
pub open spec fn file_name(path: Seq<char>) -> Seq<char> {
    after_last(path, '/')
}

/// Whether the file at a path is named like a chain: its name starts
/// with `cchain_`, and what follows the last dot of the name is `json`.
pub open spec fn named_like_chain(path: Seq<char>) -> bool {
    let name = file_name(path);
    let dot = last_index_of(name, '.');
    &&& matches_at(name, "cchain_"@, 0)
    &&& dot >= 0
    &&& name.skip(dot + 1) == "json"@
}

/// Whether what is found at a path allows a reference to it: a file
/// that is named like a chain.
pub open spec fn allows_reference(path: Seq<char>, exists: bool, is_file: bool) -> bool {
    exists && is_file && named_like_chain(path)
}

/// The name of a chain as shown to people: the name of its file with
/// each `_` turned into a space and each word begun with its upper-case
/// mapping, without `Cchain` before it and `.json` after it.
pub open spec fn shown_name(path: Seq<char>) -> Seq<char> {
    without_suffixes(without_prefixes(display_name(file_name(path)), "Cchain"@), ".json"@)
}

/// Tells whether the file at a path is named like a chain.
pub fn is_named_like_chain(path: &str) -> (named: bool)
    ensures
        named == named_like_chain(path@),
{
    let name = tail_after(&chars_of(path), '/');
    if !starts_at(&name, &chars_of("cchain_"), 0) {
        return false;
    }
    match rfind(&name, '.') {
        Some(dot) => {
            let extension = slice(&name, dot + 1, name.len());
            assert(name@.skip(dot + 1) =~= name@.subrange(dot + 1, name.len() as int));
            let json = chars_of("json");
            string_of(&extension) == string_of(&json)
        },
        None => false,
    }
}

impl ChainReference {
    pub fn new(path: String) -> (reference: Self)
        ensures
            reference.chain_path == path,
    {
        Self { chain_path: path }
    }

    /// The path of the chain.
    pub fn get_chain_path_string(&self) -> (path: String)
        ensures
            path == self.chain_path,
    {
        self.chain_path.clone()
    }

    /// A reference to the chain at a path, given what is found there.
    /// A path at which nothing is found is refused, and so is anything
    /// but a file that is named like a chain.
    pub fn from_probe(path: &str, exists: bool, is_file: bool) -> (made: Result<
        ChainReference,
        ReferenceError,
    >)
        ensures
            match made {
                Ok(reference) => allows_reference(path@, exists, is_file)
                    && reference.chain_path@ == path@,
                Err(ReferenceError::DoesNotExist { path: refused }) => !exists && refused@ == path@,
                Err(ReferenceError::WrongNaming { path: refused }) => exists && !allows_reference(
                    path@,
                    exists,
                    is_file,
                ) && refused@ == path@,
            },
    {
        if exists {
            if is_file && is_named_like_chain(path) {
                Ok(ChainReference { chain_path: String::from_str(path) })
            } else {
                Err(ReferenceError::WrongNaming { path: String::from_str(path) })
            }
        } else {
            Err(ReferenceError::DoesNotExist { path: String::from_str(path) })
        }
    }
}

impl Clone for ChainReference {
    fn clone(&self) -> (copy: Self)
        ensures
            copy == *self,
    {
        Self { chain_path: self.chain_path.clone() }
    }
}

impl HumanReadable for ChainReference {
    open spec fn raw_name(&self) -> Seq<char> {
        file_name(self.chain_path@)
    }

    open spec fn human_readable_name(&self) -> Seq<char> {
        shown_name(self.chain_path@)
    }

    fn get_raw_name(&self) -> (name: String) {
        string_of(&tail_after(&chars_of(self.chain_path.as_str()), '/'))
    }

    fn get_human_readable_name(&self) -> (name: String) {
        let raw = tail_after(&chars_of(self.chain_path.as_str()), '/');
        let shown = display_name_of(&raw);
        let opened = strip_prefixes(&shown, &chars_of("Cchain"));
        string_of(&strip_suffixes(&opened, &chars_of(".json")))
    }
}

impl TrackPath for ChainReference {
    open spec fn path(&self) -> Seq<char> {
        self.chain_path@
    }

    fn get_path(&self) -> (path: &str) {
        self.chain_path.as_str()
    }
}

} // verus!
