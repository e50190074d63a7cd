use crate::commons::errors::PackageError;
use crate::commons::packages::{names_of, Package};
use crate::text::{
    after_last, char_texts, chars_of, contains, index_in, occurs, parse_index, split_words,
    string_of, tail_after, texts, trim, trim_chars, words,
};
use vstd::prelude::*;
use vstd::string::StringExecFns;

verus! {

/// The list of missing packages as shown in an error: each name on a
/// line of its own, after four spaces and a dash.
pub open spec fn listed(names: Seq<Seq<char>>, n: nat) -> Seq<char>
    decreases n,
{
    if n == 0 {
        Seq::empty()
    } else {
        listed(names, (n - 1) as nat) + "\n    - "@ + names[n - 1]
    }
}

/// Checks that a chain lacks no package: with packages missing, the
/// error counts and lists them and names the chain.
pub fn check_required_packages(missing: &Vec<Package>, chain_name: &str) -> (checked: Result<
    (),
    PackageError,
>)
    ensures
        match checked {
            Ok(_) => missing.len() == 0,
            Err(PackageError::MissingPackages {
                number_missed_packages,
                missed_packages,
                chain_name: named,
            }) => {
                &&& missing.len() > 0
                &&& number_missed_packages == missing.len()
                &&& missed_packages@ == listed(names_of(missing@), missing.len() as nat)
                &&& named@ == chain_name@
            },
            Err(_) => false,
        },
{
    if missing.len() == 0 {
        return Ok(());
    }
    let mut missed_packages = String::new();
    let mut i: usize = 0;
    while i < missing.len()
        invariant
            i <= missing.len(),
            missed_packages@ == listed(names_of(missing@), i as nat),
        decreases missing.len() - i,
    {
        missed_packages.append("\n    - ");
        missed_packages.append(missing[i].name.as_str());
        i += 1;
    }
    Err(
        PackageError::MissingPackages {
            number_missed_packages: missing.len(),
            missed_packages,
            chain_name: String::from_str(chain_name),
        },
    )
}

/// Where the chains to bookmark come from.
#[derive(Debug, Clone, Copy, PartialEq, Eq, Structural)]
pub enum BookmarkSource {
    /// A repository that is cloned first.
    Remote,
    /// A file or a directory on this machine.
    Local,
}

/// Tells where the chains to bookmark come from: a text that holds
/// `github` names a repository, any other a path.
pub fn bookmark_source(input: &str) -> (source: BookmarkSource)
    ensures
        source == if occurs(input@, "github"@) {
            BookmarkSource::Remote
        } else {
            BookmarkSource::Local
        },
{
    if contains(&chars_of(input), &chars_of("github")) {
        BookmarkSource::Remote
    } else {
        BookmarkSource::Local
    }
}

/// The name of the directory that a repository is cloned into: what
/// follows the last `/` of its address.
pub fn repository_directory(address: &str) -> (name: String)
    ensures
        name@ == after_last(address@, '/'),
{
    string_of(&tail_after(&chars_of(address), '/'))
}

/// The keywords in a text: its words.
pub fn keywords_of(input: &str) -> (keywords: Vec<String>)
    ensures
        texts(keywords@) == words(input@),
{
    let parts = split_words(&chars_of(input));
    let mut keywords: Vec<String> = Vec::new();
    let mut i: usize = 0;
    while i < parts.len()
        invariant
            i <= parts.len(),
            keywords.len() == i,
            forall|j: int| 0 <= j < i ==> (#[trigger] keywords[j])@ == parts[j]@,
        decreases parts.len() - i,
    {
        keywords.push(string_of(&parts[i]));
        i += 1;
    }
    assert(texts(keywords@) =~= char_texts(parts@));
    keywords
}

/// What a person names when asking for a chain.
#[derive(Debug)]
pub enum ChainTarget {
    /// The chain at this position of the bookmark.
    Index(usize),
    /// A path to a chain, or keywords that the chain's name holds.
    Named(String),
}

/// Reads what a person names when asking for a chain: a number is a
/// position in the bookmark, anything else a path or keywords.
pub fn chain_target(input: &str) -> (target: ChainTarget)
    ensures
        match target {
            ChainTarget::Index(index) => index_in(input@) == Some(index),
            ChainTarget::Named(name) => index_in(input@) is None && name@ == input@,
        },
{
    match parse_index(input) {
        Some(index) => ChainTarget::Index(index),
        None => ChainTarget::Named(String::from_str(input)),
    }
}

/// The position that a person picks from a list of `count` chains that
/// is shown with numbers from one on; `None` for an answer that is no
/// number of the list.
pub open spec fn picked_position(answer: Seq<char>, count: usize) -> Option<usize> {
    match index_in(trim(answer)) {
        Some(number) => if 1 <= number <= count {
            Some((number - 1) as usize)
        } else {
            None
        },
        None => None,
    }
}

/// Reads the answer of a person who picks from a list of `count` chains.
pub fn parse_selection(answer: &str, count: usize) -> (position: Option<usize>)
    ensures
        position == picked_position(answer@, count),
{
    let trimmed = string_of(&trim_chars(&chars_of(answer)));
    match parse_index(trimmed.as_str()) {
        Some(number) => if 1 <= number && number <= count {
            Some(number - 1)
        } else {
            None
        },
        None => None,
    }
}

} // verus!
