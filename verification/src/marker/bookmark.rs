use crate::commons::naming::HumanReadable;
use crate::marker::reference::{allows_reference, shown_name, ChainReference, ReferenceError};
use crate::text::{
    char_texts, chars_of, decimal, decimal_of, lowercase, pieces, same, split_pieces, string_of,
    texts,
};
use vstd::prelude::*;
use vstd::string::StringExecFns;

verus! {

/// Why a bookmark was not changed.
#[derive(Debug)]
pub enum BookmarkError {
    /// The path gives no reference to a chain.
    Reference(ReferenceError),
    /// The chain at this path is in the bookmark already.
    Duplicate { path: String },
    /// The bookmark has no chain at this position.
    IndexOutOfBounds { index: usize },
    /// The bookmark has no chain at this path.
    PathNotFound { path: String },
}

impl BookmarkError {
    /// The error in words.
    pub open spec fn text(&self) -> Seq<char> {
        match *self {
            BookmarkError::Reference(error) => error.text(),
            BookmarkError::Duplicate { path } => "Configuration is likely duplicated: "@ + path@,
            BookmarkError::IndexOutOfBounds { index } => "Index out of bounds: "@ + decimal(
                index as nat,
            ),
            BookmarkError::PathNotFound { path } => "Configuration path not found: "@ + path@,
        }
    }

    /// The error in words.
    pub fn message(&self) -> (text: String)
        ensures
            text@ == self.text(),
    {
        match self {
            BookmarkError::Reference(error) => error.message(),
            BookmarkError::Duplicate { path } => String::from_str(
                "Configuration is likely duplicated: ",
            ).concat(path.as_str()),
            BookmarkError::IndexOutOfBounds { index } => String::from_str(
                "Index out of bounds: ",
            ).concat(decimal_of(*index).as_str()),
            BookmarkError::PathNotFound { path } => String::from_str(
                "Configuration path not found: ",
            ).concat(path.as_str()),
        }
    }
}

/// A collection of references to chains, kept in a file.
#[derive(Debug)]
pub struct Bookmark {
    chain_references: Vec<ChainReference>,
    bookmark_path: String,
}

/// A bookmark as plain data: the paths of its chains, and its own.
pub ghost struct BookmarkModel {
    pub paths: Seq<Seq<char>>,
    pub bookmark_path: Seq<char>,
}

/// The paths of a list of references.
pub open spec fn paths_of(references: Seq<ChainReference>) -> Seq<Seq<char>> {
    references.map_values(|reference: ChainReference| reference.chain_path@)
}

impl View for Bookmark {
    type V = BookmarkModel;

    closed spec fn view(&self) -> BookmarkModel {
        BookmarkModel {
            paths: paths_of(self.chain_references@),
            bookmark_path: self.bookmark_path@,
        }
    }
}

/// The position of the first of `paths` that equals `path`, looking
/// from `from` on; the number of paths where there is none.
pub open spec fn position_of(paths: Seq<Seq<char>>, path: Seq<char>, from: int) -> int
    decreases paths.len() - from,
{
    if from < 0 || from >= paths.len() {
        paths.len() as int
    } else if paths[from] == path {
        from
    } else {
        position_of(paths, path, from + 1)
    }
}

/// Those of the first `n` paths at which nothing is found, in order.
pub open spec fn invalid(paths: Seq<Seq<char>>, exists: Seq<bool>, n: nat) -> Seq<Seq<char>>
    decreases n,
{
    if n == 0 {
        Seq::empty()
    } else {
        let before = invalid(paths, exists, (n - 1) as nat);
        if exists[n - 1] {
            before
        } else {
            before.push(paths[n - 1])
        }
    }
}

/// The lower-case forms of a list of words.
pub open spec fn lowered(words: Seq<Seq<char>>) -> Seq<Seq<char>> {
    words.map_values(|word: Seq<char>| lowercase(word))
}

/// The words by which the chain at a path is found: the pieces of its
/// shown name between spaces, in lower case.
pub open spec fn name_words(path: Seq<char>) -> Seq<Seq<char>> {
    lowered(pieces(shown_name(path), ' '))
}

/// How many of the first `n` keywords are not empty and among `words`.
pub open spec fn hits(words: Seq<Seq<char>>, keywords: Seq<Seq<char>>, n: nat) -> nat
    decreases n,
{
    if n == 0 {
        0
    } else {
        let hit: nat = if keywords[n - 1].len() > 0 && words.contains(keywords[n - 1]) {
            1
        } else {
            0
        };
        hits(words, keywords, (n - 1) as nat) + hit
    }
}

/// How well the chain at a path answers to keywords: the number of
/// keywords that, in lower case, are words of its name.
pub open spec fn score(path: Seq<char>, keywords: Seq<Seq<char>>) -> nat {
    hits(name_words(path), lowered(keywords), keywords.len())
}

/// The positions, among the first `n` paths, of those with score `s`.
pub open spec fn scored(paths: Seq<Seq<char>>, keywords: Seq<Seq<char>>, s: nat, n: nat) -> Seq<
    int,
>
    decreases n,
{
    if n == 0 {
        Seq::empty()
    } else {
        let before = scored(paths, keywords, s, (n - 1) as nat);
        if score(paths[n - 1], keywords) == s {
            before.push(n - 1)
        } else {
            before
        }
    }
}

/// The positions of the paths with a score of `low` or more: those of
/// a higher score before those of a lower, and those of one score in
/// the order of the bookmark.
pub open spec fn ranked_from(paths: Seq<Seq<char>>, keywords: Seq<Seq<char>>, low: nat) -> Seq<int>
    decreases keywords.len() + 1 - low,
{
    if low > keywords.len() {
        Seq::empty()
    } else {
        ranked_from(paths, keywords, low + 1) + scored(paths, keywords, low, paths.len())
    }
}

/// The positions of the chains that answer to at least one keyword,
/// best first.
pub open spec fn ranked(paths: Seq<Seq<char>>, keywords: Seq<Seq<char>>) -> Seq<int> {
    ranked_from(paths, keywords, 1)
}

/// The paths that a list of references points to.
pub open spec fn referenced_paths(references: Seq<&ChainReference>) -> Seq<Seq<char>> {
    references.map_values(|reference: &ChainReference| reference.chain_path@)
}

/// The paths at the given positions.
pub open spec fn picked(paths: Seq<Seq<char>>, positions: Seq<int>) -> Seq<Seq<char>> {
    positions.map_values(|position: int| paths[position])
}

/// A score never exceeds the number of keywords, so the ranking leaves
/// out no chain that answers to a keyword.
pub proof fn lemma_hits_bounded(words: Seq<Seq<char>>, keywords: Seq<Seq<char>>, n: nat)
    ensures
        hits(words, keywords, n) <= n,
    decreases n,
{
    if n > 0 {
        lemma_hits_bounded(words, keywords, (n - 1) as nat);
    }
}

/// Turns each word into lower case.
pub fn lower_all(words: &Vec<String>) -> (lower: Vec<String>)
    ensures
        texts(lower@) == lowered(texts(words@)),
{
    let mut lower: Vec<String> = Vec::new();
    let mut i: usize = 0;
    while i < words.len()
        invariant
            i <= words.len(),
            lower.len() == i,
            forall|j: int| 0 <= j < i ==> (#[trigger] lower[j])@ == lowercase(words[j]@),
        decreases words.len() - i,
    {
        lower.push(words[i].as_str().to_lowercase());
        i += 1;
    }
    assert(texts(lower@) =~= lowered(texts(words@)));
    lower
}

/// Tells whether `word` is among `words`.
pub fn holds(words: &Vec<String>, word: &str) -> (found: bool)
    ensures
        found == texts(words@).contains(word@),
{
    let mut i: usize = 0;
    while i < words.len()
        invariant
            i <= words.len(),
            forall|j: int| 0 <= j < i ==> (#[trigger] texts(words@)[j]) != word@,
        decreases words.len() - i,
    {
        if same(words[i].as_str(), word) {
            assert(texts(words@)[i as int] == word@);
            return true;
        }
        i += 1;
    }
    false
}

/// Counts the keywords that are not empty and among `words`.
pub fn count_hits(words: &Vec<String>, keywords: &Vec<String>) -> (count: usize)
    ensures
        count == hits(texts(words@), texts(keywords@), keywords.len() as nat),
{
    let mut count: usize = 0;
    let mut i: usize = 0;
    while i < keywords.len()
        invariant
            i <= keywords.len(),
            count == hits(texts(words@), texts(keywords@), i as nat),
            count <= i,
        decreases keywords.len() - i,
    {
        if keywords[i].as_str().unicode_len() > 0 && holds(words, keywords[i].as_str()) {
            count += 1;
        }
        i += 1;
    }
    count
}

impl Bookmark {
    /// An empty bookmark that is kept at `bookmark_path`.
    pub fn new(bookmark_path: String) -> (bookmark: Self)
        ensures
            bookmark@ == (BookmarkModel { paths: Seq::empty(), bookmark_path: bookmark_path@ }),
    {
        let bookmark = Bookmark { chain_references: Vec::new(), bookmark_path };
        assert(bookmark@.paths =~= Seq::empty());
        bookmark
    }

    /// A bookmark of these references that is kept at `bookmark_path`.
    pub fn from_references(chain_references: Vec<ChainReference>, bookmark_path: String) -> (bookmark:
        Self)
        ensures
            bookmark@ == (BookmarkModel {
                paths: paths_of(chain_references@),
                bookmark_path: bookmark_path@,
            }),
    {
        Bookmark { chain_references, bookmark_path }
    }

    /// The path of the file that keeps the bookmark.
    pub fn get_bookmark_path(&self) -> (path: &str)
        ensures
            path@ == self@.bookmark_path,
    {
        self.bookmark_path.as_str()
    }

    /// Adds the chain at a path, given what is found there. A path
    /// that gives no reference is refused, and so is one that the
    /// bookmark holds already.
    pub fn add_chain_reference(&mut self, configuration_path: String, exists: bool, is_file: bool) -> (added:
        Result<(), BookmarkError>)
        ensures
            final(self)@.bookmark_path == old(self)@.bookmark_path,
            match added {
                Ok(_) => {
                    &&& allows_reference(configuration_path@, exists, is_file)
                    &&& !old(self)@.paths.contains(configuration_path@)
                    &&& final(self)@.paths == old(self)@.paths.push(configuration_path@)
                },
                Err(error) => {
                    &&& final(self)@.paths == old(self)@.paths
                    &&& match error {
                        BookmarkError::Reference(ReferenceError::DoesNotExist { path }) => !exists
                            && path@ == configuration_path@,
                        BookmarkError::Reference(ReferenceError::WrongNaming { path }) => exists
                            && !allows_reference(
                            configuration_path@,
                            exists,
                            is_file,
                        ) && path@ == configuration_path@,
                        BookmarkError::Duplicate { path } => allows_reference(
                            configuration_path@,
                            exists,
                            is_file,
                        ) && old(self)@.paths.contains(configuration_path@) && path@
                            == configuration_path@,
                        _ => false,
                    }
                },
            },
    {
        let reference = match ChainReference::from_probe(
            configuration_path.as_str(),
            exists,
            is_file,
        ) {
            Ok(reference) => reference,
            Err(error) => {
                return Err(BookmarkError::Reference(error));
            },
        };
        let position = self.position(configuration_path.as_str(), 0);
        proof {
            lemma_position_of(self@.paths, configuration_path@, 0);
        }
        if position < self.chain_references.len() {
            Err(BookmarkError::Duplicate { path: configuration_path })
        } else {
            self.chain_references.push(reference);
            assert(self@.paths =~= old(self)@.paths.push(configuration_path@));
            Ok(())
        }
    }

    /// The position of the first chain at `path`, looking from `from` on.
    fn position(&self, path: &str, from: usize) -> (position: usize)
        ensures
            position == position_of(self@.paths, path@, from as int),
            from <= self.chain_references.len() ==> from <= position
                <= self.chain_references.len(),
        decreases self.chain_references.len() - from,
    {
        if from >= self.chain_references.len() {
            self.chain_references.len()
        } else if same(self.chain_references[from].chain_path.as_str(), path) {
            from
        } else {
            self.position(path, from + 1)
        }
    }

    /// Removes the chain at a position. A position beyond the last
    /// chain is refused.
    pub fn remove_chain_reference_by_index(&mut self, index: usize) -> (removed: Result<
        (),
        BookmarkError,
    >)
        ensures
            final(self)@.bookmark_path == old(self)@.bookmark_path,
            match removed {
                Ok(_) => index < old(self)@.paths.len() && final(self)@.paths == old(
                    self,
                )@.paths.remove(index as int),
                Err(error) => {
                    &&& index >= old(self)@.paths.len()
                    &&& final(self)@ == old(self)@
                    &&& error matches BookmarkError::IndexOutOfBounds { index: refused } && refused
                        == index
                },
            },
    {
        if index < self.chain_references.len() {
            self.chain_references.remove(index);
            assert(self@.paths =~= old(self)@.paths.remove(index as int));
            Ok(())
        } else {
            Err(BookmarkError::IndexOutOfBounds { index })
        }
    }

    /// Removes the first chain at a path. A path that the bookmark
    /// does not hold is refused.
    pub fn remove_chain_reference_by_path(&mut self, configuration_path: &str) -> (removed: Result<
        (),
        BookmarkError,
    >)
        ensures
            final(self)@.bookmark_path == old(self)@.bookmark_path,
            match removed {
                Ok(_) => {
                    let position = position_of(old(self)@.paths, configuration_path@, 0);
                    &&& position < old(self)@.paths.len()
                    &&& final(self)@.paths == old(self)@.paths.remove(position)
                },
                Err(error) => {
                    &&& !old(self)@.paths.contains(configuration_path@)
                    &&& final(self)@ == old(self)@
                    &&& error matches BookmarkError::PathNotFound { path } && path@
                        == configuration_path@
                },
            },
    {
        let position = self.position(configuration_path, 0);
        proof {
            lemma_position_of(self@.paths, configuration_path@, 0);
        }
        if position < self.chain_references.len() {
            self.chain_references.remove(position);
            assert(self@.paths =~= old(self)@.paths.remove(position as int));
            Ok(())
        } else {
            Err(BookmarkError::PathNotFound { path: String::from_str(configuration_path) })
        }
    }

    /// The paths of the chains that are no longer where they were, given
    /// for each chain whether something is found at its path.
    pub fn get_invalid_paths(&self, exists: &Vec<bool>) -> (paths: Vec<String>)
        requires
            exists.len() == self@.paths.len(),
        ensures
            texts(paths@) == invalid(self@.paths, exists@, exists.len() as nat),
    {
        let mut paths: Vec<String> = Vec::new();
        let mut i: usize = 0;
        assert(texts(paths@) =~= Seq::<Seq<char>>::empty());
        while i < self.chain_references.len()
            invariant
                i <= self.chain_references.len(),
                exists.len() == self.chain_references.len(),
                texts(paths@) == invalid(self@.paths, exists@, i as nat),
            decreases self.chain_references.len() - i,
        {
            let ghost before = texts(paths@);
            if !exists[i] {
                paths.push(self.chain_references[i].get_chain_path_string());
                assert(texts(paths@) =~= before.push(self@.paths[i as int]));
            }
            i += 1;
        }
        paths
    }

    /// The references, in the order in which they were added.
    pub fn get_chain_references(&self) -> (references: &Vec<ChainReference>)
        ensures
            paths_of(references@) == self@.paths,
    {
        &self.chain_references
    }

    /// The reference at a position, if there is one.
    pub fn get_chain_reference_by_index(&self, index: usize) -> (reference: Option<&ChainReference>)
        ensures
            match reference {
                Some(found) => index < self@.paths.len() && found.chain_path@
                    == self@.paths[index as int],
                None => index >= self@.paths.len(),
            },
    {
        if index < self.chain_references.len() {
            Some(&self.chain_references[index])
        } else {
            None
        }
    }

    /// The score of each chain for keywords that are in lower case.
    fn scores(&self, keywords: &Vec<String>, lower: &Vec<String>) -> (scores: Vec<usize>)
        requires
            texts(lower@) == lowered(texts(keywords@)),
        ensures
            scores.len() == self.chain_references.len(),
            forall|i: int|
                0 <= i < scores.len() ==> (#[trigger] scores[i]) == score(
                    self@.paths[i],
                    texts(keywords@),
                ),
    {
        let mut scores: Vec<usize> = Vec::new();
        let mut i: usize = 0;
        while i < self.chain_references.len()
            invariant
                i <= self.chain_references.len(),
                scores.len() == i,
                texts(lower@) == lowered(texts(keywords@)),
                forall|j: int|
                    0 <= j < i ==> (#[trigger] scores[j]) == score(
                        self@.paths[j],
                        texts(keywords@),
                    ),
            decreases self.chain_references.len() - i,
        {
            let name = self.chain_references[i].get_human_readable_name();
            let parts = split_pieces(&chars_of(name.as_str()), ' ');
            let mut words: Vec<String> = Vec::new();
            let mut k: usize = 0;
            while k < parts.len()
                invariant
                    k <= parts.len(),
                    words.len() == k,
                    forall|j: int| 0 <= j < k ==> (#[trigger] words[j])@ == lowercase(parts[j]@),
                decreases parts.len() - k,
            {
                words.push(string_of(&parts[k]).as_str().to_lowercase());
                k += 1;
            }
            assert(texts(words@) =~= lowered(char_texts(parts@)));
            assert(texts(keywords@).len() == keywords.len());
            assert(lowered(texts(keywords@)).len() == keywords.len());
            scores.push(count_hits(&words, lower));
            i += 1;
        }
        scores
    }

    /// The positions of the chains that answer to keywords, best first.
    pub fn rank_by_keywords(&self, keywords: &Vec<String>) -> (order: Vec<usize>)
        ensures
            order.len() == ranked(self@.paths, texts(keywords@)).len(),
            forall|i: int|
                0 <= i < order.len() ==> (#[trigger] order[i]) == ranked(
                    self@.paths,
                    texts(keywords@),
                )[i] && order[i] < self@.paths.len(),
    {
        let lower = lower_all(keywords);
        let scores = self.scores(keywords, &lower);
        let ghost paths = self@.paths;
        let ghost words = texts(keywords@);
        let mut order: Vec<usize> = Vec::new();
        let mut s: usize = keywords.len();
        assert(words.len() == keywords.len());
        assert(paths.len() == self.chain_references.len());
        while s > 0
            invariant
                s <= keywords.len(),
                paths == self@.paths,
                paths.len() == self.chain_references.len(),
                words == texts(keywords@),
                words.len() == keywords.len(),
                scores.len() == self.chain_references.len(),
                forall|i: int|
                    0 <= i < scores.len() ==> (#[trigger] scores[i]) == score(paths[i], words),
                order.len() == ranked_from(paths, words, (s + 1) as nat).len(),
                forall|i: int|
                    0 <= i < order.len() ==> (#[trigger] order[i]) == ranked_from(
                        paths,
                        words,
                        (s + 1) as nat,
                    )[i] && order[i] < paths.len(),
            decreases s,
        {
            let ghost above = ranked_from(paths, words, (s + 1) as nat);
            let mut i: usize = 0;
            assert(above + scored(paths, words, s as nat, 0) =~= above);
            while i < self.chain_references.len()
                invariant
                    1 <= s <= keywords.len(),
                    i <= self.chain_references.len(),
                    paths.len() == self.chain_references.len(),
                    scores.len() == self.chain_references.len(),
                    forall|j: int|
                        0 <= j < scores.len() ==> (#[trigger] scores[j]) == score(paths[j], words),
                    order.len() == (above + scored(paths, words, s as nat, i as nat)).len(),
                    forall|j: int|
                        0 <= j < order.len() ==> (#[trigger] order[j]) == (above + scored(
                            paths,
                            words,
                            s as nat,
                            i as nat,
                        ))[j] && order[j] < paths.len(),
                decreases self.chain_references.len() - i,
            {
                let ghost so_far = above + scored(paths, words, s as nat, i as nat);
                if scores[i] == s {
                    order.push(i);
                    assert(above + scored(paths, words, s as nat, (i + 1) as nat) =~= so_far.push(
                        i as int,
                    ));
                } else {
                    assert(above + scored(paths, words, s as nat, (i + 1) as nat) =~= so_far);
                }
                i += 1;
            }
            assert(ranked_from(paths, words, s as nat) == above + scored(
                paths,
                words,
                s as nat,
                paths.len(),
            ));
            s -= 1;
        }
        order
    }

    /// The chains that answer to keywords, best first: a chain answers
    /// to a keyword that, in lower case, is a word of its name.
    pub fn get_chains_by_keywords(&self, keywords: Vec<String>) -> (found: Option<
        Vec<&ChainReference>,
    >)
        ensures
            match found {
                Some(chains) => referenced_paths(chains@) == picked(
                    self@.paths,
                    ranked(self@.paths, texts(keywords@)),
                ),
                None => false,
            },
    {
        let order = self.rank_by_keywords(&keywords);
        let mut chains: Vec<&ChainReference> = Vec::new();
        let mut k: usize = 0;
        assert(self@.paths.len() == self.chain_references.len());
        while k < order.len()
            invariant
                k <= order.len(),
                chains.len() == k,
                self@.paths.len() == self.chain_references.len(),
                order.len() == ranked(self@.paths, texts(keywords@)).len(),
                forall|i: int|
                    0 <= i < order.len() ==> (#[trigger] order[i]) == ranked(
                        self@.paths,
                        texts(keywords@),
                    )[i] && order[i] < self@.paths.len(),
                forall|i: int|
                    0 <= i < k ==> (#[trigger] chains[i]).chain_path@ == self@.paths[order[i] as int],
            decreases order.len() - k,
        {
            chains.push(&self.chain_references[order[k]]);
            k += 1;
        }
        assert(referenced_paths(chains@) =~= picked(
            self@.paths,
            ranked(self@.paths, texts(keywords@)),
        ));
        Some(chains)
    }
}

/// The first position of a path is the first at which it stands.
pub proof fn lemma_position_of(paths: Seq<Seq<char>>, path: Seq<char>, from: int)
    requires
        0 <= from <= paths.len(),
    ensures
        from <= position_of(paths, path, from) <= paths.len(),
        position_of(paths, path, from) < paths.len() ==> paths[position_of(paths, path, from)]
            == path,
        forall|i: int| from <= i < position_of(paths, path, from) ==> paths[i] != path,
        from == 0 ==> (position_of(paths, path, 0) < paths.len() <==> paths.contains(path)),
    decreases paths.len() - from,
{
    if from < paths.len() && paths[from] != path {
        lemma_position_of(paths, path, from + 1);
    }
    if from == 0 {
        if paths.contains(path) {
            let i = choose|i: int| 0 <= i < paths.len() && paths[i] == path;
            if position_of(paths, path, 0) >= paths.len() {
                assert(paths[i] != path);
            }
        }
    }
}

} // verus!
