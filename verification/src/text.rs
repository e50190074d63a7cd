use vstd::prelude::*;
use vstd::std_specs::iter::IteratorSpec;
use vstd::string::StringExecFns;

verus! {

/// `String::push` appends one character to the end of the string.
pub assume_specification[ String::push ](s: &mut String, c: char)
    ensures
        final(s)@ == old(s)@.push(c),
;

/// Whether `c` is white space in the sense of `char::is_whitespace`.
pub uninterp spec fn is_space(c: char) -> bool;

/// `char::is_whitespace` tells whether a character has the Unicode
/// property `White_Space`; the answer depends on the character alone.
pub assume_specification[ char::is_whitespace ](c: char) -> (b: bool)
    ensures
        b == is_space(c),
;

/// The lower-case form that `str::to_lowercase` gives to a text.
pub uninterp spec fn lowercase(s: Seq<char>) -> Seq<char>;

/// `str::to_lowercase` returns the lower-case equivalent of the text as
/// a new string; the result depends on the text alone.
pub assume_specification[ str::to_lowercase ](s: &str) -> (lower: String)
    ensures
        lower@ == lowercase(s@),
;

/// The characters that `char::to_uppercase` yields for a character.
pub uninterp spec fn uppercase(c: char) -> Seq<char>;

/// Collects what `char::to_uppercase` yields: the upper-case mapping of
/// `c`, one or more characters that depend on `c` alone.
#[verifier::external_body]
pub(crate) fn uppercase_chars(c: char) -> (upper: Vec<char>)
    ensures
        upper@ == uppercase(c),
{
    c.to_uppercase().collect()
}

/// The texts of a list of strings.
pub open spec fn texts(v: Seq<String>) -> Seq<Seq<char>> {
    v.map_values(|s: String| s@)
}

/// Whether `pat` stands in `s` at position `i`.
pub open spec fn matches_at(s: Seq<char>, pat: Seq<char>, i: int) -> bool {
    &&& 0 <= i
    &&& i + pat.len() <= s.len()
    &&& s.subrange(i, i + pat.len()) == pat
}

/// Whether `pat` stands somewhere in `s`.
pub open spec fn occurs(s: Seq<char>, pat: Seq<char>) -> bool {
    exists|i: int| matches_at(s, pat, i)
}

/// `to`, then each character of `s` followed by `to`.
pub open spec fn interleave(s: Seq<char>, to: Seq<char>) -> Seq<char>
    decreases s.len(),
{
    if s.len() == 0 {
        to
    } else {
        to + seq![s[0]] + interleave(s.skip(1), to)
    }
}

/// `s` with every occurrence of `pat` replaced by `to`, scanning from
/// the left and never looking again at what was already replaced. An
/// empty `pat` matches before every character and at the end.
pub open spec fn replace_all(s: Seq<char>, pat: Seq<char>, to: Seq<char>) -> Seq<char>
    decreases s.len(),
{
    if pat.len() == 0 {
        interleave(s, to)
    } else if s.len() < pat.len() {
        s
    } else if matches_at(s, pat, 0) {
        to + replace_all(s.skip(pat.len() as int), pat, to)
    } else {
        seq![s[0]] + replace_all(s.skip(1), pat, to)
    }
}

/// The characters of `s`, in order.
pub fn chars_of(s: &str) -> (v: Vec<char>)
    ensures
        v@ == s@,
{
    let mut v: Vec<char> = Vec::new();
    for c in it: s.chars()
        invariant
            it.seq() == s@,
            v@ == it.seq().take(it.index() as int),
    {
        v.push(c);
    }
    v
}

/// The string whose characters are `v`, in order.
pub fn string_of(v: &Vec<char>) -> (s: String)
    ensures
        s@ == v@,
{
    let mut s = String::new();
    let mut i: usize = 0;
    while i < v.len()
        invariant
            i <= v.len(),
            s@ == v@.take(i as int),
        decreases v.len() - i,
    {
        s.push(v[i]);
        i += 1;
    }
    s
}

/// Tells whether `pat` stands in `s` at position `i`.
pub fn starts_at(s: &Vec<char>, pat: &Vec<char>, i: usize) -> (b: bool)
    ensures
        b == matches_at(s@, pat@, i as int),
{
    if i > s.len() || pat.len() > s.len() - i {
        return false;
    }
    let mut k: usize = 0;
    while k < pat.len()
        invariant
            k <= pat.len(),
            i + pat.len() <= s.len(),
            forall|j: int| 0 <= j < k ==> s@[i + j] == pat@[j],
        decreases pat.len() - k,
    {
        if s[i + k] != pat[k] {
            assert(s@.subrange(i as int, i + pat.len())[k as int] == s@[i + k]);
            return false;
        }
        k += 1;
    }
    assert(s@.subrange(i as int, i + pat.len()) =~= pat@);
    true
}

/// Tells whether `pat` stands somewhere in `s`.
pub fn contains(s: &Vec<char>, pat: &Vec<char>) -> (b: bool)
    ensures
        b == occurs(s@, pat@),
{
    let mut i: usize = 0;
    while i < s.len()
        invariant
            i <= s.len(),
            forall|j: int| 0 <= j < i ==> !matches_at(s@, pat@, j),
        decreases s.len() - i,
    {
        if starts_at(s, pat, i) {
            return true;
        }
        i += 1;
    }
    if starts_at(s, pat, i) {
        return true;
    }
    false
}

/// `s` without the copies of `p` it begins with.
pub open spec fn without_prefixes(s: Seq<char>, p: Seq<char>) -> Seq<char>
    decreases s.len(),
{
    if p.len() > 0 && matches_at(s, p, 0) {
        without_prefixes(s.skip(p.len() as int), p)
    } else {
        s
    }
}

/// `s` without the copies of `p` it ends with.
pub open spec fn without_suffixes(s: Seq<char>, p: Seq<char>) -> Seq<char>
    decreases s.len(),
{
    if p.len() > 0 && matches_at(s, p, s.len() - p.len()) {
        without_suffixes(s.take(s.len() - p.len()), p)
    } else {
        s
    }
}

/// `s` without the white space it begins with.
pub open spec fn trim_start(s: Seq<char>) -> Seq<char>
    decreases s.len(),
{
    if s.len() > 0 && is_space(s[0]) {
        trim_start(s.skip(1))
    } else {
        s
    }
}

/// `s` without the white space it ends with.
pub open spec fn trim_end(s: Seq<char>) -> Seq<char>
    decreases s.len(),
{
    if s.len() > 0 && is_space(s.last()) {
        trim_end(s.drop_last())
    } else {
        s
    }
}

/// `s` without the white space around it.
pub open spec fn trim(s: Seq<char>) -> Seq<char> {
    trim_end(trim_start(s))
}

/// The position of the last `c` in `s`, or -1 where there is none.
pub open spec fn last_index_of(s: Seq<char>, c: char) -> int
    decreases s.len(),
{
    if s.len() == 0 {
        -1
    } else if s.last() == c {
        s.len() - 1
    } else {
        last_index_of(s.drop_last(), c)
    }
}

/// Copies `s[from..to]`.
pub fn slice(s: &Vec<char>, from: usize, to: usize) -> (r: Vec<char>)
    requires
        from <= to <= s.len(),
    ensures
        r@ == s@.subrange(from as int, to as int),
{
    let mut r: Vec<char> = Vec::new();
    let mut i: usize = from;
    while i < to
        invariant
            from <= i <= to <= s.len(),
            r@ == s@.subrange(from as int, i as int),
        decreases to - i,
    {
        r.push(s[i]);
        assert(s@.subrange(from as int, i + 1) =~= s@.subrange(from as int, i as int).push(
            s@[i as int],
        ));
        i += 1;
    }
    assert(s@.subrange(from as int, from as int) =~= Seq::<char>::empty());
    r
}

/// Removes every leading copy of `p`.
pub fn strip_prefixes(s: &Vec<char>, p: &Vec<char>) -> (r: Vec<char>)
    ensures
        r@ == without_prefixes(s@, p@),
{
    let mut i: usize = 0;
    assert(s@.skip(0) =~= s@);
    if p.len() > 0 {
        while starts_at(s, p, i)
            invariant
                p.len() > 0,
                i <= s.len(),
                without_prefixes(s@, p@) == without_prefixes(s@.skip(i as int), p@),
            decreases s.len() - i,
        {
            assert(s@.skip(i as int).subrange(0, p.len() as int) =~= s@.subrange(
                i as int,
                i + p.len(),
            ));
            assert(s@.skip(i as int).skip(p.len() as int) =~= s@.skip(i + p.len()));
            i += p.len();
        }
        proof {
            if i + p.len() <= s.len() {
                assert(s@.skip(i as int).subrange(0, p.len() as int) =~= s@.subrange(
                    i as int,
                    i + p.len(),
                ));
            }
        }
    }
    assert(s@.skip(i as int) =~= s@.subrange(i as int, s.len() as int));
    slice(s, i, s.len())
}

/// Removes every trailing copy of `p`.
pub fn strip_suffixes(s: &Vec<char>, p: &Vec<char>) -> (r: Vec<char>)
    ensures
        r@ == without_suffixes(s@, p@),
{
    let mut n: usize = s.len();
    assert(s@.take(s.len() as int) =~= s@);
    if p.len() > 0 {
        while n >= p.len() && starts_at(s, p, n - p.len())
            invariant
                p.len() > 0,
                n <= s.len(),
                without_suffixes(s@, p@) == without_suffixes(s@.take(n as int), p@),
            decreases n,
        {
            assert(s@.take(n as int).subrange(n - p.len(), n as int) =~= s@.subrange(
                n - p.len(),
                n as int,
            ));
            assert(s@.take(n as int).take(n - p.len()) =~= s@.take(n - p.len()));
            n -= p.len();
        }
        proof {
            if n >= p.len() {
                assert(s@.take(n as int).subrange(n - p.len(), n as int) =~= s@.subrange(
                    n - p.len(),
                    n as int,
                ));
            }
        }
    }
    assert(s@.take(n as int) =~= s@.subrange(0, n as int));
    slice(s, 0, n)
}

/// Removes the white space around `s`.
pub fn trim_chars(s: &Vec<char>) -> (r: Vec<char>)
    ensures
        r@ == trim(s@),
{
    let mut i: usize = 0;
    assert(s@.skip(0) =~= s@);
    while i < s.len() && s[i].is_whitespace()
        invariant
            i <= s.len(),
            trim_start(s@) == trim_start(s@.skip(i as int)),
        decreases s.len() - i,
    {
        assert(s@.skip(i as int).skip(1) =~= s@.skip(i + 1));
        i += 1;
    }
    let ghost rest = s@.skip(i as int);
    assert(trim_start(s@) == rest);
    let mut n: usize = s.len();
    assert(rest.take(s.len() - i) =~= rest);
    while n > i && s[n - 1].is_whitespace()
        invariant
            i <= n <= s.len(),
            rest == s@.skip(i as int),
            trim_end(rest) == trim_end(rest.take(n - i)),
        decreases n,
    {
        assert(rest.take(n - i).drop_last() =~= rest.take(n - 1 - i));
        n -= 1;
    }
    assert(rest.take(n - i) =~= s@.subrange(i as int, n as int));
    slice(s, i, n)
}

/// Finds the last `c` in `s`.
pub fn rfind(s: &Vec<char>, c: char) -> (r: Option<usize>)
    ensures
        match r {
            Some(k) => k == last_index_of(s@, c) && k < s.len() && s@[k as int] == c,
            None => last_index_of(s@, c) == -1,
        },
{
    let mut n: usize = s.len();
    assert(s@.take(s.len() as int) =~= s@);
    while n > 0
        invariant
            n <= s.len(),
            last_index_of(s@, c) == last_index_of(s@.take(n as int), c),
        decreases n,
    {
        if s[n - 1] == c {
            return Some(n - 1);
        }
        assert(s@.take(n as int).drop_last() =~= s@.take(n - 1));
        n -= 1;
    }
    None
}

/// `s` without one leading and one trailing line feed, where it has them.
pub open spec fn without_newline(s: Seq<char>) -> Seq<char> {
    let t = if s.len() > 0 && s[0] == '\n' {
        s.skip(1)
    } else {
        s
    };
    if t.len() > 0 && t.last() == '\n' {
        t.drop_last()
    } else {
        t
    }
}

/// Replacing a pattern that does not occur changes nothing.
pub proof fn lemma_replace_absent(s: Seq<char>, pat: Seq<char>, to: Seq<char>)
    requires
        pat.len() > 0,
        !occurs(s, pat),
    ensures
        replace_all(s, pat, to) == s,
    decreases s.len(),
{
    if s.len() >= pat.len() {
        assert(!matches_at(s, pat, 0));
        assert forall|j: int| !matches_at(s.skip(1), pat, j) by {
            if matches_at(s.skip(1), pat, j) {
                assert(s.skip(1).subrange(j, j + pat.len()) =~= s.subrange(j + 1, j + 1 + pat.len()));
                assert(matches_at(s, pat, j + 1));
            }
        }
        lemma_replace_absent(s.skip(1), pat, to);
        assert(seq![s[0]] + s.skip(1) =~= s);
    }
}

/// Replaces every occurrence of `pat` in `s` by `to`.
pub fn replace_chars(s: &Vec<char>, pat: &Vec<char>, to: &Vec<char>) -> (r: Vec<char>)
    ensures
        r@ == replace_all(s@, pat@, to@),
{
    let mut out: Vec<char> = Vec::new();
    let mut i: usize = 0;
    assert(s@.skip(0) =~= s@);
    if pat.len() == 0 {
        while i < s.len()
            invariant
                i <= s.len(),
                pat.len() == 0,
                out@ + interleave(s@.skip(i as int), to@) == interleave(s@, to@),
            decreases s.len() - i,
        {
            let ghost before = out@;
            out.extend_from_slice(to.as_slice());
            out.push(s[i]);
            assert(s@.skip(i as int).skip(1) =~= s@.skip(i + 1));
            assert(out@ + interleave(s@.skip(i + 1), to@) =~= before + interleave(
                s@.skip(i as int),
                to@,
            ));
            i += 1;
        }
        out.extend_from_slice(to.as_slice());
        return out;
    }
    while i < s.len()
        invariant
            i <= s.len(),
            pat.len() > 0,
            out@ + replace_all(s@.skip(i as int), pat@, to@) == replace_all(s@, pat@, to@),
        decreases s.len() - i,
    {
        let ghost before = out@;
        let ghost rest = s@.skip(i as int);
        proof {
            if s.len() - i >= pat.len() {
                assert(rest.subrange(0, pat.len() as int) =~= s@.subrange(
                    i as int,
                    i + pat.len(),
                ));
            }
        }
        if starts_at(s, pat, i) {
            out.extend_from_slice(to.as_slice());
            assert(rest.skip(pat.len() as int) =~= s@.skip(i + pat.len()));
            assert(out@ + replace_all(s@.skip(i + pat.len()), pat@, to@) =~= before
                + replace_all(rest, pat@, to@));
            i += pat.len();
        } else {
            out.push(s[i]);
            assert(rest.skip(1) =~= s@.skip(i + 1));
            proof {
                if s.len() - i < pat.len() {
                    assert forall|j: int| !matches_at(rest.skip(1), pat@, j) by {}
                    lemma_replace_absent(rest.skip(1), pat@, to@);
                    assert(seq![rest[0]] + rest.skip(1) =~= rest);
                }
            }
            assert(out@ + replace_all(s@.skip(i + 1), pat@, to@) =~= before + replace_all(
                rest,
                pat@,
                to@,
            ));
            i += 1;
        }
    }
    assert(out@ + Seq::<char>::empty() =~= out@);
    out
}

/// Removes one leading and one trailing line feed.
pub fn trim_newline(s: &Vec<char>) -> (r: Vec<char>)
    ensures
        r@ == without_newline(s@),
{
    let mut from: usize = 0;
    let mut to: usize = s.len();
    if to > 0 && s[0] == '\n' {
        from = 1;
    }
    assert(s@.skip(from as int) =~= s@.subrange(from as int, s.len() as int));
    if to > from && s[to - 1] == '\n' {
        to = to - 1;
    }
    proof {
        if s.len() > from {
            assert(s@.skip(from as int).drop_last() =~= s@.subrange(from as int, s.len() - 1));
        }
        assert(s@.skip(0) =~= s@);
    }
    slice(s, from, to)
}

/// What takes the place of the character at `i` in a name shown to
/// people: a space for `_`, the upper-case mapping for the first
/// character of a word, else the character itself.
pub open spec fn display_piece(s: Seq<char>, i: int) -> Seq<char> {
    if s[i] == '_' {
        seq![' ']
    } else if i == 0 || s[i - 1] == '_' {
        uppercase(s[i])
    } else {
        seq![s[i]]
    }
}

/// The pieces for the first `n` characters of `s`, joined.
pub open spec fn display_prefix(s: Seq<char>, n: nat) -> Seq<char>
    decreases n,
{
    if n == 0 {
        Seq::empty()
    } else {
        display_prefix(s, (n - 1) as nat) + display_piece(s, n - 1)
    }
}

/// A name as shown to people: the words between `_` start with their
/// upper-case mapping and are joined by spaces.
pub open spec fn display_name(s: Seq<char>) -> Seq<char> {
    display_prefix(s, s.len())
}

/// Makes the name shown to people from a name with `_` between words.
pub fn display_name_of(s: &Vec<char>) -> (r: Vec<char>)
    ensures
        r@ == display_name(s@),
{
    let mut out: Vec<char> = Vec::new();
    let mut i: usize = 0;
    while i < s.len()
        invariant
            i <= s.len(),
            out@ == display_prefix(s@, i as nat),
        decreases s.len() - i,
    {
        if s[i] == '_' {
            out.push(' ');
            assert(out@ =~= display_prefix(s@, i as nat) + seq![' ']);
        } else if i == 0 || s[i - 1] == '_' {
            let upper = uppercase_chars(s[i]);
            out.extend_from_slice(upper.as_slice());
        } else {
            out.push(s[i]);
            assert(out@ =~= display_prefix(s@, i as nat) + seq![s@[i as int]]);
        }
        i += 1;
    }
    out
}

/// Tells whether two texts hold the same characters.
pub fn same(a: &str, b: &str) -> (r: bool)
    ensures
        r == (a@ == b@),
{
    let left = String::from_str(a);
    let right = String::from_str(b);
    left == right
}

/// The words of `s` that follow once `current` has been read: maximal
/// runs of characters that are not white space.
pub open spec fn words_from(s: Seq<char>, current: Seq<char>) -> Seq<Seq<char>>
    decreases s.len(),
{
    let finished = if current.len() == 0 {
        Seq::<Seq<char>>::empty()
    } else {
        seq![current]
    };
    if s.len() == 0 {
        finished
    } else if is_space(s[0]) {
        finished + words_from(s.skip(1), Seq::empty())
    } else {
        words_from(s.skip(1), current.push(s[0]))
    }
}

/// The words of `s`: its maximal runs of characters that are not white
/// space, in order.
pub open spec fn words(s: Seq<char>) -> Seq<Seq<char>> {
    words_from(s, Seq::empty())
}

/// The pieces of `s` between occurrences of `separator` that follow once
/// `current` has been read; a piece may be empty.
pub open spec fn pieces_from(s: Seq<char>, separator: char, current: Seq<char>) -> Seq<Seq<char>>
    decreases s.len(),
{
    if s.len() == 0 {
        seq![current]
    } else if s[0] == separator {
        seq![current] + pieces_from(s.skip(1), separator, Seq::empty())
    } else {
        pieces_from(s.skip(1), separator, current.push(s[0]))
    }
}

/// The pieces of `s` between occurrences of `separator`, in order: one
/// more than there are separators.
pub open spec fn pieces(s: Seq<char>, separator: char) -> Seq<Seq<char>> {
    pieces_from(s, separator, Seq::empty())
}

/// The views of a list of character vectors.
pub open spec fn char_texts(v: Seq<Vec<char>>) -> Seq<Seq<char>> {
    v.map_values(|w: Vec<char>| w@)
}

/// Splits `s` into its words.
pub fn split_words(s: &Vec<char>) -> (r: Vec<Vec<char>>)
    ensures
        char_texts(r@) == words(s@),
{
    let mut done: Vec<Vec<char>> = Vec::new();
    let mut current: Vec<char> = Vec::new();
    let mut i: usize = 0;
    assert(s@.skip(0) =~= s@);
    assert(char_texts(done@) + words_from(s@, current@) =~= words(s@));
    while i < s.len()
        invariant
            i <= s.len(),
            char_texts(done@) + words_from(s@.skip(i as int), current@) == words(s@),
        decreases s.len() - i,
    {
        let ghost before = char_texts(done@);
        let ghost word = current@;
        assert(s@.skip(i as int).skip(1) =~= s@.skip(i + 1));
        if s[i].is_whitespace() {
            if current.len() > 0 {
                done.push(current);
                current = Vec::new();
                assert(char_texts(done@) =~= before + seq![word]);
            }
            assert(current@ =~= Seq::<char>::empty());
            assert(s@.skip(i as int)[0] == s@[i as int]);
            assert(words_from(s@.skip(i as int), word) == (if word.len() == 0 {
                Seq::<Seq<char>>::empty()
            } else {
                seq![word]
            }) + words_from(s@.skip(i + 1), Seq::empty()));
            assert(char_texts(done@) + words_from(s@.skip(i + 1), current@) =~= before
                + words_from(s@.skip(i as int), word));
        } else {
            current.push(s[i]);
        }
        i += 1;
    }
    let ghost before = char_texts(done@);
    let ghost word = current@;
    if current.len() > 0 {
        done.push(current);
        assert(char_texts(done@) =~= before + seq![word]);
    }
    assert(char_texts(done@) =~= before + words_from(s@.skip(s.len() as int), word));
    done
}

/// Splits `s` at every `separator`.
pub fn split_pieces(s: &Vec<char>, separator: char) -> (r: Vec<Vec<char>>)
    ensures
        char_texts(r@) == pieces(s@, separator),
{
    let mut done: Vec<Vec<char>> = Vec::new();
    let mut current: Vec<char> = Vec::new();
    let mut i: usize = 0;
    assert(s@.skip(0) =~= s@);
    assert(char_texts(done@) + pieces_from(s@, separator, current@) =~= pieces(s@, separator));
    while i < s.len()
        invariant
            i <= s.len(),
            char_texts(done@) + pieces_from(s@.skip(i as int), separator, current@) == pieces(
                s@,
                separator,
            ),
        decreases s.len() - i,
    {
        let ghost before = char_texts(done@);
        let ghost piece = current@;
        assert(s@.skip(i as int).skip(1) =~= s@.skip(i + 1));
        if s[i] == separator {
            done.push(current);
            current = Vec::new();
            assert(char_texts(done@) =~= before + seq![piece]);
            assert(char_texts(done@) + pieces_from(s@.skip(i + 1), separator, current@) =~= before
                + pieces_from(s@.skip(i as int), separator, piece));
        } else {
            current.push(s[i]);
        }
        i += 1;
    }
    let ghost before = char_texts(done@);
    let ghost piece = current@;
    done.push(current);
    assert(char_texts(done@) =~= before + seq![piece]);
    done
}

/// The decimal digit for a number below ten.
pub open spec fn digit(d: int) -> char {
    if d == 0 {
        '0'
    } else if d == 1 {
        '1'
    } else if d == 2 {
        '2'
    } else if d == 3 {
        '3'
    } else if d == 4 {
        '4'
    } else if d == 5 {
        '5'
    } else if d == 6 {
        '6'
    } else if d == 7 {
        '7'
    } else if d == 8 {
        '8'
    } else {
        '9'
    }
}

/// A number in decimal digits, without leading zeros.
pub open spec fn decimal(n: nat) -> Seq<char>
    decreases n,
{
    if n < 10 {
        seq![digit(n as int)]
    } else {
        decimal(n / 10).push(digit((n % 10) as int))
    }
}

/// The digit for a number below ten.
pub fn digit_of(d: usize) -> (c: char)
    requires
        d < 10,
    ensures
        c == digit(d as int),
{
    if d == 0 {
        '0'
    } else if d == 1 {
        '1'
    } else if d == 2 {
        '2'
    } else if d == 3 {
        '3'
    } else if d == 4 {
        '4'
    } else if d == 5 {
        '5'
    } else if d == 6 {
        '6'
    } else if d == 7 {
        '7'
    } else if d == 8 {
        '8'
    } else {
        '9'
    }
}

/// Writes a number in decimal digits.
pub fn decimal_of(n: usize) -> (text: String)
    ensures
        text@ == decimal(n as nat),
    decreases n,
{
    if n < 10 {
        let mut text = String::new();
        text.push(digit_of(n));
        assert(text@ =~= seq![digit(n as int)]);
        text
    } else {
        let mut text = decimal_of(n / 10);
        text.push(digit_of(n % 10));
        text
    }
}

/// The value of a decimal digit; -1 for any other character.
pub open spec fn digit_value(c: char) -> int {
    if c == '0' {
        0
    } else if c == '1' {
        1
    } else if c == '2' {
        2
    } else if c == '3' {
        3
    } else if c == '4' {
        4
    } else if c == '5' {
        5
    } else if c == '6' {
        6
    } else if c == '7' {
        7
    } else if c == '8' {
        8
    } else if c == '9' {
        9
    } else {
        -1
    }
}

/// Whether a text consists of decimal digits only.
pub open spec fn all_digits(s: Seq<char>) -> bool {
    forall|i: int| 0 <= i < s.len() ==> digit_value(#[trigger] s[i]) >= 0
}

/// The number that a text of decimal digits stands for.
pub open spec fn digits_value(s: Seq<char>) -> nat
    decreases s.len(),
{
    if s.len() == 0 {
        0
    } else {
        (digits_value(s.drop_last()) * 10 + digit_value(s.last())) as nat
    }
}

/// The digits of a text that may start with a plus sign.
pub open spec fn unsigned_part(s: Seq<char>) -> Seq<char> {
    if s.len() > 0 && s[0] == '+' {
        s.skip(1)
    } else {
        s
    }
}

/// The number that a text stands for: one or more decimal digits, with
/// or without a plus sign before them, that stay within `usize`.
pub open spec fn index_in(s: Seq<char>) -> Option<usize> {
    let body = unsigned_part(s);
    if body.len() > 0 && all_digits(body) && digits_value(body) <= usize::MAX {
        Some(digits_value(body) as usize)
    } else {
        None
    }
}

/// The value of a decimal digit.
pub fn value_of_digit(c: char) -> (v: Option<usize>)
    ensures
        match v {
            Some(d) => d == digit_value(c) && d < 10,
            None => digit_value(c) == -1,
        },
{
    if c == '0' {
        Some(0)
    } else if c == '1' {
        Some(1)
    } else if c == '2' {
        Some(2)
    } else if c == '3' {
        Some(3)
    } else if c == '4' {
        Some(4)
    } else if c == '5' {
        Some(5)
    } else if c == '6' {
        Some(6)
    } else if c == '7' {
        Some(7)
    } else if c == '8' {
        Some(8)
    } else if c == '9' {
        Some(9)
    } else {
        None
    }
}

/// The value of a text of digits grows with every digit that is added.
pub proof fn lemma_digits_value_grows(s: Seq<char>, n: int)
    requires
        0 <= n <= s.len(),
        all_digits(s),
    ensures
        digits_value(s.take(n)) <= digits_value(s),
    decreases s.len() - n,
{
    if n < s.len() {
        lemma_digits_value_grows(s, n + 1);
        assert(s.take(n + 1).drop_last() =~= s.take(n));
        assert(digit_value(s[n]) >= 0);
    } else {
        assert(s.take(n) =~= s);
    }
}

/// Reads a number: one or more decimal digits, with or without a plus
/// sign before them. A number beyond `usize` is no number.
pub fn parse_index(s: &str) -> (index: Option<usize>)
    ensures
        index == index_in(s@),
{
    let chars = chars_of(s);
    let start: usize = if chars.len() > 0 && chars[0] == '+' {
        1
    } else {
        0
    };
    let ghost body = unsigned_part(chars@);
    assert(body =~= chars@.subrange(start as int, chars.len() as int));
    if chars.len() == start {
        return None;
    }
    let mut value: usize = 0;
    let mut i: usize = start;
    assert(body.take(0) =~= Seq::<char>::empty());
    while i < chars.len()
        invariant
            start <= i <= chars.len(),
            body == chars@.subrange(start as int, chars.len() as int),
            body == unsigned_part(s@),
            all_digits(body.take(i - start)),
            value == digits_value(body.take(i - start)),
        decreases chars.len() - i,
    {
        let ghost read = body.take(i - start);
        let ghost more = body.take(i + 1 - start);
        assert(more.drop_last() =~= read);
        assert(more.last() == chars@[i as int]);
        match value_of_digit(chars[i]) {
            Some(d) => {
                if value > (usize::MAX - d) / 10 {
                    proof {
                        assert(digits_value(more) == digits_value(read) * 10 + d);
                        assert(value * 10 + d > usize::MAX);
                        if all_digits(body) {
                            lemma_digits_value_grows(body, i + 1 - start);
                        }
                        assert(index_in(s@) is None);
                    }
                    return None;
                }
                value = value * 10 + d;
                assert(all_digits(more)) by {
                    assert forall|j: int| 0 <= j < more.len() implies digit_value(
                        #[trigger] more[j],
                    ) >= 0 by {
                        if j < read.len() {
                            assert(more[j] == read[j]);
                        }
                    }
                }
            },
            None => {
                proof {
                    assert(body[i - start] == chars@[i as int]);
                    assert(digit_value(body[i - start]) < 0);
                    assert(!all_digits(body));
                    assert(index_in(s@) is None);
                }
                return None;
            },
        }
        i += 1;
    }
    assert(body.take(chars.len() - start) =~= body);
    Some(value)
}

/// What follows the last `c` in `s`; all of `s` where there is none.
pub open spec fn after_last(s: Seq<char>, c: char) -> Seq<char> {
    s.skip(last_index_of(s, c) + 1)
}

/// Copies what follows the last `c` in `s`.
pub fn tail_after(s: &Vec<char>, c: char) -> (r: Vec<char>)
    ensures
        r@ == after_last(s@, c),
{
    let from = match rfind(s, c) {
        Some(k) => k + 1,
        None => 0,
    };
    assert(s@.skip(from as int) =~= s@.subrange(from as int, s.len() as int));
    slice(s, from, s.len())
}

} // verus!
