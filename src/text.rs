use vstd::prelude::*;

verus! {

/// `needle` occurs in `s` at char position `i`.
pub open spec fn occurs_at(s: Seq<char>, needle: Seq<char>, i: int) -> bool {
    0 <= i && i + needle.len() <= s.len() && s.subrange(i, i + needle.len()) == needle
}

/// `needle` occurs somewhere in `s`.
#[verifier::opaque]
pub open spec fn contains(s: Seq<char>, needle: Seq<char>) -> bool {
    exists|i: int| #[trigger] occurs_at(s, needle, i)
}

/// The first position at or after `from` where `needle` occurs in `s`.
#[verifier::opaque]
pub open spec fn first_from(s: Seq<char>, needle: Seq<char>, from: int) -> Option<int> {
    if exists|i: int| from <= i && #[trigger] occurs_at(s, needle, i) {
        Some(choose|i: int| from <= i && occurs_at(s, needle, i) && forall|j: int| from <= j < i ==> !#[trigger] occurs_at(s, needle, j))
    } else {
        None
    }
}

/// A position that [`first_from`] gives is one where the needle occurs.
pub proof fn lemma_first_from_occurs(s: Seq<char>, needle: Seq<char>, from: int)
    ensures
        first_from(s, needle, from) matches Some(i) ==> from <= i && occurs_at(s, needle, i),
{
    reveal(first_from);
    if first_from(s, needle, from) is Some {
        let w = choose|w: int| from <= w && #[trigger] occurs_at(s, needle, w);
        lemma_least_occurrence(s, needle, from, w);
    }
}

proof fn lemma_least_occurrence(s: Seq<char>, needle: Seq<char>, from: int, w: int)
    requires
        from <= w,
        occurs_at(s, needle, w),
    ensures
        exists|i: int| from <= i && occurs_at(s, needle, i) && forall|j: int| from <= j < i ==> !#[trigger] occurs_at(s, needle, j),
    decreases w - from,
{
    if exists|j: int| from <= j < w && #[trigger] occurs_at(s, needle, j) {
        let j = choose|j: int| from <= j < w && #[trigger] occurs_at(s, needle, j);
        lemma_least_occurrence(s, needle, from, j);
    } else {
        assert(forall|j: int| from <= j < w ==> !#[trigger] occurs_at(s, needle, j));
    }
}

/// The views of strings.
pub open spec fn texts_of(v: Seq<String>) -> Seq<Seq<char>> {
    v.map_values(|s: String| s@)
}

/// Joins a relative path to a root directory the way a file system path is
/// extended: an absolute path replaces the root, and one separator stands
/// between the two parts.
pub open spec fn joined(root: Seq<char>, path: Seq<char>) -> Seq<char> {
    if path.len() > 0 && path[0] == '/' {
        path
    } else if root.len() == 0 || root.last() == '/' {
        root + path
    } else {
        root + seq!['/'] + path
    }
}

/// Whether `needle` occurs in `s` at char position `i`.
pub fn matches_at(s: &str, needle: &str, i: usize) -> (r: bool)
    requires
        i <= s@.len(),
    ensures
        r == occurs_at(s@, needle@, i as int),
{
    let n = s.unicode_len();
    let m = needle.unicode_len();
    if m > n - i {
        return false;
    }
    let mut k: usize = 0;
    while k < m
        invariant
            n == s@.len(),
            m == needle@.len(),
            i + m <= n,
            k <= m,
            forall|j: int| 0 <= j < k ==> s@[i + j] == needle@[j],
        decreases m - k,
    {
        if s.get_char(i + k) != needle.get_char(k) {
            assert(s@.subrange(i as int, i + m)[k as int] != needle@[k as int]);
            return false;
        }
        k = k + 1;
    }
    assert(s@.subrange(i as int, i + m) =~= needle@);
    true
}

/// The first position at or after `from` where `needle` occurs in `s`.
pub fn find_from(s: &str, needle: &str, from: usize) -> (r: Option<usize>)
    requires
        from <= s@.len(),
    ensures
        match r {
            Some(i) => first_from(s@, needle@, from as int) == Some(i as int),
            None => first_from(s@, needle@, from as int) is None,
        },
        r matches Some(i) ==> from <= i && occurs_at(s@, needle@, i as int),
{
    let n = s.unicode_len();
    let mut i: usize = from;
    loop
        invariant
            n == s@.len(),
            from <= i <= n,
            forall|j: int| from <= j < i ==> !#[trigger] occurs_at(s@, needle@, j),
        decreases n - i,
    {
        if matches_at(s, needle, i) {
            reveal(first_from);
            assert(from <= i && occurs_at(s@, needle@, i as int) && forall|j: int| from <= j < i ==> !#[trigger] occurs_at(s@, needle@, j));
            let ghost w = choose|w: int| from <= w && occurs_at(s@, needle@, w) && forall|j: int| from <= j < w ==> !#[trigger] occurs_at(s@, needle@, j);
            assert(occurs_at(s@, needle@, i as int));
            assert(w == i as int) by {
                if w < i as int {
                    assert(!occurs_at(s@, needle@, w));
                } else if w > i as int {
                    assert(!occurs_at(s@, needle@, i as int));
                }
            }
            return Some(i);
        }
        if i == n {
            reveal(first_from);
            assert forall|j: int| from <= j implies !#[trigger] occurs_at(s@, needle@, j) by {
                if j > n {
                    assert(j + needle@.len() > s@.len());
                }
            }
            return None;
        }
        i = i + 1;
    }
}

/// Whether `needle` occurs anywhere in `s`.
pub fn contains_str(s: &str, needle: &str) -> (r: bool)
    ensures
        r == contains(s@, needle@),
{
    reveal(contains);
    reveal(first_from);
    let r = find_from(s, needle, 0);
    if r.is_some() {
        assert(occurs_at(s@, needle@, r.unwrap() as int));
        true
    } else {
        assert forall|i: int| !#[trigger] occurs_at(s@, needle@, i) by {
            if 0 <= i {
                assert(first_from(s@, needle@, 0) is None);
            }
        }
        false
    }
}

/// Appends `path` to the directory `root`, see [`joined`].
pub fn path_append(root: &str, path: &str) -> (r: String)
    ensures
        r@ == joined(root@, path@),
{
    let pn = path.unicode_len();
    if pn > 0 && path.get_char(0) == '/' {
        return path.to_owned();
    }
    let rn = root.unicode_len();
    let mut r = root.to_owned();
    if rn > 0 && root.get_char(rn - 1) != '/' {
        r.append("/");
        proof { reveal_strlit("/"); }
    }
    r.append(path);
    r
}

} // verus!

verus! {

/// What remains of `text` once every match of the regular expression
/// `pattern` is removed.
pub uninterp spec fn regex_removed(pattern: Seq<char>, text: Seq<char>) -> Seq<char>;


/// Relies on `regex::Regex::new` and `Regex::replace_all` with an empty
/// replacement: every non-overlapping match, leftmost first, is removed.
/// The import pattern and the SVG attribute pattern are valid regular
/// expression syntax, so compiling them succeeds.
#[verifier::external_body]
pub(crate) fn remove_matches(pattern: &str, text: &str) -> (r: Result<String, String>)
    ensures
        r matches Ok(s) ==> s@ == regex_removed(pattern@, text@),
        pattern@ == crate::css::import_pattern() || pattern@ == crate::svg::svg_attributes()
            ==> r is Ok,
{
    match regex::Regex::new(pattern) {
        Ok(re) => Ok(re.replace_all(text, "").into_owned()),
        Err(e) => Err(e.to_string()),
    }
}

/// A Unicode White_Space character.
pub open spec fn is_whitespace(c: char) -> bool {
    ||| '\t' <= c <= '\r'
    ||| c == ' '
    ||| c == '\u{85}'
    ||| c == '\u{a0}'
    ||| c == '\u{1680}'
    ||| '\u{2000}' <= c <= '\u{200a}'
    ||| c == '\u{2028}'
    ||| c == '\u{2029}'
    ||| c == '\u{202f}'
    ||| c == '\u{205f}'
    ||| c == '\u{3000}'
}

/// `s` without its trailing whitespace.
pub open spec fn trimmed_end(s: Seq<char>) -> Seq<char>
    decreases s.len(),
{
    if s.len() > 0 && is_whitespace(s.last()) {
        trimmed_end(s.drop_last())
    } else {
        s
    }
}

fn whitespace(c: char) -> (r: bool)
    ensures
        r == is_whitespace(c),
{
    ('\t' <= c && c <= '\r') || c == ' ' || c == '\u{85}' || c == '\u{a0}' || c == '\u{1680}'
        || ('\u{2000}' <= c && c <= '\u{200a}') || c == '\u{2028}' || c == '\u{2029}' || c
        == '\u{202f}' || c == '\u{205f}' || c == '\u{3000}'
}

/// `s` without its trailing whitespace.
pub fn trim_end(s: &str) -> (r: String)
    ensures
        r@ == trimmed_end(s@),
{
    let mut k = s.unicode_len();
    assert(s@.subrange(0, k as int) =~= s@);
    while k > 0 && whitespace(s.get_char(k - 1))
        invariant
            k <= s@.len(),
            trimmed_end(s@.subrange(0, k as int)) == trimmed_end(s@),
        decreases k,
    {
        assert(s@.subrange(0, k as int).drop_last() =~= s@.subrange(0, k - 1));
        k = k - 1;
    }
    s.substring_char(0, k).to_owned()
}

} // verus!

verus! {

/// `s` ends with `suffix`.
pub open spec fn ends_with(s: Seq<char>, suffix: Seq<char>) -> bool {
    suffix.len() <= s.len() && s.subrange(s.len() - suffix.len(), s.len() as int) == suffix
}

/// Whether `s` ends with `suffix`.
pub fn ends_with_str(s: &str, suffix: &str) -> (r: bool)
    ensures
        r == ends_with(s@, suffix@),
{
    let n = s.unicode_len();
    let m = suffix.unicode_len();
    if m > n {
        return false;
    }
    matches_at(s, suffix, n - m)
}

} // verus!
