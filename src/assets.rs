use vstd::prelude::*;

verus! {

/// One file of the static asset directory, as read before compilation.
/// Files directly in the directory are named by their file name alone;
/// lookups by a bare file name therefore only find those.
#[derive(Clone, Debug)]
pub struct StaticFile {
    /// The path of the file relative to the static directory.
    pub name: String,
    /// Its size in bytes.
    pub size: u64,
    /// Its content, where that is valid UTF-8.
    pub text: Option<String>,
}

/// The index of the first file named `name`.
#[verifier::opaque]
pub open spec fn file_index(files: Seq<StaticFile>, name: Seq<char>) -> Option<int> {
    if exists|i: int| 0 <= i < files.len() && #[trigger] files[i].name@ == name {
        Some(choose|i: int| 0 <= i < files.len() && files[i].name@ == name && forall|j: int| 0 <= j < i ==> #[trigger] files[j].name@ != name)
    } else {
        None
    }
}

/// Whether a file named `name` is present.
#[verifier::opaque]
pub open spec fn has_file(files: Seq<StaticFile>, name: Seq<char>) -> bool {
    exists|i: int| 0 <= i < files.len() && #[trigger] files[i].name@ == name
}

/// Whether two strings hold the same characters.
pub fn same_text(a: &str, b: &str) -> (r: bool)
    ensures
        r == (a@ == b@),
{
    let n = a.unicode_len();
    if n != b.unicode_len() {
        return false;
    }
    let mut i: usize = 0;
    while i < n
        invariant
            n == a@.len(),
            n == b@.len(),
            i <= n,
            forall|j: int| 0 <= j < i ==> a@[j] == b@[j],
        decreases n - i,
    {
        if a.get_char(i) != b.get_char(i) {
            return false;
        }
        i = i + 1;
    }
    assert(a@ =~= b@);
    true
}

/// The index of the first file named `name`, if there is one.
pub fn find_file(files: &Vec<StaticFile>, name: &str) -> (r: Option<usize>)
    ensures
        match r {
            Some(i) => file_index(files@, name@) == Some(i as int) && i < files@.len(),
            None => file_index(files@, name@) is None,
        },
        r is Some == has_file(files@, name@),
{
    reveal(file_index);
    reveal(has_file);
    let mut i: usize = 0;
    while i < files.len()
        invariant
            i <= files@.len(),
            forall|j: int| 0 <= j < i ==> #[trigger] files@[j].name@ != name@,
        decreases files@.len() - i,
    {
        if same_text(files[i].name.as_str(), name) {
            reveal(file_index);
            reveal(has_file);
            assert(files@[i as int].name@ == name@);
            assert(0 <= i < files@.len() && files@[i as int].name@ == name@ && forall|j: int| 0 <= j < i ==> #[trigger] files@[j].name@ != name@);
            return Some(i);
        }
        i = i + 1;
    }
    None
}

/// Whether a file named `name` is present.
pub fn contains_file(files: &Vec<StaticFile>, name: &str) -> (r: bool)
    ensures
        r == has_file(files@, name@),
{
    find_file(files, name).is_some()
}

} // verus!
