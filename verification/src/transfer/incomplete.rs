//! Names of incomplete files, and the set of those open.
//!
//! A download is written to an incomplete file, named after an MD5 digest of
//! the virtual path and the user so that two downloads never share one.

use vstd::prelude::*;
use vstd::string::StringSliceAdditionalSpecFns;
use crate::digest::{hex_of, md5_hex_of_pair, spec_md5};
use crate::text::{chars_of, string_from_chars, strs_view};

verus! {

/// What `std::path::Path::components` gives for `path`, each component as
/// its text: the root, `.` or `..` as written, and the names between
/// separators, with repeated separators, a trailing separator and `.` inside
/// the path left out, by the target's path rules. Two paths are the same
/// path when their components are.
pub uninterp spec fn spec_path_components(path: Seq<char>) -> Seq<Seq<char>>;

/// Calls `std::path::Path::components` on `path` and gives each component's
/// text (`Component::as_os_str`, which for a `&str` path is valid UTF-8). The
/// contract names the result, which depends on the path alone.
#[verifier::external_body]
fn path_components(path: &str) -> (r: Vec<String>)
    ensures
        strs_view(r@) == spec_path_components(path@),
{
    std::path::Path::new(path).components().map(|c| c.as_os_str().to_string_lossy().into_owned()).collect()
}

/// The views of a list of component lists.
pub open spec fn keys_view(v: Seq<Vec<String>>) -> Seq<Seq<Seq<char>>> {
    v.map_values(|k: Vec<String>| strs_view(k@))
}

/// Whether `path` is in use when the paths in use are `s` (as components).
pub open spec fn path_in_use(s: Set<Seq<Seq<char>>>, path: Seq<char>) -> bool {
    s.contains(spec_path_components(path))
}

/// The paths in use once `path` is marked open.
pub open spec fn after_open(s: Set<Seq<Seq<char>>>, path: Seq<char>) -> Set<Seq<Seq<char>>> {
    s.insert(spec_path_components(path))
}

/// The paths in use once `path` is marked closed.
pub open spec fn after_close(s: Set<Seq<Seq<char>>>, path: Seq<char>) -> Set<Seq<Seq<char>>> {
    s.remove(spec_path_components(path))
}

/// The paths of incomplete files in use, each held as its components, so
/// that two spellings of one path (`/tmp/a`, `/tmp//a/`) are one path.
#[derive(Debug)]
pub struct IncompleteTracker {
    in_progress: Vec<Vec<String>>,
}

impl View for IncompleteTracker {
    type V = Set<Seq<Seq<char>>>;

    closed spec fn view(&self) -> Set<Seq<Seq<char>>> {
        keys_view(self.in_progress@).to_set()
    }
}

/// Whether two component lists hold the same components.
fn same_components(a: &Vec<String>, b: &Vec<String>) -> (r: bool)
    ensures
        r == (strs_view(a@) == strs_view(b@)),
{
    if a.len() != b.len() {
        assert(strs_view(a@).len() != strs_view(b@).len());
        return false;
    }
    let mut i: usize = 0;
    while i < a.len()
        invariant
            a@.len() == b@.len(),
            i <= a@.len(),
            forall|k: int| 0 <= k < i ==> (#[trigger] a@[k])@ == b@[k]@,
        decreases a@.len() - i,
    {
        if a[i] != b[i] {
            assert(strs_view(a@)[i as int] != strs_view(b@)[i as int]);
            return false;
        }
        i = i + 1;
    }
    assert(strs_view(a@) =~= strs_view(b@));
    true
}

impl IncompleteTracker {
    /// Its paths are held once each.
    pub closed spec fn wf(&self) -> bool {
        keys_view(self.in_progress@).no_duplicates()
    }

    proof fn lemma_finite(&self)
        ensures
            self@.finite(),
    {
        vstd::seq_lib::seq_to_set_is_finite(keys_view(self.in_progress@));
    }

    /// No path in use.
    pub fn new() -> (r: Self)
        ensures
            r.wf(),
            r@ == Set::<Seq<Seq<char>>>::empty(),
    {
        let r = IncompleteTracker { in_progress: Vec::new() };
        assert(keys_view(r.in_progress@) =~= Seq::<Seq<Seq<char>>>::empty());
        assert(r@ =~= Set::<Seq<Seq<char>>>::empty());
        r
    }

    fn index_of(&self, key: &Vec<String>) -> (r: Option<usize>)
        ensures
            match r {
                Some(i) => i < self.in_progress@.len() && keys_view(self.in_progress@)[i as int]
                    == strs_view(key@),
                None => !self@.contains(strs_view(key@)),
            },
    {
        let mut i: usize = 0;
        while i < self.in_progress.len()
            invariant
                i <= self.in_progress@.len(),
                forall|k: int| 0 <= k < i ==> keys_view(self.in_progress@)[k] != strs_view(key@),
            decreases self.in_progress@.len() - i,
        {
            if same_components(&self.in_progress[i], key) {
                return Some(i);
            }
            i = i + 1;
        }
        assert(!keys_view(self.in_progress@).contains(strs_view(key@))) by {
            if keys_view(self.in_progress@).contains(strs_view(key@)) {
                let k = choose|k: int|
                    0 <= k < keys_view(self.in_progress@).len() && keys_view(self.in_progress@)[k]
                        == strs_view(key@);
                assert(keys_view(self.in_progress@)[k] != strs_view(key@));
            }
        }
        None
    }

    /// Whether `path` is in use: whether a path with its components is.
    pub fn is_in_use(&self, path: &str) -> (r: bool)
        ensures
            r == path_in_use(self@, path@),
    {
        let key = path_components(path);
        match self.index_of(&key) {
            Some(_) => true,
            None => false,
        }
    }

    /// Marks `path` in use; tells whether it was not in use before.
    pub fn mark_open(&mut self, path: String) -> (r: bool)
        requires
            old(self).wf(),
        ensures
            final(self).wf(),
            final(self)@.finite(),
            r == !path_in_use(old(self)@, path@),
            final(self)@ == after_open(old(self)@, path@),
    {
        let key = path_components(path.as_str());
        let ghost kv = strs_view(key@);
        match self.index_of(&key) {
            Some(_) => {
                assert(self@.insert(kv) =~= self@);
                proof {
                    self.lemma_finite();
                }
                false
            },
            None => {
                let ghost before = keys_view(self.in_progress@);
                self.in_progress.push(key);
                let ghost after = keys_view(self.in_progress@);
                assert(after =~= before.push(kv));
                assert(after.no_duplicates()) by {
                    assert forall|i: int, j: int|
                        0 <= i < after.len() && 0 <= j < after.len() && i != j implies after[i]
                        != after[j] by {
                        if i < before.len() && j < before.len() {
                            assert(after[i] == before[i] && after[j] == before[j]);
                        } else if i < before.len() {
                            assert(before.contains(before[i]));
                        } else {
                            assert(before.contains(before[j]));
                        }
                    }
                }
                assert(after.to_set() =~= before.to_set().insert(kv)) by {
                    assert forall|x: Seq<Seq<char>>| after.to_set().contains(x) implies before.to_set().insert(
                        kv,
                    ).contains(x) by {
                        let k = choose|k: int| 0 <= k < after.len() && after[k] == x;
                        if k < before.len() {
                            assert(before[k] == x);
                        }
                    }
                    assert forall|x: Seq<Seq<char>>| before.to_set().insert(kv).contains(
                        x,
                    ) implies after.to_set().contains(x) by {
                        if x == kv {
                            assert(after[before.len() as int] == x);
                        } else {
                            let k = choose|k: int| 0 <= k < before.len() && before[k] == x;
                            assert(after[k] == x);
                        }
                    }
                }
                proof {
                    self.lemma_finite();
                }
                true
            },
        }
    }

    /// Marks `path` no longer in use.
    pub fn mark_closed(&mut self, path: &str)
        requires
            old(self).wf(),
        ensures
            final(self).wf(),
            final(self)@.finite(),
            final(self)@ == after_close(old(self)@, path@),
    {
        let key = path_components(path);
        let ghost kv = strs_view(key@);
        match self.index_of(&key) {
            Some(i) => {
                let ghost before = keys_view(self.in_progress@);
                self.in_progress.remove(i);
                let ghost after = keys_view(self.in_progress@);
                assert(after =~= before.remove(i as int));
                assert(after.no_duplicates()) by {
                    assert forall|a: int, b: int|
                        0 <= a < after.len() && 0 <= b < after.len() && a != b implies after[a]
                        != after[b] by {
                        let a2 = if a < i { a } else { a + 1 };
                        let b2 = if b < i { b } else { b + 1 };
                        assert(after[a] == before[a2] && after[b] == before[b2]);
                    }
                }
                assert(after.to_set() =~= before.to_set().remove(kv)) by {
                    assert forall|x: Seq<Seq<char>>| after.to_set().contains(x) implies before.to_set().remove(
                        kv,
                    ).contains(x) by {
                        let k = choose|k: int| 0 <= k < after.len() && after[k] == x;
                        let k2 = if k < i { k } else { k + 1 };
                        assert(before[k2] == x);
                        assert(k2 != i);
                        assert(before[k2] != before[i as int]);
                    }
                    assert forall|x: Seq<Seq<char>>| before.to_set().remove(kv).contains(
                        x,
                    ) implies after.to_set().contains(x) by {
                        let k = choose|k: int| 0 <= k < before.len() && before[k] == x;
                        assert(k != i);
                        if k < i {
                            assert(after[k] == x);
                        } else {
                            assert(after[k - 1] == x);
                        }
                    }
                }
            },
            None => {
                assert(self@.remove(kv) =~= self@);
            },
        }
        proof {
            self.lemma_finite();
        }
    }

    /// How many paths are in use.
    pub fn len(&self) -> (r: usize)
        requires
            self.wf(),
        ensures
            self@.finite(),
            r == self@.len(),
    {
        proof {
            keys_view(self.in_progress@).unique_seq_to_set();
            self.lemma_finite();
        }
        self.in_progress.len()
    }
}

/// What follows the last `c` in `p`, or all of `p` when there is no `c`.
pub open spec fn after_last(p: Seq<char>, c: char) -> Seq<char>
    decreases p.len(),
{
    if p.len() == 0 {
        p
    } else if p.last() == c {
        Seq::empty()
    } else {
        after_last(p.drop_last(), c).push(p.last())
    }
}

/// The last part of a virtual path: what follows its last `\`, or, when it
/// has none, what follows its last `/`.
pub open spec fn base_name(p: Seq<char>) -> Seq<char> {
    if p.contains('\\') {
        after_last(p, '\\')
    } else {
        after_last(p, '/')
    }
}

/// `dir` joined with the relative path `name`, with one `/` between them
/// unless `dir` is empty or ends with one.
pub open spec fn join_path(dir: Seq<char>, name: Seq<char>) -> Seq<char> {
    if dir.len() > 0 && dir.last() != '/' {
        dir + seq!['/'] + name
    } else {
        dir + name
    }
}

/// The name of the incomplete file for `virtual_path` from `username`.
pub open spec fn incomplete_name(username: &str, virtual_path: &str) -> Seq<char> {
    "INCOMPLETE"@ + hex_of(spec_md5(virtual_path.spec_bytes() + username.spec_bytes()))
        + base_name(virtual_path@)
}

fn last_index_of(v: &Vec<char>, c: char) -> (r: Option<usize>)
    ensures
        match r {
            Some(i) => i < v@.len() && v@[i as int] == c && after_last(v@, c) == v@.skip(i + 1),
            None => !v@.contains(c) && after_last(v@, c) == v@,
        },
{
    let mut i: usize = v.len();
    assert(v@.take(i as int) =~= v@);
    assert(after_last(v@, c) + v@.skip(i as int) =~= after_last(v@, c));
    while i > 0
        invariant
            i <= v@.len(),
            forall|k: int| i <= k < v@.len() ==> v@[k] != c,
            after_last(v@, c) == after_last(v@.take(i as int), c) + v@.skip(i as int),
        decreases i,
    {
        let ghost t = v@.take(i as int);
        assert(t.drop_last() =~= v@.take(i - 1));
        assert(t.last() == v@[i - 1]);
        if v[i - 1] == c {
            assert(after_last(t, c) =~= Seq::<char>::empty());
            assert(Seq::<char>::empty() + v@.skip(i as int) =~= v@.skip(i as int));
            return Some(i - 1);
        }
        assert(after_last(t.drop_last(), c).push(t.last()) + v@.skip(i as int) =~= after_last(
            v@.take(i - 1),
            c,
        ) + v@.skip(i - 1));
        i = i - 1;
    }
    assert(v@.take(0) =~= Seq::<char>::empty());
    assert(Seq::<char>::empty() + v@.skip(0) =~= v@);
    assert(!v@.contains(c)) by {
        if v@.contains(c) {
            let k = choose|k: int| 0 <= k < v@.len() && v@[k] == c;
            assert(v@[k] != c);
        }
    }
    None
}

/// The last part of a virtual path.
pub fn base_name_of(virtual_path: &str) -> (r: String)
    ensures
        r@ == base_name(virtual_path@),
{
    let v = chars_of(virtual_path);
    match last_index_of(&v, '\\') {
        Some(i) => {
            assert(v@.contains('\\')) by {
                assert(v@[i as int] == '\\');
            }
            string_from_chars(&v, i + 1, v.len())
        },
        None => match last_index_of(&v, '/') {
            Some(i) => string_from_chars(&v, i + 1, v.len()),
            None => {
                assert(v@.subrange(0, v@.len() as int) =~= v@);
                string_from_chars(&v, 0, v.len())
            },
        },
    }
}

/// The path of the incomplete file for `virtual_path` from `username` in
/// `incomplete_dir`: `INCOMPLETE`, then the lowercase hexadecimal MD5 digest
/// of the virtual path followed by the user name, then the last part of the
/// virtual path.
pub fn incomplete_path(incomplete_dir: &str, username: &str, virtual_path: &str) -> (r: String)
    ensures
        r@ == join_path(incomplete_dir@, incomplete_name(username, virtual_path)),
{
    let mut name = String::from_str("INCOMPLETE");
    let hash = md5_hex_of_pair(virtual_path, username);
    name.append(hash.as_str());
    let base = base_name_of(virtual_path);
    name.append(base.as_str());
    let dir = chars_of(incomplete_dir);
    let mut r = incomplete_dir.to_owned();
    if dir.len() > 0 && dir[dir.len() - 1] != '/' {
        r.push('/');
    }
    r.append(name.as_str());
    assert(name@ =~= incomplete_name(username, virtual_path));
    assert(r@ =~= join_path(incomplete_dir@, incomplete_name(username, virtual_path)));
    r
}

/// A path marked open is in use until it is marked closed, and so is any
/// other spelling of it (same components); marking one path leaves paths
/// with other components as they were. Marking a free path open adds one
/// to the count of paths in use, marking an open one changes nothing;
/// marking an open path closed takes one off, a free one changes nothing;
/// and closing a path just opened gives back the set as it was before.
pub proof fn law_open_until_closed(s: Set<Seq<Seq<char>>>, p: Seq<char>, q: Seq<char>)
    requires
        s.finite(),
    ensures
        path_in_use(after_open(s, p), p),
        !path_in_use(after_close(s, p), p),
        spec_path_components(q) == spec_path_components(p) ==> (path_in_use(after_open(s, p), q)
            && !path_in_use(after_close(s, p), q)),
        spec_path_components(q) != spec_path_components(p) ==> (path_in_use(after_open(s, p), q)
            == path_in_use(s, q) && path_in_use(after_close(s, p), q) == path_in_use(s, q)),
        after_open(s, p).finite() && after_close(s, p).finite(),
        after_open(s, p).len() == s.len() + (if path_in_use(s, p) { 0int } else { 1int }),
        after_close(s, p).len() == s.len() - (if path_in_use(s, p) { 1int } else { 0int }),
        !path_in_use(s, p) ==> after_close(after_open(s, p), p) == s,
{
    assert(!path_in_use(s, p) ==> after_close(after_open(s, p), p) =~= s);
}

} // verus!
