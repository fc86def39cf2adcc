//! Word index used to answer incoming searches: lowercase words of each
//! shared path map to the indices of the files that contain them.

use std::collections::HashSet;
use vstd::prelude::*;

use crate::text::{
    chars_of, chars_start_with, is_alphanumeric, spec_is_alphanumeric, spec_lowercase,
    to_lowercase, vec_contains_usize,
};

verus! {

broadcast use vstd::std_specs::hash::group_hash_axioms;

/// Upper bound suggested for the results of a single-word search.
pub const MAX_SINGLE_WORD_RESULTS: usize = 1000;

/// A file entry in the word index.
#[derive(Debug, Clone)]
pub struct IndexedFile {
    /// Virtual path as presented to searchers (backslash-separated)
    pub path: String,
    /// Size in bytes
    pub size: u64,
    /// File extension (lowercase, without dot)
    pub extension: String,
}

/// What `std::path::Path::extension` gives for a path: the part of the last
/// path component after its last dot, if there is one (and the component is
/// not a dot file). Components are split by the target's path rules (on
/// Windows `\` separates them too, elsewhere only `/`). The component rules
/// take more than a few lines, so the result is named.
pub uninterp spec fn spec_path_extension(path: Seq<char>) -> Option<Seq<char>>;

/// Calls `std::path::Path::extension` on `path` and converts the extension to
/// a `String`. The contract claims only that the result is a function of the
/// path alone.
#[verifier::external_body]
fn path_extension(path: &str) -> (r: Option<String>)
    ensures
        match r {
            Some(e) => spec_path_extension(path@) == Some(e@),
            None => spec_path_extension(path@) is None,
        },
{
    match std::path::Path::new(path).extension() {
        Some(e) => Some(e.to_string_lossy().into_owned()),
        None => None,
    }
}

/// The lowercase extension recorded for a path (empty when it has none).
pub open spec fn extension_of(path: Seq<char>) -> Seq<char> {
    match spec_path_extension(path) {
        Some(e) => spec_lowercase(e),
        None => Seq::empty(),
    }
}

impl IndexedFile {
    /// Create from a file path.
    pub fn new(path: String, size: u64) -> (f: IndexedFile)
        ensures
            f.path@ == path@,
            f.size == size,
            f.extension@ == extension_of(path@),
    {
        let extension = match path_extension(&path) {
            Some(e) => to_lowercase(&e),
            None => String::new(),
        };
        IndexedFile { path, size, extension }
    }
}

/// The word emitted for a finished run of alphanumeric characters: runs of
/// one byte or less are dropped.
pub open spec fn emit_word(cur: Seq<char>) -> Seq<Seq<char>> {
    if vstd::utf8::encode_utf8(cur).len() > 1 {
        seq![cur]
    } else {
        Seq::empty()
    }
}

/// Words of `s`, given that `cur` is the run of alphanumeric characters
/// just before `s`.
pub open spec fn words_from(s: Seq<char>, cur: Seq<char>) -> Seq<Seq<char>>
    decreases s.len(),
{
    if s.len() == 0 {
        emit_word(cur)
    } else if spec_is_alphanumeric(s[0]) {
        words_from(s.drop_first(), cur.push(s[0]))
    } else {
        emit_word(cur) + words_from(s.drop_first(), Seq::empty())
    }
}

/// A run of characters is longer than one byte exactly when it has two
/// characters or one non-ASCII character.
proof fn lemma_utf8_longer_than_one(s: Seq<char>)
    ensures
        vstd::utf8::encode_utf8(s).len() > 1 <==> (s.len() >= 2 || (s.len() == 1 && s[0] as u32
            >= 0x80)),
{
    reveal_with_fuel(vstd::utf8::encode_utf8, 3);
    if s.len() >= 2 {
        assert(s.drop_first().len() >= 1);
        assert(vstd::utf8::encode_scalar(s[0] as u32).len() >= 1);
        assert(vstd::utf8::encode_scalar(s.drop_first()[0] as u32).len() >= 1);
        assert(vstd::utf8::encode_utf8(s.drop_first()).len() >= 1);
    } else if s.len() == 1 {
        assert(s.drop_first().len() == 0);
    }
}

/// Whether `lo..hi` is a whole run of alphanumeric characters of `s`: every
/// character in it is alphanumeric and neither neighbour is.
pub open spec fn is_alnum_run(s: Seq<char>, lo: int, hi: int) -> bool {
    &&& 0 <= lo < hi <= s.len()
    &&& forall|k: int| lo <= k < hi ==> spec_is_alphanumeric(#[trigger] s[k])
    &&& (lo == 0 || !spec_is_alphanumeric(s[lo - 1]))
    &&& (hi == s.len() || !spec_is_alphanumeric(s[hi]))
}

proof fn lemma_run_among_words(s: Seq<char>, cur: Seq<char>, lo: int, hi: int)
    requires
        0 <= lo < hi <= s.len(),
        forall|k: int| lo <= k < hi ==> spec_is_alphanumeric(#[trigger] s[k]),
        lo == 0 || !spec_is_alphanumeric(s[lo - 1]),
        hi == s.len() || !spec_is_alphanumeric(s[hi]),
        vstd::utf8::encode_utf8(if lo == 0 { cur + s.subrange(0, hi) } else { s.subrange(lo, hi) }).len() > 1,
    ensures
        words_from(s, cur).contains(if lo == 0 { cur + s.subrange(0, hi) } else { s.subrange(lo, hi) }),
    decreases s.len(),
{
    let w = if lo == 0 { cur + s.subrange(0, hi) } else { s.subrange(lo, hi) };
    let t = s.drop_first();
    if lo > 0 {
        if spec_is_alphanumeric(s[0]) {
            assert(lo >= 2) by {
                if lo == 1 {
                    assert(!spec_is_alphanumeric(s[0]));
                }
            }
            assert(t.subrange(lo - 1, hi - 1) =~= s.subrange(lo, hi));
            assert forall|k: int| lo - 1 <= k < hi - 1 implies spec_is_alphanumeric(#[trigger] t[k]) by {
                assert(t[k] == s[k + 1]);
            }
            assert(t[lo - 2] == s[lo - 1]);
            if hi < s.len() {
                assert(t[hi - 1] == s[hi]);
            }
            lemma_run_among_words(t, cur.push(s[0]), lo - 1, hi - 1);
        } else {
            let w2 = if lo - 1 == 0 { Seq::<char>::empty() + t.subrange(0, hi - 1) } else { t.subrange(lo - 1, hi - 1) };
            assert(w2 =~= w);
            assert forall|k: int| lo - 1 <= k < hi - 1 implies spec_is_alphanumeric(#[trigger] t[k]) by {
                assert(t[k] == s[k + 1]);
            }
            if lo - 1 > 0 {
                assert(t[lo - 2] == s[lo - 1]);
            }
            if hi < s.len() {
                assert(t[hi - 1] == s[hi]);
            }
            lemma_run_among_words(t, Seq::empty(), lo - 1, hi - 1);
            let e = emit_word(cur);
            let rest = words_from(t, Seq::empty());
            let k = choose|k: int| 0 <= k < rest.len() && rest[k] == w;
            assert((e + rest)[e.len() + k] == w);
        }
    } else {
        assert(spec_is_alphanumeric(s[0]));
        let c2 = cur.push(s[0]);
        if hi == 1 {
            assert(c2 =~= w);
            if t.len() == 0 {
                assert(words_from(t, c2) == emit_word(c2));
                assert(emit_word(c2) == seq![c2]);
                assert(seq![c2][0] == c2);
            } else {
                assert(t[0] == s[1]);
                assert(words_from(t, c2) == emit_word(c2) + words_from(t.drop_first(), Seq::empty()));
                assert((emit_word(c2) + words_from(t.drop_first(), Seq::empty()))[0] == c2);
            }
        } else {
            assert(c2 + t.subrange(0, hi - 1) =~= w);
            assert forall|k: int| 0 <= k < hi - 1 implies spec_is_alphanumeric(#[trigger] t[k]) by {
                assert(t[k] == s[k + 1]);
            }
            if hi < s.len() {
                assert(t[hi - 1] == s[hi]);
            }
            lemma_run_among_words(t, c2, 0, hi - 1);
        }
    }
}

/// Every whole run of alphanumeric characters of the lowercased path that
/// is longer than one byte is one of the path's words: a two-character word
/// such as `u2` is indexed, and only one-byte runs are left out.
pub proof fn law_long_runs_are_words(path: Seq<char>, lo: int, hi: int)
    requires
        is_alnum_run(spec_lowercase(path), lo, hi),
        vstd::utf8::encode_utf8(spec_lowercase(path).subrange(lo, hi)).len() > 1,
    ensures
        path_words(path).contains(spec_lowercase(path).subrange(lo, hi)),
{
    let low = spec_lowercase(path);
    if lo == 0 {
        assert(Seq::<char>::empty() + low.subrange(0, hi) =~= low.subrange(0, hi));
    }
    lemma_run_among_words(low, Seq::empty(), lo, hi);
}

proof fn lemma_words_are_runs(full: Seq<char>, start: int, pos: int, w: Seq<char>)
    requires
        0 <= start <= pos <= full.len(),
        forall|k: int| start <= k < pos ==> spec_is_alphanumeric(#[trigger] full[k]),
        start == 0 || !spec_is_alphanumeric(full[start - 1]),
        words_from(full.skip(pos), full.subrange(start, pos)).contains(w),
    ensures
        exists|lo: int, hi: int|
            is_alnum_run(full, lo, hi) && full.subrange(lo, hi) == w
                && vstd::utf8::encode_utf8(w).len() > 1,
    decreases full.len() - pos,
{
    let s = full.skip(pos);
    let cur = full.subrange(start, pos);
    if s.len() == 0 {
        assert(words_from(s, cur) == emit_word(cur));
        assert(w == cur && vstd::utf8::encode_utf8(cur).len() > 1);
        assert(cur.len() > 0) by {
            if cur.len() == 0 {
                assert(cur =~= Seq::<char>::empty());
                assert(vstd::utf8::encode_utf8(cur) =~= Seq::<u8>::empty());
            }
        }
        assert(is_alnum_run(full, start, pos));
    } else {
        assert(s[0] == full[pos]);
        assert(s.drop_first() =~= full.skip(pos + 1));
        if spec_is_alphanumeric(s[0]) {
            assert(cur.push(s[0]) =~= full.subrange(start, pos + 1));
            lemma_words_are_runs(full, start, pos + 1, w);
        } else {
            let e = emit_word(cur);
            let rest = words_from(s.drop_first(), Seq::empty());
            assert(words_from(s, cur) == e + rest);
            let k = choose|k: int| 0 <= k < (e + rest).len() && (e + rest)[k] == w;
            if k < e.len() {
                assert(w == cur && vstd::utf8::encode_utf8(cur).len() > 1);
                assert(cur.len() > 0) by {
                    if cur.len() == 0 {
                        assert(cur =~= Seq::<char>::empty());
                        assert(vstd::utf8::encode_utf8(cur) =~= Seq::<u8>::empty());
                    }
                }
                assert(is_alnum_run(full, start, pos));
            } else {
                assert(rest[k - e.len()] == w);
                assert(full.subrange(pos + 1, pos + 1) =~= Seq::<char>::empty());
                lemma_words_are_runs(full, pos + 1, pos + 1, w);
            }
        }
    }
}

/// Every word of a path is a whole run of alphanumeric characters of the
/// lowercased path, longer than one byte: nothing else is indexed.
pub proof fn law_words_are_long_runs(path: Seq<char>, w: Seq<char>)
    requires
        path_words(path).contains(w),
    ensures
        exists|lo: int, hi: int|
            is_alnum_run(spec_lowercase(path), lo, hi) && spec_lowercase(path).subrange(lo, hi) == w
                && vstd::utf8::encode_utf8(w).len() > 1,
{
    let low = spec_lowercase(path);
    assert(low.skip(0) =~= low);
    assert(low.subrange(0, 0) =~= Seq::<char>::empty());
    lemma_words_are_runs(low, 0, 0, w);
}

/// The words of a path: the lowercased path split at every non-alphanumeric
/// character, keeping the pieces longer than one byte.
pub open spec fn path_words(path: Seq<char>) -> Seq<Seq<char>> {
    words_from(spec_lowercase(path), Seq::empty())
}

/// The character sequences of a list of strings.
pub open spec fn strings_view(v: Seq<String>) -> Seq<Seq<char>> {
    v.map_values(|s: String| s@)
}

/// Whether file `i` of `files` contains the word `w`.
pub open spec fn has_word(files: Seq<IndexedFile>, i: int, w: Seq<char>) -> bool {
    path_words(files[i].path@).contains(w)
}

/// The indices below `n` of the files that contain `w`, ascending.
pub open spec fn ids_below(files: Seq<IndexedFile>, n: nat, w: Seq<char>) -> Seq<usize>
    decreases n,
{
    if n == 0 {
        Seq::empty()
    } else {
        let s = ids_below(files, (n - 1) as nat, w);
        if has_word(files, n - 1, w) {
            s.push((n - 1) as usize)
        } else {
            s
        }
    }
}

proof fn lemma_ids_below(files: Seq<IndexedFile>, n: nat, w: Seq<char>)
    requires
        n <= files.len(),
        files.len() <= usize::MAX,
    ensures
        forall|i: usize| #[trigger]
            ids_below(files, n, w).contains(i) <==> (i < n && has_word(files, i as int, w)),
    decreases n,
{
    if n > 0 {
        lemma_ids_below(files, (n - 1) as nat, w);
        let s = ids_below(files, (n - 1) as nat, w);
        assert forall|i: usize| #[trigger]
            ids_below(files, n, w).contains(i) <==> (i < n && has_word(files, i as int, w)) by {
            if has_word(files, n - 1, w) {
                assert(s.push((n - 1) as usize)[s.len() as int] == (n - 1) as usize);
                if s.push((n - 1) as usize).contains(i) {
                    let k = choose|k: int|
                        0 <= k < s.len() + 1 && #[trigger] s.push((n - 1) as usize)[k] == i;
                    if k < s.len() {
                        assert(s.contains(i));
                    }
                }
                if s.contains(i) {
                    let k = choose|k: int| 0 <= k < s.len() && s[k] == i;
                    assert(s.push((n - 1) as usize)[k] == i);
                }
            }
        }
    }
}

proof fn lemma_ids_below_len(files: Seq<IndexedFile>, n: nat, w: Seq<char>)
    ensures
        ids_below(files, n, w).len() <= n,
    decreases n,
{
    if n > 0 {
        lemma_ids_below_len(files, (n - 1) as nat, w);
    }
}

proof fn lemma_ids_below_frame(f1: Seq<IndexedFile>, f2: Seq<IndexedFile>, n: nat, w: Seq<char>)
    requires
        n <= f1.len(),
        n <= f2.len(),
        forall|i: int| 0 <= i < n ==> f1[i] == f2[i],
    ensures
        ids_below(f1, n, w) == ids_below(f2, n, w),
    decreases n,
{
    if n > 0 {
        lemma_ids_below_frame(f1, f2, (n - 1) as nat, w);
    }
}

proof fn lemma_ids_below_none(files: Seq<IndexedFile>, n: nat, w: Seq<char>)
    requires
        forall|i: int| 0 <= i < n ==> !has_word(files, i, w),
    ensures
        ids_below(files, n, w) == Seq::<usize>::empty(),
    decreases n,
{
    if n > 0 {
        lemma_ids_below_none(files, (n - 1) as nat, w);
    }
}


proof fn lemma_to_set_empty(s: Seq<usize>)
    ensures
        (s.len() == 0) == (s.to_set() == Set::<usize>::empty()),
{
    if s.len() == 0 {
        assert(s.to_set() =~= Set::<usize>::empty());
    } else {
        assert(s.to_set().contains(s[0]));
    }
}

/// A copy of `v`.
fn copy_ids(v: &Vec<usize>) -> (r: Vec<usize>)
    ensures
        r@ == v@,
{
    let mut r: Vec<usize> = Vec::new();
    let mut i: usize = 0;
    while i < v.len()
        invariant
            i <= v.len(),
            r@ == v@.take(i as int),
        decreases v.len() - i,
    {
        r.push(v[i]);
        i = i + 1;
        assert(r@ =~= v@.take(i as int));
    }
    assert(v@.take(i as int) =~= v@);
    r
}

/// The first `n` elements of `v` (all of them when it is shorter).
fn take_ids(v: &Vec<usize>, n: usize) -> (r: Vec<usize>)
    ensures
        r@ == v@.take(if n < v@.len() { n as int } else { v@.len() as int }),
{
    let m = if n < v.len() { n } else { v.len() };
    let mut r: Vec<usize> = Vec::new();
    let mut i: usize = 0;
    while i < m
        invariant
            m <= v.len(),
            i <= m,
            r@ == v@.take(i as int),
        decreases m - i,
    {
        r.push(v[i]);
        i = i + 1;
        assert(r@ =~= v@.take(i as int));
    }
    r
}

/// The elements of `a` that `b` holds.
fn keep_common(a: &Vec<usize>, b: &Vec<usize>) -> (r: Vec<usize>)
    ensures
        r@.to_set() == a@.to_set().intersect(b@.to_set()),
{
    let mut r: Vec<usize> = Vec::new();
    let mut i: usize = 0;
    while i < a.len()
        invariant
            i <= a.len(),
            forall|x: usize| #[trigger] r@.contains(x) <==> (a@.take(i as int).contains(x) && b@.contains(x)),
        decreases a.len() - i,
    {
        let x = a[i];
        let ghost r0 = r@;
        assert(a@.take(i + 1) =~= a@.take(i as int).push(x));
        if vec_contains_usize(b, x) {
            r.push(x);
        }
        assert forall|y: usize| #[trigger] r@.contains(y) <==> (a@.take(i + 1).contains(y) && b@.contains(
            y,
        )) by {
            vstd::seq_lib::lemma_seq_contains_after_push(a@.take(i as int), x, y);
            vstd::seq_lib::lemma_seq_contains_after_push(r0, x, y);
        }
        i = i + 1;
    }
    assert(a@.take(i as int) =~= a@);
    assert(r@.to_set() =~= a@.to_set().intersect(b@.to_set()));
    r
}

/// The elements of `a` that `b` does not hold.
fn remove_all(a: &Vec<usize>, b: &Vec<usize>) -> (r: Vec<usize>)
    ensures
        r@.to_set() == a@.to_set().difference(b@.to_set()),
{
    let mut r: Vec<usize> = Vec::new();
    let mut i: usize = 0;
    while i < a.len()
        invariant
            i <= a.len(),
            forall|x: usize| #[trigger] r@.contains(x) <==> (a@.take(i as int).contains(x) && ! b@.contains(x)),
        decreases a.len() - i,
    {
        let x = a[i];
        let ghost r0 = r@;
        assert(a@.take(i + 1) =~= a@.take(i as int).push(x));
        if !vec_contains_usize(b, x) {
            r.push(x);
        }
        assert forall|y: usize| #[trigger] r@.contains(y) <==> (a@.take(i + 1).contains(y) && !b@.contains(
            y,
        )) by {
            vstd::seq_lib::lemma_seq_contains_after_push(a@.take(i as int), x, y);
            vstd::seq_lib::lemma_seq_contains_after_push(r0, x, y);
        }
        i = i + 1;
    }
    assert(a@.take(i as int) =~= a@);
    assert(r@.to_set() =~= a@.to_set().difference(b@.to_set()));
    r
}

/// The members of `s` below `n`, ascending.
pub open spec fn ids_in(s: Set<usize>, n: nat) -> Seq<usize>
    decreases n,
{
    if n == 0 {
        Seq::empty()
    } else {
        let p = ids_in(s, (n - 1) as nat);
        if s.contains((n - 1) as usize) {
            p.push((n - 1) as usize)
        } else {
            p
        }
    }
}

/// One word of the index and the files that contain it.
#[derive(Debug, Clone)]
struct WordEntry {
    word: String,
    files: Vec<usize>,
}

/// Word index that maps words to file indices.
#[derive(Debug)]
pub struct WordIndex {
    /// Words and the ascending indices of the files containing them
    index: Vec<WordEntry>,
    /// All indexed files; a file's index is its position
    files: Vec<IndexedFile>,
}

impl Default for WordIndex {
    fn default() -> (r: Self)
        ensures
            r.wf(),
            r@ == Seq::<IndexedFile>::empty(),
    {
        WordIndex::new()
    }
}

impl Clone for WordIndex {
    /// A copy holding the same files and the same words.
    fn clone(&self) -> (r: Self)
        ensures
            r@ == self@,
            r.words() == self.words(),
            self.wf() ==> r.wf(),
    {
        let mut files: Vec<IndexedFile> = Vec::new();
        let mut i: usize = 0;
        while i < self.files.len()
            invariant
                i <= self.files@.len(),
                files@ == self.files@.take(i as int),
            decreases self.files@.len() - i,
        {
            let f = &self.files[i];
            files.push(
                IndexedFile { path: f.path.clone(), size: f.size, extension: f.extension.clone() },
            );
            assert(files@ =~= self.files@.take(i + 1));
            i = i + 1;
        }
        assert(self.files@.take(i as int) =~= self.files@);
        let mut index: Vec<WordEntry> = Vec::new();
        let mut j: usize = 0;
        while j < self.index.len()
            invariant
                j <= self.index@.len(),
                index@.len() == j,
                forall|k: int|
                    0 <= k < j ==> (#[trigger] index@[k]).word@ == self.index@[k].word@
                        && index@[k].files@ == self.index@[k].files@,
            decreases self.index@.len() - j,
        {
            let e = &self.index[j];
            index.push(WordEntry { word: e.word.clone(), files: copy_ids(&e.files) });
            j = j + 1;
        }
        let r = WordIndex { index, files };
        assert(r.words() =~= self.words());
        proof {
            if self.wf() {
                assert forall|k: int| 0 <= k < r.index@.len() implies #[trigger] r.index@[k].files@
                    == ids_below(r.files@, r.files@.len(), r.index@[k].word@) && r.index@[k].files@.len()
                    > 0 by {
                    assert(self.index@[k].files@ == ids_below(
                        self.files@,
                        self.files@.len(),
                        self.index@[k].word@,
                    ));
                    assert(self.index@[k].files@.len() > 0);
                }
                assert forall|i: int, w: Seq<char>|
                    0 <= i < r.files@.len() && #[trigger] has_word(r.files@, i, w) implies exists|
                    j: int,
                |
                    0 <= j < r.index@.len() && #[trigger] r.index@[j].word@ == w by {
                    let j = choose|j: int| 0 <= j < self.index@.len() && #[trigger] self.index@[j].word@ == w;
                    assert(r.index@[j].word@ == w);
                }
                assert forall|j: int, k: int|
                    0 <= j < k < r.index@.len() implies #[trigger] r.index@[j].word@
                        != #[trigger] r.index@[k].word@ by {
                    assert(self.index@[j].word@ != self.index@[k].word@);
                }
            }
        }
        r
    }
}

impl View for WordIndex {
    type V = Seq<IndexedFile>;

    closed spec fn view(&self) -> Seq<IndexedFile> {
        self.files@
    }
}


impl WordIndex {
    proof fn lemma_partial_fold_stays_none(&self, r: Option<Set<usize>>, parts: Seq<Seq<char>>, j: int)
        requires
            0 <= j <= parts.len(),
            self.partial_fold(r, parts.take(j)) is None,
        ensures
            self.partial_fold(r, parts) is None,
        decreases parts.len(),
    {
        if j == parts.len() {
            assert(parts.take(j) =~= parts);
        } else {
            assert(parts.drop_last().take(j) =~= parts.take(j));
            self.lemma_partial_fold_stays_none(r, parts.drop_last(), j);
        }
    }

    proof fn lemma_ids_with(&self, w: Seq<char>)
        requires
            self.wf(),
        ensures
            ids_below(self@, self@.len(), w).to_set() == self.files_with(w),
            forall|x: usize| #[trigger] ids_below(self@, self@.len(), w).contains(x) ==> x < self@.len(),
    {
        lemma_ids_below(self@, self@.len(), w);
        assert(ids_below(self@, self@.len(), w).to_set() =~= self.files_with(w));
    }
}

impl WordIndex {
    proof fn lemma_fold_in_range(&self, r: Option<Set<usize>>, parts: Seq<Seq<char>>)
        requires
            r matches Some(s) ==> forall|i: usize| #[trigger] s.contains(i) ==> i < self@.len(),
        ensures
            self.partial_fold(r, parts) matches Some(s) ==> forall|i: usize| #[trigger] s.contains(
                i,
            ) ==> i < self@.len(),
        decreases parts.len(),
    {
        if parts.len() > 0 {
            self.lemma_fold_in_range(r, parts.drop_last());
        }
    }

    /// Every file of the index is found by a search for any word of its
    /// path, when the search does not cap its results below the number of
    /// files; so a file just added is found under each of its words.
    pub proof fn law_file_found_by_its_words(&self, i: usize, w: Seq<char>, max: nat)
        requires
            self.wf(),
            i < self@.len(),
            path_words(self@[i as int].path@).contains(w),
            max >= self@.len(),
        ensures
            self.search_result(seq![w], Seq::empty(), Seq::empty(), max) matches Some(r) && r.contains(i),
    {
        let inc = seq![w];
        let ids = ids_below(self@, self@.len(), w);
        lemma_ids_below(self@, self@.len(), w);
        lemma_ids_below_len(self@, self@.len(), w);
        assert(has_word(self@, i as int, w));
        assert(ids.contains(i));
        assert(ids.take(ids.len() as int) =~= ids);
        let a = self.start_set(inc, 0, max);
        assert(a == ids.to_set());
        assert(a.contains(i));
        assert(a != Set::<usize>::empty());
        let none: Seq<Seq<char>> = Seq::empty();
        assert(self.partial_fold(Some(a), none) == Some(a));
        assert(self.files_with_any(none) =~= Set::<usize>::empty());
        assert(a.difference(self.files_with_any(none)) =~= a);
    }

    proof fn lemma_fold_narrows(&self, a: Set<usize>, parts: Seq<Seq<char>>)
        ensures
            self.partial_fold(Some(a), parts) matches Some(r) ==> r.subset_of(a) && forall|k: int|
                0 <= k < parts.len() ==> r.subset_of(self.files_with_prefix(#[trigger] parts[k])),
        decreases parts.len(),
    {
        if parts.len() > 0 {
            let init = parts.drop_last();
            self.lemma_fold_narrows(a, init);
            match self.partial_fold(Some(a), parts) {
                Some(r) => {
                    let s = self.partial_fold(Some(a), init)->0;
                    assert(r == s.intersect(self.files_with_prefix(parts.last())));
                    assert forall|k: int| 0 <= k < parts.len() implies r.subset_of(
                        self.files_with_prefix(#[trigger] parts[k]),
                    ) by {
                        if k < parts.len() - 1 {
                            assert(parts[k] == init[k]);
                            assert(s.subset_of(self.files_with_prefix(init[k])));
                        }
                    }
                },
                None => {},
            }
        }
    }

    /// A search needs an included word (partial words alone give nothing);
    /// it gives only files of the index, none holding an excluded word, and
    /// every file it gives holds every included word and, for each partial
    /// word, a word beginning with it.
    pub proof fn law_search_results_match(
        &self,
        inc: Seq<Seq<char>>,
        exc: Seq<Seq<char>>,
        part: Seq<Seq<char>>,
        max: nat,
    )
        requires
            self.wf(),
        ensures
            inc.len() == 0 ==> self.search_result(inc, exc, part, max) is None,
            self.search_result(inc, exc, part, max) matches Some(r) ==> forall|i: usize|
                #[trigger] r.contains(i) ==> i < self@.len() && forall|k: int|
                    0 <= k < exc.len() ==> !has_word(self@, i as int, #[trigger] exc[k]),
            self.search_result(inc, exc, part, max) matches Some(r) ==> forall|i: usize|
                #[trigger] r.contains(i) ==> (forall|k: int|
                    0 <= k < inc.len() ==> has_word(self@, i as int, #[trigger] inc[k])) && (
                forall|k: int| 0 <= k < part.len() ==> #[trigger] self.files_with_prefix(
                    part[k],
                ).contains(i)),
    {
        if inc.len() > 0 {
            let a = self.start_set(inc, part.len(), max);
            assert forall|i: usize| #[trigger] a.contains(i) implies i < self@.len() && (
            forall|k: int| 0 <= k < inc.len() ==> has_word(self@, i as int, #[trigger] inc[k])) by {
                if inc.len() == 1 && part.len() == 0 {
                    let ids = ids_below(self@, self@.len(), inc[0]);
                    let m = if max < ids.len() {
                        max as int
                    } else {
                        ids.len() as int
                    };
                    lemma_ids_below(self@, self@.len(), inc[0]);
                    let t = ids.take(m);
                    let q = choose|q: int| 0 <= q < t.len() && t[q] == i;
                    assert(ids[q] == i);
                    assert(ids.contains(i));
                    assert forall|k: int| 0 <= k < inc.len() implies has_word(self@, i as int, #[trigger] inc[k]) by {
                        assert(k == 0);
                    }
                }
            }
            self.lemma_fold_in_range(Some(a), part);
            self.lemma_fold_narrows(a, part);
            match self.partial_fold(Some(a), part) {
                Some(r) => {
                    let f = r.difference(self.files_with_any(exc));
                    assert forall|i: usize| #[trigger] f.contains(i) implies (forall|k: int|
                        0 <= k < inc.len() ==> has_word(self@, i as int, #[trigger] inc[k])) && (
                    forall|k: int| 0 <= k < part.len() ==> #[trigger] self.files_with_prefix(
                        part[k],
                    ).contains(i)) by {
                        assert(r.contains(i));
                        assert(a.contains(i));
                        assert forall|k: int| 0 <= k < part.len() implies #[trigger] self.files_with_prefix(
                            part[k],
                        ).contains(i) by {
                            assert(r.subset_of(self.files_with_prefix(part[k])));
                        }
                    }
                    assert forall|i: usize| #[trigger] f.contains(i) implies forall|k: int|
                        0 <= k < exc.len() ==> !has_word(self@, i as int, #[trigger] exc[k]) by {
                        assert(r.contains(i));
                        assert(i < self@.len());
                        if exists|k: int| 0 <= k < exc.len() && has_word(self@, i as int, #[trigger] exc[k]) {
                            assert(self.files_with_any(exc).contains(i));
                        }
                    }
                },
                None => {},
            }
        }
    }
}

impl WordIndex {
    /// The words of the index, in the order they were first seen.
    pub closed spec fn words(&self) -> Seq<Seq<char>> {
        self.index@.map_values(|e: WordEntry| e.word@)
    }

    /// Internal consistency of the index.
    pub closed spec fn wf(&self) -> bool {
        &&& self.files@.len() <= usize::MAX
        &&& forall|j: int|
            0 <= j < self.index@.len() ==> #[trigger] self.index@[j].files@ == ids_below(
                self.files@,
                self.files@.len(),
                self.index@[j].word@,
            )
        &&& forall|i: int, w: Seq<char>|
            0 <= i < self.files@.len() && #[trigger] has_word(self.files@, i, w) ==> exists|
                j: int,
            |
                0 <= j < self.index@.len() && #[trigger] self.index@[j].word@ == w
        &&& forall|j: int| 0 <= j < self.index@.len() ==> #[trigger] self.index@[j].files@.len() > 0
        &&& forall|j: int, k: int|
            0 <= j < k < self.index@.len() ==> #[trigger] self.index@[j].word@
                != #[trigger] self.index@[k].word@
    }

    /// The files (as indices) that contain the word `w`.
    pub open spec fn files_with(&self, w: Seq<char>) -> Set<usize> {
        Set::new(|i: usize| i < self@.len() && has_word(self@, i as int, w))
    }

    /// The files that contain every word of `ws`.
    pub open spec fn files_with_all(&self, ws: Seq<Seq<char>>) -> Set<usize> {
        Set::new(
            |i: usize|
                i < self@.len() && forall|k: int|
                    0 <= k < ws.len() ==> #[trigger] has_word(self@, i as int, ws[k]),
        )
    }

    /// The files that contain some word of `ws`.
    pub open spec fn files_with_any(&self, ws: Seq<Seq<char>>) -> Set<usize> {
        Set::new(
            |i: usize|
                i < self@.len() && exists|k: int|
                    0 <= k < ws.len() && #[trigger] has_word(self@, i as int, ws[k]),
        )
    }

    /// The files that contain a word beginning with `p`.
    pub open spec fn files_with_prefix(&self, p: Seq<char>) -> Set<usize> {
        Set::new(
            |i: usize|
                i < self@.len() && exists|w: Seq<char>|
                    #[trigger] has_word(self@, i as int, w) && p.is_prefix_of(w),
        )
    }

    /// The set a search starts from: for a single-word search the first
    /// `max` files with the word (ascending index), otherwise the files with
    /// every included word.
    pub open spec fn start_set(&self, inc: Seq<Seq<char>>, n_partial: nat, max: nat) -> Set<
        usize,
    > {
        if inc.len() == 1 && n_partial == 0 {
            let ids = ids_below(self@, self@.len(), inc[0]);
            ids.take(if max < ids.len() {
                max as int
            } else {
                ids.len() as int
            }).to_set()
        } else {
            self.files_with_all(inc)
        }
    }

    /// Narrowing by one partial word: no match at all, or nothing left to
    /// narrow, ends the search; otherwise the set is intersected with the
    /// matches.
    pub open spec fn partial_step(&self, r: Option<Set<usize>>, p: Seq<char>) -> Option<
        Set<usize>,
    > {
        match r {
            None => None,
            Some(s) => {
                let pr = self.files_with_prefix(p);
                if pr == Set::<usize>::empty() || s == Set::<usize>::empty() {
                    None
                } else {
                    Some(s.intersect(pr))
                }
            },
        }
    }

    /// `partial_step` applied to each partial word in turn.
    pub open spec fn partial_fold(&self, r: Option<Set<usize>>, parts: Seq<Seq<char>>) -> Option<
        Set<usize>,
    >
        decreases parts.len(),
    {
        if parts.len() == 0 {
            r
        } else {
            self.partial_step(self.partial_fold(r, parts.drop_last()), parts.last())
        }
    }

    /// The result of a search, as a set of file indices.
    pub open spec fn search_result(
        &self,
        inc: Seq<Seq<char>>,
        exc: Seq<Seq<char>>,
        part: Seq<Seq<char>>,
        max: nat,
    ) -> Option<Set<usize>> {
        if inc.len() == 0 {
            None
        } else {
            let a = self.start_set(inc, part.len(), max);
            if a == Set::<usize>::empty() {
                None
            } else {
                match self.partial_fold(Some(a), part) {
                    None => None,
                    Some(r) => {
                        let f = r.difference(self.files_with_any(exc));
                        if f == Set::<usize>::empty() {
                            None
                        } else {
                            Some(f)
                        }
                    },
                }
            }
        }
    }

    /// Create a new empty word index.
    pub fn new() -> (r: WordIndex)
        ensures
            r.wf(),
            r@ == Seq::<IndexedFile>::empty(),
    {
        WordIndex { index: Vec::new(), files: Vec::new() }
    }

    /// Extract lowercase words from a path, splitting on non-alphanumeric chars.
    pub fn extract_words(path: &str) -> (words: Vec<String>)
        ensures
            strings_view(words@) == path_words(path@),
    {
        let lower = to_lowercase(path);
        let cs = chars_of(lower.as_str());
        let mut out: Vec<String> = Vec::new();
        let mut cur = String::new();
        let mut ncur: usize = 0;
        let mut first: char = ' ';
        let mut i: usize = 0;
        assert(cs@.skip(0) =~= cs@);
        while i < cs.len()
            invariant
                i <= cs.len(),
                cs@ == spec_lowercase(path@),
                ncur == cur@.len(),
                ncur <= i,
                ncur > 0 ==> first == cur@[0],
                words_from(cs@, Seq::empty()) == strings_view(out@) + words_from(
                    cs@.skip(i as int),
                    cur@,
                ),
            decreases cs.len() - i,
        {
            let c = cs[i];
            let ghost rest = cs@.skip(i as int);
            assert(rest[0] == c);
            assert(rest.drop_first() =~= cs@.skip(i + 1));
            if is_alphanumeric(c) {
                assert(words_from(rest, cur@) == words_from(rest.drop_first(), cur@.push(c)));
                if ncur == 0 {
                    first = c;
                }
                cur.push(c);
                ncur = ncur + 1;
            } else {
                let ghost before = strings_view(out@);
                let ghost cw = cur@;
                assert(words_from(rest, cw) == emit_word(cw) + words_from(
                    rest.drop_first(),
                    Seq::empty(),
                ));
                proof {
                    lemma_utf8_longer_than_one(cw);
                }
                if ncur >= 2 || (ncur == 1 && (first as u32) >= 0x80) {
                    assert(emit_word(cw) == seq![cw]);
                    out.push(cur);
                    assert(strings_view(out@) =~= before.push(cw));
                    assert(before.push(cw) + words_from(rest.drop_first(), Seq::empty())
                        =~= before + (seq![cw] + words_from(rest.drop_first(), Seq::empty())));
                } else {
                    assert(emit_word(cw) =~= Seq::<Seq<char>>::empty());
                    assert(emit_word(cw) + words_from(rest.drop_first(), Seq::empty())
                        =~= words_from(rest.drop_first(), Seq::empty()));
                }
                cur = String::new();
                ncur = 0;
            }
            i = i + 1;
        }
        assert(cs@.skip(i as int) =~= Seq::<char>::empty());
        let ghost before = strings_view(out@);
        let ghost cw = cur@;
        assert(words_from(cs@.skip(i as int), cw) == emit_word(cw));
        proof {
            lemma_utf8_longer_than_one(cw);
        }
        if ncur >= 2 || (ncur == 1 && (first as u32) >= 0x80) {
            out.push(cur);
            assert(strings_view(out@) =~= before.push(cw));
            assert(before + emit_word(cw) =~= before.push(cw));
        } else {
            assert(before + emit_word(cw) =~= before);
        }
        assert(strings_view(out@) =~= words_from(cs@, Seq::empty()));
        out
    }

    /// The position of the entry for `w`, if any.
    fn find_word(&self, w: &String) -> (r: Option<usize>)
        ensures
            match r {
                Some(j) => j < self.index@.len() && self.index@[j as int].word@ == w@,
                None => forall|l: int| 0 <= l < self.index@.len() ==> self.index@[l].word@ != w@,
            },
    {
        let mut j: usize = 0;
        while j < self.index.len()
            invariant
                j <= self.index.len(),
                forall|l: int| 0 <= l < j ==> self.index@[l].word@ != w@,
            decreases self.index.len() - j,
        {
            if self.index[j].word == *w {
                return Some(j);
            }
            j = j + 1;
        }
        None
    }


    /// The files (ascending) that contain the word `w`.
    fn lookup(&self, w: &String) -> (r: Vec<usize>)
        requires
            self.wf(),
        ensures
            r@ == ids_below(self@, self@.len(), w@),
    {
        match self.find_word(w) {
            Some(j) => copy_ids(&self.index[j].files),
            None => {
                proof {
                    assert forall|i: int| 0 <= i < self.files@.len() implies !has_word(
                        self.files@,
                        i,
                        w@,
                    ) by {
                        if has_word(self.files@, i, w@) {
                            let j = choose|j: int|
                                0 <= j < self.index@.len() && #[trigger] self.index@[j].word@ == w@;
                        }
                    }
                    lemma_ids_below_none(self.files@, self.files@.len(), w@);
                }
                Vec::new()
            },
        }
    }

    /// The files (as a list) that contain a word beginning with `p`.
    fn prefix_ids(&self, p: &String) -> (r: Vec<usize>)
        requires
            self.wf(),
        ensures
            r@.to_set() == self.files_with_prefix(p@),
    {
        let pc = chars_of(p.as_str());
        let n = self.files.len();
        let mut marks: Vec<bool> = Vec::new();
        let mut i: usize = 0;
        while i < n
            invariant
                n == self.files@.len(),
                i <= n,
                marks@.len() == i,
                forall|k: int| 0 <= k < i ==> !marks@[k],
            decreases n - i,
        {
            marks.push(false);
            i = i + 1;
        }
        let mut j: usize = 0;
        while j < self.index.len()
            invariant
                self.wf(),
                n == self.files@.len(),
                pc@ == p@,
                marks@.len() == n,
                j <= self.index@.len(),
                forall|k: int|
                    0 <= k < n ==> (#[trigger] marks@[k] <==> exists|l: int|
                        0 <= l < j && pc@.is_prefix_of(self.index@[l].word@)
                            && #[trigger] has_word(self.files@, k, self.index@[l].word@)),
            decreases self.index@.len() - j,
        {
            let wc = chars_of(self.index[j].word.as_str());
            let ghost w = self.index@[j as int].word@;
            let ghost m0 = marks@;
            if chars_start_with(&wc, &pc) {
                let ids = &self.index[j].files;
                proof {
                    lemma_ids_below(self.files@, self.files@.len(), w);
                }
                let mut t: usize = 0;
                while t < ids.len()
                    invariant
                        self.wf(),
                        n == self.files@.len(),
                        ids@ == ids_below(self.files@, n as nat, w),
                        forall|x: usize| #[trigger] ids@.contains(x) <==> (x < n && has_word(self.files@, x as int, w)),
                        marks@.len() == n,
                        t <= ids.len(),
                        forall|k: int|
                            0 <= k < n ==> (#[trigger] marks@[k] <==> (m0[k] || ids@.take(t as int).contains(k as usize))),
                    decreases ids.len() - t,
                {
                    let id = ids[t];
                    assert(ids@.contains(id));
                    let ghost mb = marks@;
                    marks.set(id, true);
                    assert forall|k: int| 0 <= k < n implies (#[trigger] marks@[k] <==> (m0[k] || ids@.take(t + 1).contains(k as usize))) by {
                        assert(ids@.take(t + 1) =~= ids@.take(t as int).push(id));
                        vstd::seq_lib::lemma_seq_contains_after_push(ids@.take(t as int), id, k as usize);
                    }
                    t = t + 1;
                }
                assert(ids@.take(t as int) =~= ids@);
            }
            assert forall|k: int|
                0 <= k < n implies (#[trigger] marks@[k] <==> exists|l: int|
                    0 <= l < j + 1 && pc@.is_prefix_of(self.index@[l].word@)
                        && #[trigger] has_word(self.files@, k, self.index@[l].word@)) by {
                if pc@.is_prefix_of(w) && has_word(self.files@, k, w) {
                    assert(0 <= j < j + 1);
                }
            }
            j = j + 1;
        }
        let mut r: Vec<usize> = Vec::new();
        let mut k: usize = 0;
        while k < n
            invariant
                self.wf(),
                n == self.files@.len(),
                marks@.len() == n,
                k <= n,
                j == self.index@.len(),
                forall|x: int|
                    0 <= x < n ==> (#[trigger] marks@[x] <==> exists|l: int|
                        0 <= l < j && pc@.is_prefix_of(self.index@[l].word@)
                            && #[trigger] has_word(self.files@, x, self.index@[l].word@)),
                forall|x: usize| #[trigger] r@.contains(x) <==> (x < k && marks@[x as int]),
            decreases n - k,
        {
            let ghost r0 = r@;
            if marks[k] {
                r.push(k);
            }
            assert forall|x: usize| #[trigger] r@.contains(x) <==> (x < k + 1 && marks@[x as int]) by {
                vstd::seq_lib::lemma_seq_contains_after_push(r0, k, x);
            }
            k = k + 1;
        }
        assert forall|x: usize| #[trigger] r@.to_set().contains(x) <==> self.files_with_prefix(p@).contains(x) by {
            if self.files_with_prefix(p@).contains(x) {
                let w = choose|w: Seq<char>| #[trigger] has_word(self@, x as int, w) && p@.is_prefix_of(w);
                let l = choose|l: int| 0 <= l < self.index@.len() && #[trigger] self.index@[l].word@ == w;
                assert(has_word(self.files@, x as int, self.index@[l].word@));
            }
        }
        assert(r@.to_set() =~= self.files_with_prefix(p@));
        r
    }


    /// Search the index for files matching the given terms.
    ///
    /// - `included`: words that MUST appear in results (AND logic)
    /// - `excluded`: words that must NOT appear (subtracted from results)
    /// - `partial`: word beginnings (e.g. `flo` matches `floyd`)
    /// - `max_results`: cap on results for single-word searches
    ///
    /// Returns indices of matching files, or None if no matches. At least one
    /// included word is required: partial words alone give nothing.
    pub fn search(
        &self,
        included: &[String],
        excluded: &[String],
        partial: &[String],
        max_results: usize,
    ) -> (r: Option<HashSet<usize>>)
        requires
            self.wf(),
        ensures
            (match r {
                Some(h) => Some(h@),
                None => None,
            }) == self.search_result(
                strings_view(included@),
                strings_view(excluded@),
                strings_view(partial@),
                max_results as nat,
            ),
    {
        let ghost inc = strings_view(included@);
        let ghost exc = strings_view(excluded@);
        let ghost part = strings_view(partial@);
        assert(inc.len() == included@.len());
        assert(exc.len() == excluded@.len());
        assert(part.len() == partial@.len());
        if included.len() == 0 {
            return None;
        }
        let single = included.len() == 1 && partial.len() == 0;
        let first = self.lookup(&included[0]);
        proof {
            self.lemma_ids_with(inc[0]);
        }
        let mut results: Vec<usize> = if single {
            take_ids(&first, max_results)
        } else {
            first
        };
        let ghost a = self.start_set(inc, part.len(), max_results as nat);
        assert(inc.take(1) =~= seq![inc[0]]);
        assert forall|i: usize| #[trigger] self.files_with_all(inc.take(1)).contains(i) <==> self.files_with(inc[0]).contains(i) by {
            if self.files_with(inc[0]).contains(i) {
                assert forall|m: int| 0 <= m < 1 implies #[trigger] has_word(self@, i as int, inc.take(1)[m]) by {
                    assert(inc.take(1)[m] == inc[0]);
                }
            }
            if self.files_with_all(inc.take(1)).contains(i) {
                assert(has_word(self@, i as int, inc.take(1)[0]));
            }
        }
        assert(self.files_with_all(inc.take(1)) =~= self.files_with(inc[0]));
        let mut k: usize = 1;
        while k < included.len()
            invariant
                self.wf(),
                inc == strings_view(included@),
                part == strings_view(partial@),
                1 <= k <= included@.len(),
                single == (included@.len() == 1 && partial@.len() == 0),
                a == self.start_set(inc, part.len(), max_results as nat),
                single ==> results@.to_set() == a,
                !single ==> results@.to_set() == self.files_with_all(inc.take(k as int)),
                k > 1 ==> results@.to_set() != Set::<usize>::empty(),
            decreases included.len() - k,
        {
            let other = self.lookup(&included[k]);
            proof {
                self.lemma_ids_with(inc[k as int]);
                assert(self.files_with_all(inc.take(k + 1)) =~= self.files_with_all(
                    inc.take(k as int),
                ).intersect(self.files_with(inc[k as int]))) by {
                    assert forall|i: usize|
                        self.files_with_all(inc.take(k + 1)).contains(i) <==> (self.files_with_all(
                            inc.take(k as int),
                        ).contains(i) && self.files_with(inc[k as int]).contains(i)) by {
                        if self.files_with_all(inc.take(k as int)).contains(i) && self.files_with(
                            inc[k as int],
                        ).contains(i) {
                            assert forall|m: int| 0 <= m < k + 1 implies #[trigger] has_word(
                                self@,
                                i as int,
                                inc.take(k + 1)[m],
                            ) by {
                                if m < k {
                                    assert(inc.take(k + 1)[m] == inc.take(k as int)[m]);
                                }
                            }
                        }
                        if self.files_with_all(inc.take(k + 1)).contains(i) {
                            assert(has_word(self@, i as int, inc.take(k + 1)[k as int]));
                            assert forall|m: int| 0 <= m < k implies #[trigger] has_word(
                                self@,
                                i as int,
                                inc.take(k as int)[m],
                            ) by {
                                assert(has_word(self@, i as int, inc.take(k + 1)[m]));
                            }
                        }
                    }
                }
            }
            results = keep_common(&results, &other);
            proof {
                lemma_to_set_empty(results@);
            }
            if results.len() == 0 {
                proof {
                    assert(self.files_with_all(inc) =~= Set::<usize>::empty()) by {
                        assert forall|i: usize| !self.files_with_all(inc).contains(i) by {
                            if self.files_with_all(inc).contains(i) {
                                assert forall|m: int| 0 <= m < k + 1 implies #[trigger] has_word(
                                    self@,
                                    i as int,
                                    inc.take(k + 1)[m],
                                ) by {
                                    assert(has_word(self@, i as int, inc[m]));
                                }
                                assert(self.files_with_all(inc.take(k + 1)).contains(i));
                            }
                        }
                    }
                    assert(a == self.files_with_all(inc));
                }
                return None;
            }
            k = k + 1;
        }
        assert(inc.take(included.len() as int) =~= inc);
        assert(results@.to_set() == a);
        proof {
            lemma_to_set_empty(results@);
        }
        if results.len() == 0 {
            return None;
        }
        assert(a != Set::<usize>::empty());
        let ghost start = Some(a);
        assert(part.take(0) =~= Seq::<Seq<char>>::empty());
        let mut j: usize = 0;
        while j < partial.len()
            invariant
                self.wf(),
                part == strings_view(partial@),
                inc == strings_view(included@),
                exc == strings_view(excluded@),
                included@.len() > 0,
                a == self.start_set(inc, part.len(), max_results as nat),
                start == Some(a),
                a != Set::<usize>::empty(),
                j <= partial@.len(),
                Some(results@.to_set()) == self.partial_fold(start, part.take(j as int)),
            decreases partial.len() - j,
        {
            let pr = self.prefix_ids(&partial[j]);
            assert(part.take(j + 1).drop_last() =~= part.take(j as int));
            assert(part.take(j + 1).last() == part[j as int]);
            proof {
                lemma_to_set_empty(pr@);
                lemma_to_set_empty(results@);
            }
            if pr.len() == 0 {
                proof {
                    self.lemma_partial_fold_stays_none(start, part, j + 1);
                    assert(self.partial_fold(start, part) is None);
                    assert(self.search_result(inc, exc, part, max_results as nat) is None);
                }
                return None;
            }
            if results.len() == 0 {
                proof {
                    self.lemma_partial_fold_stays_none(start, part, j + 1);
                    assert(self.search_result(inc, exc, part, max_results as nat) is None);
                }
                return None;
            }
            results = keep_common(&results, &pr);
            j = j + 1;
        }
        assert(part.take(partial.len() as int) =~= part);
        let ghost r0 = results@.to_set();
        assert(exc.take(0) =~= Seq::<Seq<char>>::empty());
        assert(self.files_with_any(exc.take(0)) =~= Set::<usize>::empty());
        assert(r0.difference(Set::<usize>::empty()) =~= r0);
        let mut e: usize = 0;
        while e < excluded.len()
            invariant
                self.wf(),
                part == strings_view(partial@),
                inc == strings_view(included@),
                exc == strings_view(excluded@),
                included@.len() > 0,
                a == self.start_set(inc, part.len(), max_results as nat),
                start == Some(a),
                a != Set::<usize>::empty(),
                Some(r0) == self.partial_fold(start, part),
                e <= excluded@.len(),
                results@.to_set() == r0.difference(self.files_with_any(exc.take(e as int))),
            decreases excluded.len() - e,
        {
            let other = self.lookup(&excluded[e]);
            proof {
                self.lemma_ids_with(exc[e as int]);
                assert(self.files_with_any(exc.take(e + 1)) =~= self.files_with_any(
                    exc.take(e as int),
                ).union(self.files_with(exc[e as int]))) by {
                    assert forall|i: usize|
                        self.files_with_any(exc.take(e + 1)).contains(i) <==> (self.files_with_any(
                            exc.take(e as int),
                        ).contains(i) || self.files_with(exc[e as int]).contains(i)) by {
                        if self.files_with_any(exc.take(e + 1)).contains(i) {
                            let m = choose|m: int|
                                0 <= m < e + 1 && #[trigger] has_word(self@, i as int, exc.take(e + 1)[m]);
                            if m < e {
                                assert(has_word(self@, i as int, exc.take(e as int)[m]));
                            }
                        }
                        if self.files_with_any(exc.take(e as int)).contains(i) {
                            let m = choose|m: int|
                                0 <= m < e && #[trigger] has_word(self@, i as int, exc.take(e as int)[m]);
                            assert(has_word(self@, i as int, exc.take(e + 1)[m]));
                        }
                        if self.files_with(exc[e as int]).contains(i) {
                            assert(has_word(self@, i as int, exc.take(e + 1)[e as int]));
                        }
                    }
                }
            }
            results = remove_all(&results, &other);
            assert(results@.to_set() =~= r0.difference(self.files_with_any(exc.take(e + 1))));
            proof {
                lemma_to_set_empty(results@);
            }
            if results.len() == 0 {
                proof {
                    assert(r0.difference(self.files_with_any(exc)) =~= Set::<usize>::empty()) by {
                        assert forall|i: usize| !r0.difference(self.files_with_any(exc)).contains(i) by {
                            if r0.contains(i) && !self.files_with_any(exc).contains(i) {
                                if self.files_with_any(exc.take(e + 1)).contains(i) {
                                    let m = choose|m: int|
                                        0 <= m < e + 1 && #[trigger] has_word(self@, i as int, exc.take(e + 1)[m]);
                                    assert(has_word(self@, i as int, exc[m]));
                                    assert(self.files_with_any(exc).contains(i));
                                } else {
                                    assert(results@.to_set().contains(i));
                                }
                            }
                        }
                    }
                    assert(self.search_result(inc, exc, part, max_results as nat) is None);
                }
                return None;
            }
            e = e + 1;
        }
        assert(exc.take(excluded.len() as int) =~= exc);
        proof {
            lemma_to_set_empty(results@);
        }
        if results.len() == 0 {
            return None;
        }
        let mut out: HashSet<usize> = HashSet::new();
        let mut t: usize = 0;
        while t < results.len()
            invariant
                t <= results.len(),
                out@ == results@.take(t as int).to_set(),
            decreases results.len() - t,
        {
            let x = results[t];
            out.insert(x);
            proof {
                assert(results@.take(t + 1) =~= results@.take(t as int).push(x));
                results@.take(t as int).lemma_push_to_set_commute(x);
            }
            t = t + 1;
        }
        assert(results@.take(t as int) =~= results@);
        Some(out)
    }


    /// The words occurring in some indexed path.
    pub open spec fn all_words_spec(&self) -> Set<Seq<char>> {
        Set::new(|w: Seq<char>| exists|i: int| 0 <= i < self@.len() && #[trigger] has_word(self@, i, w))
    }

    /// Clear the entire index.
    pub fn clear(&mut self)
        ensures
            final(self).wf(),
            final(self)@ == Seq::<IndexedFile>::empty(),
    {
        self.index.clear();
        self.files.clear();
    }

    /// Get a file by its index.
    pub fn get(&self, idx: usize) -> (r: Option<&IndexedFile>)
        ensures
            match r {
                Some(f) => idx < self@.len() && *f == self@[idx as int],
                None => idx >= self@.len(),
            },
    {
        if idx < self.files.len() {
            Some(&self.files[idx])
        } else {
            None
        }
    }

    /// Get all files matching given indices, in ascending index order.
    pub fn get_many(&self, indices: &HashSet<usize>) -> (r: Vec<&IndexedFile>)
        ensures
            r@.len() == ids_in(indices@, self@.len()).len(),
            forall|k: int|
                0 <= k < r@.len() ==> *r@[k] == self@[#[trigger] ids_in(indices@, self@.len())[k] as int],
    {
        let mut r: Vec<&IndexedFile> = Vec::new();
        let mut i: usize = 0;
        while i < self.files.len()
            invariant
                i <= self@.len(),
                r@.len() == ids_in(indices@, i as nat).len(),
                forall|k: int|
                    0 <= k < r@.len() ==> *r@[k] == self@[#[trigger] ids_in(indices@, i as nat)[k] as int],
            decreases self@.len() - i,
        {
            let ghost r0 = r@;
            let ghost prev = ids_in(indices@, i as nat);
            if indices.contains(&i) {
                r.push(&self.files[i]);
                assert(ids_in(indices@, (i + 1) as nat) == prev.push(i));
                assert forall|k: int|
                    0 <= k < r@.len() implies *r@[k] == self@[#[trigger] ids_in(indices@, (i + 1) as nat)[k] as int] by {
                    if k < r0.len() {
                        assert(r@[k] == r0[k]);
                    }
                }
            }
            i = i + 1;
        }
        r
    }

    /// All words in the index, each once (in no particular order).
    pub fn all_words(&self) -> (r: Vec<String>)
        requires
            self.wf(),
        ensures
            strings_view(r@).no_duplicates(),
            strings_view(r@).to_set() == self.all_words_spec(),
    {
        let mut r: Vec<String> = Vec::new();
        let mut j: usize = 0;
        while j < self.index.len()
            invariant
                j <= self.index@.len(),
                strings_view(r@) == self.words().take(j as int),
            decreases self.index@.len() - j,
        {
            let w = self.index[j].word.clone();
            let ghost before = strings_view(r@);
            r.push(w);
            assert(strings_view(r@) =~= before.push(self.index@[j as int].word@));
            assert(self.words().take(j + 1) =~= self.words().take(j as int).push(self.index@[j as int].word@));
            j = j + 1;
        }
        assert(self.words().take(j as int) =~= self.words());
        proof {
            assert forall|w: Seq<char>| #[trigger] self.words().to_set().contains(w) <==> self.all_words_spec().contains(w) by {
                if self.words().to_set().contains(w) {
                    let l = choose|l: int| 0 <= l < self.words().len() && self.words()[l] == w;
                    assert(self.index@[l].word@ == w);
                    let ids = self.index@[l].files@;
                    lemma_ids_below(self.files@, self.files@.len(), w);
                    assert(ids.contains(ids[0]));
                    assert(has_word(self@, ids[0] as int, w));
                }
                if self.all_words_spec().contains(w) {
                    let i = choose|i: int| 0 <= i < self@.len() && #[trigger] has_word(self@, i, w);
                    let l = choose|l: int| 0 <= l < self.index@.len() && #[trigger] self.index@[l].word@ == w;
                    assert(self.words()[l] == w);
                }
            }
            assert(self.words().to_set() =~= self.all_words_spec());
            assert forall|a: int, b: int| 0 <= a < self.words().len() && 0 <= b < self.words().len() && a != b implies self.words()[a] != self.words()[b] by {
                if a < b {
                    assert(self.index@[a].word@ != self.index@[b].word@);
                } else {
                    assert(self.index@[b].word@ != self.index@[a].word@);
                }
            }
        }
        r
    }

    /// Total number of files indexed.
    pub fn len(&self) -> (r: usize)
        ensures
            r == self@.len(),
    {
        self.files.len()
    }

    /// Check if index is empty.
    pub fn is_empty(&self) -> (r: bool)
        ensures
            r == (self@.len() == 0),
    {
        self.files.len() == 0
    }

    /// Add a file to the index. The path is lowercased and split into words
    /// (on non-alphanumeric boundaries), then each word maps to this file's index.
    pub fn add_file(&mut self, path: String, size: u64)
        requires
            old(self).wf(),
            old(self)@.len() < usize::MAX,
        ensures
            final(self).wf(),
            final(self)@.len() == old(self)@.len() + 1,
            final(self)@.take(old(self)@.len() as int) == old(self)@,
            final(self)@.last().path@ == path@,
            final(self)@.last().size == size,
            final(self)@.last().extension@ == extension_of(path@),
    {
        let idx = self.files.len();
        let file = IndexedFile::new(path, size);
        let words = Self::extract_words(&file.path);
        let ghost old_files = self.files@;
        let ghost new_files = old_files.push(file);
        let ghost wv = strings_view(words@);
        let mut k: usize = 0;
        while k < words.len()
            invariant
                idx == old_files.len(),
                idx < usize::MAX,
                self.files@ == old_files,
                new_files == old_files.push(file),
                wv == strings_view(words@),
                wv == path_words(file.path@),
                k <= words.len(),
                forall|j: int|
                    0 <= j < self.index@.len() ==> #[trigger] self.index@[j].files@ == ids_below(
                        old_files,
                        old_files.len(),
                        self.index@[j].word@,
                    ) + if wv.take(k as int).contains(self.index@[j].word@) {
                        seq![idx]
                    } else {
                        Seq::empty()
                    },
                forall|i: int, w: Seq<char>|
                    0 <= i < old_files.len() && #[trigger] has_word(old_files, i, w) ==> exists|
                        j: int,
                    |
                        0 <= j < self.index@.len() && #[trigger] self.index@[j].word@ == w,
                forall|m: int|
                    #![trigger wv[m]]
                    0 <= m < k ==> exists|j: int|
                        0 <= j < self.index@.len() && #[trigger] self.index@[j].word@ == wv[m],
                forall|j: int| 0 <= j < self.index@.len() ==> #[trigger] self.index@[j].files@.len() > 0,
                forall|j: int, l: int|
                    0 <= j < l < self.index@.len() ==> #[trigger] self.index@[j].word@
                        != #[trigger] self.index@[l].word@,
            decreases words.len() - k,
        {
            let w = &words[k];
            let ghost ww = w@;
            assert(wv[k as int] == ww);
            assert(wv.take(k + 1) =~= wv.take(k as int).push(ww));
            assert forall|x: Seq<char>| x != ww implies (wv.take(k + 1).contains(x) <==> wv.take(
                k as int,
            ).contains(x)) by {
                if wv.take(k + 1).contains(x) {
                    let m = choose|m: int| 0 <= m < k + 1 && #[trigger] wv.take(k + 1)[m] == x;
                    assert(m < k);
                    assert(wv.take(k as int)[m] == x);
                }
                if wv.take(k as int).contains(x) {
                    let m = choose|m: int| 0 <= m < k && #[trigger] wv.take(k as int)[m] == x;
                    assert(wv.take(k + 1)[m] == x);
                }
            }
            assert(wv.take(k + 1).contains(ww)) by {
                assert(wv.take(k + 1)[k as int] == ww);
            }
            assert(has_word(new_files, idx as int, ww)) by {
                assert(new_files[idx as int] == file);
                assert(path_words(file.path@)[k as int] == ww);
            }
            let ghost pre_index = self.index@;
            let ghost tk = wv.take(k as int);
            let ghost tk1 = wv.take(k + 1);
            match self.find_word(w) {
                Some(j) => {
                    let mut e = self.index.remove(j);
                    let n = e.files.len();
                    let ghost base = ids_below(old_files, old_files.len(), ww);
                    proof {
                        lemma_ids_below(old_files, old_files.len(), ww);
                    }
                    assert(e == pre_index[j as int]);
                    if n > 0 && e.files[n - 1] == idx {
                        assert(tk.contains(ww)) by {
                            if !tk.contains(ww) {
                                assert(e.files@ == base + Seq::<usize>::empty());
                                assert(e.files@ =~= base);
                                assert(base.contains(e.files@[n - 1]));
                            }
                        }
                        assert(e.files@ == base + seq![idx]);
                    } else {
                        assert(!tk.contains(ww)) by {
                            if tk.contains(ww) {
                                assert(e.files@ == base + seq![idx]);
                                assert(e.files@[n - 1] == idx);
                            }
                        }
                        assert(e.files@ =~= base);
                        e.files.push(idx);
                        assert(e.files@ =~= base + seq![idx]);
                    }
                    self.index.insert(j, e);
                    assert(self.index@ =~= pre_index.update(j as int, e));
                    assert forall|l: int| 0 <= l < self.index@.len() implies #[trigger] self.index@[l].word@
                        == pre_index[l].word@ by {}
                    assert forall|l: int| 0 <= l < self.index@.len() implies #[trigger] self.index@[l].files@.len()
                        > 0 by {
                        if l != j {
                            assert(self.index@[l] == pre_index[l]);
                        }
                    }
                    assert forall|l: int| 0 <= l < self.index@.len() implies #[trigger] self.index@[l].files@
                        == ids_below(old_files, old_files.len(), self.index@[l].word@) + if tk1.contains(
                        self.index@[l].word@,
                    ) {
                        seq![idx]
                    } else {
                        Seq::empty()
                    } by {
                        if l != j {
                            assert(pre_index[l].word@ != ww);
                            assert(self.index@[l] == pre_index[l]);
                        }
                    }
                    assert(self.index@[j as int].word@ == wv[k as int]);
                },
                None => {
                    proof {
                        assert forall|i: int| 0 <= i < old_files.len() implies !has_word(
                            old_files,
                            i,
                            ww,
                        ) by {
                            if has_word(old_files, i, ww) {
                                let j = choose|j: int|
                                    0 <= j < self.index@.len() && #[trigger] self.index@[j].word@
                                        == ww;
                            }
                        }
                        lemma_ids_below_none(old_files, old_files.len(), ww);
                    }
                    let mut fs: Vec<usize> = Vec::new();
                    fs.push(idx);
                    let e = WordEntry { word: w.clone(), files: fs };
                    assert(e.files@ =~= ids_below(old_files, old_files.len(), ww) + seq![idx]);
                    self.index.push(e);
                    assert(self.index@ =~= pre_index.push(e));
                    assert forall|l: int| 0 <= l < self.index@.len() implies #[trigger] self.index@[l].files@.len()
                        > 0 by {
                        if l < pre_index.len() {
                            assert(self.index@[l] == pre_index[l]);
                        }
                    }
                    assert forall|l: int| 0 <= l < self.index@.len() implies #[trigger] self.index@[l].files@
                        == ids_below(old_files, old_files.len(), self.index@[l].word@) + if tk1.contains(
                        self.index@[l].word@,
                    ) {
                        seq![idx]
                    } else {
                        Seq::empty()
                    } by {
                        if l < pre_index.len() {
                            assert(pre_index[l].word@ != ww);
                            assert(self.index@[l] == pre_index[l]);
                        }
                    }
                    assert(self.index@[pre_index.len() as int].word@ == wv[k as int]);
                    assert forall|l: int, l2: int|
                        0 <= l < l2 < self.index@.len() implies #[trigger] self.index@[l].word@
                        != #[trigger] self.index@[l2].word@ by {
                        if l2 == pre_index.len() {
                            assert(pre_index[l].word@ != ww);
                        }
                    }
                },
            }
            assert forall|m: int| #![trigger wv[m]] 0 <= m < k + 1 implies exists|j: int|
                0 <= j < self.index@.len() && #[trigger] self.index@[j].word@ == wv[m] by {
                if m < k {
                    let j = choose|j: int| 0 <= j < pre_index.len() && #[trigger] pre_index[j].word@ == wv[m];
                    assert(self.index@[j].word@ == pre_index[j].word@);
                }
            }
            assert forall|i: int, x: Seq<char>|
                0 <= i < old_files.len() && #[trigger] has_word(old_files, i, x) implies exists|j: int|
                0 <= j < self.index@.len() && #[trigger] self.index@[j].word@ == x by {
                let j = choose|j: int| 0 <= j < pre_index.len() && #[trigger] pre_index[j].word@ == x;
                assert(self.index@[j].word@ == pre_index[j].word@);
            }
            k = k + 1;
        }
        self.files.push(file);
        assert(self.files@ == new_files);
        assert(wv.take(words.len() as int) =~= wv);
        assert forall|j: int| 0 <= j < self.index@.len() implies #[trigger] self.index@[j].files@
            == ids_below(self.files@, self.files@.len(), self.index@[j].word@) by {
            let w = self.index@[j].word@;
            lemma_ids_below_frame(old_files, new_files, old_files.len(), w);
            assert(new_files[idx as int] == file);
        }
        assert forall|i: int, w: Seq<char>|
            0 <= i < self.files@.len() && #[trigger] has_word(self.files@, i, w) implies exists|
            j: int,
        |
            0 <= j < self.index@.len() && #[trigger] self.index@[j].word@ == w by {
            if i < old_files.len() {
                assert(new_files[i] == old_files[i]);
                assert(has_word(old_files, i, w));
            } else {
                assert(new_files[i] == file);
                assert(wv.contains(w));
                let m = choose|m: int| 0 <= m < wv.len() && #[trigger] wv[m] == w;
                assert(k == wv.len());
                assert(exists|j: int| 0 <= j < self.index@.len() && #[trigger] self.index@[j].word@ == wv[m]);
            }
        }
        assert(self.files@.take(old_files.len() as int) =~= old_files);
    }
}

} // verus!
