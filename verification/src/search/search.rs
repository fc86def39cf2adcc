//! Bookkeeping of our own searches: the tokens that identify them and the
//! gate that lets responses through, the search history, the wishlist and
//! the phrases the server asks us to keep out of our responses.
//!
//! | Mode       | Server message   | Code | Reaches                        |
//! |------------|------------------|------|--------------------------------|
//! | `global`   | `FileSearch`     | 26   | the whole distributed network  |
//! | `rooms`    | `RoomSearch`     | 120  | every user in one room         |
//! | `buddies`  | `UserSearch`×N   | 42   | each buddy on its own          |
//! | `user`     | `UserSearch`     | 42   | one user                       |
//! | `wishlist` | `WishlistSearch` | 103  | as global, at a limited rate   |

use vstd::prelude::*;
use std::collections::{HashMap, HashSet, VecDeque};
use rand::rngs::ThreadRng;
use rand::Rng;
use crate::clock::secs_since_unix_epoch;
use crate::search::sanitize::SanitizedSearch;
use crate::text::{
    chars_contain, chars_of, decimal, occurs_in, push_decimal, spec_lowercase, strs_view,
    to_lowercase,
};

verus! {

broadcast use vstd::std_specs::hash::group_hash_axioms;

/// Whether `phrase` occurs in `path`, both lowercased.
pub open spec fn phrase_in(path: Seq<char>, phrase: Seq<char>) -> bool {
    occurs_in(spec_lowercase(path), spec_lowercase(phrase))
}

/// Whether one of `phrases` occurs in `path`, all lowercased.
pub open spec fn any_phrase_in(path: Seq<char>, phrases: Seq<Seq<char>>) -> bool {
    exists|k: int| 0 <= k < phrases.len() && #[trigger] phrase_in(path, phrases[k])
}

/// Phrases that must not appear in the paths we answer searches with; the
/// server sends them.
#[derive(Debug, Clone)]
pub struct ExcludedPhrases {
    phrases: Vec<String>,
}

impl View for ExcludedPhrases {
    type V = Seq<Seq<char>>;

    closed spec fn view(&self) -> Seq<Seq<char>> {
        strs_view(self.phrases@)
    }
}

impl Default for ExcludedPhrases {
    fn default() -> (r: Self)
        ensures
            r@ == Seq::<Seq<char>>::empty(),
    {
        ExcludedPhrases::new()
    }
}

impl ExcludedPhrases {
    /// No phrase.
    pub fn new() -> (r: Self)
        ensures
            r@ == Seq::<Seq<char>>::empty(),
    {
        let r = ExcludedPhrases { phrases: Vec::new() };
        assert(r@ =~= Seq::<Seq<char>>::empty());
        r
    }

    /// Replaces the phrases.
    pub fn set(&mut self, phrases: Vec<String>)
        ensures
            final(self)@ == strs_view(phrases@),
    {
        self.phrases = phrases;
    }

    /// Whether one of the phrases occurs in `path`, ignoring case.
    pub fn is_excluded(&self, path: &str) -> (r: bool)
        ensures
            r == any_phrase_in(path@, self@),
    {
        let low = to_lowercase(path);
        let hay = chars_of(low.as_str());
        let mut i: usize = 0;
        while i < self.phrases.len()
            invariant
                i <= self.phrases.len(),
                hay@ == spec_lowercase(path@),
                forall|k: int| 0 <= k < i ==> !#[trigger] phrase_in(path@, self@[k]),
            decreases self.phrases.len() - i,
        {
            let p = to_lowercase(self.phrases[i].as_str());
            let needle = chars_of(p.as_str());
            if chars_contain(&hay, &needle) {
                assert(phrase_in(path@, self@[i as int]));
                return true;
            }
            i = i + 1;
        }
        false
    }

    /// Whether there is no phrase.
    pub fn is_empty(&self) -> (r: bool)
        ensures
            r == (self@.len() == 0),
    {
        self.phrases.is_empty()
    }
}

/// A file offered in a search response.
#[derive(Debug, Clone)]
pub struct FileSearchResult {
    /// Virtual path, with `\` between its parts.
    pub path: String,
    /// Size in bytes.
    pub size: u64,
    /// Whether the peer has an upload slot free now.
    pub free_upload_slots: bool,
    /// The peer's average upload speed, in bytes per second.
    pub upload_speed: u32,
    /// How many files wait before ours in the peer's queue.
    pub queue_size: u32,
}

/// Where a search goes.
#[derive(Debug, Clone, PartialEq)]
pub enum SearchMode {
    /// The whole distributed network (server code 26).
    Global,
    /// Every user in a room (server code 120).
    Room { room: String },
    /// One user (server code 42).
    User { username: String },
    /// A wishlist entry (server code 103).
    Wishlist { wish_id: usize },
}

/// How a search mode is written.
pub open spec fn mode_text(m: SearchMode) -> Seq<char> {
    match m {
        SearchMode::Global => "global"@,
        SearchMode::Room { room } => "room:"@ + room@,
        SearchMode::User { username } => "user:"@ + username@,
        SearchMode::Wishlist { wish_id } => "wishlist:"@ + decimal(wish_id as nat),
    }
}

impl SearchMode {
    /// The mode as it is written: `global`, `room:` and the room,
    /// `user:` and the user, or `wishlist:` and the entry's index.
    pub fn to_string(&self) -> (r: String)
        ensures
            r@ == mode_text(*self),
    {
        match self {
            SearchMode::Global => String::from_str("global"),
            SearchMode::Room { room } => {
                let mut r = String::from_str("room:");
                r.append(room.as_str());
                r
            },
            SearchMode::User { username } => {
                let mut r = String::from_str("user:");
                r.append(username.as_str());
                r
            },
            SearchMode::Wishlist { wish_id } => {
                let mut r = String::from_str("wishlist:");
                push_decimal(&mut r, *wish_id as u64);
                r
            },
        }
    }
}

/// A search we issued.
#[derive(Debug, Clone)]
pub struct SearchRequest {
    pub token: u32,
    pub mode: SearchMode,
    /// The term, taken apart.
    pub sanitized: SanitizedSearch,
}

/// A wishlist entry.
#[derive(Debug, Clone)]
pub struct WishlistItem {
    /// The search term.
    pub term: String,
    /// Whether the entry is searched for automatically.
    pub auto_search: bool,
    /// Whether responses to the entry's search are ignored.
    pub is_ignored: bool,
    /// Filters shown with the entry.
    pub custom_filters: Vec<String>,
    /// Users whose responses are ignored for this entry.
    pub ignored_users: Vec<String>,
    /// When the entry was added, in seconds since the Unix epoch.
    pub time_added: u64,
}

impl WishlistItem {
    /// A new entry for `term`, searched automatically, its responses ignored
    /// until its search starts, added at `time_added`.
    pub fn new_at(term: String, time_added: u64) -> (r: Self)
        ensures
            r.term == term,
            r.auto_search,
            r.is_ignored,
            r.custom_filters@.len() == 0,
            r.ignored_users@.len() == 0,
            r.time_added == time_added,
    {
        WishlistItem {
            term,
            auto_search: true,
            is_ignored: true,
            custom_filters: Vec::new(),
            ignored_users: Vec::new(),
            time_added,
        }
    }

    /// A new entry for `term`, added now.
    pub fn new(term: String) -> (r: Self)
        ensures
            r.term == term,
            r.auto_search,
            r.is_ignored,
            r.custom_filters@.len() == 0,
            r.ignored_users@.len() == 0,
    {
        WishlistItem::new_at(term, secs_since_unix_epoch())
    }
}

/// A wishlist entry whose search is running.
pub open spec fn activated(item: WishlistItem) -> WishlistItem {
    WishlistItem { is_ignored: false, ..item }
}

/// The first index from `i` on of an entry searched automatically, or the
/// length when there is none.
pub open spec fn first_auto_from(w: Seq<WishlistItem>, i: int) -> int
    decreases w.len() - i,
{
    if i < 0 || i >= w.len() {
        w.len() as int
    } else if w[i].auto_search {
        i
    } else {
        first_auto_from(w, i + 1)
    }
}

/// The first index of an entry searched automatically, or the length.
pub open spec fn first_auto(w: Seq<WishlistItem>) -> int {
    first_auto_from(w, 0)
}

proof fn lemma_first_auto_from(w: Seq<WishlistItem>, i: int)
    requires
        0 <= i <= w.len(),
        forall|m: int| 0 <= m < i ==> !(#[trigger] w[m]).auto_search,
    ensures
        first_auto(w) == first_auto_from(w, i),
    decreases i,
{
    if i > 0 {
        lemma_first_auto_from(w, i - 1);
    }
}

/// The most search terms the history keeps.
pub const MAX_SEARCH_HISTORY: usize = 200;

/// `h` without the entries equal to `x`.
pub open spec fn without(h: Seq<Seq<char>>, x: Seq<char>) -> Seq<Seq<char>>
    decreases h.len(),
{
    if h.len() == 0 {
        Seq::empty()
    } else if h.last() == x {
        without(h.drop_last(), x)
    } else {
        without(h.drop_last(), x).push(h.last())
    }
}

/// The history after searching for `term`: `term` first, then the earlier
/// entries other than `term`, keeping no more than `MAX_SEARCH_HISTORY`.
pub open spec fn history_after(h: Seq<Seq<char>>, term: Seq<char>) -> Seq<Seq<char>> {
    let l = seq![term] + without(h, term);
    if l.len() > MAX_SEARCH_HISTORY {
        l.take(MAX_SEARCH_HISTORY as int)
    } else {
        l
    }
}

proof fn lemma_without(h: Seq<Seq<char>>, x: Seq<char>)
    ensures
        !without(h, x).contains(x),
        forall|y: Seq<char>| #[trigger] without(h, x).contains(y) ==> h.contains(y),
        h.no_duplicates() ==> without(h, x).no_duplicates(),
        !h.contains(x) ==> without(h, x) == h,
    decreases h.len(),
{
    if h.len() > 0 {
        let d = h.drop_last();
        let r = without(d, x);
        lemma_without(d, x);
        assert forall|y: Seq<char>| #[trigger] d.contains(y) implies h.contains(y) by {
            let i = choose|i: int| 0 <= i < d.len() && d[i] == y;
            assert(h[i] == y);
        }
        if !h.contains(x) {
            assert(!d.contains(x)) by {
                if d.contains(x) {
                    let i = choose|i: int| 0 <= i < d.len() && d[i] == x;
                    assert(h[i] == x);
                }
            }
            assert(h.last() != x) by {
                if h.last() == x {
                    assert(h[h.len() - 1] == x);
                }
            }
            assert(r.push(h.last()) =~= h);
        }
        if h.last() != x {
            let l = h.last();
            assert(!r.push(l).contains(x)) by {
                if r.push(l).contains(x) {
                    let i = choose|i: int| 0 <= i < r.push(l).len() && r.push(l)[i] == x;
                    if i < r.len() {
                        assert(r[i] == x);
                    }
                }
            }
            assert forall|y: Seq<char>| #[trigger] r.push(l).contains(y) implies h.contains(y) by {
                let i = choose|i: int| 0 <= i < r.push(l).len() && r.push(l)[i] == y;
                if i < r.len() {
                    assert(r.contains(y));
                } else {
                    assert(h[h.len() - 1] == y);
                }
            }
            if h.no_duplicates() {
                assert(d.no_duplicates()) by {
                    assert forall|i: int, j: int|
                        0 <= i < d.len() && 0 <= j < d.len() && i != j implies d[i] != d[j] by {
                        assert(h[i] != h[j]);
                    }
                }
                assert(!r.contains(l)) by {
                    if r.contains(l) {
                        assert(d.contains(l));
                        let i = choose|i: int| 0 <= i < d.len() && d[i] == l;
                        assert(h[i] == h[h.len() - 1]);
                    }
                }
                assert forall|i: int, j: int|
                    0 <= i < r.push(l).len() && 0 <= j < r.push(l).len() && i != j implies r.push(
                    l,
                )[i] != r.push(l)[j] by {
                    if i < r.len() && j < r.len() {
                    } else if i < r.len() {
                        assert(r.contains(r[i]));
                    } else if j < r.len() {
                        assert(r.contains(r[j]));
                    }
                }
            }
        } else {
            if h.no_duplicates() {
                assert(d.no_duplicates()) by {
                    assert forall|i: int, j: int|
                        0 <= i < d.len() && 0 <= j < d.len() && i != j implies d[i] != d[j] by {
                        assert(h[i] != h[j]);
                    }
                }
            }
        }
    }
}

/// Searching for a term puts it first in the history; the history never
/// holds a term twice and never holds more than `MAX_SEARCH_HISTORY` terms;
/// and while there is room, every earlier term other than the new one stays.
pub proof fn law_history_after(h: Seq<Seq<char>>, term: Seq<char>)
    requires
        h.no_duplicates(),
    ensures
        history_after(h, term)[0] == term,
        history_after(h, term).no_duplicates(),
        0 < history_after(h, term).len() <= MAX_SEARCH_HISTORY,
        h.len() < MAX_SEARCH_HISTORY ==> forall|y: Seq<char>|
            #[trigger] h.contains(y) && y != term ==> history_after(h, term).contains(y),
{
    let w = without(h, term);
    lemma_without(h, term);
    let l = seq![term] + w;
    assert(l.no_duplicates()) by {
        assert forall|i: int, j: int|
            0 <= i < l.len() && 0 <= j < l.len() && i != j implies l[i] != l[j] by {
            if i > 0 && j > 0 {
                assert(l[i] == w[i - 1] && l[j] == w[j - 1]);
            } else if i == 0 {
                assert(w.contains(l[j]));
            } else {
                assert(w.contains(l[i]));
            }
        }
    }
    if h.len() < MAX_SEARCH_HISTORY {
        lemma_without_keeps(h, term);
        assert forall|y: Seq<char>| #[trigger] h.contains(y) && y != term implies history_after(
            h,
            term,
        ).contains(y) by {
            assert(w.contains(y));
            let i = choose|i: int| 0 <= i < w.len() && w[i] == y;
            assert(l[i + 1] == y);
            assert(w.len() <= h.len()) by {
                lemma_without_len(h, term);
            }
        }
    }
    if l.len() > MAX_SEARCH_HISTORY {
        let t = l.take(MAX_SEARCH_HISTORY as int);
        assert forall|i: int, j: int|
            0 <= i < t.len() && 0 <= j < t.len() && i != j implies t[i] != t[j] by {
            assert(t[i] == l[i] && t[j] == l[j]);
        }
    }
}

proof fn lemma_without_keeps(h: Seq<Seq<char>>, x: Seq<char>)
    ensures
        forall|y: Seq<char>| #[trigger] h.contains(y) && y != x ==> without(h, x).contains(y),
    decreases h.len(),
{
    if h.len() > 0 {
        let d = h.drop_last();
        lemma_without_keeps(d, x);
        assert forall|y: Seq<char>| #[trigger] h.contains(y) && y != x implies without(
            h,
            x,
        ).contains(y) by {
            let i = choose|i: int| 0 <= i < h.len() && h[i] == y;
            if i < d.len() {
                assert(d[i] == y);
                assert(d.contains(y));
                let r = without(d, x);
                let k = choose|k: int| 0 <= k < r.len() && r[k] == y;
                if h.last() != x {
                    assert(r.push(h.last())[k] == y);
                }
            } else {
                let r = without(d, x);
                assert(r.push(h.last())[r.len() as int] == y);
            }
        }
    }
}

proof fn lemma_without_len(h: Seq<Seq<char>>, x: Seq<char>)
    ensures
        without(h, x).len() <= h.len(),
    decreases h.len(),
{
    if h.len() > 0 {
        lemma_without_len(h.drop_last(), x);
    }
}

/// A token's responses are let through once `allow_token` has opened it,
/// and no longer once `disallow_token` or `remove_search` has closed it;
/// closing one token leaves the others as they were.
pub proof fn law_token_gate(s: SearchStateView, t: u32, other: u32)
    requires
        other != t,
    ensures
        s.allowed.insert(t).contains(t),
        !s.allowed.remove(t).contains(t),
        !s.allowed.insert(t).remove(t).contains(t),
        s.allowed.remove(t).contains(other) == s.allowed.contains(other),
        s.allowed.insert(t).contains(other) == s.allowed.contains(other),
{
}

/// The counter after handing out one more token: one more, from the largest
/// value back to 0.
pub open spec fn next_counter(c: u32) -> u32 {
    if c == u32::MAX {
        0
    } else {
        (c + 1) as u32
    }
}

/// Each token handed out differs from the one before it: the counter moves
/// one on, from the largest value back to 0.
pub proof fn law_next_token_differs(c: u32)
    ensures
        next_counter(c) != c,
        next_counter(c) == (c + 1) % 0x1_0000_0000,
{
}

/// What a `SearchState` holds.
pub struct SearchStateView {
    pub token_counter: u32,
    /// Tokens whose responses are let through.
    pub allowed: Set<u32>,
    /// Our searches, by token.
    pub searches: Map<u32, SearchRequest>,
    /// Tokens of our own searches, to recognise them when they come back.
    pub own: Set<u32>,
    /// Past search terms, newest first.
    pub history: Seq<Seq<char>>,
    pub wishlist: Seq<WishlistItem>,
    /// Seconds between wishlist searches.
    pub wishlist_interval: u32,
    pub excluded: Seq<Seq<char>>,
    /// The most results returned for a one-word search.
    pub max_results: usize,
}

/// Our searches and what goes with them.
#[derive(Debug)]
pub struct SearchState {
    token_counter: u32,
    allowed_tokens: HashSet<u32>,
    searches: HashMap<u32, SearchRequest>,
    own_tokens: HashSet<u32>,
    search_history: Vec<String>,
    wishlist: VecDeque<WishlistItem>,
    wishlist_interval_secs: u32,
    excluded_phrases: ExcludedPhrases,
    max_results_per_search: usize,
}

impl View for SearchState {
    type V = SearchStateView;

    closed spec fn view(&self) -> SearchStateView {
        SearchStateView {
            token_counter: self.token_counter,
            allowed: self.allowed_tokens@,
            searches: self.searches@,
            own: self.own_tokens@,
            history: strs_view(self.search_history@),
            wishlist: self.wishlist@,
            wishlist_interval: self.wishlist_interval_secs,
            excluded: self.excluded_phrases@,
            max_results: self.max_results_per_search,
        }
    }
}

/// A state with nothing in it, whose token counter starts at `counter`.
pub open spec fn empty_state(counter: u32) -> SearchStateView {
    SearchStateView {
        token_counter: counter,
        allowed: Set::empty(),
        searches: Map::empty(),
        own: Set::empty(),
        history: Seq::empty(),
        wishlist: Seq::empty(),
        wishlist_interval: 600,
        excluded: Seq::empty(),
        max_results: 1000,
    }
}

/// The largest value the token counter starts at.
pub const MAX_INITIAL_TOKEN: u32 = 4294967;

#[verifier::external_type_specification]
#[verifier::external_body]
pub struct ExThreadRng(ThreadRng);

/// The thread-local random number generator. Calls `rand::thread_rng`;
/// nothing is claimed of it.
#[verifier::external_body]
fn thread_rng() -> ThreadRng {
    rand::thread_rng()
}

/// A random number in `0..=max`. Calls `Rng::gen_range` on an inclusive
/// range, which is never empty here (it panics only on an empty range); the
/// contract claims only that the number is in the range.
#[verifier::external_body]
fn gen_range_up_to(rng: &mut ThreadRng, max: u32) -> (r: u32)
    ensures
        r <= max,
{
    rng.gen_range(0..=max)
}

/// Mutable access to entry `index` of a deque. Calls `VecDeque::get_mut`,
/// which gives the entry when `index` is below the length and nothing
/// otherwise.
#[verifier::external_body]
fn deque_get_mut<T>(v: &mut VecDeque<T>, index: usize) -> (res: Option<&mut T>)
    ensures
        index < old(v)@.len() ==> res.is_some() && *res.unwrap() == old(v)@[index as int]
            && final(v)@ == old(v)@.update(index as int, *final(res.unwrap())),
        index >= old(v)@.len() ==> res.is_none() && final(v)@ == old(v)@,
{
    v.get_mut(index)
}

impl Default for SearchState {
    fn default() -> (r: Self)
        ensures
            r@ == empty_state(r@.token_counter),
            r@.token_counter <= MAX_INITIAL_TOKEN,
    {
        SearchState::new()
    }
}

impl SearchState {
    /// An empty state whose token counter starts at `counter`.
    pub fn with_token_counter(counter: u32) -> (r: Self)
        ensures
            r@ == empty_state(counter),
    {
        let r = SearchState {
            token_counter: counter,
            allowed_tokens: HashSet::new(),
            searches: HashMap::new(),
            own_tokens: HashSet::new(),
            search_history: Vec::new(),
            wishlist: VecDeque::new(),
            wishlist_interval_secs: 600,
            excluded_phrases: ExcludedPhrases::new(),
            max_results_per_search: 1000,
        };
        assert(r@.history =~= Seq::<Seq<char>>::empty());
        r
    }

    /// An empty state whose token counter starts at a random value, so that
    /// tokens of two sessions seldom collide.
    pub fn new() -> (r: Self)
        ensures
            r@ == empty_state(r@.token_counter),
            r@.token_counter <= MAX_INITIAL_TOKEN,
    {
        let mut rng = thread_rng();
        SearchState::with_token_counter(gen_range_up_to(&mut rng, MAX_INITIAL_TOKEN))
    }

    /// Hands out the next token: the counter moves one on, from the largest
    /// value back to 0.
    pub fn next_token(&mut self) -> (t: u32)
        ensures
            t == next_counter(old(self)@.token_counter),
            final(self)@ == (SearchStateView { token_counter: t, ..old(self)@ }),
    {
        if self.token_counter >= u32::MAX {
            self.token_counter = 0;
        } else {
            self.token_counter = self.token_counter + 1;
        }
        self.token_counter
    }

    /// Lets responses for `token` through.
    pub fn allow_token(&mut self, token: u32)
        ensures
            final(self)@ == (SearchStateView { allowed: old(self)@.allowed.insert(token), ..old(self)@ }),
    {
        self.allowed_tokens.insert(token);
    }

    /// Stops responses for `token` and forgets its search.
    pub fn disallow_token(&mut self, token: u32)
        ensures
            final(self)@ == (SearchStateView {
                allowed: old(self)@.allowed.remove(token),
                searches: old(self)@.searches.remove(token),
                ..old(self)@
            }),
    {
        self.allowed_tokens.remove(&token);
        self.searches.remove(&token);
    }

    /// Whether responses for `token` are let through.
    pub fn is_token_allowed(&self, token: u32) -> (r: bool)
        ensures
            r == self@.allowed.contains(token),
    {
        self.allowed_tokens.contains(&token)
    }

    /// Stops responses for every token; done on disconnect.
    pub fn clear_allowed_tokens(&mut self)
        ensures
            final(self)@ == (SearchStateView { allowed: Set::empty(), ..old(self)@ }),
    {
        self.allowed_tokens.clear();
    }

    /// Marks `token` as one of our own searches.
    pub fn add_own_token(&mut self, token: u32)
        ensures
            final(self)@ == (SearchStateView { own: old(self)@.own.insert(token), ..old(self)@ }),
    {
        self.own_tokens.insert(token);
    }

    /// Whether `token` is one of our own searches; it is unmarked.
    pub fn check_and_remove_own_token(&mut self, token: u32) -> (r: bool)
        ensures
            r == old(self)@.own.contains(token),
            final(self)@ == (SearchStateView { own: old(self)@.own.remove(token), ..old(self)@ }),
    {
        self.own_tokens.remove(&token)
    }

    /// The tokens whose responses are let through.
    pub fn allowed_tokens(&self) -> (r: &HashSet<u32>)
        ensures
            r@ == self@.allowed,
    {
        &self.allowed_tokens
    }

    /// Registers a search under a new token and lets its responses through.
    pub fn start_search(&mut self, mode: SearchMode, sanitized: SanitizedSearch) -> (t: u32)
        ensures
            t == next_counter(old(self)@.token_counter),
            final(self)@ == (SearchStateView {
                token_counter: t,
                allowed: old(self)@.allowed.insert(t),
                searches: old(self)@.searches.insert(
                    t,
                    SearchRequest { token: t, mode, sanitized },
                ),
                ..old(self)@
            }),
    {
        let token = self.next_token();
        self.allow_token(token);
        self.searches.insert(token, SearchRequest { token, mode, sanitized });
        token
    }

    /// Registers a search under a token chosen elsewhere and lets its
    /// responses through.
    pub fn start_search_with_token(
        &mut self,
        token: u32,
        mode: SearchMode,
        sanitized: SanitizedSearch,
    )
        ensures
            final(self)@ == (SearchStateView {
                allowed: old(self)@.allowed.insert(token),
                searches: old(self)@.searches.insert(
                    token,
                    SearchRequest { token, mode, sanitized },
                ),
                ..old(self)@
            }),
    {
        self.allow_token(token);
        self.searches.insert(token, SearchRequest { token, mode, sanitized });
    }

    /// The search registered under `token`.
    pub fn get_search(&self, token: u32) -> (r: Option<&SearchRequest>)
        ensures
            match r {
                Some(req) => self@.searches.contains_key(token) && *req == self@.searches[token],
                None => !self@.searches.contains_key(token),
            },
    {
        self.searches.get(&token)
    }

    /// Forgets the search registered under `token` and stops its responses.
    pub fn remove_search(&mut self, token: u32)
        ensures
            final(self)@ == (SearchStateView {
                allowed: old(self)@.allowed.remove(token),
                searches: old(self)@.searches.remove(token),
                ..old(self)@
            }),
    {
        self.disallow_token(token);
    }

    /// Whether `token` belongs to a wishlist search.
    pub fn is_wishlist_token(&self, token: u32) -> (r: bool)
        ensures
            r == (self@.searches.contains_key(token) && self@.searches[token].mode is Wishlist),
    {
        match self.searches.get(&token) {
            Some(req) => match req.mode {
                SearchMode::Wishlist { .. } => true,
                _ => false,
            },
            None => false,
        }
    }

    /// Stops responses for a wishlist search but keeps it registered; its
    /// wishlist entry is marked ignored.
    pub fn ignore_wishlist_search(&mut self, token: u32)
        ensures
            final(self)@ == (SearchStateView {
                allowed: old(self)@.allowed.remove(token),
                wishlist: if old(self)@.searches.contains_key(token) && old(
                    self,
                )@.searches[token].mode is Wishlist && old(
                    self,
                )@.searches[token].mode->wish_id < old(self)@.wishlist.len() {
                    old(self)@.wishlist.update(
                        old(self)@.searches[token].mode->wish_id as int,
                        WishlistItem {
                            is_ignored: true,
                            ..old(self)@.wishlist[old(self)@.searches[token].mode->wish_id as int]
                        },
                    )
                } else {
                    old(self)@.wishlist
                },
                ..old(self)@
            }),
    {
        let mut wish: Option<usize> = None;
        match self.searches.get(&token) {
            Some(req) => match req.mode {
                SearchMode::Wishlist { wish_id } => {
                    wish = Some(wish_id);
                },
                _ => {},
            },
            None => {},
        }
        match wish {
            Some(wish_id) => {
                match deque_get_mut(&mut self.wishlist, wish_id) {
                    Some(item) => {
                        item.is_ignored = true;
                    },
                    None => {},
                }
            },
            None => {},
        }
        self.allowed_tokens.remove(&token);
    }

    /// Puts `term` first in the history, dropping its earlier entry and the
    /// oldest entries beyond `MAX_SEARCH_HISTORY`.
    pub fn add_to_history(&mut self, term: &str)
        ensures
            final(self)@ == (SearchStateView {
                history: history_after(old(self)@.history, term@),
                ..old(self)@
            }),
    {
        let term_s = term.to_owned();
        let ghost h = strs_view(self.search_history@);
        let mut next: Vec<String> = Vec::new();
        next.push(term.to_owned());
        let mut i: usize = 0;
        while i < self.search_history.len()
            invariant
                i <= self.search_history.len(),
                h == strs_view(self.search_history@),
                term_s@ == term@,
                strs_view(next@) == seq![term@] + without(h.take(i as int), term@),
            decreases self.search_history.len() - i,
        {
            assert(h.take(i + 1).drop_last() =~= h.take(i as int));
            assert(h.take(i + 1).last() == self.search_history@[i as int]@);
            let ghost before = strs_view(next@);
            if self.search_history[i] != term_s {
                next.push(self.search_history[i].clone());
                assert(strs_view(next@) =~= before.push(h[i as int]));
            }
            i = i + 1;
        }
        assert(h.take(i as int) =~= h);
        let ghost l = strs_view(next@);
        next.truncate(MAX_SEARCH_HISTORY);
        assert(strs_view(next@) =~= history_after(h, term@));
        self.search_history = next;
    }

    /// The history, newest first.
    pub fn search_history(&self) -> (r: &[String])
        ensures
            strs_view(r@) == self@.history,
    {
        self.search_history.as_slice()
    }

    /// Empties the history.
    pub fn clear_history(&mut self)
        ensures
            final(self)@ == (SearchStateView { history: Seq::empty(), ..old(self)@ }),
    {
        self.search_history.clear();
        assert(strs_view(self.search_history@) =~= Seq::<Seq<char>>::empty());
    }

    /// Sets the seconds between wishlist searches (the server sends them).
    pub fn set_wishlist_interval(&mut self, secs: u32)
        ensures
            final(self)@ == (SearchStateView { wishlist_interval: secs, ..old(self)@ }),
    {
        self.wishlist_interval_secs = secs;
    }

    /// The seconds between wishlist searches.
    pub fn wishlist_interval(&self) -> (r: u32)
        ensures
            r == self@.wishlist_interval,
    {
        self.wishlist_interval_secs
    }

    /// Adds an entry for `term` at the end of the wishlist, unless one is
    /// there already.
    pub fn add_to_wishlist(&mut self, term: String)
        ensures
            (exists|k: int|
                0 <= k < old(self)@.wishlist.len() && (#[trigger] old(self)@.wishlist[k]).term@
                    == term@) ==> final(self)@ == old(self)@,
            !(exists|k: int|
                0 <= k < old(self)@.wishlist.len() && (#[trigger] old(self)@.wishlist[k]).term@
                    == term@) ==> {
                &&& final(self)@.wishlist.len() == old(self)@.wishlist.len() + 1
                &&& final(self)@ == (SearchStateView {
                    wishlist: old(self)@.wishlist.push(final(self)@.wishlist.last()),
                    ..old(self)@
                })
                &&& final(self)@.wishlist.last().term == term
                &&& final(self)@.wishlist.last().auto_search
                &&& final(self)@.wishlist.last().is_ignored
                &&& final(self)@.wishlist.last().custom_filters@.len() == 0
                &&& final(self)@.wishlist.last().ignored_users@.len() == 0
            },
    {
        let mut i: usize = 0;
        while i < self.wishlist.len()
            invariant
                i <= self.wishlist@.len(),
                forall|k: int| 0 <= k < i ==> (#[trigger] self.wishlist@[k]).term@ != term@,
            decreases self.wishlist@.len() - i,
        {
            if self.wishlist[i].term == term {
                assert(self.wishlist@[i as int].term@ == term@);
                return;
            }
            i = i + 1;
        }
        let item = WishlistItem::new(term);
        self.wishlist.push_back(item);
    }

    /// Removes wishlist entry `idx`, if there is one.
    pub fn remove_from_wishlist(&mut self, idx: usize)
        ensures
            idx < old(self)@.wishlist.len() ==> final(self)@ == (SearchStateView {
                wishlist: old(self)@.wishlist.remove(idx as int),
                ..old(self)@
            }),
            idx >= old(self)@.wishlist.len() ==> final(self)@ == old(self)@,
    {
        if idx < self.wishlist.len() {
            self.wishlist.remove(idx);
        }
    }

    /// The wishlist.
    pub fn wishlist(&self) -> (r: &VecDeque<WishlistItem>)
        ensures
            r@ == self@.wishlist,
    {
        &self.wishlist
    }

    /// Picks the next wishlist entry to search for, in turn: entries are
    /// moved from the front to the back until one searched automatically
    /// comes up; it is moved to the back too, marked not ignored, and given
    /// with its index. With no such entry, nothing changes.
    pub fn next_wishlist_item(&mut self) -> (res: Option<(usize, &mut WishlistItem)>)
        ensures
            first_auto(old(self)@.wishlist) == old(self)@.wishlist.len() ==> res.is_none()
                && final(self)@ == old(self)@,
            first_auto(old(self)@.wishlist) < old(self)@.wishlist.len() ==> {
                &&& res.is_some()
                &&& res.unwrap().0 == old(self)@.wishlist.len() - 1
                &&& *res.unwrap().1 == activated(
                    old(self)@.wishlist[first_auto(old(self)@.wishlist)],
                )
                &&& final(self)@ == (SearchStateView {
                    wishlist: old(self)@.wishlist.skip(first_auto(old(self)@.wishlist) + 1)
                        + old(self)@.wishlist.take(first_auto(old(self)@.wishlist)) + seq![
                        *final(res.unwrap().1),
                    ],
                    ..old(self)@
                })
            },
    {
        let ghost w = self.wishlist@;
        let len = self.wishlist.len();
        if len == 0 {
            return None;
        }
        let mut k: usize = 0;
        assert(w.skip(0) + w.take(0) =~= w);
        while k < len
            invariant
                w == old(self)@.wishlist,
                len == w.len(),
                k <= len,
                self.wishlist@ == w.skip(k as int) + w.take(k as int),
                forall|m: int| 0 <= m < k ==> !(#[trigger] w[m]).auto_search,
                self.token_counter == old(self).token_counter,
                self.allowed_tokens == old(self).allowed_tokens,
                self.searches == old(self).searches,
                self.own_tokens == old(self).own_tokens,
                self.search_history == old(self).search_history,
                self.wishlist_interval_secs == old(self).wishlist_interval_secs,
                self.excluded_phrases == old(self).excluded_phrases,
                self.max_results_per_search == old(self).max_results_per_search,
            decreases len - k,
        {
            let popped = self.wishlist.pop_front();
            match popped {
                Some(mut item) => {
                    assert(item == w[k as int]);
                    if item.auto_search {
                        proof {
                            lemma_first_auto_from(w, k as int);
                        }
                        item.is_ignored = false;
                        let idx = self.wishlist.len();
                        self.wishlist.push_back(item);
                        let ghost pre = self.wishlist@;
                        assert(pre =~= w.skip(k + 1) + w.take(k as int) + seq![
                            activated(w[k as int]),
                        ]);
                        assert forall|x: WishlistItem|
                            #[trigger] pre.update(idx as int, x) =~= w.skip(k + 1) + w.take(
                                k as int,
                            ) + seq![x] by {}
                        match deque_get_mut(&mut self.wishlist, idx) {
                            Some(r) => {
                                return Some((idx, r));
                            },
                            None => {
                                return None;
                            },
                        }
                    }
                    self.wishlist.push_back(item);
                    assert(self.wishlist@ =~= w.skip(k + 1) + w.take(k + 1));
                },
                None => {
                    assert(false);
                },
            }
            k = k + 1;
        }
        proof {
            lemma_first_auto_from(w, len as int);
        }
        assert(self.wishlist@ =~= w);
        None
    }

    /// Mutable access to wishlist entry `idx`, if there is one.
    pub fn wishlist_item_mut(&mut self, idx: usize) -> (res: Option<&mut WishlistItem>)
        ensures
            idx < old(self)@.wishlist.len() ==> {
                &&& res.is_some()
                &&& *res.unwrap() == old(self)@.wishlist[idx as int]
                &&& final(self)@ == (SearchStateView {
                    wishlist: old(self)@.wishlist.update(idx as int, *final(res.unwrap())),
                    ..old(self)@
                })
            },
            idx >= old(self)@.wishlist.len() ==> res.is_none() && final(self)@ == old(self)@,
    {
        deque_get_mut(&mut self.wishlist, idx)
    }

    /// Replaces the phrases kept out of our search responses.
    pub fn set_excluded_phrases(&mut self, phrases: Vec<String>)
        ensures
            final(self)@ == (SearchStateView { excluded: strs_view(phrases@), ..old(self)@ }),
    {
        self.excluded_phrases.set(phrases);
    }

    /// Whether `path` holds one of the excluded phrases, ignoring case.
    pub fn is_path_excluded(&self, path: &str) -> (r: bool)
        ensures
            r == any_phrase_in(path@, self@.excluded),
    {
        self.excluded_phrases.is_excluded(path)
    }

    /// Sets the most results returned for a one-word search.
    pub fn set_max_results(&mut self, max: usize)
        ensures
            final(self)@ == (SearchStateView { max_results: max, ..old(self)@ }),
    {
        self.max_results_per_search = max;
    }

    /// The most results returned for a one-word search.
    pub fn max_results(&self) -> (r: usize)
        ensures
            r == self@.max_results,
    {
        self.max_results_per_search
    }
}

/// A file size sent as two 32-bit halves. Some clients send sizes of 2 GiB
/// and more with all bits of the high half set; then the low half alone is
/// the size.
pub open spec fn file_size_of(lo: u32, hi: u32) -> u64 {
    if hi == 0xFFFF_FFFF {
        lo as u64
    } else {
        (hi * 0x1_0000_0000 + lo) as u64
    }
}

/// Reads a file size sent as two 32-bit halves.
pub fn parse_file_size_lo_hi(lo: u32, hi: u32) -> (r: u64)
    ensures
        r == file_size_of(lo, hi),
{
    if hi == 0xFFFF_FFFF {
        lo as u64
    } else {
        let r = (lo as u64) | ((hi as u64) << 32u64);
        assert(r == hi * 0x1_0000_0000 + lo) by (bit_vector)
            requires
                r == (lo as u64) | ((hi as u64) << 32u64),
        ;
        r
    }
}

} // verus!
