//! Search-term syntax: `-word` excludes, `*word` matches partially and
//! `"phrase"` matches exactly. A term is split into tokens, and from those
//! come the words sent to the server, the words kept for local filtering and
//! the cleaned term shown in the history.

use vstd::prelude::*;
use crate::text::{
    chars_of, is_whitespace, is_ws, join, join_with_space, spec_lowercase, split_ws,
    split_whitespace, string_from_chars, strs_view, to_lowercase, trim, trim_chars, trim_str,
};

verus! {

/// A token of a search term, as a value of the specification.
pub enum SpecToken {
    Word(Seq<char>),
    Excluded(Seq<char>),
    Partial(Seq<char>),
    Phrase(Seq<char>),
}

/// A token of a search term.
#[derive(Debug, Clone, PartialEq)]
pub enum Token {
    /// A normal word.
    Word(String),
    /// A word the results must not hold (written with a leading `-`).
    Excluded(String),
    /// A word matched partially (written with a leading `*`).
    Partial(String),
    /// A phrase that must match exactly (written between double quotes).
    Phrase(String),
}

impl View for Token {
    type V = SpecToken;

    open spec fn view(&self) -> SpecToken {
        match self {
            Token::Word(s) => SpecToken::Word(s@),
            Token::Excluded(s) => SpecToken::Excluded(s@),
            Token::Partial(s) => SpecToken::Partial(s@),
            Token::Phrase(s) => SpecToken::Phrase(s@),
        }
    }
}

/// How a token is written in a search term.
pub open spec fn token_text(t: SpecToken) -> Seq<char> {
    match t {
        SpecToken::Word(s) => s,
        SpecToken::Excluded(s) => seq!['-'] + s,
        SpecToken::Partial(s) => seq!['*'] + s,
        SpecToken::Phrase(s) => seq!['"'] + s + seq!['"'],
    }
}

impl Token {
    /// The token as it is written in a search term.
    pub fn to_string(&self) -> (r: String)
        ensures
            r@ == token_text(self@),
    {
        match self {
            Token::Word(s) => s.clone(),
            Token::Excluded(s) => {
                let mut r = String::new();
                r.push('-');
                r.append(s.as_str());
                assert(r@ =~= seq!['-'] + s@);
                r
            },
            Token::Partial(s) => {
                let mut r = String::new();
                r.push('*');
                r.append(s.as_str());
                assert(r@ =~= seq!['*'] + s@);
                r
            },
            Token::Phrase(s) => {
                let mut r = String::new();
                r.push('"');
                r.append(s.as_str());
                r.push('"');
                assert(r@ =~= seq!['"'] + s@ + seq!['"']);
                r
            },
        }
    }
}

/// The specification view of a list of tokens.
pub open spec fn tokens_view(ts: Seq<Token>) -> Seq<SpecToken> {
    ts.map_values(|t: Token| t@)
}

/// A character that ends a word: whitespace, `*`, `"` or `-`.
pub open spec fn is_stop(c: char) -> bool {
    is_ws(c) || c == '*' || c == '"' || c == '-'
}

/// The number of characters from `i` on before a character that ends a word.
pub open spec fn run_len(s: Seq<char>, i: int) -> nat
    decreases s.len() - i,
{
    if i < 0 || i >= s.len() || is_stop(s[i]) {
        0
    } else {
        1 + run_len(s, i + 1)
    }
}

/// The number of characters from `i` on before a double quote.
pub open spec fn quote_len(s: Seq<char>, i: int) -> nat
    decreases s.len() - i,
{
    if i < 0 || i >= s.len() || s[i] == '"' {
        0
    } else {
        1 + quote_len(s, i + 1)
    }
}

pub proof fn lemma_run_len_bound(s: Seq<char>, i: int)
    requires
        0 <= i <= s.len(),
    ensures
        i + run_len(s, i) <= s.len(),
    decreases s.len() - i,
{
    if i < s.len() && !is_stop(s[i]) {
        lemma_run_len_bound(s, i + 1);
    }
}

pub proof fn lemma_quote_len_bound(s: Seq<char>, i: int)
    requires
        0 <= i <= s.len(),
    ensures
        i + quote_len(s, i) <= s.len(),
    decreases s.len() - i,
{
    if i < s.len() && s[i] != '"' {
        lemma_quote_len_bound(s, i + 1);
    }
}

proof fn lemma_run_len_exact(s: Seq<char>, a: int, j: int)
    requires
        0 <= a <= j <= s.len(),
        forall|k: int| a <= k < j ==> !is_stop(#[trigger] s[k]),
        j == s.len() || is_stop(s[j]),
    ensures
        run_len(s, a) == j - a,
    decreases j - a,
{
    if a < j {
        lemma_run_len_exact(s, a + 1, j);
    }
}

proof fn lemma_quote_len_exact(s: Seq<char>, a: int, j: int)
    requires
        0 <= a <= j <= s.len(),
        forall|k: int| a <= k < j ==> #[trigger] s[k] != '"',
        j == s.len() || s[j] == '"',
    ensures
        quote_len(s, a) == j - a,
    decreases j - a,
{
    if a < j {
        lemma_quote_len_exact(s, a + 1, j);
    }
}

/// The tokens of `s` from position `i` on. Whitespace between tokens is
/// skipped. A double quote opens a phrase that runs to the next double quote
/// or to the end (an empty phrase is kept). `*` and `-` begin a partial or an
/// excluded word, dropped when nothing follows them. Anything else begins a
/// word. A word runs until whitespace, `*`, `"` or `-`.
pub open spec fn tokens_from(s: Seq<char>, i: int) -> Seq<SpecToken>
    decreases s.len() - i,
{
    if i < 0 || i >= s.len() {
        Seq::empty()
    } else {
        let c = s[i];
        if is_ws(c) {
            tokens_from(s, i + 1)
        } else if c == '"' {
            proof {
                lemma_quote_len_bound(s, i + 1);
            }
            let end = i + 1 + quote_len(s, i + 1);
            let next = if end < s.len() {
                end + 1
            } else {
                end
            };
            seq![SpecToken::Phrase(s.subrange(i + 1, end))] + tokens_from(s, next)
        } else {
            proof {
                lemma_run_len_bound(s, i + 1);
            }
            let n = run_len(s, i + 1);
            let end = i + 1 + n;
            if c == '*' {
                if n > 0 {
                    seq![SpecToken::Partial(s.subrange(i + 1, end))] + tokens_from(s, end)
                } else {
                    tokens_from(s, end)
                }
            } else if c == '-' {
                if n > 0 {
                    seq![SpecToken::Excluded(s.subrange(i + 1, end))] + tokens_from(s, end)
                } else {
                    tokens_from(s, end)
                }
            } else {
                seq![SpecToken::Word(s.subrange(i, end))] + tokens_from(s, end)
            }
        }
    }
}

/// The tokens of a search term.
pub open spec fn tokenize(s: Seq<char>) -> Seq<SpecToken> {
    tokens_from(s, 0)
}

/// Splits a search term into tokens, honouring quoted phrases (no escape
/// sequences).
pub fn tokenize_search(input: &str) -> (r: Vec<Token>)
    ensures
        tokens_view(r@) == tokenize(input@),
{
    let v = chars_of(input);
    let n = v.len();
    let mut out: Vec<Token> = Vec::new();
    let mut i: usize = 0;
    assert(tokens_view(out@) =~= Seq::<SpecToken>::empty());
    while i < n
        invariant
            n == v.len(),
            v@ == input@,
            i <= n,
            tokenize(v@) == tokens_view(out@) + tokens_from(v@, i as int),
        decreases n - i,
    {
        let c = v[i];
        let ghost before = tokens_view(out@);
        if is_whitespace(c) {
            i = i + 1;
        } else if c == '"' {
            let mut j = i + 1;
            while j < n && v[j] != '"'
                invariant
                    n == v.len(),
                    i < n,
                    i + 1 <= j <= n,
                    forall|k: int| i + 1 <= k < j ==> #[trigger] v@[k] != '"',
                decreases n - j,
            {
                j = j + 1;
            }
            proof {
                lemma_quote_len_exact(v@, i + 1, j as int);
            }
            let phrase = string_from_chars(&v, i + 1, j);
            let t = Token::Phrase(phrase);
            let ghost tv = t@;
            out.push(t);
            let next = if j < n {
                j + 1
            } else {
                j
            };
            assert(tokens_view(out@) =~= before.push(tv));
            assert(before + (seq![tv] + tokens_from(v@, next as int)) =~= before.push(tv)
                + tokens_from(v@, next as int));
            i = next;
        } else {
            let mut j = i + 1;
            while j < n && !(is_whitespace(v[j]) || v[j] == '*' || v[j] == '"' || v[j] == '-')
                invariant
                    n == v.len(),
                    i < n,
                    i + 1 <= j <= n,
                    forall|k: int| i + 1 <= k < j ==> !is_stop(#[trigger] v@[k]),
                decreases n - j,
            {
                j = j + 1;
            }
            proof {
                lemma_run_len_exact(v@, i + 1, j as int);
            }
            let rest = Ghost(tokens_from(v@, j as int));
            if c == '*' || c == '-' {
                if j > i + 1 {
                    let word = string_from_chars(&v, i + 1, j);
                    let t = if c == '*' {
                        Token::Partial(word)
                    } else {
                        Token::Excluded(word)
                    };
                    let ghost tv = t@;
                    out.push(t);
                    assert(tokens_view(out@) =~= before.push(tv));
                    assert(before + (seq![tv] + rest@) =~= before.push(tv) + rest@);
                }
            } else {
                let word = string_from_chars(&v, i, j);
                let t = Token::Word(word);
                let ghost tv = t@;
                out.push(t);
                assert(tokens_view(out@) =~= before.push(tv));
                assert(before + (seq![tv] + rest@) =~= before.push(tv) + rest@);
            }
            i = j;
        }
    }
    out
}

/// The characters removed from the term sent to the server: ASCII
/// punctuation, and Unicode dashes, quotes and the ellipsis. A server or
/// client may find nothing for a term that holds them.
pub const REMOVED_SEARCH_CHARS: [char; 39] = [
    '!', '"', '#', '$', '%', '&', '\'', '(', ')', '*', '+', ',', '-', '.', '/', ':', ';', '<', '=',
    '>', '?', '@', '[', '\\', ']', '^', '_', '`', '{', '|', '}', '~', '\u{2013}', '\u{2014}',
    '\u{2010}', '\u{2018}', '\u{201C}', '\u{201D}', '\u{2026}',
];

/// A character removed from the term sent to the server.
pub open spec fn is_removed(c: char) -> bool {
    REMOVED_SEARCH_CHARS@.contains(c)
}

/// Whether `c` is removed from the term sent to the server.
pub fn is_removed_char(c: char) -> (r: bool)
    ensures
        r == is_removed(c),
{
    let chars = REMOVED_SEARCH_CHARS;
    let mut i: usize = 0;
    while i < 39
        invariant
            i <= 39,
            chars@ == REMOVED_SEARCH_CHARS@,
            forall|k: int| 0 <= k < i ==> chars@[k] != c,
        decreases 39 - i,
    {
        if chars[i] == c {
            assert(chars@[i as int] == c);
            return true;
        }
        i = i + 1;
    }
    assert(!REMOVED_SEARCH_CHARS@.contains(c)) by {
        if REMOVED_SEARCH_CHARS@.contains(c) {
            let k = choose|k: int| 0 <= k < REMOVED_SEARCH_CHARS@.len() && REMOVED_SEARCH_CHARS@[k] == c;
            assert(chars@[k] != c);
        }
    }
    false
}

/// `s` with the removed characters left out.
pub open spec fn without_removed(s: Seq<char>) -> Seq<char>
    decreases s.len(),
{
    if s.len() == 0 {
        Seq::empty()
    } else if is_removed(s.last()) {
        without_removed(s.drop_last())
    } else {
        without_removed(s.drop_last()).push(s.last())
    }
}

/// `s` with the removed characters left out, then trimmed.
pub open spec fn stripped(s: Seq<char>) -> Seq<char> {
    trim(without_removed(s))
}

/// Leaves out every removed character of `s`, then trims whitespace.
pub fn strip_removed_chars(s: &str) -> (r: String)
    ensures
        r@ == stripped(s@),
{
    let v = chars_of(s);
    let mut w: Vec<char> = Vec::new();
    let mut i: usize = 0;
    while i < v.len()
        invariant
            i <= v.len(),
            w@ == without_removed(v@.take(i as int)),
        decreases v.len() - i,
    {
        assert(v@.take(i + 1).drop_last() =~= v@.take(i as int));
        let c = v[i];
        if !is_removed_char(c) {
            w.push(c);
        }
        i = i + 1;
    }
    assert(v@.take(i as int) =~= v@);
    trim_chars(&w)
}

/// The lowercase mapping of each string.
pub open spec fn lower_all(ps: Seq<Seq<char>>) -> Seq<Seq<char>> {
    ps.map_values(|p: Seq<char>| spec_lowercase(p))
}

/// The words a token adds to those the results must hold: the lowercased
/// partial word or phrase, or each piece of a word once its removed
/// characters are left out, lowercased.
pub open spec fn included_of(t: SpecToken) -> Seq<Seq<char>> {
    match t {
        SpecToken::Word(w) => lower_all(split_ws(stripped(w))),
        SpecToken::Excluded(_) => Seq::empty(),
        SpecToken::Partial(w) => seq![spec_lowercase(w)],
        SpecToken::Phrase(p) => seq![spec_lowercase(p)],
    }
}

/// The words a token adds to those the results must not hold.
pub open spec fn excluded_of(t: SpecToken) -> Seq<Seq<char>> {
    match t {
        SpecToken::Excluded(w) => seq![spec_lowercase(w)],
        _ => Seq::empty(),
    }
}

/// The words a token adds to the term sent to the server: an excluded word
/// adds none, a partial word adds itself stripped behind a `*`, a phrase or a
/// word adds the pieces of its stripped text.
pub open spec fn transmitted_of(t: SpecToken) -> Seq<Seq<char>> {
    match t {
        SpecToken::Word(w) => split_ws(stripped(w)),
        SpecToken::Excluded(_) => Seq::empty(),
        SpecToken::Partial(w) => seq![seq!['*'] + stripped(w)],
        SpecToken::Phrase(p) => split_ws(stripped(p)),
    }
}

/// The words a token adds to the cleaned term shown in the history: a word
/// as it was typed when something of it survives stripping, a partial word
/// behind its `*`, a phrase without its quotes.
pub open spec fn sanitized_of(t: SpecToken) -> Seq<Seq<char>> {
    match t {
        SpecToken::Word(w) => if stripped(w).len() > 0 {
            seq![w]
        } else {
            Seq::empty()
        },
        SpecToken::Excluded(_) => Seq::empty(),
        SpecToken::Partial(w) => seq![seq!['*'] + w],
        SpecToken::Phrase(p) => seq![p],
    }
}

/// The words that `f` gives for each token, in order.
pub open spec fn concat_map(ts: Seq<SpecToken>, f: spec_fn(SpecToken) -> Seq<Seq<char>>) -> Seq<
    Seq<char>,
>
    decreases ts.len(),
{
    if ts.len() == 0 {
        Seq::empty()
    } else {
        concat_map(ts.drop_last(), f) + f(ts.last())
    }
}

/// A search term taken apart: what the user typed, what is shown in the
/// history, what is sent to the server, and the words used to filter the
/// results locally.
#[derive(Debug, Clone, PartialEq)]
pub struct SanitizedSearch {
    /// The term as entered, trimmed.
    pub term: String,
    /// The cleaned term shown in the history.
    pub term_sanitized: String,
    /// The term sent to the server.
    pub term_transmitted: String,
    /// Lowercased words the results must hold.
    pub included_words: Vec<String>,
    /// Lowercased words the results must not hold.
    pub excluded_words: Vec<String>,
}

/// The text of `SanitizedSearch::to_string`.
pub open spec fn sanitized_search_text(term: Seq<char>, transmitted: Seq<char>) -> Seq<char> {
    "SanitizedSearch { term: "@ + term + ", transmitted: "@ + transmitted + " }"@
}

impl SanitizedSearch {
    /// A one-line description holding the entered and the transmitted term.
    pub fn to_string(&self) -> (r: String)
        ensures
            r@ == sanitized_search_text(self.term@, self.term_transmitted@),
    {
        let mut r = String::new();
        r.append("SanitizedSearch { term: ");
        r.append(self.term.as_str());
        r.append(", transmitted: ");
        r.append(self.term_transmitted.as_str());
        r.append(" }");
        assert(r@ =~= sanitized_search_text(self.term@, self.term_transmitted@));
        r
    }
}

/// Appends the strings of `items` to `out`.
fn push_all(out: &mut Vec<String>, items: Vec<String>)
    ensures
        strs_view(final(out)@) == strs_view(old(out)@) + strs_view(items@),
{
    let ghost start = strs_view(out@);
    let mut i: usize = 0;
    while i < items.len()
        invariant
            i <= items.len(),
            strs_view(out@) == start + strs_view(items@).take(i as int),
        decreases items.len() - i,
    {
        let ghost before = strs_view(out@);
        out.push(items[i].clone());
        assert(strs_view(out@) =~= before.push(items@[i as int]@));
        assert(strs_view(items@).take(i + 1) =~= strs_view(items@).take(i as int).push(
            items@[i as int]@,
        ));
        i = i + 1;
    }
    assert(strs_view(items@).take(i as int) =~= strs_view(items@));
}

/// Appends the lowercase mapping of each string of `items` to `out`.
fn push_all_lowercase(out: &mut Vec<String>, items: &Vec<String>)
    ensures
        strs_view(final(out)@) == strs_view(old(out)@) + lower_all(strs_view(items@)),
{
    let ghost start = strs_view(out@);
    let mut i: usize = 0;
    while i < items.len()
        invariant
            i <= items.len(),
            strs_view(out@) == start + lower_all(strs_view(items@)).take(i as int),
        decreases items.len() - i,
    {
        let ghost before = strs_view(out@);
        let low = to_lowercase(items[i].as_str());
        out.push(low);
        assert(strs_view(out@) =~= before.push(spec_lowercase(items@[i as int]@)));
        assert(lower_all(strs_view(items@)).take(i + 1) =~= lower_all(strs_view(items@)).take(
            i as int,
        ).push(spec_lowercase(items@[i as int]@)));
        i = i + 1;
    }
    assert(lower_all(strs_view(items@)).take(i as int) =~= lower_all(strs_view(items@)));
}

/// Takes a search term apart. The term is trimmed and split into tokens;
/// excluded words are kept (lowercased) for local filtering and never sent;
/// partial words are sent stripped behind their `*`; phrases are kept whole
/// for filtering and sent word by word; plain words are stripped of the
/// removed characters and dropped when nothing is left.
pub fn sanitize_search_term(input: &str) -> (r: SanitizedSearch)
    ensures
        r.term@ == trim(input@),
        strs_view(r.included_words@) == concat_map(
            tokenize(trim(input@)),
            |t: SpecToken| included_of(t),
        ),
        strs_view(r.excluded_words@) == concat_map(
            tokenize(trim(input@)),
            |t: SpecToken| excluded_of(t),
        ),
        r.term_transmitted@ == join(
            concat_map(tokenize(trim(input@)), |t: SpecToken| transmitted_of(t)),
            seq![' '],
        ),
        r.term_sanitized@ == join(
            concat_map(tokenize(trim(input@)), |t: SpecToken| sanitized_of(t)),
            seq![' '],
        ),
{
    let term = trim_str(input);
    let tokens = tokenize_search(term.as_str());
    let ghost ts = tokenize(term@);
    let ghost f_inc = |t: SpecToken| included_of(t);
    let ghost f_exc = |t: SpecToken| excluded_of(t);
    let ghost f_tx = |t: SpecToken| transmitted_of(t);
    let ghost f_san = |t: SpecToken| sanitized_of(t);
    let mut included_words: Vec<String> = Vec::new();
    let mut excluded_words: Vec<String> = Vec::new();
    let mut transmitted: Vec<String> = Vec::new();
    let mut sanitized: Vec<String> = Vec::new();
    let mut i: usize = 0;
    assert(tokens_view(tokens@) == ts);
    assert(ts.take(0) =~= Seq::<SpecToken>::empty());
    assert(strs_view(included_words@) =~= Seq::<Seq<char>>::empty());
    assert(strs_view(excluded_words@) =~= Seq::<Seq<char>>::empty());
    assert(strs_view(transmitted@) =~= Seq::<Seq<char>>::empty());
    assert(strs_view(sanitized@) =~= Seq::<Seq<char>>::empty());
    while i < tokens.len()
        invariant
            i <= tokens.len(),
            tokens_view(tokens@) == ts,
            strs_view(included_words@) == concat_map(ts.take(i as int), f_inc),
            strs_view(excluded_words@) == concat_map(ts.take(i as int), f_exc),
            strs_view(transmitted@) == concat_map(ts.take(i as int), f_tx),
            strs_view(sanitized@) == concat_map(ts.take(i as int), f_san),
            f_inc == (|t: SpecToken| included_of(t)),
            f_exc == (|t: SpecToken| excluded_of(t)),
            f_tx == (|t: SpecToken| transmitted_of(t)),
            f_san == (|t: SpecToken| sanitized_of(t)),
        decreases tokens.len() - i,
    {
        let ghost t = ts[i as int];
        assert(ts.take(i + 1).drop_last() =~= ts.take(i as int));
        assert(ts.take(i + 1).last() == t);
        assert(tokens@[i as int]@ == t);
        let ghost inc0 = strs_view(included_words@);
        let ghost exc0 = strs_view(excluded_words@);
        let ghost tx0 = strs_view(transmitted@);
        let ghost san0 = strs_view(sanitized@);
        match &tokens[i] {
            Token::Excluded(w) => {
                let low = to_lowercase(w.as_str());
                excluded_words.push(low);
                assert(strs_view(excluded_words@) =~= exc0 + excluded_of(t));
                assert(inc0 + included_of(t) =~= inc0);
                assert(tx0 + transmitted_of(t) =~= tx0);
                assert(san0 + sanitized_of(t) =~= san0);
            },
            Token::Partial(w) => {
                let low = to_lowercase(w.as_str());
                included_words.push(low);
                let st = strip_removed_chars(w.as_str());
                let mut tx = String::new();
                tx.push('*');
                tx.append(st.as_str());
                transmitted.push(tx);
                let mut san = String::new();
                san.push('*');
                san.append(w.as_str());
                sanitized.push(san);
                assert(strs_view(included_words@) =~= inc0 + included_of(t));
                assert(strs_view(transmitted@) =~= tx0 + transmitted_of(t));
                assert(strs_view(sanitized@) =~= san0 + sanitized_of(t));
                assert(exc0 + excluded_of(t) =~= exc0);
            },
            Token::Phrase(p) => {
                let low = to_lowercase(p.as_str());
                included_words.push(low);
                let st = strip_removed_chars(p.as_str());
                let pieces = split_whitespace(&st);
                push_all(&mut transmitted, pieces);
                sanitized.push(p.clone());
                assert(strs_view(included_words@) =~= inc0 + included_of(t));
                assert(strs_view(sanitized@) =~= san0 + sanitized_of(t));
                assert(exc0 + excluded_of(t) =~= exc0);
            },
            Token::Word(w) => {
                let st = strip_removed_chars(w.as_str());
                if !st.as_str().is_empty() {
                    let pieces = split_whitespace(&st);
                    push_all_lowercase(&mut included_words, &pieces);
                    push_all(&mut transmitted, pieces);
                    sanitized.push(w.clone());
                    assert(strs_view(sanitized@) =~= san0 + sanitized_of(t));
                } else {
                    assert(split_ws(st@) =~= Seq::<Seq<char>>::empty());
                    assert(inc0 + included_of(t) =~= inc0);
                    assert(tx0 + transmitted_of(t) =~= tx0);
                    assert(san0 + sanitized_of(t) =~= san0);
                }
                assert(exc0 + excluded_of(t) =~= exc0);
            },
        }
        i = i + 1;
    }
    assert(ts.take(i as int) =~= ts);
    let term_transmitted = join_with_space(&transmitted);
    let term_sanitized = join_with_space(&sanitized);
    SanitizedSearch {
        term,
        term_sanitized,
        term_transmitted,
        included_words,
        excluded_words,
    }
}

/// `s` holds no removed character.
pub open spec fn clean(s: Seq<char>) -> bool {
    forall|i: int| 0 <= i < s.len() ==> !is_removed(#[trigger] s[i])
}

/// A word that may go to the server: no removed character, but for the `*`
/// that begins a partial word.
pub open spec fn wire_word_ok(w: Seq<char>) -> bool {
    clean(w) || (w.len() > 0 && w[0] == '*' && clean(w.skip(1)))
}

proof fn lemma_without_removed_clean(s: Seq<char>)
    ensures
        clean(without_removed(s)),
    decreases s.len(),
{
    if s.len() > 0 {
        lemma_without_removed_clean(s.drop_last());
    }
}

proof fn lemma_trim_start_clean(s: Seq<char>)
    requires
        clean(s),
    ensures
        clean(crate::text::trim_start(s)),
    decreases s.len(),
{
    if s.len() > 0 && is_ws(s[0]) {
        assert(clean(s.drop_first())) by {
            assert forall|i: int| 0 <= i < s.drop_first().len() implies !is_removed(
                #[trigger] s.drop_first()[i],
            ) by {
                assert(s.drop_first()[i] == s[i + 1]);
            }
        }
        lemma_trim_start_clean(s.drop_first());
    }
}

proof fn lemma_trim_end_clean(s: Seq<char>)
    requires
        clean(s),
    ensures
        clean(crate::text::trim_end(s)),
    decreases s.len(),
{
    if s.len() > 0 && is_ws(s.last()) {
        assert(clean(s.drop_last())) by {
            assert forall|i: int| 0 <= i < s.drop_last().len() implies !is_removed(
                #[trigger] s.drop_last()[i],
            ) by {
                assert(s.drop_last()[i] == s[i]);
            }
        }
        lemma_trim_end_clean(s.drop_last());
    }
}

proof fn lemma_pieces_clean(s: Seq<char>, cur: Seq<char>)
    requires
        clean(s),
        clean(cur),
    ensures
        forall|k: int|
            0 <= k < crate::text::ws_pieces_from(s, cur).len() ==> clean(
                #[trigger] crate::text::ws_pieces_from(s, cur)[k],
            ),
    decreases s.len(),
{
    if s.len() == 0 {
        if cur.len() > 0 {
            assert(crate::text::ws_pieces_from(s, cur) == seq![cur]);
        }
    } else {
        let rest = s.drop_first();
        assert(clean(rest)) by {
            assert forall|i: int| 0 <= i < rest.len() implies !is_removed(#[trigger] rest[i]) by {
                assert(rest[i] == s[i + 1]);
            }
        }
        if !is_ws(s[0]) {
            assert(clean(cur.push(s[0]))) by {
                assert forall|i: int| 0 <= i < cur.push(s[0]).len() implies !is_removed(
                    #[trigger] cur.push(s[0])[i],
                ) by {
                    if i < cur.len() {
                        assert(cur.push(s[0])[i] == cur[i]);
                    }
                }
            }
            lemma_pieces_clean(rest, cur.push(s[0]));
            assert(crate::text::ws_pieces_from(s, cur) == crate::text::ws_pieces_from(
                rest,
                cur.push(s[0]),
            ));
        } else {
            lemma_pieces_clean(rest, Seq::empty());
            let head: Seq<Seq<char>> = if cur.len() > 0 {
                seq![cur]
            } else {
                Seq::empty()
            };
            let tail = crate::text::ws_pieces_from(rest, Seq::empty());
            assert(crate::text::ws_pieces_from(s, cur) == head + tail);
            assert forall|k: int| 0 <= k < (head + tail).len() implies clean(
                #[trigger] (head + tail)[k],
            ) by {
                if k < head.len() {
                    assert((head + tail)[k] == cur);
                } else {
                    assert((head + tail)[k] == tail[k - head.len()]);
                }
            }
        }
    }
}

proof fn lemma_stripped_pieces_clean(w: Seq<char>)
    ensures
        clean(stripped(w)),
        forall|k: int|
            0 <= k < split_ws(stripped(w)).len() ==> clean(#[trigger] split_ws(stripped(w))[k]),
{
    lemma_without_removed_clean(w);
    lemma_trim_start_clean(without_removed(w));
    lemma_trim_end_clean(crate::text::trim_start(without_removed(w)));
    lemma_pieces_clean(stripped(w), Seq::empty());
}

/// The words sent to the server for the tokens `ts`.
pub open spec fn transmitted_words(ts: Seq<SpecToken>) -> Seq<Seq<char>> {
    concat_map(ts, |t: SpecToken| transmitted_of(t))
}

/// Every word sent to the server for a search term is free of removed
/// characters, but for the `*` that begins a partial word.
pub proof fn law_transmitted_words_clean(ts: Seq<SpecToken>)
    ensures
        forall|k: int|
            0 <= k < transmitted_words(ts).len() ==> wire_word_ok(
                #[trigger] transmitted_words(ts)[k],
            ),
    decreases ts.len(),
{
    if ts.len() > 0 {
        law_transmitted_words_clean(ts.drop_last());
        let a = transmitted_words(ts.drop_last());
        let b = transmitted_of(ts.last());
        assert forall|k: int| 0 <= k < b.len() implies wire_word_ok(#[trigger] b[k]) by {
            match ts.last() {
                SpecToken::Word(w) => {
                    lemma_stripped_pieces_clean(w);
                },
                SpecToken::Phrase(p) => {
                    lemma_stripped_pieces_clean(p);
                },
                SpecToken::Partial(w) => {
                    lemma_stripped_pieces_clean(w);
                    assert(b[k] == seq!['*'] + stripped(w));
                    assert((seq!['*'] + stripped(w)).skip(1) =~= stripped(w));
                },
                SpecToken::Excluded(_) => {},
            }
        }
        assert(transmitted_words(ts) == a + b);
        assert forall|k: int| 0 <= k < (a + b).len() implies wire_word_ok(#[trigger] (a + b)[k]) by {
            if k < a.len() {
                assert((a + b)[k] == a[k]);
            } else {
                assert((a + b)[k] == b[k - a.len()]);
            }
        }
    }
}

/// Excluded words are never sent: a term made only of excluded words sends
/// nothing to the server.
pub proof fn law_excluded_not_transmitted(ts: Seq<SpecToken>)
    requires
        forall|k: int| 0 <= k < ts.len() ==> (#[trigger] ts[k]) is Excluded,
    ensures
        transmitted_words(ts).len() == 0,
    decreases ts.len(),
{
    if ts.len() > 0 {
        assert forall|k: int| 0 <= k < ts.drop_last().len() implies (
        #[trigger] ts.drop_last()[k]) is Excluded by {
            assert(ts.drop_last()[k] == ts[k]);
        }
        law_excluded_not_transmitted(ts.drop_last());
        assert(ts[ts.len() - 1] is Excluded);
        assert(transmitted_words(ts) == transmitted_words(ts.drop_last()) + transmitted_of(
            ts.last(),
        ));
    }
}

} // verus!
