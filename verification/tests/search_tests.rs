use slsk_core::search::sanitize::{
    is_removed_char, sanitize_search_term, strip_removed_chars, tokenize_search, Token,
    REMOVED_SEARCH_CHARS,
};
use slsk_core::search::search::{
    parse_file_size_lo_hi, ExcludedPhrases, SearchMode, SearchState, WishlistItem,
    MAX_SEARCH_HISTORY,
};
use slsk_core::search::{SanitizedSearch, WordIndex};

#[test]
fn test_strip_removed_chars() {
    assert_eq!(strip_removed_chars("hello-world.mp3"), "helloworldmp3");
    assert_eq!(strip_removed_chars("test!file?"), "testfile");
    assert_eq!(strip_removed_chars("no-special"), "nospecial");
}

#[test]
fn test_tokenize_basic() {
    let tokens = tokenize_search("hello world");
    assert_eq!(tokens, vec![Token::Word("hello".into()), Token::Word("world".into())]);
}

#[test]
fn test_tokenize_excluded() {
    let tokens = tokenize_search("flac -320kbps");
    assert_eq!(
        tokens,
        vec![Token::Word("flac".into()), Token::Excluded("320kbps".into())]
    );
}

#[test]
fn test_tokenize_partial() {
    let tokens = tokenize_search("*flo dark side");
    assert_eq!(
        tokens,
        vec![
            Token::Partial("flo".into()),
            Token::Word("dark".into()),
            Token::Word("side".into())
        ]
    );
}

#[test]
fn test_tokenize_phrase() {
    let tokens = tokenize_search("\"dark side\" of the moon");
    assert_eq!(
        tokens,
        vec![
            Token::Phrase("dark side".into()),
            Token::Word("of".into()),
            Token::Word("the".into()),
            Token::Word("moon".into())
        ]
    );
}

#[test]
fn test_sanitize_basic() {
    let s = sanitize_search_term("hello world");
    assert_eq!(s.term, "hello world");
    assert_eq!(s.term_transmitted, "hello world");
    assert!(s.included_words.contains(&"hello".into()));
    assert!(s.included_words.contains(&"world".into()));
    assert!(s.excluded_words.is_empty());
}

#[test]
fn test_sanitize_excluded_stripped() {
    let s = sanitize_search_term("flac -320");
    assert_eq!(s.term_transmitted, "flac");
    assert!(s.excluded_words.contains(&"320".into()));
}

#[test]
fn test_sanitize_special_chars() {
    let s = sanitize_search_term("test!file.mp3");
    assert_eq!(s.term_transmitted, "testfilemp3");
}

#[test]
fn test_sanitize_phrase() {
    let s = sanitize_search_term("\"dark side\"");
    assert_eq!(s.term_transmitted, "dark side");
    assert!(s.included_words.contains(&"dark side".into()));
}

#[test]
fn test_sanitize_partial() {
    let s = sanitize_search_term("*flo");
    assert_eq!(s.term_transmitted, "*flo");
}

#[test]
fn test_sanitize_mixed() {
    let s = sanitize_search_term("pink floyd -mp3 *dark \"dark side\"");
    assert!(s.term_transmitted.contains("pink"));
    assert!(s.term_transmitted.contains("floyd"));
    assert!(s.term_transmitted.contains("*dark"));
    assert!(!s.term_transmitted.contains("mp3"));
    assert!(s.excluded_words.contains(&"mp3".into()));
}

#[test]
fn tokenize_edge_cases() {
    // An unterminated phrase runs to the end; an empty phrase is kept.
    assert_eq!(tokenize_search("\"open"), vec![Token::Phrase("open".into())]);
    assert_eq!(tokenize_search("\"\""), vec![Token::Phrase("".into())]);
    // A lone `-` or `*` gives no token.
    assert_eq!(tokenize_search("- * a"), vec![Token::Word("a".into())]);
    // A word ends at `-`, `*` or a quote.
    assert_eq!(
        tokenize_search("a-b*c\"d e\""),
        vec![
            Token::Word("a".into()),
            Token::Excluded("b".into()),
            Token::Partial("c".into()),
            Token::Phrase("d e".into())
        ]
    );
    assert!(tokenize_search("   \t ").is_empty());
}

#[test]
fn sanitize_full_result() {
    let s = sanitize_search_term("  Pink -MP3 *Dark \"The Wall!\" ?!  ");
    assert_eq!(s.term, "Pink -MP3 *Dark \"The Wall!\" ?!");
    assert_eq!(s.term_transmitted, "Pink *Dark The Wall");
    assert_eq!(s.term_sanitized, "Pink *Dark The Wall!");
    assert_eq!(s.included_words, vec!["pink", "dark", "the wall!"]);
    assert_eq!(s.excluded_words, vec!["mp3"]);
}

#[test]
fn token_and_search_text() {
    assert_eq!(Token::Word("a".into()).to_string(), "a");
    assert_eq!(Token::Excluded("a".into()).to_string(), "-a");
    assert_eq!(Token::Partial("a".into()).to_string(), "*a");
    assert_eq!(Token::Phrase("a b".into()).to_string(), "\"a b\"");
    let s: SanitizedSearch = sanitize_search_term("x -y");
    assert_eq!(s.to_string(), "SanitizedSearch { term: x -y, transmitted: x }");
}

#[test]
fn test_token_wrap() {
    let mut state = SearchState::with_token_counter(u32::MAX - 1);
    let t1 = state.next_token();
    assert_eq!(t1, u32::MAX);
    let t2 = state.next_token();
    assert_eq!(t2, 0);
}

#[test]
fn test_token_allow_disallow() {
    let mut state = SearchState::new();
    let token = state.next_token();
    state.allow_token(token);
    assert!(state.is_token_allowed(token));
    state.disallow_token(token);
    assert!(!state.is_token_allowed(token));
}

#[test]
fn test_search_history_dedup() {
    let mut state = SearchState::new();
    state.add_to_history("flac");
    state.add_to_history("mp3");
    state.add_to_history("flac");
    assert_eq!(state.search_history(), &["flac".to_string(), "mp3".to_string()]);
}

#[test]
fn test_search_history_max() {
    let mut state = SearchState::new();
    for i in 0..250 {
        state.add_to_history(&format!("term{}", i));
    }
    assert_eq!(state.search_history().len(), 200);
}

#[test]
fn history_keeps_newest_first() {
    let mut state = SearchState::new();
    for i in 0..205 {
        state.add_to_history(&format!("t{}", i));
    }
    let h = state.search_history();
    assert_eq!(h.len(), MAX_SEARCH_HISTORY);
    assert_eq!(h[0], "t204");
    assert_eq!(h[199], "t5");
    state.clear_history();
    assert!(state.search_history().is_empty());
}

#[test]
fn test_excluded_phrases() {
    let mut phrases = ExcludedPhrases::new();
    phrases.set(vec!["spam".into(), "advertisement".into()]);
    assert!(phrases.is_excluded("download this spam file"));
    assert!(phrases.is_excluded("ADVERTISEMENT"));
    assert!(!phrases.is_excluded("normal file"));
}

#[test]
fn excluded_phrases_edges() {
    let mut phrases = ExcludedPhrases::new();
    assert!(phrases.is_empty());
    assert!(!phrases.is_excluded("anything"));
    phrases.set(vec!["".into()]);
    assert!(!phrases.is_empty());
    assert!(phrases.is_excluded("anything"));
    let mut state = SearchState::new();
    state.set_excluded_phrases(vec!["Bad Word".into()]);
    assert!(state.is_path_excluded("music\\some bad word.mp3"));
    assert!(!state.is_path_excluded("music\\good.mp3"));
}

#[test]
fn test_parse_file_size_soulseekns_bug() {
    let size = parse_file_size_lo_hi(3_000_000_000u32, 0xFFFFFFFF);
    assert_eq!(size, 3_000_000_000u64);
}

#[test]
fn test_parse_file_size_normal() {
    let lo = 0x12345678u32;
    let hi = 0x00000001u32;
    let size = parse_file_size_lo_hi(lo, hi);
    assert_eq!(size, 0x00000001_12345678u64);
}

fn sample_search() -> SanitizedSearch {
    sanitize_search_term("pink floyd")
}

#[test]
fn searches_and_wishlist_tokens() {
    let mut state = SearchState::with_token_counter(10);
    let t = state.start_search(SearchMode::Global, sample_search());
    assert_eq!(t, 11);
    assert!(state.is_token_allowed(t));
    assert_eq!(state.get_search(t).unwrap().token, 11);
    assert!(!state.is_wishlist_token(t));
    state.start_search_with_token(500, SearchMode::Wishlist { wish_id: 0 }, sample_search());
    assert!(state.is_wishlist_token(500));
    state.add_to_wishlist("flac".into());
    state.add_to_wishlist("flac".into());
    assert_eq!(state.wishlist().len(), 1);
    // Activate the entry, then ignore its search again.
    let (idx, item) = state.next_wishlist_item().unwrap();
    assert_eq!(idx, 0);
    assert!(!item.is_ignored);
    state.ignore_wishlist_search(500);
    assert!(state.wishlist()[0].is_ignored);
    assert!(!state.is_token_allowed(500));
    assert!(state.get_search(500).is_some());
    state.remove_search(t);
    assert!(state.get_search(t).is_none());
    assert!(!state.is_token_allowed(t));
    assert!(state.allowed_tokens().is_empty());
}

#[test]
fn wishlist_round_robin() {
    let mut state = SearchState::new();
    assert!(state.next_wishlist_item().is_none());
    state.add_to_wishlist("a".into());
    state.add_to_wishlist("b".into());
    state.add_to_wishlist("c".into());
    state.wishlist_item_mut(0).unwrap().auto_search = false;
    // "a" is skipped and moved back; "b" is picked and moved last.
    let (idx, item) = state.next_wishlist_item().unwrap();
    assert_eq!(idx, 2);
    assert_eq!(item.term, "b");
    let terms: Vec<&str> = state.wishlist().iter().map(|w| w.term.as_str()).collect();
    assert_eq!(terms, vec!["c", "a", "b"]);
    state.remove_from_wishlist(5);
    state.remove_from_wishlist(0);
    let terms: Vec<&str> = state.wishlist().iter().map(|w| w.term.as_str()).collect();
    assert_eq!(terms, vec!["a", "b"]);
    for w in 0..2 {
        state.wishlist_item_mut(w).unwrap().auto_search = false;
    }
    assert!(state.next_wishlist_item().is_none());
    let terms: Vec<&str> = state.wishlist().iter().map(|w| w.term.as_str()).collect();
    assert_eq!(terms, vec!["a", "b"]);
}

#[test]
fn own_tokens_and_settings() {
    let mut state = SearchState::new();
    state.add_own_token(7);
    assert!(state.check_and_remove_own_token(7));
    assert!(!state.check_and_remove_own_token(7));
    state.allow_token(1);
    state.allow_token(2);
    state.clear_allowed_tokens();
    assert!(!state.is_token_allowed(1));
    assert_eq!(state.wishlist_interval(), 600);
    state.set_wishlist_interval(120);
    assert_eq!(state.wishlist_interval(), 120);
    assert_eq!(state.max_results(), 1000);
    state.set_max_results(5);
    assert_eq!(state.max_results(), 5);
    let item = WishlistItem::new_at("x".into(), 42);
    assert!(item.auto_search && item.is_ignored && item.time_added == 42);
}

#[test]
fn search_mode_text() {
    assert_eq!(SearchMode::Global.to_string(), "global");
    assert_eq!(SearchMode::Room { room: "jazz".into() }.to_string(), "room:jazz");
    assert_eq!(SearchMode::User { username: "bob".into() }.to_string(), "user:bob");
    assert_eq!(SearchMode::Wishlist { wish_id: 305 }.to_string(), "wishlist:305");
}

#[test]
fn test_add_and_search() {
    let mut index = WordIndex::new();
    index.add_file("pink floyd dark side of the moon.flac".into(), 100_000_000);
    index.add_file("pink floyd the wall.mp3".into(), 50_000_000);
    index.add_file("led zeppelin IV.flac".into(), 200_000_000);

    let results = index.search(&["pink".into()], &[], &[], 1000);
    assert!(results.is_some());
    assert_eq!(results.unwrap().len(), 2);

    let results = index.search(&["pink".into(), "floyd".into()], &[], &[], 1000);
    assert!(results.is_some());
    assert_eq!(results.unwrap().len(), 2);

    let results = index.search(&["pink".into()], &["floyd".into()], &[], 1000);
    assert!(results.is_none());

    let results = index.search(&[], &[], &["flo".into()], 1000);
    assert!(
        results.is_none(),
        "partial-only search should return None"
    );

    let results = index.search(&["pink".into()], &[], &["flo".into()], 1000);
    assert!(results.is_some());
    assert_eq!(results.unwrap().len(), 2);
}

#[test]
fn search_included_words_in_every_result() {
    let mut index = WordIndex::new();
    index.add_file("pink floyd dark side of the moon.flac".into(), 100_000_000);
    index.add_file("pink floyd the wall.mp3".into(), 50_000_000);
    index.add_file("led zeppelin IV.flac".into(), 200_000_000);
    assert!(index.search(&["beatles".into()], &[], &["flo".into()], 1000).is_none());
    assert!(index
        .search(&["pink".into()], &[], &["zep".into(), "flo".into()], 1000)
        .is_none());
    assert_eq!(index.search(&["pink".into()], &[], &["wa".into()], 1000).unwrap().len(), 1);
    assert!(index.search(&["pink".into()], &[], &[], 0).is_none());
}

#[test]
fn added_file_found_by_each_word() {
    let mut index = WordIndex::new();
    index.add_file("led zeppelin IV.flac".into(), 1);
    index.add_file("Pink Floyd - Animals.mp3".into(), 2);
    for w in WordIndex::extract_words("Pink Floyd - Animals.mp3") {
        let r = index.search(&[w.clone()], &[], &[], index.len()).unwrap();
        assert!(r.contains(&1), "{} should find the file", w);
    }
}

#[test]
fn test_extract_words() {
    let words = WordIndex::extract_words("Hello-World.mp3");
    assert!(words.contains(&"hello".into()));
    assert!(words.contains(&"world".into()));
    assert!(words.contains(&"mp3".into()));
}

#[test]
fn removed_chars_are_all_stripped() {
    let all: String = REMOVED_SEARCH_CHARS.iter().collect();
    assert_eq!(strip_removed_chars(&all), "");
    assert!(REMOVED_SEARCH_CHARS.iter().all(|c| is_removed_char(*c)));
    assert!(!is_removed_char('a') && !is_removed_char(' ') && !is_removed_char('\u{2019}'));
    assert_eq!(strip_removed_chars("  a\u{2026}b  "), "ab");
}
