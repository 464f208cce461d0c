use aocd::cache::Cache;
use aocd::page::{classify, find_past_answers, response_fragment, Verdict};
use aocd::puzzle::{is_valid_part, PuzzleKey};
use aocd::text::{str_contains};
use aocd::client::trim_line_ending;

#[test]
fn cache_paths() {
    let c = Cache::new(2015, 1, "/home/u/.cache/aocd", "tok");
    assert_eq!(c.cache_directory(), "/home/u/.cache/aocd/tok");
    assert_eq!(c.inputs_directory(), "/home/u/.cache/aocd/tok/inputs");
    assert_eq!(c.answers_directory(), "/home/u/.cache/aocd/tok/answers");
    assert_eq!(c.input_cache_file(), "/home/u/.cache/aocd/tok/inputs/2015-01");
    assert_eq!(c.answer_cache_file_prefix(2), "/home/u/.cache/aocd/tok/answers/2015-01-2");
    assert_eq!(
        c.answer_response_file(1, "007"),
        "/home/u/.cache/aocd/tok/answers/2015-01-1-resp-007"
    );
    assert_eq!(c.correct_answer_file(1), "/home/u/.cache/aocd/tok/answers/2015-01-1-correct");
    let c = Cache::new(2023, 25, "/c", "s");
    assert_eq!(c.input_cache_file(), "/c/s/inputs/2023-25");
}

#[test]
fn identities_do_not_share_files() {
    let a = Cache::new(2022, 1, "/c", "alice");
    let b = Cache::new(2022, 1, "/c", "bob");
    assert_ne!(a.input_cache_file(), b.input_cache_file());
    assert_ne!(a.correct_answer_file(1), b.correct_answer_file(1));
}

#[test]
fn answer_writes_go_together() {
    let c = Cache::new(2022, 1, "/c", "s");
    let w = c.cache_answer_response(1, "42", "That's the right answer!", true);
    assert_eq!(w.len(), 2);
    assert_eq!(w[0].path, "/c/s/answers/2022-01-1-resp-42");
    assert_eq!(w[0].content, "That's the right answer!");
    assert_eq!(w[1].path, "/c/s/answers/2022-01-1-correct");
    assert_eq!(w[1].content, "42");
    let w = c.cache_answer_response(2, "41", "That's not the right answer", false);
    assert_eq!(w.len(), 1);
    assert_eq!(w[0].path, "/c/s/answers/2022-01-2-resp-41");
}

#[test]
fn put_input_twice_keeps_the_text() {
    let c = Cache::new(2022, 1, "/c", "s");
    let mut files = std::collections::HashMap::new();
    for _ in 0..2 {
        let w = c.cache_input("line one\nline two");
        files.insert(w.path, w.content);
    }
    assert_eq!(files.len(), 1);
    assert_eq!(files.get("/c/s/inputs/2022-01"), Some(&"line one\nline two".to_string()));
}

#[test]
fn fragment_of_last_article_line() {
    let html = "<article><p>first</p></article>\n<p>x</p>\n<article><p>That's the right answer!</p></article>\r\n<div></div>";
    assert_eq!(response_fragment(html), Some("That's the right answer!".to_string()));
    assert_eq!(response_fragment("<article>bare</article>"), Some("bare".to_string()));
    assert_eq!(response_fragment(" <article><p>indented</p></article>"), None);
    assert_eq!(response_fragment(""), None);
}

#[test]
fn verdicts() {
    assert_eq!(classify("That's the right answer! Well done"), Verdict::Right);
    assert_eq!(classify("That's not the right answer."), Verdict::Wrong);
    assert_eq!(classify("You gave an answer too recently"), Verdict::TooRecent);
    assert_eq!(classify("Did you already complete it?"), Verdict::AlreadyComplete);
    assert_eq!(classify("Something"), Verdict::Unrecognized);
}

#[test]
fn past_answers_in_page_order() {
    let page = "x <p>Your puzzle answer was <code>abc</code>.</p> y Your puzzle answer was <code>12</code> z Your puzzle answer was <code>3</code>";
    assert_eq!(
        find_past_answers(page),
        Some(vec!["abc".to_string(), "12".to_string(), "3".to_string()])
    );
    assert_eq!(find_past_answers("none"), Some(vec![]));
}

#[test]
fn small_helpers() {
    assert!(str_contains("hello world", "o w"));
    assert!(!str_contains("hello", "hello!"));
    assert!(str_contains("abc", ""));
    assert_eq!(trim_line_ending("a\r\n"), "a");
    assert_eq!(trim_line_ending("a\r"), "a");
    assert_eq!(trim_line_ending("a\n\r"), "a\n");
    assert_eq!(trim_line_ending(""), "");
    assert!(is_valid_part(1) && is_valid_part(2) && !is_valid_part(0) && !is_valid_part(3));
    let k = PuzzleKey::new(2016, 9).unwrap();
    assert_eq!((k.year(), k.day()), (2016, 9));
}
