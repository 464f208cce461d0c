use std::collections::HashMap;

use aocd::client::{Aocd, InputError, InputStep};
use aocd::puzzle::KeyError;
use aocd::submission::{Action, Event, Outcome, SubmitError};

const SERVER: &str = "http://127.0.0.1:1234";

/// A store held in memory and a server that always sends the same pages.
struct World {
    files: HashMap<String, String>,
    post_status: u16,
    post_body: String,
    page_body: String,
    forms: Vec<String>,
    page_gets: usize,
}

impl World {
    fn new(post_body: &str, page_body: &str) -> World {
        World {
            files: HashMap::new(),
            post_status: 200,
            post_body: post_body.to_string(),
            page_body: page_body.to_string(),
            forms: Vec::new(),
            page_gets: 0,
        }
    }

    fn requests(&self) -> usize {
        self.forms.len() + self.page_gets
    }

    fn submit(
        &mut self,
        client: &Aocd,
        part: u8,
        answer: &str,
    ) -> Result<Outcome<String>, SubmitError<String>> {
        let mut sub = client.submit(part, answer);
        let mut event = Event::Begin;
        loop {
            event = match sub.step(event) {
                Action::LookupCorrect => Event::Found(
                    self.files.get(&client.cache().correct_answer_file(part)).cloned(),
                ),
                Action::LookupResponse => Event::Found(
                    self.files
                        .get(&client.cache().answer_response_file(part, answer))
                        .cloned(),
                ),
                Action::Post { form } => {
                    self.forms.push(form);
                    Event::Page { status: self.post_status, body: self.post_body.clone() }
                }
                Action::Record { part, answer, response, correct } => {
                    for w in client.cache().cache_answer_response(part, &answer, &response, correct) {
                        self.files.insert(w.path, w.content);
                    }
                    Event::Stored
                }
                Action::FetchPage => {
                    self.page_gets += 1;
                    Event::Page { status: 200, body: self.page_body.clone() }
                }
                Action::Finish(o) => return Ok(o),
                Action::Fail(e) => return Err(e),
            };
        }
    }
}

fn client(year: u16, day: u8) -> Aocd {
    Aocd::new(year, day, SERVER, "test-session", "/tmp/aocd-tests").unwrap()
}

fn page_with(message: &str) -> String {
    format!("<!DOCTYPE html>\n<html>\n<main>\n<article><p>{message}</p></article>\n</main>\n</html>\n")
}

#[test]
fn test_new_client() {
    let c = client(2022, 1);
    assert_eq!(c.year(), 2022);
    assert_eq!(c.day(), 1);
    assert_eq!(c.url(), SERVER);
}

#[test]
fn test_get_input() {
    let c = client(2022, 1);
    let mut files: HashMap<String, String> = HashMap::new();
    let mut fetches = 0;
    let mut get = |files: &mut HashMap<String, String>| -> String {
        match c.get_input(files.get(&c.cache().input_cache_file()).cloned()) {
            InputStep::Serve(t) => t,
            InputStep::Fetch(url) => {
                assert_eq!(url, format!("{SERVER}/2022/day/1/input"));
                fetches += 1;
                let (t, w) = c.input_fetched(200, "test input").unwrap();
                files.insert(w.path, w.content);
                t
            }
        }
    };
    assert_eq!(get(&mut files), "test input");
    // The second call is served from the store.
    assert_eq!(get(&mut files), "test input");
    assert_eq!(fetches, 1);
}

#[test]
fn input_fetch_failure_is_reported() {
    let c = client(2022, 1);
    assert_eq!(c.input_fetched(404, "nope"), Err(InputError::Status(404)));
}

#[test]
fn input_is_trimmed_of_one_line_ending() {
    let c = client(2022, 1);
    let (t, w) = c.input_fetched(200, "1\n2\r\n").unwrap();
    assert_eq!(t, "1\n2");
    assert_eq!(w.path, "/tmp/aocd-tests/test-session/inputs/2022-01");
    assert_eq!(w.content, "1\n2");
    let (t, _) = c.input_fetched(200, "x\n\n").unwrap();
    assert_eq!(t, "x\n");
}

#[test]
fn puzzle_keys_are_checked_at_construction() {
    assert!(matches!(Aocd::new(2014, 1, SERVER, "s", "/tmp"), Err(KeyError::YearTooEarly)));
    assert!(matches!(Aocd::new(2015, 0, SERVER, "s", "/tmp"), Err(KeyError::DayOutOfRange)));
    assert!(matches!(Aocd::new(2015, 26, SERVER, "s", "/tmp"), Err(KeyError::DayOutOfRange)));
    assert!(matches!(Aocd::new(2014, 26, SERVER, "s", "/tmp"), Err(KeyError::YearTooEarly)));
    assert!(Aocd::new(2015, 1, SERVER, "s", "/tmp").is_ok());
    assert!(Aocd::new(2015, 25, SERVER, "s", "/tmp").is_ok());
}

#[test]
fn right_answer_is_recorded_and_final() {
    let c = client(2022, 3);
    let mut w = World::new(&page_with("That's the right answer!  You are one gold star closer."), "");
    assert_eq!(w.submit(&c, 1, "42"), Ok(Outcome::Solved));
    assert_eq!(w.forms, vec!["level=1&answer=42".to_string()]);
    assert_eq!(
        w.files.get("/tmp/aocd-tests/test-session/answers/2022-03-1-correct"),
        Some(&"42".to_string())
    );
    assert_eq!(
        w.files.get("/tmp/aocd-tests/test-session/answers/2022-03-1-resp-42"),
        Some(&"That's the right answer!  You are one gold star closer.".to_string())
    );
    assert_eq!(
        w.submit(&c, 1, "42"),
        Ok(Outcome::AlreadySolved { accepted: "42".to_string(), same: true })
    );
    assert_eq!(
        w.submit(&c, 1, "43"),
        Ok(Outcome::AlreadySolved { accepted: "42".to_string(), same: false })
    );
    assert_eq!(w.requests(), 1);
    assert_eq!(
        w.files.get("/tmp/aocd-tests/test-session/answers/2022-03-1-correct"),
        Some(&"42".to_string())
    );
}

#[test]
fn wrong_answer_is_not_guessed_twice() {
    let c = client(2021, 7);
    let msg = "That's not the right answer; your answer is too low.";
    let mut w = World::new(&page_with(msg), "");
    assert_eq!(w.submit(&c, 2, "007"), Ok(Outcome::Wrong { response: msg.to_string() }));
    assert_eq!(
        w.submit(&c, 2, "007"),
        Ok(Outcome::AlreadyGuessed { response: msg.to_string() })
    );
    assert_eq!(w.requests(), 1);
    // Answers are compared as text.
    assert_eq!(w.submit(&c, 2, "7"), Ok(Outcome::Wrong { response: msg.to_string() }));
    assert_eq!(w.requests(), 2);
    assert!(!w.files.contains_key("/tmp/aocd-tests/test-session/answers/2021-07-2-correct"));
}

#[test]
fn too_recent_is_not_recorded() {
    let c = client(2020, 10);
    let msg = "You gave an answer too recently; you have 30s left to wait.";
    let mut w = World::new(&page_with(msg), "");
    assert_eq!(w.submit(&c, 1, "5"), Ok(Outcome::TooRecent { response: msg.to_string() }));
    assert!(w.files.is_empty());
    assert_eq!(w.submit(&c, 1, "5"), Ok(Outcome::TooRecent { response: msg.to_string() }));
    assert_eq!(w.requests(), 2);
}

#[test]
fn reconciliation_records_both_parts() {
    let c = client(2019, 4);
    let post = page_with("You don't seem to be solving the right level.  Did you already complete it?");
    let page = "<p>Your puzzle answer was <code>1234</code>.</p>\n<p>Your puzzle answer was <code>5678</code>.</p>\n";
    let mut w = World::new(&post, page);
    assert_eq!(
        w.submit(&c, 1, "1234"),
        Ok(Outcome::AlreadySolved { accepted: "1234".to_string(), same: true })
    );
    assert_eq!(w.forms.len(), 1);
    assert_eq!(w.page_gets, 1);
    let base = "/tmp/aocd-tests/test-session/answers/2019-04";
    assert_eq!(w.files.get(&format!("{base}-1-correct")), Some(&"1234".to_string()));
    assert_eq!(w.files.get(&format!("{base}-2-correct")), Some(&"5678".to_string()));
    assert_eq!(
        w.files.get(&format!("{base}-2-resp-5678")),
        Some(&"That's the right answer!".to_string())
    );
    assert_eq!(
        w.submit(&c, 2, "5678"),
        Ok(Outcome::AlreadySolved { accepted: "5678".to_string(), same: true })
    );
    assert_eq!(w.requests(), 2);
}

#[test]
fn reconciliation_restarts_only_once() {
    let c = client(2019, 5);
    let post = page_with("Did you already complete it?");
    let page = "<p>Your puzzle answer was <code>1</code>.</p>\n";
    let mut w = World::new(&post, page);
    // Only the first part is listed: the second part is posted again, and the
    // same reply is then an error.
    assert_eq!(w.submit(&c, 2, "9"), Err(SubmitError::StillUnsolved));
    assert_eq!(w.forms.len(), 2);
    assert_eq!(w.page_gets, 1);
}

#[test]
fn reconciliation_without_past_answers_fails() {
    let c = client(2019, 6);
    let mut w = World::new(&page_with("Did you already complete it?"), "<p>nothing here</p>");
    assert_eq!(w.submit(&c, 1, "9"), Err(SubmitError::NoPastAnswers));
}

#[test]
fn unrecognized_and_missing_messages_fail() {
    let c = client(2018, 1);
    let mut w = World::new(&page_with("Something else"), "");
    assert_eq!(
        w.submit(&c, 1, "1"),
        Err(SubmitError::UnrecognizedResponse { fragment: "Something else".to_string() })
    );
    let mut w = World::new("<html>no article</html>", "");
    assert_eq!(w.submit(&c, 1, "1"), Err(SubmitError::NoResponseMessage));
    let mut w = World::new(&page_with("That's the right answer!"), "");
    w.post_status = 500;
    assert_eq!(w.submit(&c, 1, "1"), Err(SubmitError::Status { status: 500 }));
    assert!(w.files.is_empty());
}

#[test]
fn events_out_of_order_fail() {
    let c = client(2018, 2);
    let mut sub = c.submit(1, "1");
    assert_eq!(sub.step(Event::Begin), Action::LookupCorrect);
    assert_eq!(sub.step(Event::Stored), Action::Fail(SubmitError::OutOfOrder));
    assert!(sub.is_done());
}

#[test]
fn addresses_and_form() {
    let c = client(2022, 12);
    assert_eq!(c.input_url(), format!("{SERVER}/2022/day/12/input"));
    assert_eq!(c.answer_url(), format!("{SERVER}/2022/day/12/answer"));
    assert_eq!(c.session_cookie(), "session=test-session");
    assert_eq!(Aocd::submit_form(2, "a b&c"), "level=2&answer=a%20b%26c");
    assert_eq!(Aocd::submit_form(1, "-_.~x9"), "level=1&answer=-_.~x9");
}
