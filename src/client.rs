//! The client of one puzzle: fetching its input and submitting answers.
use vstd::prelude::*;
use crate::cache::{
    Cache, FileWrite, answer_writes_spec, apply_writes, input_writes, lemma_input_stays, stored,
    writes_view,
};
use crate::puzzle::{FIRST_YEAR, KeyError, PuzzleKey, valid_puzzle};
use crate::text::{decimal, push_decimal, strip_suffix};

verus! {

/// The text of `s` encoded for a URL form.
pub uninterp spec fn url_encoded(s: Seq<char>) -> Seq<char>;

/// Relies on urlencoding::encode: percent-encodes every byte of the UTF-8 text
/// but alphanumerics and `-`, `_`, `.`, `~`.
#[verifier::external_body]
fn url_encode(s: &str) -> (r: String)
    ensures
        r@ == url_encoded(s@),
{
    urlencoding::encode(s).into_owned()
}

/// The path of a puzzle on the server: `/<year>/day/<day>`.
pub open spec fn puzzle_path(year: nat, day: nat) -> Seq<char> {
    "/"@ + decimal(year) + "/day/"@ + decimal(day)
}

/// The form that submits `answer` for `part`.
pub open spec fn submit_form_spec(part: nat, answer: Seq<char>) -> Seq<char> {
    "level="@ + decimal(part) + "&answer="@ + url_encoded(answer)
}

/// A fetched input with the line ending at its end taken off: one newline, then
/// one carriage return.
pub open spec fn trimmed_input(body: Seq<char>) -> Seq<char> {
    strip_suffix(strip_suffix(body, "\n"@), "\r"@)
}

/// After one successful fetch, the store holds the fetched input, trimmed, so
/// that every later request for the input is served from the store with the
/// same text, whatever answer attempts were recorded in between.
pub proof fn lemma_input_fetched_once(
    c: Aocd,
    fs: Map<Seq<char>, Seq<char>>,
    body: Seq<char>,
    part: nat,
    answer: Seq<char>,
    response: Seq<char>,
    correct: bool,
)
    ensures
        ({
            let t = trimmed_input(body);
            let after = apply_writes(fs, input_writes(c.spec_cache(), t));
            &&& stored(after, c.spec_cache().input_path()) == Some(t)
            &&& stored(
                apply_writes(after, answer_writes_spec(c.spec_cache(), part, answer, response, correct)),
                c.spec_cache().input_path(),
            ) == Some(t)
        }),
{
    lemma_input_stays(fs, c.spec_cache(), trimmed_input(body), part, answer, response, correct);
}

/// The status of a successful exchange with the server.
pub const STATUS_OK: u16 = 200;

/// A client for one puzzle and one identity.
pub struct Aocd {
    year: u16,
    day: u8,
    url: String,
    session_token: String,
    cache: Cache,
}

/// What to do for the input of a puzzle.
#[derive(Debug, Clone, PartialEq, Eq)]
pub enum InputStep {
    /// Hand out this text: it was found in the store.
    Serve(String),
    /// Fetch the input from this address.
    Fetch(String),
}

/// Why fetching an input failed.
#[derive(Debug, Clone, Copy, PartialEq, Eq, Structural)]
pub enum InputError {
    /// The server answered with this status instead of success.
    Status(u16),
}

impl Aocd {
    pub closed spec fn spec_year(&self) -> u16 {
        self.year
    }

    pub closed spec fn spec_day(&self) -> u8 {
        self.day
    }

    pub closed spec fn spec_url(&self) -> Seq<char> {
        self.url@
    }

    pub closed spec fn spec_session(&self) -> Seq<char> {
        self.session_token@
    }

    pub closed spec fn spec_cache(&self) -> Cache {
        self.cache
    }

    /// Every client names a published puzzle, and its store is that puzzle's.
    pub closed spec fn wf(&self) -> bool {
        &&& valid_puzzle(self.year as int, self.day as int)
        &&& self.cache.spec_year() == self.year
        &&& self.cache.spec_day() == self.day
    }

    /// A client for the puzzle of `year` and `day`, talking to the server at `url`
    /// as the identity `session_token`, with its store under `cache_base`. A year
    /// before the first one or a day outside the calendar is refused, before
    /// anything else is done.
    pub fn new(year: u16, day: u8, url: &str, session_token: &str, cache_base: &str) -> (r: Result<
        Aocd,
        KeyError,
    >)
        ensures
            match r {
                Ok(c) => {
                    &&& valid_puzzle(year as int, day as int)
                    &&& c.wf()
                    &&& c.spec_year() == year
                    &&& c.spec_day() == day
                    &&& c.spec_url() == url@
                    &&& c.spec_session() == session_token@
                    &&& c.spec_cache().directory() == cache_base@ + "/"@ + session_token@
                },
                Err(e) => {
                    &&& !valid_puzzle(year as int, day as int)
                    &&& (e == KeyError::YearTooEarly <==> year < FIRST_YEAR)
                    &&& (e == KeyError::DayOutOfRange <==> year >= FIRST_YEAR)
                },
            },
    {
        match PuzzleKey::new(year, day) {
            Err(e) => Err(e),
            Ok(_) => Ok(
                Aocd {
                    year,
                    day,
                    url: String::from_str(url),
                    session_token: String::from_str(session_token),
                    cache: Cache::new(year, day, cache_base, session_token),
                },
            ),
        }
    }

    pub fn year(&self) -> (r: u16)
        ensures
            r == self.spec_year(),
    {
        self.year
    }

    pub fn day(&self) -> (r: u8)
        ensures
            r == self.spec_day(),
    {
        self.day
    }

    pub fn url(&self) -> (r: &str)
        ensures
            r@ == self.spec_url(),
    {
        self.url.as_str()
    }

    /// The store of this client's identity and puzzle.
    pub fn cache(&self) -> (r: &Cache)
        ensures
            *r == self.spec_cache(),
    {
        &self.cache
    }

    /// The cookie that carries the identity: `session=<token>`.
    pub fn session_cookie(&self) -> (r: String)
        ensures
            r@ == "session="@ + self.spec_session(),
    {
        let mut r = String::from_str("session=");
        r.append(self.session_token.as_str());
        r
    }

    fn puzzle_url(&self) -> (r: String)
        ensures
            r@ == self.spec_url() + puzzle_path(self.year as nat, self.day as nat),
    {
        let mut r = self.url.clone();
        r.append("/");
        push_decimal(&mut r, self.year as u64);
        r.append("/day/");
        push_decimal(&mut r, self.day as u64);
        assert(r@ =~= self.spec_url() + puzzle_path(self.year as nat, self.day as nat));
        r
    }

    /// The address of the puzzle's input.
    pub fn input_url(&self) -> (r: String)
        ensures
            r@ == self.spec_url() + puzzle_path(self.spec_year() as nat, self.spec_day() as nat)
                + "/input"@,
    {
        let mut r = self.puzzle_url();
        r.append("/input");
        r
    }

    /// The address to which answers are posted, and whose page lists past answers.
    pub fn answer_url(&self) -> (r: String)
        ensures
            r@ == self.spec_url() + puzzle_path(self.spec_year() as nat, self.spec_day() as nat)
                + "/answer"@,
    {
        let mut r = self.puzzle_url();
        r.append("/answer");
        r
    }

    /// The form body that submits `answer` for `part`.
    pub fn submit_form(part: u8, answer: &str) -> (r: String)
        ensures
            r@ == submit_form_spec(part as nat, answer@),
    {
        let mut r = String::from_str("level=");
        push_decimal(&mut r, part as u64);
        r.append("&answer=");
        let enc = url_encode(answer);
        r.append(enc.as_str());
        assert(r@ =~= submit_form_spec(part as nat, answer@));
        r
    }

    /// The first step towards the input: what the store holds is handed out
    /// at once; only where it holds nothing is the input fetched.
    pub fn get_input(&self, cached: Option<String>) -> (r: InputStep)
        ensures
            match cached {
                Some(t) => r == InputStep::Serve(t),
                None => r matches InputStep::Fetch(u) && u@ == self.spec_url() + puzzle_path(
                    self.spec_year() as nat,
                    self.spec_day() as nat,
                ) + "/input"@,
            },
    {
        match cached {
            Some(t) => InputStep::Serve(t),
            None => InputStep::Fetch(self.input_url()),
        }
    }

    /// What the server sent for the input: on success, the input with its final
    /// line ending taken off, and the write that stores it.
    pub fn input_fetched(&self, status: u16, body: &str) -> (r: Result<(String, FileWrite), InputError>)
        ensures
            match r {
                Ok((t, w)) => {
                    &&& status == STATUS_OK
                    &&& t@ == trimmed_input(body@)
                    &&& writes_view(seq![w]) == input_writes(self.spec_cache(), t@)
                },
                Err(e) => status != STATUS_OK && e == InputError::Status(status),
            },
    {
        if status != STATUS_OK {
            return Err(InputError::Status(status));
        }
        let t = trim_line_ending(body);
        let w = self.cache.cache_input(t.as_str());
        Ok((t, w))
    }
}

/// Takes one newline, then one carriage return, off the end of `body`.
pub fn trim_line_ending(body: &str) -> (r: String)
    ensures
        r@ == trimmed_input(body@),
{
    let n = body.unicode_len();
    let mut end = n;
    if end > 0 && body.get_char(end - 1) == '\n' {
        end = end - 1;
    }
    let ghost once = body@.subrange(0, end as int);
    proof {
        reveal_strlit("\n");
        assert(once == strip_suffix(body@, "\n"@)) by {
            if body@.len() > 0 && body@[body@.len() - 1] == '\n' {
                assert(body@.subrange(body@.len() - 1, body@.len() as int) =~= "\n"@);
            } else if 1 <= body@.len() {
                assert(body@.subrange(body@.len() - 1, body@.len() as int)[0] != '\n');
            }
            assert(once =~= body@.subrange(0, end as int));
            assert(body@ =~= body@.subrange(0, body@.len() as int));
        }
    }
    let mid = end;
    if end > 0 && body.get_char(end - 1) == '\r' {
        end = end - 1;
    }
    proof {
        reveal_strlit("\r");
        let t = once;
        assert(t.len() == mid);
        if t.len() > 0 && t[t.len() - 1] == '\r' {
            assert(t.subrange(t.len() - 1, t.len() as int) =~= "\r"@);
            assert(t.subrange(0, t.len() - 1) =~= body@.subrange(0, end as int));
        } else {
            if 1 <= t.len() {
                assert(t.subrange(t.len() - 1, t.len() as int)[0] != '\r');
            }
            assert(t =~= body@.subrange(0, end as int));
        }
    }
    String::from_str(body.substring_char(0, end))
}

} // verus!
