//! Submitting an answer: a state machine that decides, step by step, whether
//! the store already knows the outcome, what to send to the server, what to
//! record, and when to recover past answers from the puzzle's page.
//!
//! The caller performs each action and hands back the event that came of it.
//! Strings are `String` in running code and `Seq<char>` in the views.
use vstd::prelude::*;
use crate::client::{Aocd, STATUS_OK, submit_form_spec};
use crate::page::{
    PAST_ANSWER_PATTERN, RIGHT_ANSWER, Verdict, classify, find_past_answers,
    fragment_spec, past_answers_on, regex_compiles, response_fragment, verdict_of,
};
use crate::puzzle::valid_part;
use crate::cache::{
    Cache, answer_writes_spec, apply_writes, lemma_parts_apart, lemma_paths_distinct, lemma_writes_elsewhere, stored,
};

verus! {

/// How a submission ended.
#[derive(Debug, Clone, PartialEq, Eq)]
pub enum Outcome<S> {
    /// The part was solved before; `same` tells whether with the submitted answer.
    AlreadySolved { accepted: S, same: bool },
    /// This answer was refused before; the server's response then.
    AlreadyGuessed { response: S },
    /// The server accepted the answer.
    Solved,
    /// The server refused the answer.
    Wrong { response: S },
    /// The server asked to wait before answering again; nothing was recorded.
    TooRecent { response: S },
}

/// Why a submission failed.
#[derive(Debug, Clone, PartialEq, Eq)]
pub enum SubmitError<S> {
    /// The server answered the submission with this status.
    Status { status: u16 },
    /// The server answered the request for the puzzle page with this status.
    PageStatus { status: u16 },
    /// The response page holds no line that opens with an article tag.
    NoResponseMessage,
    /// The response message carries none of the known phrases.
    UnrecognizedResponse { fragment: S },
    /// The puzzle page lists no past answer although the server said the part was solved.
    NoPastAnswers,
    /// The server said again that the part was solved after past answers were recorded.
    StillUnsolved,
    /// The pattern of past answers did not compile.
    PatternRefused,
    /// The event does not answer the last action.
    OutOfOrder,
}

/// What came of the last action.
#[derive(Debug, Clone, PartialEq, Eq)]
pub enum Event<S> {
    /// Nothing yet: the first step.
    Begin,
    /// What the store holds at the place that was looked up.
    Found(Option<S>),
    /// The status and body of the server's page.
    Page { status: u16, body: S },
    /// The record was written.
    Stored,
}

/// What the caller is to do next.
#[derive(Debug, Clone, PartialEq, Eq)]
pub enum Action<S> {
    /// Look up the accepted answer of the submission's part.
    LookupCorrect,
    /// Look up the server's past response to the submitted answer.
    LookupResponse,
    /// Post this form to the answer address.
    Post { form: S },
    /// Record an answer attempt in the store.
    Record { part: u8, answer: S, response: S, correct: bool },
    /// Get the page at the answer address.
    FetchPage,
    /// The submission is over.
    Finish(Outcome<S>),
    /// The submission failed.
    Fail(SubmitError<S>),
}

/// Where a submission stands.
#[derive(Debug, Clone, PartialEq, Eq)]
pub enum Phase<S> {
    Start,
    AwaitCorrect,
    AwaitResponse,
    AwaitPost,
    /// Waiting for a record, after which the submission ends with this outcome.
    AwaitRecord(Outcome<S>),
    AwaitPage,
    /// Waiting for a past answer's record; then the second part's, if one was found.
    AwaitPast(Option<S>),
    Done,
}

pub open spec fn view_opt(o: Option<String>) -> Option<Seq<char>> {
    match o {
        Some(s) => Some(s@),
        None => None,
    }
}

impl View for Outcome<String> {
    type V = Outcome<Seq<char>>;

    open spec fn view(&self) -> Outcome<Seq<char>> {
        match self {
            Outcome::AlreadySolved { accepted, same } => Outcome::AlreadySolved {
                accepted: accepted@,
                same: *same,
            },
            Outcome::AlreadyGuessed { response } => Outcome::AlreadyGuessed { response: response@ },
            Outcome::Solved => Outcome::Solved,
            Outcome::Wrong { response } => Outcome::Wrong { response: response@ },
            Outcome::TooRecent { response } => Outcome::TooRecent { response: response@ },
        }
    }
}

impl View for SubmitError<String> {
    type V = SubmitError<Seq<char>>;

    open spec fn view(&self) -> SubmitError<Seq<char>> {
        match self {
            SubmitError::Status { status } => SubmitError::Status { status: *status },
            SubmitError::PageStatus { status } => SubmitError::PageStatus { status: *status },
            SubmitError::NoResponseMessage => SubmitError::NoResponseMessage,
            SubmitError::UnrecognizedResponse { fragment } => SubmitError::UnrecognizedResponse {
                fragment: fragment@,
            },
            SubmitError::NoPastAnswers => SubmitError::NoPastAnswers,
            SubmitError::StillUnsolved => SubmitError::StillUnsolved,
            SubmitError::PatternRefused => SubmitError::PatternRefused,
            SubmitError::OutOfOrder => SubmitError::OutOfOrder,
        }
    }
}

impl View for Event<String> {
    type V = Event<Seq<char>>;

    open spec fn view(&self) -> Event<Seq<char>> {
        match self {
            Event::Begin => Event::Begin,
            Event::Found(o) => Event::Found(view_opt(*o)),
            Event::Page { status, body } => Event::Page { status: *status, body: body@ },
            Event::Stored => Event::Stored,
        }
    }
}

impl View for Action<String> {
    type V = Action<Seq<char>>;

    open spec fn view(&self) -> Action<Seq<char>> {
        match self {
            Action::LookupCorrect => Action::LookupCorrect,
            Action::LookupResponse => Action::LookupResponse,
            Action::Post { form } => Action::Post { form: form@ },
            Action::Record { part, answer, response, correct } => Action::Record {
                part: *part,
                answer: answer@,
                response: response@,
                correct: *correct,
            },
            Action::FetchPage => Action::FetchPage,
            Action::Finish(o) => Action::Finish(o@),
            Action::Fail(e) => Action::Fail(e@),
        }
    }
}

impl View for Phase<String> {
    type V = Phase<Seq<char>>;

    open spec fn view(&self) -> Phase<Seq<char>> {
        match self {
            Phase::Start => Phase::Start,
            Phase::AwaitCorrect => Phase::AwaitCorrect,
            Phase::AwaitResponse => Phase::AwaitResponse,
            Phase::AwaitPost => Phase::AwaitPost,
            Phase::AwaitRecord(o) => Phase::AwaitRecord(o@),
            Phase::AwaitPage => Phase::AwaitPage,
            Phase::AwaitPast(o) => Phase::AwaitPast(view_opt(*o)),
            Phase::Done => Phase::Done,
        }
    }
}

/// Where a submission stands, as seen by contracts: its phase, and whether it
/// has already gone back to the start once.
pub type StepState = (Phase<Seq<char>>, bool);

/// The step after the server answered the submission.
pub open spec fn posted_spec(
    part: u8,
    answer: Seq<char>,
    restarted: bool,
    status: u16,
    body: Seq<char>,
) -> (StepState, Action<Seq<char>>) {
    if status != STATUS_OK {
        ((Phase::Done, restarted), Action::Fail(SubmitError::Status { status }))
    } else {
        match fragment_spec(body) {
            None => ((Phase::Done, restarted), Action::Fail(SubmitError::NoResponseMessage)),
            Some(f) => match verdict_of(f) {
                Verdict::Right => (
                    (Phase::AwaitRecord(Outcome::Solved), restarted),
                    Action::Record { part, answer, response: f, correct: true },
                ),
                Verdict::Wrong => (
                    (Phase::AwaitRecord(Outcome::Wrong { response: f }), restarted),
                    Action::Record { part, answer, response: f, correct: false },
                ),
                Verdict::TooRecent => (
                    (Phase::Done, restarted),
                    Action::Finish(Outcome::TooRecent { response: f }),
                ),
                Verdict::AlreadyComplete => if restarted {
                    ((Phase::Done, restarted), Action::Fail(SubmitError::StillUnsolved))
                } else {
                    ((Phase::AwaitPage, restarted), Action::FetchPage)
                },
                Verdict::Unrecognized => (
                    (Phase::Done, restarted),
                    Action::Fail(SubmitError::UnrecognizedResponse { fragment: f }),
                ),
            },
        }
    }
}

/// The step after the server sent the puzzle page: the first past answer is
/// recorded as the first part's, the second, if any, as the second part's.
pub open spec fn page_spec(restarted: bool, status: u16, body: Seq<char>) -> (
    StepState,
    Action<Seq<char>>,
) {
    let found = past_answers_on(body);
    if status != STATUS_OK {
        ((Phase::Done, restarted), Action::Fail(SubmitError::PageStatus { status }))
    } else if !regex_compiles(PAST_ANSWER_PATTERN@) {
        ((Phase::Done, restarted), Action::Fail(SubmitError::PatternRefused))
    } else if found.len() == 0 {
        ((Phase::Done, restarted), Action::Fail(SubmitError::NoPastAnswers))
    } else {
        (
            (
                Phase::AwaitPast(
                    if found.len() >= 2 {
                        Some(found[1])
                    } else {
                        None
                    },
                ),
                restarted,
            ),
            Action::Record { part: 1, answer: found[0], response: RIGHT_ANSWER@, correct: true },
        )
    }
}

/// One step of the submission of `answer` for `part`.
pub open spec fn step_spec(
    part: u8,
    answer: Seq<char>,
    st: StepState,
    e: Event<Seq<char>>,
) -> (StepState, Action<Seq<char>>) {
    let (phase, restarted) = st;
    let fail = ((Phase::Done, restarted), Action::Fail(SubmitError::OutOfOrder));
    match phase {
        Phase::Start => ((Phase::AwaitCorrect, restarted), Action::LookupCorrect),
        Phase::AwaitCorrect => match e {
            Event::Found(Some(a)) => (
                (Phase::Done, restarted),
                Action::Finish(Outcome::AlreadySolved { accepted: a, same: a == answer }),
            ),
            Event::Found(None) => ((Phase::AwaitResponse, restarted), Action::LookupResponse),
            _ => fail,
        },
        Phase::AwaitResponse => match e {
            Event::Found(Some(r)) => (
                (Phase::Done, restarted),
                Action::Finish(Outcome::AlreadyGuessed { response: r }),
            ),
            Event::Found(None) => (
                (Phase::AwaitPost, restarted),
                Action::Post { form: submit_form_spec(part as nat, answer) },
            ),
            _ => fail,
        },
        Phase::AwaitPost => match e {
            Event::Page { status, body } => posted_spec(part, answer, restarted, status, body),
            _ => fail,
        },
        Phase::AwaitRecord(o) => match e {
            Event::Stored => ((Phase::Done, restarted), Action::Finish(o)),
            _ => fail,
        },
        Phase::AwaitPage => match e {
            Event::Page { status, body } => page_spec(restarted, status, body),
            _ => fail,
        },
        Phase::AwaitPast(second) => match e {
            Event::Stored => match second {
                Some(y) => (
                    (Phase::AwaitPast(None), restarted),
                    Action::Record { part: 2, answer: y, response: RIGHT_ANSWER@, correct: true },
                ),
                None => ((Phase::AwaitCorrect, true), Action::LookupCorrect),
            },
            _ => fail,
        },
        Phase::Done => fail,
    }
}

/// The first two steps of a submission of `answer` for `part` whose lookups are
/// answered from the store `fs`: what the store says of the part's accepted answer.
pub open spec fn first_steps(part: u8, answer: Seq<char>, restarted: bool, c: Cache, fs: Map<
    Seq<char>,
    Seq<char>,
>) -> (Action<Seq<char>>, StepState, Action<Seq<char>>) {
    let (s1, a1) = step_spec(part, answer, (Phase::Start, restarted), Event::Begin);
    let (s2, a2) = step_spec(part, answer, s1, Event::Found(stored(fs, c.correct_path(part as nat))));
    (a1, s2, a2)
}

/// Once an answer to a part is recorded as right, a later submission for that
/// part, with any answer, ends after one lookup in the store: no request goes to
/// the server and nothing is recorded, so the accepted answer stays as it was.
pub proof fn lemma_solved_part_is_final(
    c: Cache,
    fs: Map<Seq<char>, Seq<char>>,
    part: u8,
    accepted: Seq<char>,
    response: Seq<char>,
    answer: Seq<char>,
    restarted: bool,
)
    requires
        valid_part(part as int),
    ensures
        ({
            let after = apply_writes(fs, answer_writes_spec(c, part as nat, accepted, response, true));
            first_steps(part, answer, restarted, c, after) == (
                Action::<Seq<char>>::LookupCorrect,
                (Phase::<Seq<char>>::Done, restarted),
                Action::Finish(Outcome::AlreadySolved { accepted, same: accepted == answer }),
            )
        }),
{
    let w = answer_writes_spec(c, part as nat, accepted, response, true);
    let after = apply_writes(fs, w);
    assert(w.last() == (c.correct_path(part as nat), accepted));
    assert(after == apply_writes(fs, w.drop_last()).insert(c.correct_path(part as nat), accepted));
}

/// Once an answer to a part is recorded as wrong, and no answer to it as right,
/// submitting that same answer again ends after two lookups in the store with
/// the response recorded then: no request goes to the server.
pub proof fn lemma_wrong_answer_is_remembered(
    c: Cache,
    fs: Map<Seq<char>, Seq<char>>,
    part: u8,
    answer: Seq<char>,
    response: Seq<char>,
    restarted: bool,
)
    requires
        valid_part(part as int),
        stored(fs, c.correct_path(part as nat)) is None,
    ensures
        ({
            let after = apply_writes(fs, answer_writes_spec(c, part as nat, answer, response, false));
            let (a1, s2, a2) = first_steps(part, answer, restarted, c, after);
            let (s3, a3) = step_spec(
                part,
                answer,
                s2,
                Event::Found(stored(after, c.response_path(part as nat, answer))),
            );
            &&& a1 == Action::<Seq<char>>::LookupCorrect
            &&& a2 == Action::<Seq<char>>::LookupResponse
            &&& a3 == Action::Finish(Outcome::AlreadyGuessed { response })
            &&& s3 == (Phase::<Seq<char>>::Done, restarted)
        }),
{
    let w = answer_writes_spec(c, part as nat, answer, response, false);
    let after = apply_writes(fs, w);
    lemma_paths_distinct(c, part as nat, answer);
    assert forall|i: int| 0 <= i < w.len() implies w[i].0 != c.correct_path(part as nat) by {}
    lemma_writes_elsewhere(fs, w, c.correct_path(part as nat));
    assert(w.drop_last() =~= Seq::<(Seq<char>, Seq<char>)>::empty());
    assert(apply_writes(fs, w.drop_last()) == fs);
    assert(after == fs.insert(c.response_path(part as nat, answer), response));
}

/// When the server says that a part was already solved, the answers listed on
/// the puzzle page are recorded as right, the first for the first part and the
/// second for the second, and the submission starts over once: with those
/// records in the store, a submission of the first part's answer then ends as
/// already solved with the same answer, without another request.
pub proof fn lemma_reconciliation(
    c: Cache,
    fs: Map<Seq<char>, Seq<char>>,
    answer: Seq<char>,
    second: Seq<char>,
    post_body: Seq<char>,
    page: Seq<char>,
)
    requires
        fragment_spec(post_body) matches Some(f) && verdict_of(f) == Verdict::AlreadyComplete,
        regex_compiles(PAST_ANSWER_PATTERN@),
        past_answers_on(page) == seq![answer, second],
    ensures
        ({
            let (s1, a1) = step_spec(1, answer, (Phase::AwaitPost, false), Event::Page { status: STATUS_OK, body: post_body });
            let (s2, a2) = step_spec(1, answer, s1, Event::Page { status: STATUS_OK, body: page });
            let (s3, a3) = step_spec(1, answer, s2, Event::Stored);
            let (s4, a4) = step_spec(1, answer, s3, Event::Stored);
            let after = apply_writes(
                apply_writes(fs, answer_writes_spec(c, 1, answer, RIGHT_ANSWER@, true)),
                answer_writes_spec(c, 2, second, RIGHT_ANSWER@, true),
            );
            let (s5, a5) = step_spec(1, answer, s4, Event::Found(stored(after, c.correct_path(1))));
            &&& a1 == Action::<Seq<char>>::FetchPage
            &&& a2 == Action::Record { part: 1, answer, response: RIGHT_ANSWER@, correct: true }
            &&& a3 == Action::Record { part: 2, answer: second, response: RIGHT_ANSWER@, correct: true }
            &&& a4 == Action::<Seq<char>>::LookupCorrect
            &&& s4 == (Phase::<Seq<char>>::AwaitCorrect, true)
            &&& a5 == Action::Finish(Outcome::AlreadySolved { accepted: answer, same: true })
        }),
{
    let w1 = answer_writes_spec(c, 1, answer, RIGHT_ANSWER@, true);
    let w2 = answer_writes_spec(c, 2, second, RIGHT_ANSWER@, true);
    let mid = apply_writes(fs, w1);
    assert(w1.last() == (c.correct_path(1), answer));
    assert(mid == apply_writes(fs, w1.drop_last()).insert(c.correct_path(1), answer));
    assert(stored(mid, c.correct_path(1)) == Some(answer));
    lemma_parts_apart(c, second);
    assert forall|i: int| 0 <= i < w2.len() implies w2[i].0 != c.correct_path(1) by {}
    lemma_writes_elsewhere(mid, w2, c.correct_path(1));
}

impl Aocd {
    /// Starts the submission of `answer` for `part`. The answer is compared with
    /// stored ones as text, exactly as given.
    pub fn submit(&self, part: u8, answer: &str) -> (r: Submission)
        requires
            valid_part(part as int),
        ensures
            r.spec_part() == part,
            r.spec_answer() == answer@,
            r.state() == (Phase::<Seq<char>>::Start, false),
    {
        Submission::new(part, answer)
    }
}

/// The submission of one answer for one part.
pub struct Submission {
    part: u8,
    answer: String,
    phase: Phase<String>,
    restarted: bool,
}

impl Submission {
    pub closed spec fn spec_part(&self) -> u8 {
        self.part
    }

    pub closed spec fn spec_answer(&self) -> Seq<char> {
        self.answer@
    }

    pub closed spec fn state(&self) -> StepState {
        (self.phase@, self.restarted)
    }

    /// A submission that has not taken its first step.
    pub fn new(part: u8, answer: &str) -> (r: Submission)
        requires
            valid_part(part as int),
        ensures
            r.spec_part() == part,
            r.spec_answer() == answer@,
            r.state() == (Phase::<Seq<char>>::Start, false),
    {
        Submission { part, answer: String::from_str(answer), phase: Phase::Start, restarted: false }
    }

    pub fn part(&self) -> (r: u8)
        ensures
            r == self.spec_part(),
    {
        self.part
    }

    pub fn answer(&self) -> (r: &str)
        ensures
            r@ == self.spec_answer(),
    {
        self.answer.as_str()
    }

    /// Tells whether the submission is over.
    pub fn is_done(&self) -> (r: bool)
        ensures
            r == (self.state().0 == Phase::<Seq<char>>::Done),
    {
        match self.phase {
            Phase::Done => true,
            _ => false,
        }
    }

    fn finish(&mut self, a: Action<String>) -> (r: Action<String>)
        ensures
            final(self).part == old(self).part,
            final(self).answer == old(self).answer,
            final(self).restarted == old(self).restarted,
            final(self).phase@ == Phase::<Seq<char>>::Done,
            r == a,
    {
        self.phase = Phase::Done;
        a
    }

    fn posted(&mut self, status: u16, body: &str) -> (r: Action<String>)
        ensures
            final(self).part == old(self).part,
            final(self).answer == old(self).answer,
            (final(self).state(), r@) == posted_spec(
                old(self).part,
                old(self).answer@,
                old(self).restarted,
                status,
                body@,
            ),
    {
        if status != STATUS_OK {
            return self.finish(Action::Fail(SubmitError::Status { status }));
        }
        match response_fragment(body) {
            None => self.finish(Action::Fail(SubmitError::NoResponseMessage)),
            Some(f) => match classify(f.as_str()) {
                Verdict::Right => {
                    self.phase = Phase::AwaitRecord(Outcome::Solved);
                    Action::Record { part: self.part, answer: self.answer.clone(), response: f, correct: true }
                },
                Verdict::Wrong => {
                    self.phase = Phase::AwaitRecord(Outcome::Wrong { response: f.clone() });
                    Action::Record { part: self.part, answer: self.answer.clone(), response: f, correct: false }
                },
                Verdict::TooRecent => self.finish(Action::Finish(Outcome::TooRecent { response: f })),
                Verdict::AlreadyComplete => {
                    if self.restarted {
                        self.finish(Action::Fail(SubmitError::StillUnsolved))
                    } else {
                        self.phase = Phase::AwaitPage;
                        Action::FetchPage
                    }
                },
                Verdict::Unrecognized => self.finish(
                    Action::Fail(SubmitError::UnrecognizedResponse { fragment: f }),
                ),
            },
        }
    }

    fn page(&mut self, status: u16, body: &str) -> (r: Action<String>)
        ensures
            final(self).part == old(self).part,
            final(self).answer == old(self).answer,
            (final(self).state(), r@) == page_spec(old(self).restarted, status, body@),
    {
        if status != STATUS_OK {
            return self.finish(Action::Fail(SubmitError::PageStatus { status }));
        }
        match find_past_answers(body) {
            None => self.finish(Action::Fail(SubmitError::PatternRefused)),
            Some(found) => {
                proof {
                    assert(found@.map_values(|g: String| g@).len() == found.len());
                }
                if found.len() == 0 {
                    self.finish(Action::Fail(SubmitError::NoPastAnswers))
                } else {
                    let second = if found.len() >= 2 {
                        Some(found[1].clone())
                    } else {
                        None
                    };
                    self.phase = Phase::AwaitPast(second);
                    proof {
                        assert(found@.map_values(|g: String| g@)[0] == found@[0]@);
                        if found.len() >= 2 {
                            assert(found@.map_values(|g: String| g@)[1] == found@[1]@);
                        }
                    }
                    Action::Record {
                        part: 1,
                        answer: found[0].clone(),
                        response: String::from_str(RIGHT_ANSWER),
                        correct: true,
                    }
                }
            },
        }
    }

    /// Takes the event that came of the last action and says what to do next.
    pub fn step(&mut self, event: Event<String>) -> (r: Action<String>)
        ensures
            final(self).spec_part() == old(self).spec_part(),
            final(self).spec_answer() == old(self).spec_answer(),
            (final(self).state(), r@) == step_spec(
                old(self).spec_part(),
                old(self).spec_answer(),
                old(self).state(),
                event@,
            ),
    {
        let mut phase = Phase::Done;
        core::mem::swap(&mut self.phase, &mut phase);
        match phase {
            Phase::Start => {
                self.phase = Phase::AwaitCorrect;
                Action::LookupCorrect
            },
            Phase::AwaitCorrect => match event {
                Event::Found(Some(a)) => {
                    let same = a == self.answer;
                    Action::Finish(Outcome::AlreadySolved { accepted: a, same })
                },
                Event::Found(None) => {
                    self.phase = Phase::AwaitResponse;
                    Action::LookupResponse
                },
                _ => Action::Fail(SubmitError::OutOfOrder),
            },
            Phase::AwaitResponse => match event {
                Event::Found(Some(r)) => Action::Finish(Outcome::AlreadyGuessed { response: r }),
                Event::Found(None) => {
                    self.phase = Phase::AwaitPost;
                    Action::Post { form: Aocd::submit_form(self.part, self.answer.as_str()) }
                },
                _ => Action::Fail(SubmitError::OutOfOrder),
            },
            Phase::AwaitPost => match event {
                Event::Page { status, body } => self.posted(status, body.as_str()),
                _ => Action::Fail(SubmitError::OutOfOrder),
            },
            Phase::AwaitRecord(o) => match event {
                Event::Stored => Action::Finish(o),
                _ => Action::Fail(SubmitError::OutOfOrder),
            },
            Phase::AwaitPage => match event {
                Event::Page { status, body } => self.page(status, body.as_str()),
                _ => Action::Fail(SubmitError::OutOfOrder),
            },
            Phase::AwaitPast(second) => match event {
                Event::Stored => match second {
                    Some(y) => {
                        self.phase = Phase::AwaitPast(None);
                        Action::Record {
                            part: 2,
                            answer: y,
                            response: String::from_str(RIGHT_ANSWER),
                            correct: true,
                        }
                    },
                    None => {
                        self.phase = Phase::AwaitCorrect;
                        self.restarted = true;
                        Action::LookupCorrect
                    },
                },
                _ => Action::Fail(SubmitError::OutOfOrder),
            },
            Phase::Done => Action::Fail(SubmitError::OutOfOrder),
        }
    }
}

} // verus!
