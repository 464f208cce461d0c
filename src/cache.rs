//! Where the store keeps puzzle inputs and answer attempts.
//!
//! The store is a directory per identity. Inputs live under `inputs/`, one file
//! per puzzle; answers live under `answers/`, one file per attempted answer that
//! holds the server's response, and one file per part that holds the answer the
//! server accepted. Reading and writing those files is left to the caller; this
//! module says which files hold what.
use vstd::prelude::*;
use crate::text::{decimal, decimal2, push_decimal, push_decimal2};

verus! {

/// A file to write, and what to write into it.
#[derive(Debug, Clone, PartialEq, Eq)]
pub struct FileWrite {
    pub path: String,
    pub content: String,
}

/// Paths in the store of one identity for one puzzle.
pub struct Cache {
    year: u16,
    day: u8,
    cache_directory: String,
}

/// The directory of one identity under the store's base directory.
pub open spec fn identity_directory(base: Seq<char>, session: Seq<char>) -> Seq<char> {
    base + "/"@ + session
}

/// The name of a puzzle's files: year and two-digit day.
pub open spec fn puzzle_stem(year: nat, day: nat) -> Seq<char> {
    decimal(year) + "-"@ + decimal2(day)
}

/// The writes that make the stored input of a puzzle `text`.
pub open spec fn input_writes(c: Cache, text: Seq<char>) -> Seq<(Seq<char>, Seq<char>)> {
    seq![(c.input_path(), text)]
}

/// The writes that record an answer attempt: its response, and, where it was
/// right, the answer as the part's accepted one.
pub open spec fn answer_writes_spec(
    c: Cache,
    part: nat,
    answer: Seq<char>,
    response: Seq<char>,
    correct: bool,
) -> Seq<(Seq<char>, Seq<char>)> {
    let first = seq![(c.response_path(part, answer), response)];
    if correct {
        first.push((c.correct_path(part), answer))
    } else {
        first
    }
}

/// The contents of the store after `writes`, one after the other.
pub open spec fn apply_writes(
    fs: Map<Seq<char>, Seq<char>>,
    writes: Seq<(Seq<char>, Seq<char>)>,
) -> Map<Seq<char>, Seq<char>>
    decreases writes.len(),
{
    if writes.len() == 0 {
        fs
    } else {
        apply_writes(fs, writes.drop_last()).insert(writes.last().0, writes.last().1)
    }
}

/// What the store holds at `path`.
pub open spec fn stored(fs: Map<Seq<char>, Seq<char>>, path: Seq<char>) -> Option<Seq<char>> {
    if fs.contains_key(path) {
        Some(fs[path])
    } else {
        None
    }
}

/// The view of a list of writes.
pub open spec fn writes_view(w: Seq<FileWrite>) -> Seq<(Seq<char>, Seq<char>)> {
    w.map_values(|x: FileWrite| (x.path@, x.content@))
}

/// Writes that put nothing at `path` leave what is stored there as it was.
pub proof fn lemma_writes_elsewhere(
    fs: Map<Seq<char>, Seq<char>>,
    writes: Seq<(Seq<char>, Seq<char>)>,
    path: Seq<char>,
)
    requires
        forall|i: int| 0 <= i < writes.len() ==> writes[i].0 != path,
    ensures
        stored(apply_writes(fs, writes), path) == stored(fs, path),
    decreases writes.len(),
{
    if writes.len() > 0 {
        let rest = writes.drop_last();
        assert forall|i: int| 0 <= i < rest.len() implies rest[i].0 != path by {
            assert(rest[i] == writes[i]);
        }
        lemma_writes_elsewhere(fs, rest, path);
    }
}

/// Sequences that differ at one index differ.
proof fn lemma_differ_at(a: Seq<char>, b: Seq<char>, i: int)
    requires
        0 <= i < a.len(),
        i < b.len(),
        a[i] != b[i],
    ensures
        a != b,
{
}

/// The files of a puzzle's store are distinct: its input, the response to any
/// answer of any part, and the accepted answer of any part.
pub proof fn lemma_paths_distinct(c: Cache, part: nat, answer: Seq<char>)
    ensures
        c.input_path() != c.response_path(part, answer),
        c.input_path() != c.correct_path(part),
        c.correct_path(part) != c.response_path(part, answer),
{
    reveal_strlit("/inputs/");
    reveal_strlit("/answers/");
    reveal_strlit("-resp-");
    reveal_strlit("-correct");
    let d = c.directory();
    let stem = puzzle_stem(c.spec_year() as nat, c.spec_day() as nat);
    let i: int = d.len() + 1int;
    assert(c.input_path()[i] == 'i');
    assert(c.response_path(part, answer) == d + ("/answers/"@ + stem + "-"@ + decimal(part)
        + "-resp-"@ + answer));
    assert(c.response_path(part, answer)[i] == 'a');
    lemma_differ_at(c.input_path(), c.response_path(part, answer), i);
    assert(c.correct_path(part) == d + ("/answers/"@ + stem + "-"@ + decimal(part)
        + "-correct"@));
    assert(c.correct_path(part)[i] == 'a');
    lemma_differ_at(c.input_path(), c.correct_path(part), i);
    let p = c.prefix_path(part);
    assert(c.correct_path(part) == p + "-correct"@);
    assert(c.response_path(part, answer) == p + ("-resp-"@ + answer));
    assert(c.correct_path(part)[p.len() + 1 as int] == 'c');
    assert(c.response_path(part, answer)[p.len() + 1 as int] == 'r');
    lemma_differ_at(c.correct_path(part), c.response_path(part, answer), p.len() + 1 as int);
}

/// The files of the second part are not the first part's accepted answer.
pub proof fn lemma_parts_apart(c: Cache, answer: Seq<char>)
    ensures
        c.correct_path(2) != c.correct_path(1),
        c.response_path(2, answer) != c.correct_path(1),
{
    let base = c.directory() + "/answers/"@ + puzzle_stem(c.spec_year() as nat, c.spec_day() as nat)
        + "-"@;
    let i = base.len() as int;
    assert(decimal(1) == seq!['1']);
    assert(decimal(2) == seq!['2']);
    assert(c.prefix_path(1) == base + seq!['1']);
    assert(c.prefix_path(2) == base + seq!['2']);
    assert(c.correct_path(1) == base + (seq!['1'] + "-correct"@));
    assert(c.correct_path(2) == base + (seq!['2'] + "-correct"@));
    assert(c.response_path(2, answer) == base + (seq!['2'] + "-resp-"@ + answer));
    assert(c.correct_path(1)[i] == '1');
    assert(c.correct_path(2)[i] == '2');
    assert(c.response_path(2, answer)[i] == '2');
    lemma_differ_at(c.correct_path(2), c.correct_path(1), i);
    lemma_differ_at(c.response_path(2, answer), c.correct_path(1), i);
}

/// A single write puts its content at its path.
proof fn lemma_apply_one(fs: Map<Seq<char>, Seq<char>>, path: Seq<char>, content: Seq<char>)
    ensures
        apply_writes(fs, seq![(path, content)]) == fs.insert(path, content),
{
    let w = seq![(path, content)];
    assert(w.drop_last() =~= Seq::<(Seq<char>, Seq<char>)>::empty());
    assert(apply_writes(fs, w.drop_last()) == fs);
    assert(w.last() == (path, content));
}

/// Storing the same input twice leaves the store as storing it once, and the
/// store then holds that input.
pub proof fn lemma_put_input_twice(fs: Map<Seq<char>, Seq<char>>, c: Cache, text: Seq<char>)
    ensures
        apply_writes(apply_writes(fs, input_writes(c, text)), input_writes(c, text))
            == apply_writes(fs, input_writes(c, text)),
        stored(
            apply_writes(apply_writes(fs, input_writes(c, text)), input_writes(c, text)),
            c.input_path(),
        ) == Some(text),
{
    let once = apply_writes(fs, input_writes(c, text));
    lemma_apply_one(fs, c.input_path(), text);
    lemma_apply_one(once, c.input_path(), text);
    assert(once.insert(c.input_path(), text) =~= once);
}

/// Once an input is stored, it stays what the store holds for the puzzle,
/// whatever answer attempts are recorded after it.
pub proof fn lemma_input_stays(
    fs: Map<Seq<char>, Seq<char>>,
    c: Cache,
    text: Seq<char>,
    part: nat,
    answer: Seq<char>,
    response: Seq<char>,
    correct: bool,
)
    ensures
        stored(apply_writes(fs, input_writes(c, text)), c.input_path()) == Some(text),
        stored(
            apply_writes(
                apply_writes(fs, input_writes(c, text)),
                answer_writes_spec(c, part, answer, response, correct),
            ),
            c.input_path(),
        ) == Some(text),
{
    lemma_apply_one(fs, c.input_path(), text);
    lemma_paths_distinct(c, part, answer);
    let w = answer_writes_spec(c, part, answer, response, correct);
    assert forall|i: int| 0 <= i < w.len() implies w[i].0 != c.input_path() by {}
    lemma_writes_elsewhere(apply_writes(fs, input_writes(c, text)), w, c.input_path());
}

impl Cache {
    pub closed spec fn spec_year(&self) -> u16 {
        self.year
    }

    pub closed spec fn spec_day(&self) -> u8 {
        self.day
    }

    pub closed spec fn directory(&self) -> Seq<char> {
        self.cache_directory@
    }

    pub open spec fn inputs_path(&self) -> Seq<char> {
        self.directory() + "/inputs"@
    }

    pub open spec fn answers_path(&self) -> Seq<char> {
        self.directory() + "/answers"@
    }

    pub open spec fn input_path(&self) -> Seq<char> {
        self.directory() + "/inputs/"@ + puzzle_stem(self.spec_year() as nat, self.spec_day() as nat)
    }

    pub open spec fn prefix_path(&self, part: nat) -> Seq<char> {
        self.directory() + "/answers/"@ + puzzle_stem(self.spec_year() as nat, self.spec_day() as nat)
            + "-"@ + decimal(part)
    }

    pub open spec fn response_path(&self, part: nat, answer: Seq<char>) -> Seq<char> {
        self.prefix_path(part) + "-resp-"@ + answer
    }

    pub open spec fn correct_path(&self, part: nat) -> Seq<char> {
        self.prefix_path(part) + "-correct"@
    }

    /// The store of the identity `session` under `base_directory`, for one puzzle.
    pub fn new(year: u16, day: u8, base_directory: &str, session: &str) -> (r: Cache)
        ensures
            r.spec_year() == year,
            r.spec_day() == day,
            r.directory() == identity_directory(base_directory@, session@),
    {
        let mut d = String::from_str(base_directory);
        d.append("/");
        d.append(session);
        Cache { year, day, cache_directory: d }
    }

    /// The directory of this identity.
    pub fn cache_directory(&self) -> (r: String)
        ensures
            r@ == self.directory(),
    {
        self.cache_directory.clone()
    }

    /// The directory that holds the inputs.
    pub fn inputs_directory(&self) -> (r: String)
        ensures
            r@ == self.inputs_path(),
    {
        let mut r = self.cache_directory.clone();
        r.append("/inputs");
        r
    }

    /// The directory that holds the answers.
    pub fn answers_directory(&self) -> (r: String)
        ensures
            r@ == self.answers_path(),
    {
        let mut r = self.cache_directory.clone();
        r.append("/answers");
        r
    }

    fn push_stem(&self, s: &mut String)
        ensures
            final(s)@ == old(s)@ + puzzle_stem(self.year as nat, self.day as nat),
    {
        push_decimal(s, self.year as u64);
        s.append("-");
        push_decimal2(s, self.day as u64);
        assert(final(s)@ =~= old(s)@ + puzzle_stem(self.year as nat, self.day as nat));
    }

    /// The start of the names of the files that record answers to `part`.
    pub fn answer_cache_file_prefix(&self, part: u8) -> (r: String)
        ensures
            r@ == self.prefix_path(part as nat),
    {
        let mut r = self.cache_directory.clone();
        r.append("/answers/");
        self.push_stem(&mut r);
        r.append("-");
        push_decimal(&mut r, part as u64);
        assert(r@ =~= self.prefix_path(part as nat));
        r
    }

    /// The file that holds the puzzle's input.
    pub fn input_cache_file(&self) -> (r: String)
        ensures
            r@ == self.input_path(),
    {
        let mut r = self.cache_directory.clone();
        r.append("/inputs/");
        self.push_stem(&mut r);
        assert(r@ =~= self.input_path());
        r
    }

    /// The file that holds the server's response to `answer` for `part`.
    pub fn answer_response_file(&self, part: u8, answer: &str) -> (r: String)
        ensures
            r@ == self.response_path(part as nat, answer@),
    {
        let mut r = self.answer_cache_file_prefix(part);
        r.append("-resp-");
        r.append(answer);
        r
    }

    /// The file that holds the accepted answer for `part`.
    pub fn correct_answer_file(&self, part: u8) -> (r: String)
        ensures
            r@ == self.correct_path(part as nat),
    {
        let mut r = self.answer_cache_file_prefix(part);
        r.append("-correct");
        r
    }

    /// The write that stores `input` as the puzzle's input.
    pub fn cache_input(&self, input: &str) -> (r: FileWrite)
        ensures
            writes_view(seq![r]) == input_writes(*self, input@),
    {
        let r = FileWrite { path: self.input_cache_file(), content: String::from_str(input) };
        assert(writes_view(seq![r]) =~= input_writes(*self, input@));
        r
    }

    /// The writes that record an answer attempt together with its response.
    pub fn cache_answer_response(&self, part: u8, answer: &str, response: &str, correct: bool) -> (r: Vec<
        FileWrite,
    >)
        ensures
            writes_view(r@) == answer_writes_spec(*self, part as nat, answer@, response@, correct),
    {
        let mut r: Vec<FileWrite> = Vec::new();
        r.push(
            FileWrite {
                path: self.answer_response_file(part, answer),
                content: String::from_str(response),
            },
        );
        if correct {
            r.push(
                FileWrite { path: self.correct_answer_file(part), content: String::from_str(answer) },
            );
        }
        assert(writes_view(r@) =~= answer_writes_spec(*self, part as nat, answer@, response@, correct));
        r
    }
}

} // verus!
