//! Reading the pages that the puzzle server sends back.
use vstd::prelude::*;
use crate::text::{chars_of, occurs_at_exec, contains, str_contains, starts_with, strip_prefix, strip_suffix, ends_with};

verus! {

/// The phrase of a page that accepts an answer.
pub const RIGHT_ANSWER: &'static str = "That's the right answer!";

/// The phrase of a page that refuses an answer.
pub const WRONG_ANSWER: &'static str = "That's not the right answer";

/// The phrase of a page that asks the user to wait before answering again.
pub const TOO_RECENT: &'static str = "You gave an answer too recently";

/// The phrase of a page for a part that the server already counts as solved.
pub const ALREADY_COMPLETE: &'static str = "Did you already complete it";

/// The pattern of an answer on a puzzle page that was given in the past.
pub const PAST_ANSWER_PATTERN: &'static str = "Your puzzle answer was <code>(.*?)</code>";

/// What the server said of a submitted answer.
#[derive(Debug, Clone, Copy, PartialEq, Eq, Structural)]
pub enum Verdict {
    Right,
    Wrong,
    TooRecent,
    AlreadyComplete,
    Unrecognized,
}

/// The verdict that a response fragment carries; the phrases are tried in this order.
pub open spec fn verdict_of(f: Seq<char>) -> Verdict {
    if contains(f, RIGHT_ANSWER@) {
        Verdict::Right
    } else if contains(f, WRONG_ANSWER@) {
        Verdict::Wrong
    } else if contains(f, TOO_RECENT@) {
        Verdict::TooRecent
    } else if contains(f, ALREADY_COMPLETE@) {
        Verdict::AlreadyComplete
    } else {
        Verdict::Unrecognized
    }
}

/// Reads the verdict out of a response fragment.
pub fn classify(fragment: &str) -> (r: Verdict)
    ensures
        r == verdict_of(fragment@),
{
    if str_contains(fragment, RIGHT_ANSWER) {
        Verdict::Right
    } else if str_contains(fragment, WRONG_ANSWER) {
        Verdict::Wrong
    } else if str_contains(fragment, TOO_RECENT) {
        Verdict::TooRecent
    } else if str_contains(fragment, ALREADY_COMPLETE) {
        Verdict::AlreadyComplete
    } else {
        Verdict::Unrecognized
    }
}

/// For each match of the regular expression `pattern` in `text`, left to right,
/// the text of its first group (empty where that group took no part).
pub uninterp spec fn first_groups(pattern: Seq<char>, text: Seq<char>) -> Seq<Seq<char>>;

/// The regular expression `pattern` compiles.
pub uninterp spec fn regex_compiles(pattern: Seq<char>) -> bool;

/// Relies on regex::Regex::new, which fails on a pattern that does not compile,
/// and on regex::Regex::captures_iter, which yields every match, left to right.
#[verifier::external_body]
fn regex_first_groups(pattern: &str, text: &str) -> (r: Option<Vec<String>>)
    ensures
        r is Some <==> regex_compiles(pattern@),
        r matches Some(v) ==> v@.map_values(|g: String| g@) == first_groups(pattern@, text@),
{
    regex::Regex::new(pattern).ok().map(
        |re|
            re.captures_iter(text).map(
                |c| c.get(1).map_or(String::new(), |m| m.as_str().to_string()),
            ).collect(),
    )
}

/// The answers that a puzzle page shows as given in the past, in page order.
pub open spec fn past_answers_on(page: Seq<char>) -> Seq<Seq<char>> {
    first_groups(PAST_ANSWER_PATTERN@, page)
}

/// Finds the answers given in the past on a puzzle page. `None` only where the
/// pattern itself is refused by the regular expression engine.
pub fn find_past_answers(page: &str) -> (r: Option<Vec<String>>)
    ensures
        r is Some <==> regex_compiles(PAST_ANSWER_PATTERN@),
        r matches Some(v) ==> v@.map_values(|g: String| g@) == past_answers_on(page@),
{
    regex_first_groups(PAST_ANSWER_PATTERN, page)
}

/// `s[i..e]` is a line of `s`: it starts at the beginning of the text or after a
/// newline, and it runs up to the next newline or to the end of the text.
pub open spec fn is_line(s: Seq<char>, i: int, e: int) -> bool {
    &&& 0 <= i <= e <= s.len()
    &&& (i == 0 || s[i - 1] == '\n')
    &&& (e == s.len() || s[e] == '\n')
    &&& forall|k: int| i <= k < e ==> s[k] != '\n'
}

/// The text of the line `s[i..e]`: a carriage return before its newline is not part of it.
pub open spec fn line_text(s: Seq<char>, i: int, e: int) -> Seq<char> {
    if e < s.len() && i < e && s[e - 1] == '\r' {
        s.subrange(i, e - 1)
    } else {
        s.subrange(i, e)
    }
}

/// The line `s[i..e]` opens with an article tag.
pub open spec fn is_article_line(s: Seq<char>, i: int, e: int) -> bool {
    is_line(s, i, e) && starts_with(line_text(s, i, e), "<article>"@)
}

/// The message held by an article line: the outer article tag and then an inner
/// paragraph tag are taken off its two ends.
pub open spec fn fragment_of(t: Seq<char>) -> Seq<char> {
    strip_suffix(
        strip_prefix(strip_suffix(strip_prefix(t, "<article>"@), "</article>"@), "<p>"@),
        "</p>"@,
    )
}

/// The message of the page `s`: that of its last article line, if it has one.
pub open spec fn fragment_spec(s: Seq<char>) -> Option<Seq<char>> {
    if has_no_article_line(s) {
        None
    } else {
        Some(choose|f: Seq<char>| is_last_article_fragment(s, f))
    }
}

/// A page has at most one message.
pub proof fn lemma_fragment_unique(s: Seq<char>, f1: Seq<char>, f2: Seq<char>)
    requires
        is_last_article_fragment(s, f1),
        is_last_article_fragment(s, f2),
    ensures
        f1 == f2,
{
    let (i1, e1) = choose|i: int, e: int|
        {
            &&& is_article_line(s, i, e)
            &&& f1 == fragment_of(line_text(s, i, e))
            &&& forall|i2: int, e2: int| is_article_line(s, i2, e2) ==> i2 <= i
        };
    let (i2, e2) = choose|i: int, e: int|
        {
            &&& is_article_line(s, i, e)
            &&& f2 == fragment_of(line_text(s, i, e))
            &&& forall|i3: int, e3: int| is_article_line(s, i3, e3) ==> i3 <= i
        };
    assert(i1 <= i2 && i2 <= i1);
    if e1 < e2 {
        assert(s[e1] == '\n');
    }
    if e2 < e1 {
        assert(s[e2] == '\n');
    }
}

/// The fragment of `s` is that of its last article line.
pub open spec fn is_last_article_fragment(s: Seq<char>, f: Seq<char>) -> bool {
    exists|i: int, e: int|
        {
            &&& is_article_line(s, i, e)
            &&& f == fragment_of(line_text(s, i, e))
            &&& forall|i2: int, e2: int| is_article_line(s, i2, e2) ==> i2 <= i
        }
}

/// `s` has no article line at all.
pub open spec fn has_no_article_line(s: Seq<char>) -> bool {
    forall|i: int, e: int| !is_article_line(s, i, e)
}

/// Where `v[a..b]` starts with `p`, the position after it; else `a`.
fn skip_prefix(v: &Vec<char>, a: usize, b: usize, p: &Vec<char>) -> (r: usize)
    requires
        a <= b <= v.len(),
    ensures
        a <= r <= b,
        v@.subrange(r as int, b as int) == strip_prefix(v@.subrange(a as int, b as int), p@),
{
    let ghost t = v@.subrange(a as int, b as int);
    if p.len() <= b - a && occurs_at_exec(v, p, a) {
        assert(t.subrange(0, p.len() as int) =~= v@.subrange(a as int, a + p.len()));
        assert(v@.subrange(a + p.len(), b as int) =~= t.subrange(p.len() as int, t.len() as int));
        a + p.len()
    } else {
        proof {
            if starts_with(t, p@) {
                assert(t.subrange(0, p.len() as int) =~= v@.subrange(a as int, a + p.len()));
            }
        }
        a
    }
}

/// Where `v[a..b]` ends with `p`, the position before it; else `b`.
fn skip_suffix(v: &Vec<char>, a: usize, b: usize, p: &Vec<char>) -> (r: usize)
    requires
        a <= b <= v.len(),
    ensures
        a <= r <= b,
        v@.subrange(a as int, r as int) == strip_suffix(v@.subrange(a as int, b as int), p@),
{
    let ghost t = v@.subrange(a as int, b as int);
    if p.len() <= b - a && occurs_at_exec(v, p, b - p.len()) {
        assert(t.subrange(t.len() - p.len(), t.len() as int) =~= v@.subrange(b - p.len(), b as int));
        assert(v@.subrange(a as int, b - p.len()) =~= t.subrange(0, t.len() - p.len()));
        b - p.len()
    } else {
        proof {
            if ends_with(t, p@) {
                assert(t.subrange(t.len() - p.len(), t.len() as int) =~= v@.subrange(b - p.len(), b as int));
            }
        }
        b
    }
}

/// Tells whether `v[a..b]` starts with `p`.
fn starts_with_at(v: &Vec<char>, a: usize, b: usize, p: &Vec<char>) -> (r: bool)
    requires
        a <= b <= v.len(),
    ensures
        r == starts_with(v@.subrange(a as int, b as int), p@),
{
    let ghost t = v@.subrange(a as int, b as int);
    let r = p.len() <= b - a && occurs_at_exec(v, p, a);
    proof {
        if p.len() <= b - a {
            assert(t.subrange(0, p.len() as int) =~= v@.subrange(a as int, a + p.len()));
        }
    }
    r
}

/// The end of the text of the line `v[i..e]`.
fn line_text_end(v: &Vec<char>, i: usize, e: usize) -> (r: usize)
    requires
        i <= e <= v.len(),
    ensures
        i <= r <= e,
        v@.subrange(i as int, r as int) == line_text(v@, i as int, e as int),
{
    if e < v.len() && i < e && v[e - 1] == '\r' {
        e - 1
    } else {
        e
    }
}

/// The message of a submission page: the content of the last line that opens
/// with an article tag, with that tag and an inner paragraph tag taken off its
/// two ends. `None` where no line opens with an article tag.
pub fn response_fragment(html: &str) -> (r: Option<String>)
    ensures
        match r {
            Some(f) => is_last_article_fragment(html@, f@) && fragment_spec(html@) == Some(f@),
            None => has_no_article_line(html@) && fragment_spec(html@) is None,
        },
{
    let v = chars_of(html);
    let article = chars_of("<article>");
    let n = v.len();
    let ghost s = v@;
    let mut best: Option<(usize, usize)> = None;
    let mut ls: usize = 0;
    let mut k: usize = 0;
    loop
        invariant_except_break
            match best {
                Some((bi, be)) => {
                    &&& is_article_line(s, bi as int, be as int)
                    &&& bi < ls
                    &&& forall|i2: int, e2: int|
                        is_article_line(s, i2, e2) && i2 < ls ==> i2 <= bi
                },
                None => forall|i2: int, e2: int| is_article_line(s, i2, e2) ==> i2 >= ls,
            },
        invariant
            s == v@,
            n == v.len(),
            article@ == "<article>"@,
            ls <= k <= n,
            ls == 0 || s[ls - 1] == '\n',
            forall|j: int| ls <= j < k ==> s[j] != '\n',
        ensures
            match best {
                Some((bi, be)) => {
                    &&& is_article_line(s, bi as int, be as int)
                    &&& forall|i2: int, e2: int| is_article_line(s, i2, e2) ==> i2 <= bi
                },
                None => has_no_article_line(s),
            },
        decreases n - k,
    {
        if k == n || v[k] == '\n' {
            let te = line_text_end(&v, ls, k);
            let opens = starts_with_at(&v, ls, te, &article);
            proof {
                assert(is_line(s, ls as int, k as int));
                assert forall|i2: int, e2: int| is_article_line(s, i2, e2) && ls <= i2 <= k
                    implies i2 == ls && e2 == k by {
                    if i2 > ls {
                        assert(s[i2 - 1] == '\n');
                    }
                    if e2 < k {
                        assert(s[e2] == '\n');
                    }
                    if e2 > k {
                        assert(s[k as int] == '\n');
                    }
                }
                let t = line_text(s, ls as int, k as int);
                if starts_with(t, "<article>"@) {
                    assert(opens);
                }
                if opens {
                    assert(starts_with(t, "<article>"@));
                }
            }
            if opens {
                best = Some((ls, k));
            }
            if k == n {
                break;
            }
            ls = k + 1;
        }
        k = k + 1;
    }
    match best {
        None => None,
        Some((bi, be)) => {
            let p_open = chars_of("<p>");
            let p_close = chars_of("</p>");
            let article_close = chars_of("</article>");
            let te = line_text_end(&v, bi, be);
            let a1 = skip_prefix(&v, bi, te, &article);
            let b1 = skip_suffix(&v, a1, te, &article_close);
            let a2 = skip_prefix(&v, a1, b1, &p_open);
            let b2 = skip_suffix(&v, a2, b1, &p_close);
            let f = String::from_str(html.substring_char(a2, b2));
            proof {
                assert(f@ == fragment_of(line_text(s, bi as int, be as int)));
                assert(is_article_line(s, bi as int, be as int));
                assert(is_last_article_fragment(s, f@));
                lemma_fragment_unique(s, f@, choose|g: Seq<char>| is_last_article_fragment(s, g));
            }
            Some(f)
        }
    }
}

} // verus!
