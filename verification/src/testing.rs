//! Finding the test functions of a source file, and counting what came of
//! running them.

use vstd::prelude::*;
use vstd::string::*;
use crate::text::{
    has_prefix, push_char, same_text, split_on, split_text, starts_with, texts,
};

verus! {

/// Whether `c` is white space in the sense of Unicode: what
/// `char::is_whitespace` answers for it.
pub uninterp spec fn white_space(c: char) -> bool;

/// Wraps `char::is_whitespace`, which the standard library documents as
/// true exactly for the characters with the Unicode property
/// `White_Space`. The answer is given the name [`white_space`].
#[verifier::external_body]
pub(crate) fn is_white_space(c: char) -> (r: bool)
    ensures
        r == white_space(c),
{
    c.is_whitespace()
}

/// `s` without the white space it begins with.
pub open spec fn trimmed_start(s: Seq<char>) -> Seq<char>
    decreases s.len(),
{
    if s.len() > 0 && white_space(s[0]) {
        trimmed_start(s.drop_first())
    } else {
        s
    }
}

/// `s` without the white space it ends with.
pub open spec fn trimmed_end(s: Seq<char>) -> Seq<char>
    decreases s.len(),
{
    if s.len() > 0 && white_space(s.last()) {
        trimmed_end(s.drop_last())
    } else {
        s
    }
}

/// `s` without the white space around it.
pub open spec fn trimmed(s: Seq<char>) -> Seq<char> {
    trimmed_end(trimmed_start(s))
}

/// `s` without the white space around it.
pub fn trim(s: &str) -> (r: String)
    ensures
        r@ == trimmed(s@),
{
    let n: usize = s.unicode_len();
    let mut a: usize = 0;
    assert(s@.subrange(0, n as int) =~= s@);
    while a < n && is_white_space(s.get_char(a))
        invariant
            n == s@.len(),
            a <= n,
            trimmed_start(s@) == trimmed_start(s@.subrange(a as int, n as int)),
        decreases n - a,
    {
        proof {
            let rest = s@.subrange(a as int, n as int);
            assert(rest[0] == s@[a as int]);
            assert(rest.drop_first() =~= s@.subrange(a + 1, n as int));
        }
        a += 1;
    }
    proof {
        let rest = s@.subrange(a as int, n as int);
        if a < n {
            assert(rest[0] == s@[a as int]);
        }
        assert(trimmed_start(s@) == rest);
    }
    let mut b: usize = n;
    while b > a && is_white_space(s.get_char(b - 1))
        invariant
            n == s@.len(),
            a <= b <= n,
            trimmed(s@) == trimmed_end(s@.subrange(a as int, b as int)),
        decreases b - a,
    {
        proof {
            let part = s@.subrange(a as int, b as int);
            assert(part.last() == s@[b - 1]);
            assert(part.drop_last() =~= s@.subrange(a as int, b - 1));
        }
        b -= 1;
    }
    proof {
        let part = s@.subrange(a as int, b as int);
        if b > a {
            assert(part.last() == s@[b - 1]);
        }
        assert(trimmed(s@) == part);
    }
    let mut r: String = String::new();
    let mut i: usize = a;
    while i < b
        invariant
            n == s@.len(),
            a <= i <= b <= n,
            r@ == s@.subrange(a as int, i as int),
        decreases b - i,
    {
        push_char(&mut r, s.get_char(i));
        assert(r@ =~= s@.subrange(a as int, i + 1));
        i += 1;
    }
    r
}

/// The words of `s`: its longest runs of characters that are no white
/// space, in the order they stand in `s`.
pub open spec fn words(s: Seq<char>) -> Seq<Seq<char>>
    decreases s.len(),
{
    if s.len() == 0 {
        Seq::<Seq<char>>::empty()
    } else {
        let before = words(s.drop_last());
        if white_space(s.last()) {
            before
        } else if s.len() >= 2 && !white_space(s[s.len() - 2]) && before.len() > 0 {
            before.drop_last().push(before.last().push(s.last()))
        } else {
            before.push(seq![s.last()])
        }
    }
}

/// Where `s` does not end in white space, its last word is not empty.
pub proof fn lemma_words_open(s: Seq<char>)
    requires
        s.len() > 0,
        !white_space(s.last()),
    ensures
        words(s).len() > 0,
{
}

/// The words of `s`.
pub fn split_words(s: &str) -> (r: Vec<String>)
    ensures
        texts(r@) == words(s@),
{
    let n: usize = s.unicode_len();
    let mut done: Vec<String> = Vec::new();
    let mut cur: String = String::new();
    let mut open: bool = false;
    let mut i: usize = 0;
    assert(s@.subrange(0, 0) =~= Seq::<char>::empty());
    assert(texts(done@) =~= words(s@.subrange(0, 0)));
    while i < n
        invariant
            n == s@.len(),
            i <= n,
            open == (i > 0 && !white_space(s@[i - 1])),
            open ==> texts(done@).push(cur@) == words(s@.subrange(0, i as int)),
            !open ==> texts(done@) == words(s@.subrange(0, i as int)),
        decreases n - i,
    {
        let c: char = s.get_char(i);
        proof {
            let upto = s@.subrange(0, i + 1);
            assert(upto.drop_last() =~= s@.subrange(0, i as int));
            assert(upto.last() == c);
            if i > 0 {
                assert(upto[upto.len() - 2] == s@[i - 1]);
                if !white_space(s@[i - 1]) {
                    let prev = s@.subrange(0, i as int);
                    assert(prev.last() == s@[i - 1]);
                    lemma_words_open(prev);
                }
            }
        }
        let ghost before = texts(done@);
        let ghost word = cur@;
        if is_white_space(c) {
            if open {
                done.push(cur);
                cur = String::new();
                assert(texts(done@) =~= before.push(word));
            }
            open = false;
        } else {
            if !open {
                cur = String::new();
            }
            push_char(&mut cur, c);
            proof {
                if open {
                    assert(texts(done@).push(cur@) =~= before.push(word).drop_last().push(
                        before.push(word).last().push(c),
                    ));
                } else {
                    assert(cur@ =~= seq![c]);
                }
            }
            open = true;
        }
        i += 1;
    }
    assert(s@.subrange(0, n as int) =~= s@);
    if open {
        let ghost before = texts(done@);
        done.push(cur);
        assert(texts(done@) =~= before.push(cur@));
    }
    done
}

/// The lines of `s`. A line ends at a newline; a carriage return just
/// before the newline belongs to the line ending. What follows the last
/// newline is a line if it is not empty.
pub open spec fn text_lines(s: Seq<char>) -> Seq<Seq<char>> {
    let pieces = split_text(s, '\n');
    let ended = pieces.drop_last().map_values(
        |p: Seq<char>| if p.len() > 0 && p.last() == '\r' { p.drop_last() } else { p },
    );
    if pieces.last().len() == 0 {
        ended
    } else {
        ended.push(pieces.last())
    }
}

/// `s` without its last character.
fn without_last(s: &str) -> (r: String)
    requires
        s@.len() > 0,
    ensures
        r@ == s@.drop_last(),
{
    let n: usize = s.unicode_len();
    let mut r: String = String::new();
    let mut i: usize = 0;
    while i + 1 < n
        invariant
            n == s@.len(),
            n > 0,
            i + 1 <= n,
            r@ == s@.subrange(0, i as int),
        decreases n - i,
    {
        push_char(&mut r, s.get_char(i));
        assert(r@ =~= s@.subrange(0, i + 1));
        i += 1;
    }
    assert(s@.subrange(0, n - 1) =~= s@.drop_last());
    r
}

/// The lines of `s`.
pub fn lines(s: &str) -> (r: Vec<String>)
    ensures
        texts(r@) == text_lines(s@),
{
    let mut pieces = split_on(s, '\n');
    proof {
        crate::text::lemma_split_text(s@, '\n');
    }
    let ghost all = texts(pieces@);
    let last = match pieces.pop() {
        Some(p) => p,
        None => String::new(),
    };
    assert(texts(pieces@) =~= all.drop_last());
    assert(last@ == all.last());
    let mut r: Vec<String> = Vec::new();
    let mut i: usize = 0;
    let ghost ended = all.drop_last().map_values(
        |p: Seq<char>| if p.len() > 0 && p.last() == '\r' { p.drop_last() } else { p },
    );
    while i < pieces.len()
        invariant
            i <= pieces@.len(),
            texts(pieces@) == all.drop_last(),
            ended == all.drop_last().map_values(
                |p: Seq<char>| if p.len() > 0 && p.last() == '\r' { p.drop_last() } else { p },
            ),
            texts(r@) == ended.subrange(0, i as int),
        decreases pieces@.len() - i,
    {
        let p = pieces[i].as_str();
        assert(texts(pieces@)[i as int] == p@);
        let k: usize = p.unicode_len();
        let ghost before = texts(r@);
        if k > 0 && p.get_char(k - 1) == '\r' {
            r.push(without_last(p));
        } else {
            r.push(crate::text::owned(p));
        }
        assert(texts(r@) =~= before.push(ended[i as int]));
        assert(texts(r@) =~= ended.subrange(0, i + 1));
        i += 1;
    }
    assert(ended.subrange(0, ended.len() as int) =~= ended);
    if last.as_str().unicode_len() > 0 {
        let ghost before = texts(r@);
        r.push(last);
        assert(texts(r@) =~= before.push(all.last()));
    }
    r
}

/// The name of the function that a line declares. The line begins with
/// `fun ` or `public fun ` and has at least three words; the name is the
/// word after `fun`, up to its first opening parenthesis.
pub open spec fn function_name(line: Seq<char>) -> Option<Seq<char>> {
    if !has_prefix(line, "public fun "@) && !has_prefix(line, "fun "@) {
        None
    } else {
        let parts = words(line);
        if parts.len() < 3 {
            None
        } else {
            let part = if parts[0] == "public"@ {
                parts[2]
            } else {
                parts[1]
            };
            Some(split_text(part, '(')[0])
        }
    }
}

/// The view of an optional text.
pub open spec fn name_opt(o: Option<String>) -> Option<Seq<char>> {
    match o {
        Some(s) => Some(s@),
        None => None,
    }
}

/// Extract function name from function declaration
pub fn extract_function_name(line: &str) -> (r: Option<String>)
    ensures
        name_opt(r) == function_name(line@),
{
    if !starts_with(line, "public fun ") && !starts_with(line, "fun ") {
        return None;
    }
    let parts = split_words(line);
    if parts.len() < 3 {
        return None;
    }
    assert(texts(parts@)[0] == parts@[0]@);
    assert(texts(parts@)[1] == parts@[1]@);
    assert(texts(parts@)[2] == parts@[2]@);
    let part = if same_text(parts[0].as_str(), "public") {
        parts[2].as_str()
    } else {
        parts[1].as_str()
    };
    let mut pieces = split_on(part, '(');
    proof {
        crate::text::lemma_split_text(part@, '(');
        assert(texts(pieces@)[0] == pieces@[0]@);
    }
    Some(pieces.swap_remove(0))
}

/// The names of the test functions among the first `upto` lines: for each
/// line that is `#[test]` once trimmed and has a line after it, the name
/// of the function that the next line declares, once trimmed, if it
/// declares one.
pub open spec fn tests_among(all: Seq<Seq<char>>, upto: int) -> Seq<Seq<char>>
    decreases upto,
{
    if upto <= 0 {
        Seq::<Seq<char>>::empty()
    } else {
        let before = tests_among(all, upto - 1);
        let i = upto - 1;
        if i + 1 < all.len() && trimmed(all[i]) == "#[test]"@ && function_name(
            trimmed(all[i + 1]),
        ) is Some {
            before.push(function_name(trimmed(all[i + 1]))->0)
        } else {
            before
        }
    }
}

/// The names of the test functions in a source text.
pub open spec fn test_functions(source: Seq<char>) -> Seq<Seq<char>> {
    tests_among(text_lines(source), text_lines(source).len() as int)
}

/// Find test functions in source code
pub fn find_test_functions(source: &str) -> (r: Vec<String>)
    ensures
        texts(r@) == test_functions(source@),
{
    let all = lines(source);
    let mut tests: Vec<String> = Vec::new();
    let mut i: usize = 0;
    assert(texts(tests@) =~= tests_among(texts(all@), 0));
    while i < all.len()
        invariant
            i <= all@.len(),
            texts(all@) == text_lines(source@),
            texts(tests@) == tests_among(texts(all@), i as int),
        decreases all@.len() - i,
    {
        let ghost before = texts(tests@);
        assert(texts(all@)[i as int] == all@[i as int]@);
        let line = trim(all[i].as_str());
        if same_text(line.as_str(), "#[test]") && i + 1 < all.len() {
            assert(texts(all@)[i + 1] == all@[i + 1]@);
            let next_line = trim(all[i + 1].as_str());
            match extract_function_name(next_line.as_str()) {
                Some(name) => {
                    tests.push(name);
                    assert(texts(tests@) =~= before.push(name@));
                },
                None => {},
            }
        }
        i += 1;
    }
    tests
}

/// Whether `pattern` occurs in `s`.
pub open spec fn occurs_in(pattern: Seq<char>, s: Seq<char>) -> bool {
    exists|i: int|
        0 <= i && i + pattern.len() <= s.len() && #[trigger] s.subrange(i, i + pattern.len())
            == pattern
}

/// Whether `pattern` stands in `s` at place `at`.
fn matches_at(s: &str, pattern: &str, at: usize) -> (r: bool)
    requires
        at + pattern@.len() <= s@.len(),
    ensures
        r == (s@.subrange(at as int, at + pattern@.len()) == pattern@),
{
    let n: usize = s.unicode_len();
    let m: usize = pattern.unicode_len();
    let mut j: usize = 0;
    while j < m
        invariant
            m == pattern@.len(),
            n == s@.len(),
            at + m <= n,
            j <= m,
            forall|k: int| 0 <= k < j ==> s@[at + k] == pattern@[k],
        decreases m - j,
    {
        if s.get_char(at + j) != pattern.get_char(j) {
            assert(s@.subrange(at as int, at + m)[j as int] == s@[at + j]);
            return false;
        }
        j += 1;
    }
    assert(s@.subrange(at as int, at + m) =~= pattern@);
    true
}

/// Whether `pattern` occurs in `s`.
pub fn contains_text(s: &str, pattern: &str) -> (r: bool)
    ensures
        r == occurs_in(pattern@, s@),
{
    let n: usize = s.unicode_len();
    let m: usize = pattern.unicode_len();
    if m > n {
        return false;
    }
    let last: usize = n - m;
    let mut i: usize = 0;
    loop
        invariant
            n == s@.len(),
            m == pattern@.len(),
            m <= n,
            last == n - m,
            i <= last,
            forall|k: int| 0 <= k < i ==> #[trigger] s@.subrange(k, k + m) != pattern@,
        decreases last - i,
    {
        if matches_at(s, pattern, i) {
            return true;
        }
        if i == last {
            return false;
        }
        i += 1;
    }
}

/// The texts among `tests` in which `pattern` occurs, in their order.
pub open spec fn holding(tests: Seq<Seq<char>>, pattern: Seq<char>) -> Seq<Seq<char>>
    decreases tests.len(),
{
    if tests.len() == 0 {
        tests
    } else if occurs_in(pattern, tests.last()) {
        holding(tests.drop_last(), pattern).push(tests.last())
    } else {
        holding(tests.drop_last(), pattern)
    }
}

/// The tests that a filter selects: all of them where there is no filter,
/// else those whose name holds the filter.
pub open spec fn selected_tests(tests: Seq<Seq<char>>, filter: Option<Seq<char>>) -> Seq<Seq<char>> {
    match filter {
        Some(f) => holding(tests, f),
        None => tests,
    }
}

/// The view of an optional text.
pub open spec fn filter_opt(o: Option<&str>) -> Option<Seq<char>> {
    match o {
        Some(s) => Some(s@),
        None => None,
    }
}

/// The tests that a filter selects.
pub fn select_tests(tests: Vec<String>, filter: Option<&str>) -> (r: Vec<String>)
    ensures
        texts(r@) == selected_tests(texts(tests@), filter_opt(filter)),
{
    match filter {
        None => tests,
        Some(f) => {
            let mut r: Vec<String> = Vec::new();
            let mut i: usize = 0;
            let ghost all = texts(tests@);
            assert(all.subrange(0, 0) =~= Seq::<Seq<char>>::empty());
            assert(texts(r@) =~= holding(all.subrange(0, 0), f@));
            while i < tests.len()
                invariant
                    i <= tests@.len(),
                    all == texts(tests@),
                    texts(r@) == holding(all.subrange(0, i as int), f@),
                decreases tests@.len() - i,
            {
                let ghost before = texts(r@);
                proof {
                    let upto = all.subrange(0, i + 1);
                    assert(upto.drop_last() =~= all.subrange(0, i as int));
                    assert(upto.last() == tests@[i as int]@);
                }
                if contains_text(tests[i].as_str(), f) {
                    r.push(tests[i].clone());
                    assert(texts(r@) =~= before.push(tests@[i as int]@));
                }
                i += 1;
            }
            assert(all.subrange(0, tests@.len() as int) =~= all);
            r
        },
    }
}

/// What came of running the tests.
#[derive(Debug, Clone, Copy, PartialEq, Eq, Structural)]
pub struct TestResults {
    pub passed: usize,
    pub failed: usize,
    pub total: usize,
}

impl TestResults {
    /// The results of `passed` tests that passed and `failed` that failed;
    /// `None` where their sum does not fit the machine's numbers.
    pub fn new(passed: usize, failed: usize) -> (r: Option<TestResults>)
        ensures
            match r {
                Some(t) => t.passed == passed && t.failed == failed && t.total == passed + failed,
                None => passed + failed > usize::MAX,
            },
    {
        if passed <= usize::MAX - failed {
            Some(TestResults { passed, failed, total: passed + failed })
        } else {
            None
        }
    }

    /// Whether no test failed.
    pub fn is_success(&self) -> (r: bool)
        ensures
            r == (self.failed == 0),
    {
        self.failed == 0
    }
}

} // verus!
