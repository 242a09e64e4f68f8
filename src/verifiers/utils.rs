use vstd::prelude::*;
use vstd::string::StrSliceExecFns;

use crate::result::{parse, unknown_view, CheckResult, ResultView, VerificationResult};

verus! {

/// Whether `line` ends with `path`.
pub open spec fn ends_with(line: Seq<char>, path: Seq<char>) -> bool {
    path.len() <= line.len() && line.subrange(line.len() - path.len(), line.len() as int) == path
}

/// `line` without a final carriage return, if it has one.
pub open spec fn strip_cr(line: Seq<char>) -> Seq<char> {
    if line.len() > 0 && line.last() == '\r' {
        line.drop_last()
    } else {
        line
    }
}

/// The lines of `t` from position `i` on, where the line being read began at `start`.
/// Lines end at `\n` or `\r\n`; a final line needs no terminator, and text that ends
/// with a terminator has no empty line after it.
pub open spec fn lines_from(t: Seq<char>, start: int, i: int) -> Seq<Seq<char>>
    decreases t.len() - i,
{
    if i >= t.len() {
        if start < t.len() {
            seq![t.subrange(start, t.len() as int)]
        } else {
            Seq::empty()
        }
    } else if t[i] == '\n' {
        seq![strip_cr(t.subrange(start, i))] + lines_from(t, i + 1, i + 1)
    } else {
        lines_from(t, start, i + 1)
    }
}

/// The lines of `t`.
pub open spec fn lines(t: Seq<char>) -> Seq<Seq<char>> {
    lines_from(t, 0, 0)
}

/// Position of the last space in `line`, if there is one.
pub open spec fn last_space(line: Seq<char>) -> Option<int>
    decreases line.len(),
{
    if line.len() == 0 {
        None
    } else if line.last() == ' ' {
        Some(line.len() - 1)
    } else {
        last_space(line.drop_last())
    }
}

/// The status token of a report line: everything before its last space.
pub open spec fn token_of(line: Seq<char>) -> Option<Seq<char>> {
    match last_space(line) {
        Some(k) => Some(line.take(k)),
        None => None,
    }
}

/// The token chosen so far after reading `line`: a line that ends with `path` replaces it
/// with its own; a line that ends with `path` but has no space spoils the lookup (`None`).
pub open spec fn select_step(prev: Option<Seq<char>>, line: Seq<char>, path: Seq<char>) -> Option<
    Seq<char>,
> {
    if ends_with(line, path) {
        match prev {
            Some(_) => token_of(line),
            None => None,
        }
    } else {
        prev
    }
}

/// The token of the last line that ends with `path`, or the empty token when none does;
/// `None` when some line ending with `path` has no space.
pub open spec fn select_token(ls: Seq<Seq<char>>, path: Seq<char>) -> Option<Seq<char>>
    decreases ls.len(),
{
    if ls.len() == 0 {
        Some(Seq::empty())
    } else {
        select_step(select_token(ls.drop_last(), path), ls.last(), path)
    }
}

/// The token that stands for an empty report: every check passed.
pub open spec fn all_passed_token() -> Seq<char> {
    seq!['.', '.', '.', '.', '.', '.', '.', '.']
}

/// The result for `path` in report `text`: all passed for an empty report, else the
/// parse of the selected token; `None` when a line ending with `path` has no space.
pub open spec fn extract(text: Seq<char>, path: Seq<char>) -> Option<ResultView> {
    if text.len() == 0 {
        Some(parse(all_passed_token()))
    } else {
        match select_token(lines(text), path) {
            Some(tok) => Some(parse(tok)),
            None => None,
        }
    }
}

/// What a package manager's search for the owner of a file came to.
#[derive(Clone, Debug, PartialEq, Eq)]
pub enum PackageLookup {
    /// The search printed nothing: no package owns the file.
    NotFound,
    /// The name of the owning package.
    Package(String),
    /// The search printed something that is not in the expected format.
    Malformed,
}

/// The text of an optional range of `t`.
spec fn range_text(t: Seq<char>, r: Option<(usize, usize)>) -> Option<Seq<char>> {
    match r {
        Some((a, b)) => Some(t.subrange(a as int, b as int)),
        None => None,
    }
}

spec fn range_ok(t: Seq<char>, r: Option<(usize, usize)>) -> bool {
    match r {
        Some((a, b)) => a <= b <= t.len(),
        None => true,
    }
}

/// The characters of `s`, one per element.
pub(crate) fn chars_of(s: &str) -> (v: Vec<char>)
    ensures
        v@ == s@,
{
    let mut v: Vec<char> = Vec::new();
    for c in it: s.chars()
        invariant
            v@ == it.seq().take(it.index() as int),
            it.seq() == s@,
    {
        v.push(c);
    }
    v
}

/// Whether `text[start..end]` ends with `path`.
fn range_ends_with(text: &Vec<char>, start: usize, end: usize, path: &Vec<char>) -> (r: bool)
    requires
        start <= end <= text.len(),
    ensures
        r == ends_with(text@.subrange(start as int, end as int), path@),
{
    let ghost line = text@.subrange(start as int, end as int);
    let plen = path.len();
    if plen > end - start {
        return false;
    }
    let base = end - plen;
    let mut k: usize = 0;
    while k < plen
        invariant
            start <= base <= end <= text.len(),
            base + plen == end,
            plen == path.len(),
            line == text@.subrange(start as int, end as int),
            k <= plen,
            forall|j: int| 0 <= j < k ==> text@[base + j] == path@[j],
        decreases plen - k,
    {
        if text[base + k] != path[k] {
            assert(line.subrange(line.len() - plen, line.len() as int)[k as int] != path@[k as int]);
            return false;
        }
        k += 1;
    }
    assert(line.subrange(line.len() - plen, line.len() as int) =~= path@);
    true
}

/// Absolute position of the last space in `text[start..end]`, if any.
fn last_space_in(text: &Vec<char>, start: usize, end: usize) -> (r: Option<usize>)
    requires
        start <= end <= text.len(),
    ensures
        match r {
            Some(j) => start <= j < end && last_space(text@.subrange(start as int, end as int))
                == Some(j - start),
            None => last_space(text@.subrange(start as int, end as int)) is None,
        },
{
    let ghost line = text@.subrange(start as int, end as int);
    let mut k: usize = end;
    while k > start
        invariant
            start <= k <= end <= text.len(),
            line == text@.subrange(start as int, end as int),
            last_space(line) == last_space(text@.subrange(start as int, k as int)),
        decreases k - start,
    {
        let ghost prefix = text@.subrange(start as int, k as int);
        assert(prefix.drop_last() =~= text@.subrange(start as int, k - 1));
        if text[k - 1] == ' ' {
            return Some(k - 1);
        }
        k -= 1;
    }
    None
}

/// Reads the line `text[start..end]`, with `prev` the token range chosen so far.
fn select_line(
    text: &Vec<char>,
    start: usize,
    end: usize,
    path: &Vec<char>,
    prev: Option<(usize, usize)>,
) -> (r: Option<(usize, usize)>)
    requires
        start <= end <= text.len(),
        range_ok(text@, prev),
    ensures
        range_ok(text@, r),
        range_text(text@, r) == select_step(
            range_text(text@, prev),
            text@.subrange(start as int, end as int),
            path@,
        ),
{
    let ghost line = text@.subrange(start as int, end as int);
    if !range_ends_with(text, start, end, path) {
        return prev;
    }
    match prev {
        None => None,
        Some(_) => match last_space_in(text, start, end) {
            Some(j) => {
                assert(text@.subrange(start as int, j as int) =~= line.take(j - start));
                Some((start, j))
            },
            None => None,
        },
    }
}

/// The verification result for `file_path` in the output `input` of a package manager's
/// verify command, in rpm's format (`<token> <path>` per line).
///
/// An empty report means every check passed. Otherwise the token of the last line that
/// ends with `file_path` is parsed; with no such line the result is all unsupported.
/// Returns `None` when a line that ends with `file_path` has no space to split at.
pub fn get_verification_result_from_string(input: &str, file_path: &str) -> (r: Option<
    VerificationResult,
>)
    ensures
        extract(input@, file_path@) == match r {
            Some(v) => Some(v@),
            None => None::<ResultView>,
        },
{
    let text = chars_of(input);
    let path = chars_of(file_path);
    let n = text.len();
    if n == 0 {
        let passed = "........";
        proof {
            reveal_strlit("........");
            assert(passed@ =~= all_passed_token());
        }
        return Some(VerificationResult::from_string(passed));
    }
    let ghost t = text@;
    let ghost mut done: Seq<Seq<char>> = Seq::empty();
    let mut token: Option<(usize, usize)> = Some((0, 0));
    let mut start: usize = 0;
    let mut i: usize = 0;
    assert(done + lines_from(t, 0, 0) =~= lines(t));
    assert(t.subrange(0, 0) =~= Seq::<char>::empty());
    while i < n
        invariant
            t == text@,
            n == text.len(),
            start <= i <= n,
            lines(t) == done + lines_from(t, start as int, i as int),
            range_ok(t, token),
            range_text(t, token) == select_token(done, path@),
        decreases n - i,
    {
        if text[i] == '\n' {
            let end = if i > start && text[i - 1] == '\r' {
                i - 1
            } else {
                i
            };
            let ghost line = strip_cr(t.subrange(start as int, i as int));
            assert(t.subrange(start as int, end as int) =~= line);
            token = select_line(&text, start, end, &path, token);
            proof {
                assert(done.push(line).drop_last() =~= done);
                assert(done + lines_from(t, start as int, i as int) =~= done.push(line)
                    + lines_from(t, i + 1, i + 1));
                done = done.push(line);
            }
            start = i + 1;
        }
        i += 1;
    }
    if start < n {
        let ghost line = t.subrange(start as int, n as int);
        token = select_line(&text, start, n, &path, token);
        proof {
            assert(done.push(line).drop_last() =~= done);
            assert(lines(t) =~= done.push(line));
        }
    } else {
        assert(lines(t) =~= done);
    }
    match token {
        Some((a, b)) => Some(VerificationResult::from_string(input.substring_char(a, b))),
        None => None,
    }
}

proof fn lemma_select_defined(ls: Seq<Seq<char>>, path: Seq<char>)
    requires
        forall|j: int|
            0 <= j < ls.len() && ends_with(#[trigger] ls[j], path) ==> last_space(ls[j]) is Some,
    ensures
        select_token(ls, path) is Some,
    decreases ls.len(),
{
    if ls.len() > 0 {
        let init = ls.drop_last();
        assert forall|j: int|
            0 <= j < init.len() && ends_with(#[trigger] init[j], path) implies last_space(
            init[j],
        ) is Some by {
            assert(init[j] == ls[j]);
        }
        lemma_select_defined(init, path);
    }
}

proof fn lemma_select_last(ls: Seq<Seq<char>>, path: Seq<char>, k: int)
    requires
        0 <= k < ls.len(),
        ends_with(ls[k], path),
        forall|j: int| k < j < ls.len() ==> !ends_with(#[trigger] ls[j], path),
        forall|j: int|
            0 <= j < ls.len() && ends_with(#[trigger] ls[j], path) ==> last_space(ls[j]) is Some,
    ensures
        select_token(ls, path) == token_of(ls[k]),
    decreases ls.len(),
{
    let init = ls.drop_last();
    assert forall|j: int|
        0 <= j < init.len() && ends_with(#[trigger] init[j], path) implies last_space(
        init[j],
    ) is Some by {
        assert(init[j] == ls[j]);
    }
    if k == ls.len() - 1 {
        lemma_select_defined(init, path);
    } else {
        assert forall|j: int| k < j < init.len() implies !ends_with(#[trigger] init[j], path) by {
            assert(init[j] == ls[j]);
        }
        assert(!ends_with(ls[ls.len() - 1], path));
        lemma_select_last(init, path, k);
    }
}

proof fn lemma_select_none(ls: Seq<Seq<char>>, path: Seq<char>)
    requires
        forall|j: int| 0 <= j < ls.len() ==> !ends_with(#[trigger] ls[j], path),
    ensures
        select_token(ls, path) == Some(Seq::<char>::empty()),
    decreases ls.len(),
{
    if ls.len() > 0 {
        let init = ls.drop_last();
        assert forall|j: int| 0 <= j < init.len() implies !ends_with(#[trigger] init[j], path) by {
            assert(init[j] == ls[j]);
        }
        assert(!ends_with(ls[ls.len() - 1], path));
        lemma_select_none(init, path);
    }
}

/// An empty report means every check passed: all eight columns pass and the file is not
/// marked as a configuration file (not the all-unsupported default).
pub proof fn lemma_empty_report_all_passed(path: Seq<char>)
    ensures
        extract(Seq::empty(), path) == Some(
            (ResultView {
                size: CheckResult::Passed,
                mode: CheckResult::Passed,
                checksum: CheckResult::Passed,
                major_minor: CheckResult::Passed,
                symbolic_link: CheckResult::Passed,
                owner: CheckResult::Passed,
                group: CheckResult::Passed,
                modification_time: CheckResult::Passed,
                is_configuration: false,
            }),
        ),
{
}

/// The last matching line wins: in a non-empty report where line `k` is the last line that
/// ends with `path`, and every line that ends with `path` has a space, the result is the
/// parse of line `k`'s token, whatever earlier matching lines hold.
pub proof fn lemma_last_match_wins(text: Seq<char>, path: Seq<char>, k: int)
    requires
        text.len() > 0,
        0 <= k < lines(text).len(),
        ends_with(lines(text)[k], path),
        forall|j: int| k < j < lines(text).len() ==> !ends_with(#[trigger] lines(text)[j], path),
        forall|j: int|
            0 <= j < lines(text).len() && ends_with(#[trigger] lines(text)[j], path)
                ==> last_space(lines(text)[j]) is Some,
    ensures
        token_of(lines(text)[k]) is Some,
        extract(text, path) == Some(parse(token_of(lines(text)[k])->0)),
{
    lemma_select_last(lines(text), path, k);
}

/// A non-empty report in which no line ends with `path` gives the all-unsupported,
/// non-configuration result.
pub proof fn lemma_no_match_unknown(text: Seq<char>, path: Seq<char>)
    requires
        text.len() > 0,
        forall|j: int| 0 <= j < lines(text).len() ==> !ends_with(#[trigger] lines(text)[j], path),
    ensures
        extract(text, path) == Some(unknown_view()),
{
    lemma_select_none(lines(text), path);
    assert(parse(Seq::empty()) == unknown_view());
}

} // verus!
