//! Byte-level text predicates used to decide whether a status check's output
//! reports readiness: keyword containment, counting the lines that contain a
//! keyword, and blank-output detection.

use vstd::prelude::*;

verus! {

/// The word `w` occurs in `s` starting at index `i`.
pub open spec fn matches_at(s: Seq<u8>, w: Seq<u8>, i: int) -> bool {
    0 <= i && i + w.len() <= s.len() && s.subrange(i, i + w.len()) == w
}

/// The word `w` occurs somewhere in `s`.
pub open spec fn contains_word(s: Seq<u8>, w: Seq<u8>) -> bool {
    exists|i: int| matches_at(s, w, i)
}

/// Whether the word `w` occurs in `s` starting exactly at index `i`.
fn word_at(s: &[u8], w: &[u8], i: usize) -> (r: bool)
    requires
        i + w@.len() <= s@.len(),
    ensures
        r == matches_at(s@, w@, i as int),
{
    let slen: usize = s.len();
    assert(s@.len() == slen);
    let mut j: usize = 0;
    while j < w.len()
        invariant
            j <= w@.len(),
            i + w@.len() <= s@.len(),
            s@.len() <= usize::MAX,
            forall|k: int| 0 <= k < j ==> s@[i + k] == w@[k],
        decreases w@.len() - j,
    {
        if s[i + j] != w[j] {
            proof {
                assert(s@.subrange(i as int, i + w@.len())[j as int] == s@[i + j]);
            }
            return false;
        }
        j = j + 1;
    }
    proof {
        assert(s@.subrange(i as int, i + w@.len()) =~= w@);
    }
    true
}

/// Whether the word `w` occurs anywhere in `s`. The empty word occurs in
/// every buffer.
pub fn contains_bytes(s: &[u8], w: &[u8]) -> (r: bool)
    ensures
        r == contains_word(s@, w@),
{
    if w.len() == 0 {
        proof {
            assert(s@.subrange(0, 0) =~= w@);
            assert(matches_at(s@, w@, 0));
        }
        return true;
    }
    if w.len() > s.len() {
        proof {
            assert(forall|i: int| !matches_at(s@, w@, i));
        }
        return false;
    }
    let last_start: usize = s.len() - w.len();
    let mut i: usize = 0;
    loop
        invariant_except_break
            i <= last_start + 1,
            last_start + w@.len() == s@.len(),
            1 <= w@.len(),
            s@.len() <= usize::MAX,
            forall|k: int| 0 <= k < i ==> !matches_at(s@, w@, k),
        ensures
            contains_word(s@, w@),
        decreases last_start + 1 - i,
    {
        if i > last_start {
            proof {
                assert(forall|k: int| k > last_start ==> !matches_at(s@, w@, k));
            }
            return false;
        }
        if word_at(s, w, i) {
            break;
        }
        i = i + 1;
    }
    true
}

/// The word list `ws` has some word that occurs in `s`.
pub open spec fn contains_any_word(s: Seq<u8>, ws: Seq<Seq<u8>>) -> bool {
    exists|k: int| 0 <= k < ws.len() && contains_word(s, ws[k])
}

/// Whether some word of `ws` occurs in `s`.
pub fn contains_any_bytes(s: &[u8], ws: &Vec<Vec<u8>>) -> (r: bool)
    ensures
        r == contains_any_word(s@, ws.deep_view()),
{
    let mut k: usize = 0;
    while k < ws.len()
        invariant
            k <= ws@.len(),
            ws.deep_view().len() == ws@.len(),
            forall|j: int| 0 <= j < k ==> !contains_word(s@, ws.deep_view()[j]),
        decreases ws@.len() - k,
    {
        proof {
            assert(ws.deep_view()[k as int] =~= ws@[k as int]@);
        }
        if contains_bytes(s, ws[k].as_slice()) {
            return true;
        }
        k = k + 1;
    }
    false
}

/// The line feed byte that separates lines of command output.
pub open spec fn is_newline(b: u8) -> bool {
    b == 10
}

/// Index of the first line feed in `s`, or `s.len()` if there is none.
pub open spec fn first_newline(s: Seq<u8>) -> int
    decreases s.len(),
{
    if s.len() == 0 {
        0
    } else if is_newline(s.first()) {
        0
    } else {
        1 + first_newline(s.drop_first())
    }
}

/// `first_newline` stays within `s`, lands on a line feed when there is one,
/// and nothing before it is a line feed.
pub proof fn lemma_first_newline_bounds(s: Seq<u8>)
    ensures
        0 <= first_newline(s) <= s.len(),
        first_newline(s) < s.len() ==> is_newline(s[first_newline(s)]),
        forall|j: int| 0 <= j < first_newline(s) ==> !is_newline(s[j]),
    decreases s.len(),
{
    if s.len() != 0 && !is_newline(s.first()) {
        lemma_first_newline_bounds(s.drop_first());
        assert(forall|j: int| 1 <= j < first_newline(s) ==> s[j] == s.drop_first()[j - 1]);
    }
}

/// `first_newline` is pinned by its characterization: no line feed before
/// `i`, and `i` is either a line feed or the end.
pub proof fn lemma_first_newline_is(s: Seq<u8>, i: int)
    requires
        0 <= i <= s.len(),
        forall|j: int| 0 <= j < i ==> !is_newline(s[j]),
        i == s.len() || is_newline(s[i]),
    ensures
        first_newline(s) == i,
    decreases i,
{
    if s.len() != 0 && !is_newline(s.first()) {
        assert(forall|j: int| 0 <= j < i - 1 ==> s.drop_first()[j] == s[j + 1]);
        lemma_first_newline_is(s.drop_first(), i - 1);
    }
}

/// `s` split at line feeds, as the standard split does: the separators are
/// dropped, and an empty buffer yields one empty line.
pub open spec fn spec_lines(s: Seq<u8>) -> Seq<Seq<u8>>
    decreases s.len(),
    via spec_lines_decreases
{
    let i = first_newline(s);
    if i == s.len() {
        seq![s]
    } else {
        seq![s.take(i)] + spec_lines(s.skip(i + 1))
    }
}

#[via_fn]
proof fn spec_lines_decreases(s: Seq<u8>) {
    lemma_first_newline_bounds(s);
}

/// How many lines of `ls` contain some word of `ws`.
pub open spec fn count_matching(ls: Seq<Seq<u8>>, ws: Seq<Seq<u8>>) -> nat
    decreases ls.len(),
{
    if ls.len() == 0 {
        0
    } else {
        (if contains_any_word(ls.first(), ws) {
            1nat
        } else {
            0nat
        }) + count_matching(ls.drop_first(), ws)
    }
}

/// Whether at least `threshold` lines of `s` contain some word of `ws`.
pub fn at_least_matching_lines(s: &[u8], ws: &Vec<Vec<u8>>, threshold: usize) -> (r: bool)
    ensures
        r == (count_matching(spec_lines(s@), ws.deep_view()) >= threshold),
{
    if threshold == 0 {
        return true;
    }
    let ghost total: nat = count_matching(spec_lines(s@), ws.deep_view());
    let slen: usize = s.len();
    let mut start: usize = 0;
    let mut n: usize = 0;
    proof {
        assert(s@.skip(0) =~= s@);
    }
    loop
        invariant_except_break
            start <= slen,
            slen == s@.len(),
            n < threshold,
            total == n + count_matching(spec_lines(s@.skip(start as int)), ws.deep_view()),
        ensures
            (n >= threshold) == (total >= threshold),
        decreases slen - start,
    {
        let mut j: usize = start;
        while j < slen && s[j] != 10
            invariant
                start <= j <= slen,
                slen == s@.len(),
                forall|k: int| start <= k < j ==> !is_newline(s@[k]),
            decreases slen - j,
        {
            j = j + 1;
        }
        proof {
            let rest = s@.skip(start as int);
            assert(forall|k: int| 0 <= k < rest.len() ==> rest[k] == s@[start + k]);
            lemma_first_newline_is(rest, j - start);
        }
        let line = vstd::slice::slice_subrange(s, start, j);
        let matched = contains_any_bytes(line, ws);
        proof {
            let rest = s@.skip(start as int);
            if j == slen {
                assert(line@ =~= rest);
                assert(spec_lines(rest) == seq![rest]);
                assert(spec_lines(rest).first() == rest);
                assert(spec_lines(rest).drop_first() =~= Seq::<Seq<u8>>::empty());
                assert(count_matching(Seq::<Seq<u8>>::empty(), ws.deep_view()) == 0);
                assert(count_matching(spec_lines(rest), ws.deep_view()) == (if contains_any_word(
                    rest,
                    ws.deep_view(),
                ) {
                    1nat
                } else {
                    0nat
                }));
            } else {
                let tail = spec_lines(rest.skip(j - start + 1));
                assert(spec_lines(rest) == seq![rest.take(j - start)] + tail);
                assert(line@ =~= rest.take(j - start));
                assert(spec_lines(rest).first() == rest.take(j - start));
                assert(spec_lines(rest).drop_first() =~= tail);
                assert(rest.skip(j - start + 1) =~= s@.skip(j + 1));
            }
        }
        if matched {
            n = n + 1;
            if n >= threshold {
                proof {
                    let rest = s@.skip(start as int);
                    lemma_count_matching_bounds(spec_lines(rest), ws.deep_view());
                }
                break;
            }
        }
        if j == slen {
            break;
        }
        start = j + 1;
    }
    n >= threshold
}

/// A line count is at least the contribution of its first line.
proof fn lemma_count_matching_bounds(ls: Seq<Seq<u8>>, ws: Seq<Seq<u8>>)
    ensures
        ls.len() > 0 && contains_any_word(ls.first(), ws) ==> count_matching(ls, ws) >= 1,
{
}

/// Every byte of `s` is ASCII whitespace.
pub open spec fn all_blank(s: Seq<u8>) -> bool {
    forall|i: int| 0 <= i < s.len() ==> is_ascii_space(s[i])
}

/// ASCII whitespace: space, tab, line feed, form feed, carriage return.
pub open spec fn is_ascii_space(b: u8) -> bool {
    b == 32 || b == 9 || b == 10 || b == 12 || b == 13
}

/// Whether `s` holds nothing but whitespace, so that trimming it would leave
/// an empty buffer.
pub fn is_blank(s: &[u8]) -> (r: bool)
    ensures
        r == all_blank(s@),
{
    let slen: usize = s.len();
    let mut i: usize = 0;
    while i < slen
        invariant
            i <= slen,
            slen == s@.len(),
            forall|k: int| 0 <= k < i ==> is_ascii_space(s@[k]),
        decreases slen - i,
    {
        let b = s[i];
        if !(b == 32 || b == 9 || b == 10 || b == 12 || b == 13) {
            return false;
        }
        i = i + 1;
    }
    true
}

/// Whether `b` is not whitespace.
fn is_solid_byte(b: u8) -> (r: bool)
    ensures
        r == !is_ascii_space(b),
{
    !(b == 32 || b == 9 || b == 10 || b == 12 || b == 13)
}

/// `s[i]` is the one byte of `s` that is not whitespace.
pub open spec fn sole_content_at(s: Seq<u8>, i: int) -> bool {
    &&& 0 <= i < s.len()
    &&& !is_ascii_space(s[i])
    &&& forall|j: int| 0 <= j < s.len() && j != i ==> is_ascii_space(s[j])
}

/// `s` trimmed of whitespace is `y` or `Y`: an affirmative answer to a
/// yes-or-no question.
pub open spec fn is_affirmative_answer(s: Seq<u8>) -> bool {
    exists|i: int| sole_content_at(s, i) && (s[i] == 121 || s[i] == 89)
}

/// Whether `s` answers a yes-or-no question in the affirmative: besides
/// whitespace it holds exactly the byte `y` or `Y`.
pub fn is_affirmative(s: &[u8]) -> (r: bool)
    ensures
        r == is_affirmative_answer(s@),
{
    let slen: usize = s.len();
    let mut i: usize = 0;
    let mut found: Option<usize> = None;
    while i < slen
        invariant
            i <= slen,
            slen == s@.len(),
            match found {
                Some(k) => k < i && !is_ascii_space(s@[k as int]) && (forall|j: int|
                    0 <= j < i && j != k ==> is_ascii_space(s@[j])),
                None => forall|j: int| 0 <= j < i ==> is_ascii_space(s@[j]),
            },
        decreases slen - i,
    {
        if is_solid_byte(s[i]) {
            match found {
                Some(k) => {
                    proof {
                        assert(!is_ascii_space(s@[k as int]));
                        assert(!is_ascii_space(s@[i as int]));
                        assert forall|m: int| !sole_content_at(s@, m) by {
                            if sole_content_at(s@, m) {
                                if m == k as int {
                                    assert(is_ascii_space(s@[i as int]));
                                } else {
                                    assert(is_ascii_space(s@[k as int]));
                                }
                            }
                        }
                        assert(!is_affirmative_answer(s@));
                    }
                    return false;
                },
                None => {
                    found = Some(i);
                },
            }
        }
        i = i + 1;
    }
    match found {
        Some(k) => {
            proof {
                assert(sole_content_at(s@, k as int));
                assert forall|m: int| sole_content_at(s@, m) implies m == k as int by {
                    if m != k as int {
                        assert(is_ascii_space(s@[k as int]));
                    }
                }
            }
            let b = s[k];
            proof {
                if b == 121 || b == 89 {
                    assert(is_affirmative_answer(s@));
                }
            }
            b == 121 || b == 89
        },
        None => {
            proof {
                assert forall|m: int| !sole_content_at(s@, m) by {
                    if 0 <= m < s@.len() {
                        assert(is_ascii_space(s@[m]));
                    }
                }
                assert(!is_affirmative_answer(s@));
            }
            false
        },
    }
}

} // verus!
