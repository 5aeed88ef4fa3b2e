//! Line search: the lines of a text that contain a pattern, in order.

use vstd::prelude::*;

verus! {

use crate::text::str_chars;

/// Whether `p` occurs as a contiguous run inside `s`.
pub open spec fn has_substring(s: Seq<char>, p: Seq<char>) -> bool {
    exists|i: int| 0 <= i && i + p.len() <= s.len() && #[trigger] s.subrange(i, i + p.len()) == p
}

/// The first position at or after `i` holding a newline, or the length.
pub open spec fn newline_scan(s: Seq<char>, i: int) -> int
    decreases s.len() - i,
{
    if i >= s.len() {
        s.len() as int
    } else if i >= 0 && s[i] == '\n' {
        i
    } else {
        newline_scan(s, i + 1)
    }
}

proof fn lemma_newline_scan_bounds(s: Seq<char>, i: int)
    requires
        0 <= i <= s.len(),
    ensures
        i <= newline_scan(s, i) <= s.len(),
    decreases s.len() - i,
{
    if i < s.len() && s[i] != '\n' {
        lemma_newline_scan_bounds(s, i + 1);
    }
}

proof fn lemma_newline_scan_exact(s: Seq<char>, i: int, j: int)
    requires
        0 <= i <= j <= s.len(),
        forall|k: int| i <= k < j ==> #[trigger] s[k] != '\n',
        j < s.len() ==> s[j] == '\n',
    ensures
        newline_scan(s, i) == j,
    decreases j - i,
{
    if i < j {
        lemma_newline_scan_exact(s, i + 1, j);
    }
}

/// The lines of `s` from position `i` on, split at `\n`, with a `\r` that
/// closes a `\r\n` ending stripped, and no empty line after a final
/// newline.
pub open spec fn lines_from(s: Seq<char>, i: int) -> Seq<Seq<char>>
    decreases s.len() + 1 - i,
    via lines_from_decreases
{
    if i < 0 || i >= s.len() {
        Seq::empty()
    } else {
        let e = newline_scan(s, i);
        let raw = s.subrange(i, e);
        let line = if e < s.len() && raw.len() > 0 && raw.last() == '\r' {
            raw.drop_last()
        } else {
            raw
        };
        seq![line] + lines_from(s, e + 1)
    }
}

#[via_fn]
proof fn lines_from_decreases(s: Seq<char>, i: int) {
    if 0 <= i < s.len() {
        lemma_newline_scan_bounds(s, i);
    }
}

/// The lines of a whole text.
pub open spec fn lines_of(s: Seq<char>) -> Seq<Seq<char>> {
    lines_from(s, 0)
}

/// The members of `ls` from position `i` on that contain `p`, in order.
pub open spec fn matching_from(ls: Seq<Seq<char>>, p: Seq<char>, i: int) -> Seq<Seq<char>>
    decreases ls.len() - i,
{
    if i < 0 || i >= ls.len() {
        Seq::empty()
    } else {
        (if has_substring(ls[i], p) {
            seq![ls[i]]
        } else {
            Seq::empty()
        }) + matching_from(ls, p, i + 1)
    }
}

/// The lines of `s` that contain `p`, in order.
pub open spec fn matching_lines(s: Seq<char>, p: Seq<char>) -> Seq<Seq<char>> {
    matching_from(lines_of(s), p, 0)
}

/// The views of a vector of strings.
pub open spec fn string_views(v: Seq<String>) -> Seq<Seq<char>> {
    Seq::new(v.len(), |k: int| v[k]@)
}

/// Appending one line to `ls` appends its match, if it is one.
proof fn lemma_matching_shift(l: Seq<char>, rest: Seq<Seq<char>>, p: Seq<char>, i: int)
    requires
        0 <= i <= rest.len(),
    ensures
        matching_from(seq![l] + rest, p, i + 1) == matching_from(rest, p, i),
    decreases rest.len() - i,
{
    let ls = seq![l] + rest;
    assert(ls.len() == 1 + rest.len());
    if i < rest.len() {
        assert(ls[i + 1] == rest[i]);
        lemma_matching_shift(l, rest, p, i + 1);
    }
}

/// Whether `needle` occurs inside `hay`.
#[verifier::loop_isolation(false)]
fn contains_chars(hay: &Vec<char>, needle: &Vec<char>) -> (r: bool)
    ensures
        r == has_substring(hay@, needle@),
{
    let n = hay.len();
    let m = needle.len();
    if m > n {
        proof {
            assert(!has_substring(hay@, needle@));
        }
        return false;
    }
    let mut i: usize = 0;
    while i <= n - m
        invariant
            0 <= i <= n - m + 1,
            m <= n,
            n == hay@.len(),
            m == needle@.len(),
            forall|k: int|
                0 <= k < i ==> #[trigger] hay@.subrange(k, k + needle@.len()) != needle@,
        decreases n - m + 1 - i,
    {
        let mut j: usize = 0;
        let mut all_match = true;
        while j < m
            invariant
                0 <= j <= m,
                i + m <= n,
                all_match == (forall|t: int| 0 <= t < j ==> hay@[i + t] == #[trigger] needle@[t]),
                !all_match ==> j == m,
            decreases m - j,
        {
            if hay[i + j] != needle[j] {
                all_match = false;
                j = m;
            } else {
                proof {
                    assert(forall|t: int|
                        0 <= t < j + 1 ==> hay@[i + t] == #[trigger] needle@[t]);
                }
                j = j + 1;
            }
        }
        if all_match {
            proof {
                assert(hay@.subrange(i as int, i + needle@.len()) =~= needle@);
            }
            return true;
        }
        proof {
            if hay@.subrange(i as int, i + needle@.len()) == needle@ {
                assert(forall|t: int|
                    0 <= t < needle@.len() ==> hay@[i + t] == #[trigger] needle@[t]) by {
                    assert(forall|t: int|
                        0 <= t < needle@.len() ==> needle@[t] == #[trigger] hay@.subrange(
                            i as int,
                            i + needle@.len(),
                        )[t]);
                }
            }
        }
        i = i + 1;
    }
    proof {
        assert(!has_substring(hay@, needle@));
    }
    false
}

/// The lines of `contents` that contain `pattern`, in order.
#[verifier::loop_isolation(false)]
pub fn search(pattern: &str, contents: &str) -> (r: Vec<String>)
    ensures
        string_views(r@) == matching_lines(contents@, pattern@),
{
    let ghost full = contents@;
    let ghost p = pattern@;
    let chars = str_chars(contents);
    let pat_chars = str_chars(pattern);
    let n = chars.len();
    let mut out: Vec<String> = Vec::new();
    let mut i: usize = 0;
    while i < n
        invariant
            0 <= i <= n,
            n == full.len(),
            chars@ == full,
            pat_chars@ == p,
            matching_from(lines_of(full), p, 0) == string_views(out@) + matching_from(
                lines_from(full, i as int),
                p,
                0,
            ),
        decreases n - i,
    {
        let mut e: usize = i;
        while e < n
            invariant
                i <= e <= n,
                n == full.len(),
                chars@ == full,
                forall|k: int| i <= k < e ==> #[trigger] full[k] != '\n',
            decreases n - e,
        {
            if chars[e] == '\n' {
                break ;
            }
            e = e + 1;
        }
        proof {
            assert(forall|k: int| i <= k < e ==> #[trigger] full[k] != '\n');
        }
        let at_newline = e < n && chars[e] == '\n';
        proof {
            if at_newline {
                lemma_newline_scan_exact(full, i as int, e as int);
            } else {
                lemma_newline_scan_exact(full, i as int, n as int);
            }
        }
        let scan_end = if at_newline {
            e
        } else {
            n
        };
        let has_cr = at_newline && scan_end > i && chars[scan_end - 1] == '\r';
        let line_end = if has_cr {
            scan_end - 1
        } else {
            scan_end
        };
        let line = contents.substring_char(i, line_end).to_owned();
        let ghost raw = full.subrange(i as int, scan_end as int);
        proof {
            if has_cr {
                assert(raw.last() == full[scan_end - 1]);
                assert(raw.drop_last() =~= full.subrange(i as int, line_end as int));
            } else if at_newline {
                assert(scan_end > i ==> raw.last() == full[scan_end - 1]);
            }
            assert(lines_from(full, i as int) == seq![line@] + lines_from(
                full,
                scan_end as int + 1,
            ));
        }
        let line_chars = str_chars(line.as_str());
        let ghost old_out = out@;
        let ghost l = line@;
        if contains_chars(&line_chars, &pat_chars) {
            out.push(line);
        }
        proof {
            let rest = lines_from(full, scan_end as int + 1);
            lemma_matching_shift(l, rest, p, 0);
            assert((seq![l] + rest)[0] == l);
            assert(matching_from(seq![l] + rest, p, 0) == (if has_substring(l, p) {
                seq![l]
            } else {
                Seq::<Seq<char>>::empty()
            }) + matching_from(rest, p, 0));
            if has_substring(l, p) {
                assert(string_views(out@) =~= string_views(old_out).push(l));
                assert(string_views(old_out) + (seq![l] + matching_from(rest, p, 0))
                    =~= string_views(out@) + matching_from(rest, p, 0));
            } else {
                assert(Seq::<Seq<char>>::empty() + matching_from(rest, p, 0) =~= matching_from(
                    rest,
                    p,
                    0,
                ));
            }
        }
        if at_newline {
            i = e + 1;
        } else {
            proof {
                assert(matching_from(lines_from(full, n as int), p, 0) =~= matching_from(
                    lines_from(full, n as int + 1),
                    p,
                    0,
                ));
            }
            i = n;
        }
    }
    proof {
        assert(matching_from(lines_from(full, i as int), p, 0) =~= Seq::<Seq<char>>::empty());
        assert(string_views(out@) + Seq::<Seq<char>>::empty() =~= string_views(out@));
    }
    out
}

} // verus!
