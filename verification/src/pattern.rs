//! The pattern matcher for pattern-directories.
//!
//! A pattern is a glob-like string: `*` matches any sequence of characters
//! (including the empty one) and every other character, `.` included,
//! matches itself literally. A file name satisfies a pattern when the
//! pattern matches somewhere within the name, as a substring search.

use vstd::prelude::*;

verus! {

/// Anchored glob match: the pattern consumes the whole of `s`.
pub open spec fn glob_match_from(pat: Seq<char>, s: Seq<char>) -> bool
    decreases pat.len(), s.len(),
{
    if pat.len() == 0 {
        s.len() == 0
    } else if pat[0] == '*' {
        exists|k: int| 0 <= k <= s.len() && glob_match_from(pat.drop_first(), s.skip(k))
    } else {
        s.len() > 0 && s[0] == pat[0] && glob_match_from(pat.drop_first(), s.drop_first())
    }
}

/// Substring glob search: the pattern matches some contiguous part of `s`.
/// This is what checking a file name against a pattern means.
pub open spec fn pattern_match(pat: Seq<char>, s: Seq<char>) -> bool {
    exists|i: int, j: int|
        0 <= i <= j <= s.len() && glob_match_from(pat, s.subrange(i, j))
}

/// Whether the tail of the pattern (from `pi`) matches some prefix of the
/// tail of `s` (a part starting at `si` and ending anywhere).
pub open spec fn glob_match_prefix(pat: Seq<char>, pi: int, s: Seq<char>, si: int) -> bool {
    exists|j: int| si <= j <= s.len() && glob_match_from(pat.skip(pi), s.subrange(si, j))
}

fn glob_match_free(pat: &str, pi: usize, s: &str, si: usize) -> (r: bool)
    requires
        pi <= pat@.len(),
        si <= s@.len(),
    ensures
        r == glob_match_prefix(pat@, pi as int, s@, si as int),
    decreases pat@.len() - pi, s@.len() - si,
{
    let plen = pat.unicode_len();
    let slen = s.unicode_len();
    if pi == plen {
        proof {
            assert(pat@.skip(pi as int).len() == 0);
            assert(s@.subrange(si as int, si as int).len() == 0);
            assert(glob_match_from(pat@.skip(pi as int), s@.subrange(si as int, si as int)));
        }
        true
    } else {
        let c = pat.get_char(pi);
        proof {
            assert(pat@.skip(pi as int)[0] == pat@[pi as int]);
            assert(pat@.skip(pi as int).len() > 0);
        }
        if c == '*' {
            let skip_star = glob_match_free(pat, pi + 1, s, si);
            if skip_star {
                proof {
                    let j = choose|j: int|
                        si <= j <= s@.len() && glob_match_from(
                            pat@.skip(pi + 1 as int),
                            s@.subrange(si as int, j),
                        );
                    assert(pat@.skip(pi as int).drop_first() =~= pat@.skip(pi + 1 as int));
                    assert(s@.subrange(si as int, j).skip(0) =~= s@.subrange(si as int, j));
                    assert(glob_match_from(pat@.skip(pi as int), s@.subrange(si as int, j)));
                }
                true
            } else if si < slen {
                let r = glob_match_free(pat, pi, s, si + 1);
                proof {
                    let si1 = si as int + 1;
                    assert(pat@.skip(pi as int).drop_first() =~= pat@.skip(pi + 1 as int));
                    if r {
                        let j = choose|j: int|
                            si1 <= j <= s@.len() && glob_match_from(
                                pat@.skip(pi as int),
                                s@.subrange(si1, j),
                            );
                        // a match starting one character later is also a
                        // match here: the star absorbs the extra character
                        let sub = s@.subrange(si as int, j);
                        let shifted = s@.subrange(si1, j);
                        let k = choose|k: int|
                            0 <= k <= shifted.len() && glob_match_from(
                                pat@.skip(pi as int).drop_first(),
                                shifted.skip(k),
                            );
                        assert(shifted.skip(k) =~= sub.skip(k + 1));
                        assert(glob_match_from(pat@.skip(pi as int), sub));
                    } else {
                        if glob_match_prefix(pat@, pi as int, s@, si as int) {
                            let j = choose|j: int|
                                si <= j <= s@.len() && glob_match_from(
                                    pat@.skip(pi as int),
                                    s@.subrange(si as int, j),
                                );
                            let sub = s@.subrange(si as int, j);
                            let k = choose|k: int|
                                0 <= k <= sub.len() && glob_match_from(
                                    pat@.skip(pi as int).drop_first(),
                                    sub.skip(k),
                                );
                            if k == 0 {
                                // the star absorbed nothing: the rest of the
                                // pattern already matches here
                                assert(sub.skip(0) =~= s@.subrange(si as int, j));
                                assert(glob_match_from(
                                    pat@.skip(pi + 1 as int),
                                    s@.subrange(si as int, j),
                                ));
                            } else {
                                // the star absorbed at least one character:
                                // the same match starts one character later
                                assert(sub.skip(k) =~= s@.subrange(si + 1 as int, j).skip(k - 1));
                                assert(glob_match_from(
                                    pat@.skip(pi as int),
                                    s@.subrange(si + 1 as int, j),
                                ));
                            }
                        }
                    }
                }
                r
            } else {
                // the star must end the match: only the empty rest of the
                // pattern can follow
                let r = glob_match_free(pat, pi + 1, s, si);
                proof {
                    assert(!glob_match_prefix(pat@, pi + 1 as int, s@, si as int));
                    if glob_match_prefix(pat@, pi as int, s@, si as int) {
                        let j = choose|j: int|
                            si <= j <= s@.len() && glob_match_from(
                                pat@.skip(pi as int),
                                s@.subrange(si as int, j),
                            );
                        let sub = s@.subrange(si as int, j);
                        let k = choose|k: int|
                            0 <= k <= sub.len() && glob_match_from(
                                pat@.skip(pi as int).drop_first(),
                                sub.skip(k),
                            );
                        assert(pat@.skip(pi as int).drop_first() =~= pat@.skip(pi + 1 as int));
                        assert(sub.skip(k) =~= s@.subrange(si + k as int, j));
                        assert(glob_match_from(pat@.skip(pi + 1 as int), s@.subrange(si + k, j)));
                    }
                }
                r
            }
        } else {
            if si < slen && s.get_char(si) == c {
                let r = glob_match_free(pat, pi + 1, s, si + 1);
                proof {
                    let si1 = si as int + 1;
                    let pi1 = pi as int + 1;
                    assert(pat@.skip(pi as int).drop_first() =~= pat@.skip(pi + 1 as int));
                    if r {
                        let j = choose|j: int|
                            si1 <= j <= s@.len() && glob_match_from(
                                pat@.skip(pi1),
                                s@.subrange(si1, j),
                            );
                        let sub = s@.subrange(si as int, j);
                        assert(sub.len() > 0 && sub[0] == pat@[pi as int]);
                        assert(sub.drop_first() =~= s@.subrange(si1, j));
                        assert(glob_match_from(pat@.skip(pi as int), sub));
                    } else {
                        if glob_match_prefix(pat@, pi as int, s@, si as int) {
                            let j = choose|j: int|
                                si <= j <= s@.len() && glob_match_from(
                                    pat@.skip(pi as int),
                                    s@.subrange(si as int, j),
                                );
                            let sub = s@.subrange(si as int, j);
                            assert(sub.len() > 0);
                            assert(sub.drop_first() =~= s@.subrange(si + 1 as int, j));
                            assert(glob_match_from(
                                pat@.skip(pi + 1 as int),
                                s@.subrange(si + 1 as int, j),
                            ));
                        }
                    }
                }
                r
            } else {
                proof {
                    if glob_match_prefix(pat@, pi as int, s@, si as int) {
                        let j = choose|j: int|
                            si <= j <= s@.len() && glob_match_from(
                                pat@.skip(pi as int),
                                s@.subrange(si as int, j),
                            );
                        let sub = s@.subrange(si as int, j);
                        assert(sub.len() > 0 && sub[0] == s@[si as int]);
                    }
                }
                false
            }
        }
    }
}

/// Check a file name against a pattern: true when the pattern matches
/// somewhere within the name.
pub fn check_pattern(pattern: &str, file_name: &str) -> (r: bool)
    ensures
        r == pattern_match(pattern@, file_name@),
{
    let slen = file_name.unicode_len();
    let mut i: usize = 0;
    loop
        invariant
            i <= slen,
            slen == file_name@.len(),
            forall|a: int, b: int|
                0 <= a < i && a <= b <= file_name@.len() ==> !glob_match_from(
                    pattern@,
                    file_name@.subrange(a, b),
                ),
        decreases slen - i,
    {
        if glob_match_free(pattern, 0, file_name, i) {
            proof {
                let j = choose|j: int|
                    i <= j <= file_name@.len() && glob_match_from(
                        pattern@.skip(0),
                        file_name@.subrange(i as int, j),
                    );
                assert(pattern@.skip(0) =~= pattern@);
                assert(glob_match_from(pattern@, file_name@.subrange(i as int, j)));
            }
            return true;
        }
        proof {
            assert forall|b: int| i <= b <= file_name@.len() implies !glob_match_from(
                pattern@,
                file_name@.subrange(i as int, b),
            ) by {
                assert(pattern@.skip(0) =~= pattern@);
                if glob_match_from(pattern@, file_name@.subrange(i as int, b)) {
                    assert(glob_match_from(pattern@.skip(0), file_name@.subrange(i as int, b)));
                    assert(glob_match_prefix(pattern@, 0, file_name@, i as int));
                }
            }
        }
        if i == slen {
            return false;
        }
        i = i + 1;
    }
}

/// Whether a declared entry name or pattern is acceptable text: it may not
/// contain a path separator, a quote, or a backslash.
pub open spec fn valid_entry_text(s: Seq<char>) -> bool {
    forall|i: int| 0 <= i < s.len() ==> s[i] != '/' && s[i] != '"' && s[i] != '\\'
}

/// Check a declared entry name or pattern against the naming rules.
pub fn check_entry_text(s: &str) -> (r: bool)
    ensures
        r == valid_entry_text(s@),
{
    let n = s.unicode_len();
    let mut i: usize = 0;
    while i < n
        invariant
            i <= n,
            n == s@.len(),
            forall|j: int| 0 <= j < i ==> s@[j] != '/' && s@[j] != '"' && s@[j] != '\\',
        decreases n - i,
    {
        let c = s.get_char(i);
        if c == '/' || c == '"' || c == '\\' {
            return false;
        }
        i = i + 1;
    }
    true
}

} // verus!
