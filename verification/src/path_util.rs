//! Path display helpers: abbreviating the home directory to `~` and
//! shortening long text with an ellipsis in the middle.
//!
//! These only change how a path is shown; the path itself is never altered.

use crate::text::{chars_of, range_starts_with};
use vstd::prelude::*;

verus! {

/// The view of an optional string.
pub open spec fn opt_view(s: Option<&str>) -> Option<Seq<char>> {
    match s {
        Some(t) => Some(t@),
        None => None,
    }
}

/// Whether `p` names `home` itself or something below it: `home` followed by
/// nothing, or by a `/`.
pub open spec fn is_under(p: Seq<char>, home: Seq<char>) -> bool {
    home.is_prefix_of(p) && (p.len() == home.len() || p[home.len() as int] == '/')
}

/// `p` with a leading home directory replaced by `~`.
///
/// Without a home directory, or when `p` does not lie under it, `p` is
/// returned as it is. A path that merely shares a prefix with the home
/// directory (`/home/ann` against `/home/anna`) is not under it.
pub open spec fn shortened(p: Seq<char>, home: Option<Seq<char>>) -> Seq<char> {
    match home {
        Some(h) => if is_under(p, h) {
            seq!['~'] + p.skip(h.len() as int)
        } else {
            p
        },
        None => p,
    }
}

/// The three dots that stand for the removed middle.
pub open spec fn ellipsis() -> Seq<char> {
    seq!['.', '.', '.']
}

/// Number of leading characters kept when shortening to `max > 3` characters.
pub open spec fn kept_left(max: nat) -> nat {
    ((max - 3) / 2) as nat
}

/// Number of trailing characters kept when shortening to `max > 3` characters.
pub open spec fn kept_right(max: nat) -> nat {
    ((max - 3) - (max - 3) / 2) as nat
}

/// `s` shortened to at most `max` characters.
///
/// Text that fits is returned unchanged. Otherwise, with room for more than
/// the ellipsis, the result keeps the head and the tail of `s` around `...`;
/// with room for three characters or fewer it is `max` dots.
pub open spec fn ellipsized(s: Seq<char>, max: nat) -> Seq<char> {
    if s.len() <= max {
        s
    } else if max <= 3 {
        Seq::new(max, |i: int| '.')
    } else {
        s.take(kept_left(max) as int) + ellipsis() + s.skip(s.len() - kept_right(max))
    }
}

/// Replaces a leading home directory in `p` with `~`, for display.
///
/// `home` is the user's home directory, if one is known.
pub fn shorten_home(p: &str, home: Option<&str>) -> (shown: String)
    ensures
        shown@ == shortened(p@, opt_view(home)),
        home matches Some(h) ==> (p@ == h@ ==> shown@ == seq!['~']),
        home matches Some(h) ==> (is_under(p@, h@) ==> shown@ == seq!['~'] + p@.skip(
            h@.len() as int,
        )),
        home matches Some(h) ==> (!h@.is_prefix_of(p@) ==> shown@ == p@),
        home is None ==> shown@ == p@,
{
    match home {
        Some(h) => {
            let pc = chars_of(p);
            let hc = chars_of(h);
            let n: usize = pc.len();
            proof {
                assert(pc@.subrange(0, n as int) =~= p@);
                if p@ == h@ {
                    assert(p@.skip(h@.len() as int) =~= Seq::<char>::empty());
                    assert(seq!['~'] + p@.skip(h@.len() as int) =~= seq!['~']);
                    assert(h@ =~= p@.subrange(0, h@.len() as int));
                }
            }
            let under = range_starts_with(&pc, 0, n, &hc) && (n == hc.len() || pc[hc.len()]
                == '/');
            if under {
                let mut shown = String::from_str("~");
                proof {
                    reveal_strlit("~");
                    assert("~"@ =~= seq!['~']);
                }
                shown.append(p.substring_char(hc.len(), n));
                shown
            } else {
                p.to_owned()
            }
        },
        None => p.to_owned(),
    }
}

/// Shortens `s` to at most `max_chars` characters, counted as `char`s, by
/// replacing its middle with `...`.
pub fn ellipsize_middle(s: &str, max_chars: usize) -> (shown: String)
    ensures
        shown@ == ellipsized(s@, max_chars as nat),
        shown@.len() <= max_chars,
        s@.len() <= max_chars ==> shown@ == s@,
        s@.len() > max_chars ==> shown@.len() == max_chars,
        s@.len() > max_chars > 3 ==> {
            let left = kept_left(max_chars as nat) as int;
            let right = kept_right(max_chars as nat) as int;
            &&& left + right == max_chars - 3
            &&& shown@.take(left) == s@.take(left)
            &&& shown@.subrange(left, left + 3) == ellipsis()
            &&& shown@.skip(left + 3) == s@.skip(s@.len() - right)
        },
        max_chars == 0 ==> shown@ == Seq::<char>::empty(),
        s@.len() > 2 && max_chars == 2 ==> shown@ == seq!['.', '.'],
{
    let total: usize = s.unicode_len();
    if total <= max_chars {
        return s.to_owned();
    }
    if max_chars == 0 {
        let shown = String::new();
        proof {
            assert(shown@ =~= Seq::new(0, |i: int| '.'));
        }
        return shown;
    }
    if max_chars <= 3 {
        let dots: &str = if max_chars == 1 {
            proof {
                reveal_strlit(".");
            }
            "."
        } else if max_chars == 2 {
            proof {
                reveal_strlit("..");
            }
            ".."
        } else {
            proof {
                reveal_strlit("...");
            }
            "..."
        };
        proof {
            assert(dots@ =~= Seq::new(max_chars as nat, |i: int| '.'));
            if max_chars == 2 {
                assert(dots@ =~= seq!['.', '.']);
            }
        }
        return dots.to_owned();
    }
    let keep: usize = max_chars - 3;
    let left: usize = keep / 2;
    let right: usize = keep - left;
    let mut shown = String::from_str(s.substring_char(0, left));
    shown.append("...");
    shown.append(s.substring_char(total - right, total));
    proof {
        reveal_strlit("...");
        assert("..."@ =~= ellipsis());
        assert(s@.subrange(0, left as int) =~= s@.take(left as int));
        assert(s@.subrange(total - right, total as int) =~= s@.skip(s@.len() - right));
        assert(shown@ =~= ellipsized(s@, max_chars as nat));
        assert(shown@.take(left as int) =~= s@.take(left as int));
        assert(shown@.subrange(left as int, left + 3) =~= ellipsis());
        assert(shown@.skip(left + 3) =~= s@.skip(s@.len() - right));
    }
    shown
}

/// Abbreviates the home directory in `p`, then shortens the result to at
/// most `max_chars` characters.
pub fn shorten_home_and_ellipsize(p: &str, home: Option<&str>, max_chars: usize) -> (shown: String)
    ensures
        shown@ == ellipsized(shortened(p@, opt_view(home)), max_chars as nat),
        shown@.len() <= max_chars,
{
    let short = shorten_home(p, home);
    ellipsize_middle(short.as_str(), max_chars)
}

} // verus!
