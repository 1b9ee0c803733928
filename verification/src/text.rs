//! Plain-text helpers for building and taking apart path strings: decimal
//! rendering of series indices and locating the last `/` of a path.

use vstd::prelude::*;
use vstd::string::StrSliceExecFns;
use vstd::string::StringExecFns;

verus! {

/// The character for the decimal digit `d` (`d < 10`).
pub open spec fn dec_digit(d: nat) -> char {
    if d == 0 {
        '0'
    } else if d == 1 {
        '1'
    } else if d == 2 {
        '2'
    } else if d == 3 {
        '3'
    } else if d == 4 {
        '4'
    } else if d == 5 {
        '5'
    } else if d == 6 {
        '6'
    } else if d == 7 {
        '7'
    } else if d == 8 {
        '8'
    } else {
        '9'
    }
}

/// The decimal rendering of `n`, most significant digit first, no sign and
/// no leading zeros (`0` itself is rendered as `"0"`).
pub open spec fn dec_str(n: nat) -> Seq<char>
    decreases n,
{
    if n < 10 {
        seq![dec_digit(n)]
    } else {
        dec_str(n / 10).push(dec_digit(n % 10))
    }
}

pub proof fn lemma_dec_str_len(n: nat)
    ensures
        dec_str(n).len() >= 1,
    decreases n,
{
    if n >= 10 {
        lemma_dec_str_len(n / 10);
    }
}

/// The one-character string for the decimal digit `d`.
fn digit_str(d: usize) -> (r: &'static str)
    requires
        d < 10,
    ensures
        r@ == seq![dec_digit(d as nat)],
{
    let r: &'static str = match d {
        0 => "0",
        1 => "1",
        2 => "2",
        3 => "3",
        4 => "4",
        5 => "5",
        6 => "6",
        7 => "7",
        8 => "8",
        _ => "9",
    };
    proof {
        reveal_strlit("0");
        reveal_strlit("1");
        reveal_strlit("2");
        reveal_strlit("3");
        reveal_strlit("4");
        reveal_strlit("5");
        reveal_strlit("6");
        reveal_strlit("7");
        reveal_strlit("8");
        reveal_strlit("9");
        assert(r@ =~= seq![dec_digit(d as nat)]);
    }
    r
}

/// Renders `n` in decimal, as `format!("{n}")` would.
pub fn usize_to_dec(n: usize) -> (r: String)
    ensures
        r@ == dec_str(n as nat),
    decreases n,
{
    if n < 10 {
        digit_str(n).to_owned()
    } else {
        let mut s = usize_to_dec(n / 10);
        s.append(digit_str(n % 10));
        proof {
            assert(dec_str(n as nat) =~= dec_str((n / 10) as nat) + seq![
                dec_digit((n % 10) as nat),
            ]);
        }
        s
    }
}

/// The position of the last `/` in `s`, if any.
pub open spec fn last_slash_idx(s: Seq<char>) -> Option<int>
    decreases s.len(),
{
    if s.len() == 0 {
        None
    } else if s.last() == '/' {
        Some(s.len() - 1)
    } else {
        last_slash_idx(s.drop_last())
    }
}

pub proof fn lemma_last_slash_idx_bounds(s: Seq<char>)
    ensures
        last_slash_idx(s) is Some ==> {
            let i = last_slash_idx(s).unwrap();
            0 <= i < s.len() && s[i] == '/'
        },
    decreases s.len(),
{
    if s.len() > 0 && s.last() != '/' {
        lemma_last_slash_idx_bounds(s.drop_last());
    }
}

/// The part of a path after its last `/`: the file-name component.
/// A path with no `/` is its own file name.
pub open spec fn file_name_of(s: Seq<char>) -> Seq<char> {
    match last_slash_idx(s) {
        None => s,
        Some(i) => s.subrange(i + 1, s.len() as int),
    }
}

/// The part of a path before its last `/`: the parent directory.
/// A path with no `/` has the empty parent.
pub open spec fn parent_of(s: Seq<char>) -> Seq<char> {
    match last_slash_idx(s) {
        None => Seq::empty(),
        Some(i) => s.take(i),
    }
}

/// The name of the directory a path's file sits in: the component between
/// the last two `/`s.
pub open spec fn leaf_dir_of(s: Seq<char>) -> Seq<char> {
    file_name_of(parent_of(s))
}

/// Finds the position of the last `/` in `s`.
pub fn find_last_slash(s: &str) -> (r: Option<usize>)
    ensures
        match r {
            None => last_slash_idx(s@) is None,
            Some(i) => last_slash_idx(s@) == Some(i as int),
        },
{
    let n = s.unicode_len();
    let mut i: usize = n;
    proof {
        assert(s@.take(n as int) =~= s@);
    }
    while i > 0
        invariant
            i <= n,
            n == s@.len(),
            last_slash_idx(s@) == last_slash_idx(s@.take(i as int)),
        decreases i,
    {
        let c = s.get_char(i - 1);
        proof {
            assert(s@.take(i as int).last() == s@[i - 1]);
            assert(s@.take(i as int).drop_last() =~= s@.take(i - 1));
        }
        if c == '/' {
            return Some(i - 1);
        }
        i = i - 1;
    }
    proof {
        assert(s@.take(0) =~= Seq::<char>::empty());
    }
    None
}

/// Splits `path` at its last `/` into the parent directory and the file
/// name, as [`parent_of`] and [`file_name_of`] describe.
pub fn split_last_slash(path: &str) -> (r: (String, String))
    ensures
        r.0@ == parent_of(path@),
        r.1@ == file_name_of(path@),
{
    let n = path.unicode_len();
    match find_last_slash(path) {
        None => {
            proof {
                assert(Seq::<char>::empty() =~= ""@) by {
                    reveal_strlit("");
                }
            }
            (String::new(), path.to_owned())
        },
        Some(i) => {
            proof {
                lemma_last_slash_idx_bounds(path@);
            }
            let parent = path.substring_char(0, i).to_owned();
            let file = path.substring_char(i + 1, n).to_owned();
            proof {
                assert(parent@ =~= parent_of(path@));
                assert(file@ =~= file_name_of(path@));
            }
            (parent, file)
        },
    }
}

} // verus!
