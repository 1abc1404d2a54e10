//! String machinery: substring search, splitting on a separator, and decimal
//! rendering of integers, each with a sequence-level specification.

use vstd::prelude::*;

verus! {

/// `sep` occurs in `s` at position `i`.
pub open spec fn match_at(s: Seq<char>, sep: Seq<char>, i: int) -> bool {
    &&& 0 <= i
    &&& i + sep.len() <= s.len()
    &&& s.subrange(i, i + sep.len() as int) == sep
}

/// The position of the leftmost occurrence of `sep` in `s`, if there is one.
pub open spec fn find_sub(s: Seq<char>, sep: Seq<char>) -> Option<int>
    decreases s.len(),
{
    if sep.len() == 0 {
        Some(0)
    } else if s.len() < sep.len() {
        None
    } else if s.subrange(0, sep.len() as int) == sep {
        Some(0)
    } else {
        match find_sub(s.drop_first(), sep) {
            Some(j) => Some(j + 1),
            None => None,
        }
    }
}

/// `find_sub` returns the leftmost occurrence of `sep`, or `None` exactly when
/// `sep` does not occur at all.
pub proof fn lemma_find_sub(s: Seq<char>, sep: Seq<char>)
    requires
        sep.len() > 0,
    ensures
        match find_sub(s, sep) {
            Some(i) => match_at(s, sep, i) && (forall|j: int| 0 <= j < i ==> !match_at(s, sep, j)),
            None => forall|i: int| !match_at(s, sep, i),
        },
    decreases s.len(),
{
    if s.len() < sep.len() {
        assert(forall|i: int| !match_at(s, sep, i));
    } else if s.subrange(0, sep.len() as int) == sep {
        assert(match_at(s, sep, 0));
    } else {
        let t = s.drop_first();
        lemma_find_sub(t, sep);
        assert forall|j: int| 0 <= j implies match_at(t, sep, j) == match_at(s, sep, j + 1) by {
            if j + sep.len() <= t.len() {
                assert(t.subrange(j, j + sep.len() as int) =~= s.subrange(
                    j + 1,
                    j + 1 + sep.len() as int,
                ));
            }
        }
        assert(!match_at(s, sep, 0));
        match find_sub(t, sep) {
            Some(j) => {
                assert(match_at(s, sep, j + 1));
                assert forall|k: int| 0 <= k < j + 1 implies !match_at(s, sep, k) by {
                    if k > 0 {
                        assert(!match_at(t, sep, k - 1));
                    }
                }
            },
            None => {
                assert forall|i: int| !match_at(s, sep, i) by {
                    if i > 0 {
                        assert(!match_at(t, sep, i - 1));
                    }
                }
            },
        }
    }
}

/// The pieces of `s` between the non-overlapping, leftmost-first occurrences
/// of `sep`; a string without `sep` is one piece, so the result never has
/// fewer than one piece.
pub open spec fn split_seq(s: Seq<char>, sep: Seq<char>) -> Seq<Seq<char>>
    decreases s.len(),
    when sep.len() > 0
    via split_seq_dec
{
    match find_sub(s, sep) {
        None => seq![s],
        Some(i) => seq![s.subrange(0, i)] + split_seq(s.skip(i + sep.len() as int), sep),
    }
}

#[via_fn]
proof fn split_seq_dec(s: Seq<char>, sep: Seq<char>) {
    lemma_find_sub(s, sep);
}

/// The views of a sequence of strings.
pub open spec fn strs_view(v: Seq<String>) -> Seq<Seq<char>> {
    v.map_values(|x: String| x@)
}

/// Whether two string slices hold the same characters.
pub fn str_eq(a: &str, b: &str) -> (r: bool)
    ensures
        r == (a@ == b@),
{
    let an = a.unicode_len();
    let bn = b.unicode_len();
    if an != bn {
        return false;
    }
    let mut i: usize = 0;
    while i < an
        invariant
            an == a@.len(),
            an == b@.len(),
            i <= an,
            forall|j: int| 0 <= j < i ==> a@[j] == b@[j],
        decreases an - i,
    {
        if a.get_char(i) != b.get_char(i) {
            return false;
        }
        i = i + 1;
    }
    proof {
        assert(a@ =~= b@);
    }
    true
}

/// Whether `sep` occurs in `s` at position `i`.
fn match_at_exec(s: &str, sep: &str, i: usize, n: usize, m: usize) -> (r: bool)
    requires
        n == s@.len(),
        m == sep@.len(),
        i + m <= n,
    ensures
        r == match_at(s@, sep@, i as int),
{
    let mut j: usize = 0;
    while j < m
        invariant
            n == s@.len(),
            m == sep@.len(),
            i + m <= n,
            j <= m,
            forall|k: int| 0 <= k < j ==> s@[i + k] == sep@[k],
        decreases m - j,
    {
        if s.get_char(i + j) != sep.get_char(j) {
            proof {
                let sub = s@.subrange(i as int, i + m as int);
                assert(sub[j as int] == s@[i + j]);
            }
            return false;
        }
        j = j + 1;
    }
    proof {
        assert(s@.subrange(i as int, i + m as int) =~= sep@);
    }
    true
}

/// The position of the leftmost occurrence of `sep` in `s`, if there is one.
pub fn find_in(s: &str, sep: &str) -> (r: Option<usize>)
    requires
        sep@.len() > 0,
    ensures
        r matches Some(i) ==> find_sub(s@, sep@) == Some(i as int),
        r is None ==> find_sub(s@, sep@) is None,
{
    let n = s.unicode_len();
    let m = sep.unicode_len();
    if m > n {
        proof {
            lemma_find_sub(s@, sep@);
        }
        return None;
    }
    let mut i: usize = 0;
    while i <= n - m
        invariant
            n == s@.len(),
            m == sep@.len(),
            0 < m <= n,
            i <= n - m + 1,
            forall|j: int| 0 <= j < i ==> !match_at(s@, sep@, j),
        decreases n - i,
    {
        if match_at_exec(s, sep, i, n, m) {
            proof {
                lemma_find_sub(s@, sep@);
                match find_sub(s@, sep@) {
                    Some(i0) => {
                        assert(!(i0 < i));
                        assert(!(i < i0));
                    },
                    None => {
                        assert(match_at(s@, sep@, i as int));
                    },
                }
            }
            return Some(i);
        }
        i = i + 1;
    }
    proof {
        lemma_find_sub(s@, sep@);
        match find_sub(s@, sep@) {
            Some(i0) => {
                assert(match_at(s@, sep@, i0));
                assert(i0 + m <= n);
                assert(false);
            },
            None => {},
        }
    }
    None
}

/// A fresh copy of the characters of `s` from `from` to `to`.
pub fn substr_copy(s: &str, from: usize, to: usize) -> (r: String)
    requires
        from <= to <= s@.len(),
    ensures
        r@ == s@.subrange(from as int, to as int),
{
    String::from_str(s.substring_char(from, to))
}

/// The pieces of `s` between the occurrences of `sep`, leftmost first.
pub fn split_str(s: &str, sep: &str) -> (r: Vec<String>)
    requires
        sep@.len() > 0,
    ensures
        strs_view(r@) == split_seq(s@, sep@),
{
    let n = s.unicode_len();
    let m = sep.unicode_len();
    let mut parts: Vec<String> = Vec::new();
    let mut start: usize = 0;
    let mut done = false;
    proof {
        assert(s@.skip(0) =~= s@);
        assert(strs_view(parts@) =~= Seq::<Seq<char>>::empty());
        assert(strs_view(parts@) + split_seq(s@.skip(0), sep@) =~= split_seq(s@, sep@));
    }
    while !done
        invariant
            n == s@.len(),
            m == sep@.len(),
            m > 0,
            start <= n,
            !done ==> split_seq(s@, sep@) == strs_view(parts@) + split_seq(
                s@.skip(start as int),
                sep@,
            ),
            done ==> strs_view(parts@) == split_seq(s@, sep@),
        decreases (n - start) + (if done { 0int } else { 1int }),
    {
        let tail = s.substring_char(start, n);
        proof {
            assert(tail@ =~= s@.skip(start as int));
        }
        let ghost old_parts = parts@;
        match find_in(tail, sep) {
            None => {
                parts.push(String::from_str(tail));
                done = true;
                proof {
                    assert(split_seq(tail@, sep@) =~= seq![tail@]);
                    assert(strs_view(parts@) =~= strs_view(old_parts) + seq![tail@]);
                    assert(strs_view(parts@) =~= split_seq(s@, sep@));
                }
            },
            Some(i) => {
                proof {
                    lemma_find_sub(tail@, sep@);
                }
                let piece = String::from_str(s.substring_char(start, start + i));
                parts.push(piece);
                proof {
                    assert(piece@ =~= tail@.subrange(0, i as int));
                    assert(strs_view(parts@) =~= strs_view(old_parts) + seq![
                        tail@.subrange(0, i as int),
                    ]);
                    assert(tail@.skip(i + m as int) =~= s@.skip(start + i + m as int));
                    assert(split_seq(tail@, sep@) == seq![tail@.subrange(0, i as int)] + split_seq(
                        s@.skip(start + i + m as int),
                        sep@,
                    ));
                    assert(strs_view(parts@) + split_seq(s@.skip(start + i + m as int), sep@)
                        =~= strs_view(old_parts) + split_seq(tail@, sep@));
                }
                start = start + i + m;
            },
        }
    }
    parts
}

/// The digit character of a value below ten.
pub open spec fn digit_char(d: nat) -> char {
    ((d + 48) as u8) as char
}

/// The decimal digits of `n`, most significant first, with no leading zero
/// except for `n == 0` itself.
pub open spec fn dec_str(n: nat) -> Seq<char>
    decreases n,
{
    if n < 10 {
        seq![digit_char(n)]
    } else {
        dec_str(n / 10) + seq![digit_char(n % 10)]
    }
}

/// The one-character string of a decimal digit.
fn digit_str(d: usize) -> (r: &'static str)
    requires
        d < 10,
    ensures
        r@ == seq![digit_char(d as nat)],
{
    proof {
        reveal_strlit("0");
        reveal_strlit("1");
        reveal_strlit("2");
        reveal_strlit("3");
        reveal_strlit("4");
        reveal_strlit("5");
        reveal_strlit("6");
        reveal_strlit("7");
        reveal_strlit("8");
        reveal_strlit("9");
    }
    let r = match d {
        0 => "0",
        1 => "1",
        2 => "2",
        3 => "3",
        4 => "4",
        5 => "5",
        6 => "6",
        7 => "7",
        8 => "8",
        _ => "9",
    };
    proof {
        assert(r@ =~= seq![digit_char(d as nat)]);
    }
    r
}

/// The decimal rendering of `n`.
pub fn usize_to_string(n: usize) -> (r: String)
    ensures
        r@ == dec_str(n as nat),
    decreases n,
{
    if n < 10 {
        String::from_str(digit_str(n))
    } else {
        let mut r = usize_to_string(n / 10);
        r.append(digit_str(n % 10));
        r
    }
}

} // verus!
