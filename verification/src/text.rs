//! Verified text helpers used by the parser and the serializer: string
//! equality, substring search, first-occurrence search, line splitting,
//! whitespace tokenization and decimal formatting, all specified over
//! `Seq<char>`.

use vstd::prelude::*;

verus! {

use vstd::string::StrSliceExecFns;
use vstd::string::StringExecFns;

/// Equality of two string slices, by their character sequences.
pub fn str_eq(a: &str, b: &str) -> (r: bool)
    ensures
        r == (a@ == b@),
{
    let sa = String::from_str(a);
    let sb = String::from_str(b);
    sa == sb
}

/// Whitespace for tokenizing a request line: space, tab, or a stray
/// carriage return (line feeds never occur inside a line).
pub open spec fn spec_is_ws(c: char) -> bool {
    c == ' ' || c == '\t' || c == '\r'
}

fn is_ws(c: char) -> (r: bool)
    ensures
        r == spec_is_ws(c),
{
    c == ' ' || c == '\t' || c == '\r'
}

/// Removes one trailing carriage return, if present: the tail of a
/// `"\r\n"` line terminator once the line feed has been split away.
pub open spec fn spec_strip_cr(s: Seq<char>) -> Seq<char> {
    if s.len() > 0 && s.last() == '\r' {
        s.drop_last()
    } else {
        s
    }
}

/// The lines of `s`, split at each line feed, with a carriage return
/// immediately before a line feed dropped; a final line terminator is
/// optional and produces no trailing empty line. `cur` carries the
/// characters of the line read so far.
pub open spec fn spec_lines_rec(s: Seq<char>, cur: Seq<char>) -> Seq<Seq<char>>
    decreases s.len(),
{
    if s.len() == 0 {
        if cur.len() == 0 {
            Seq::empty()
        } else {
            seq![cur]
        }
    } else if s[0] == '\n' {
        seq![spec_strip_cr(cur)] + spec_lines_rec(s.drop_first(), Seq::empty())
    } else {
        spec_lines_rec(s.drop_first(), cur.push(s[0]))
    }
}

/// The lines of `s`.
pub open spec fn spec_lines(s: Seq<char>) -> Seq<Seq<char>> {
    spec_lines_rec(s, Seq::empty())
}

/// Splits `s` into its lines.
pub fn split_lines(s: &str) -> (r: Vec<String>)
    ensures
        r.deep_view() == spec_lines(s@),
{
    let n = s.unicode_len();
    let mut acc: Vec<String> = Vec::new();
    let mut line_start: usize = 0;
    let mut i: usize = 0;
    proof {
        assert(s@.subrange(0, n as int) =~= s@);
        assert(s@.subrange(0, 0) =~= Seq::<char>::empty());
        assert(acc.deep_view() =~= Seq::<Seq<char>>::empty());
        assert(acc.deep_view() + spec_lines_rec(s@, Seq::<char>::empty()) =~= spec_lines(s@));
    }
    while i < n
        invariant
            n == s@.len(),
            line_start <= i <= n,
            forall|j: int| line_start <= j < i ==> s@[j] != '\n',
            acc.deep_view() + spec_lines_rec(s@.subrange(i as int, n as int), s@.subrange(line_start as int, i as int)) == spec_lines(s@),
        decreases n - i,
    {
        let ghost rest = s@.subrange(i as int, n as int);
        let ghost cur = s@.subrange(line_start as int, i as int);
        let c = s.get_char(i);
        assert(rest[0] == s@[i as int]);
        if c == '\n' {
            let line = if i > line_start && s.get_char(i - 1) == '\r' {
                s.substring_char(line_start, i - 1)
            } else {
                s.substring_char(line_start, i)
            };
            proof {
                if i > line_start && s@[i - 1] == '\r' {
                    assert(cur.len() > 0 && cur.last() == '\r');
                    assert(line@ =~= spec_strip_cr(cur));
                } else {
                    assert(line@ =~= spec_strip_cr(cur));
                }
                assert(rest.drop_first() =~= s@.subrange(i + 1, n as int));
                assert(spec_lines_rec(rest, cur) == seq![spec_strip_cr(cur)] + spec_lines_rec(
                    s@.subrange(i + 1, n as int),
                    Seq::empty(),
                ));
            }
            let owned = String::from_str(line);
            let ghost acc_old = acc.deep_view();
            acc.push(owned);
            proof {
                assert(acc.deep_view() =~= acc_old + seq![spec_strip_cr(cur)]);
                assert(s@.subrange(i + 1, i + 1) =~= Seq::<char>::empty());
                assert(acc.deep_view() + spec_lines_rec(
                    s@.subrange(i + 1, n as int),
                    s@.subrange(i + 1, i + 1),
                ) =~= spec_lines(s@));
            }
            line_start = i + 1;
        } else {
            proof {
                assert(rest.drop_first() =~= s@.subrange(i + 1, n as int));
                assert(cur.push(s@[i as int]) =~= s@.subrange(line_start as int, i + 1));
                assert(spec_lines_rec(rest, cur) == spec_lines_rec(
                    s@.subrange(i + 1, n as int),
                    s@.subrange(line_start as int, i + 1),
                ));
            }
        }
        i += 1;
    }
    if line_start < n {
        let line = s.substring_char(line_start, n);
        let ghost cur = s@.subrange(line_start as int, n as int);
        proof {
            assert(s@.subrange(n as int, n as int) =~= Seq::<char>::empty());
            assert(cur.len() > 0);
            assert(spec_lines_rec(Seq::<char>::empty(), cur) == seq![cur]);
        }
        let ghost acc_old = acc.deep_view();
        acc.push(String::from_str(line));
        proof {
            assert(acc.deep_view() =~= acc_old + seq![cur]);
            assert(acc.deep_view() =~= spec_lines(s@));
        }
    } else {
        proof {
            assert(s@.subrange(n as int, n as int) =~= Seq::<char>::empty());
            assert(s@.subrange(line_start as int, n as int).len() == 0 ==> s@.subrange(
                line_start as int,
                n as int,
            ) =~= Seq::<char>::empty());
            assert(spec_lines_rec(Seq::<char>::empty(), Seq::<char>::empty())
                == Seq::<Seq<char>>::empty());
            assert(acc.deep_view() =~= spec_lines(s@));
        }
    }
    acc
}

/// The whitespace-separated tokens of `s`: maximal runs of
/// non-whitespace characters, in order. `cur` carries the characters of
/// the token read so far.
pub open spec fn spec_tokens_rec(s: Seq<char>, cur: Seq<char>) -> Seq<Seq<char>>
    decreases s.len(),
{
    if s.len() == 0 {
        if cur.len() == 0 {
            Seq::empty()
        } else {
            seq![cur]
        }
    } else if spec_is_ws(s[0]) {
        (if cur.len() == 0 {
            Seq::<Seq<char>>::empty()
        } else {
            seq![cur]
        }) + spec_tokens_rec(s.drop_first(), Seq::empty())
    } else {
        spec_tokens_rec(s.drop_first(), cur.push(s[0]))
    }
}

/// The whitespace-separated tokens of `s`.
pub open spec fn spec_tokens(s: Seq<char>) -> Seq<Seq<char>> {
    spec_tokens_rec(s, Seq::empty())
}

/// Splits `s` into its whitespace-separated tokens.
pub fn split_tokens(s: &str) -> (r: Vec<String>)
    ensures
        r.deep_view() == spec_tokens(s@),
{
    let n = s.unicode_len();
    let mut acc: Vec<String> = Vec::new();
    let mut tok_start: usize = 0;
    let mut i: usize = 0;
    proof {
        assert(s@.subrange(0, n as int) =~= s@);
        assert(s@.subrange(0, 0) =~= Seq::<char>::empty());
        assert(acc.deep_view() =~= Seq::<Seq<char>>::empty());
        assert(acc.deep_view() + spec_tokens_rec(s@, Seq::<char>::empty()) =~= spec_tokens(s@));
    }
    while i < n
        invariant
            n == s@.len(),
            tok_start <= i <= n,
            forall|j: int| tok_start <= j < i ==> !spec_is_ws(s@[j]),
            acc.deep_view() + spec_tokens_rec(s@.subrange(i as int, n as int), s@.subrange(tok_start as int, i as int)) == spec_tokens(s@),
        decreases n - i,
    {
        let ghost rest = s@.subrange(i as int, n as int);
        let ghost cur = s@.subrange(tok_start as int, i as int);
        let c = s.get_char(i);
        assert(rest[0] == s@[i as int]);
        if is_ws(c) {
            proof {
                assert(rest.drop_first() =~= s@.subrange(i + 1, n as int));
                assert(s@.subrange(i + 1, i + 1) =~= Seq::<char>::empty());
            }
            if i > tok_start {
                let tok = s.substring_char(tok_start, i);
                let ghost acc_old = acc.deep_view();
                acc.push(String::from_str(tok));
                proof {
                    assert(cur.len() > 0);
                    assert(acc.deep_view() =~= acc_old + seq![cur]);
                    assert(acc.deep_view() + spec_tokens_rec(
                        s@.subrange(i + 1, n as int),
                        s@.subrange(i + 1, i + 1),
                    ) =~= spec_tokens(s@));
                }
            } else {
                proof {
                    assert(cur.len() == 0);
                    assert(acc.deep_view() + spec_tokens_rec(
                        s@.subrange(i + 1, n as int),
                        s@.subrange(i + 1, i + 1),
                    ) =~= spec_tokens(s@));
                }
            }
            tok_start = i + 1;
        } else {
            proof {
                assert(rest.drop_first() =~= s@.subrange(i + 1, n as int));
                assert(cur.push(s@[i as int]) =~= s@.subrange(tok_start as int, i + 1));
            }
        }
        i += 1;
    }
    if tok_start < n {
        let tok = s.substring_char(tok_start, n);
        let ghost cur = s@.subrange(tok_start as int, n as int);
        proof {
            assert(s@.subrange(n as int, n as int) =~= Seq::<char>::empty());
            assert(cur.len() > 0);
        }
        let ghost acc_old = acc.deep_view();
        acc.push(String::from_str(tok));
        proof {
            assert(acc.deep_view() =~= acc_old + seq![cur]);
            assert(acc.deep_view() =~= spec_tokens(s@));
        }
    } else {
        proof {
            assert(s@.subrange(n as int, n as int) =~= Seq::<char>::empty());
            assert(s@.subrange(tok_start as int, n as int) =~= Seq::<char>::empty());
            assert(acc.deep_view() =~= spec_tokens(s@));
        }
    }
    acc
}

/// Whether `p` occurs as a contiguous subsequence of `s`.
pub open spec fn spec_contains(s: Seq<char>, p: Seq<char>) -> bool {
    exists|k: int|
        0 <= k && k + p.len() <= s.len() && #[trigger] s.subrange(k, k + p.len() as int) == p
}

/// Substring search: whether `pat` occurs anywhere in `s`.
pub fn contains_str(s: &str, pat: &str) -> (r: bool)
    ensures
        r == spec_contains(s@, pat@),
{
    let n = s.unicode_len();
    let m = pat.unicode_len();
    if m > n {
        return false;
    }
    if m == 0 {
        proof {
            assert(s@.subrange(0, 0 + pat@.len() as int) =~= pat@);
            assert(spec_contains(s@, pat@));
        }
        return true;
    }
    let mut k: usize = 0;
    while k <= n - m
        invariant
            n == s@.len(),
            m == pat@.len(),
            1 <= m <= n,
            k <= n - m + 1,
            forall|j: int| 0 <= j < k ==> #[trigger] s@.subrange(j, j + m as int) != pat@,
        decreases n + 1 - k,
    {
        let piece = s.substring_char(k, k + m);
        if str_eq(piece, pat) {
            assert(s@.subrange(k as int, k + m as int) == pat@);
            return true;
        }
        k += 1;
    }
    false
}

/// `i` is the position of the first occurrence of `c` in `s`.
pub open spec fn spec_first_at(s: Seq<char>, c: char, i: int) -> bool {
    0 <= i < s.len() && s[i] == c && forall|j: int| 0 <= j < i ==> s[j] != c
}

/// Whether `c` occurs in `s`.
pub open spec fn spec_has_char(s: Seq<char>, c: char) -> bool {
    exists|j: int| 0 <= j < s.len() && s[j] == c
}

/// The position of the first occurrence of `c` in `s` (meaningful only
/// when `c` occurs).
pub open spec fn spec_first_index(s: Seq<char>, c: char) -> int {
    choose|i: int| spec_first_at(s, c, i)
}

/// Finds the first occurrence of `c` in `s`.
pub fn find_char(s: &str, c: char) -> (r: Option<usize>)
    ensures
        match r {
            Some(i) => spec_first_at(s@, c, i as int) && i as int == spec_first_index(s@, c)
                && spec_has_char(s@, c),
            None => !spec_has_char(s@, c),
        },
{
    let n = s.unicode_len();
    let mut i: usize = 0;
    while i < n
        invariant
            n == s@.len(),
            i <= n,
            forall|j: int| 0 <= j < i ==> s@[j] != c,
        decreases n - i,
    {
        if s.get_char(i) == c {
            proof {
                assert(spec_first_at(s@, c, i as int));
                let w = spec_first_index(s@, c);
                assert(spec_first_at(s@, c, w));
                if w < i as int {
                    assert(s@[w] != c);
                }
                if w > i as int {
                    assert(s@[i as int] != c);
                }
            }
            return Some(i);
        }
        i += 1;
    }
    None
}

/// The digit character for `d`.
pub open spec fn spec_digit_char(d: nat) -> char {
    if d == 0 {
        '0'
    } else if d == 1 {
        '1'
    } else if d == 2 {
        '2'
    } else if d == 3 {
        '3'
    } else if d == 4 {
        '4'
    } else if d == 5 {
        '5'
    } else if d == 6 {
        '6'
    } else if d == 7 {
        '7'
    } else if d == 8 {
        '8'
    } else {
        '9'
    }
}

/// The decimal digit string of `n`, most significant digit first, with
/// no leading zeros (and `"0"` for zero).
pub open spec fn spec_decimal(n: nat) -> Seq<char>
    decreases n,
{
    if n < 10 {
        seq![spec_digit_char(n)]
    } else {
        spec_decimal(n / 10) + seq![spec_digit_char(n % 10)]
    }
}

fn digit_str(d: usize) -> (r: &'static str)
    requires
        d < 10,
    ensures
        r@ == seq![spec_digit_char(d as nat)],
{
    proof {
        reveal_strlit("0");
        reveal_strlit("1");
        reveal_strlit("2");
        reveal_strlit("3");
        reveal_strlit("4");
        reveal_strlit("5");
        reveal_strlit("6");
        reveal_strlit("7");
        reveal_strlit("8");
        reveal_strlit("9");
    }
    let r = if d == 0 {
        "0"
    } else if d == 1 {
        "1"
    } else if d == 2 {
        "2"
    } else if d == 3 {
        "3"
    } else if d == 4 {
        "4"
    } else if d == 5 {
        "5"
    } else if d == 6 {
        "6"
    } else if d == 7 {
        "7"
    } else if d == 8 {
        "8"
    } else {
        "9"
    };
    proof {
        assert(r@ =~= seq![spec_digit_char(d as nat)]);
    }
    r
}

/// Formats `n` in decimal.
pub fn decimal_string(n: usize) -> (r: String)
    ensures
        r@ == spec_decimal(n as nat),
    decreases n,
{
    if n < 10 {
        String::from_str(digit_str(n))
    } else {
        let mut s = decimal_string(n / 10);
        s.append(digit_str(n % 10));
        proof {
            assert(s@ =~= spec_decimal(n as nat));
        }
        s
    }
}

} // verus!
