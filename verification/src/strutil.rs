//! Verified helpers for the character-level string work the wire protocol
//! needs: substring search, splitting on a delimiter, trimming, ASCII case
//! folding and decimal formatting.

use vstd::prelude::*;
use vstd::string::*;

verus! {

/// The pattern `pat` occurs in `s` starting at position `i`.
pub open spec fn match_at(s: Seq<char>, pat: Seq<char>, i: int) -> bool {
    0 <= i && i + pat.len() <= s.len() && s.subrange(i, i + pat.len()) == pat
}

/// The pattern `pat` occurs somewhere in `s`.
pub open spec fn contains_seq(s: Seq<char>, pat: Seq<char>) -> bool {
    exists|i: int| match_at(s, pat, i)
}

/// Position of the first occurrence of `pat` in `s` at or after `i`.
pub open spec fn find_at(s: Seq<char>, pat: Seq<char>, i: int) -> Option<int>
    decreases s.len() - i + 1,
{
    if 0 <= i && i + pat.len() <= s.len() {
        if s.subrange(i, i + pat.len()) == pat {
            Some(i)
        } else {
            find_at(s, pat, i + 1)
        }
    } else {
        None
    }
}

/// Position of the first occurrence of `pat` in `s`, if any.
pub open spec fn spec_find(s: Seq<char>, pat: Seq<char>) -> Option<int> {
    find_at(s, pat, 0)
}

pub proof fn lemma_find_at_props(s: Seq<char>, pat: Seq<char>, k: int)
    requires
        0 <= k,
    ensures
        match find_at(s, pat, k) {
            Some(i) => k <= i && match_at(s, pat, i) && forall|j: int|
                k <= j < i ==> !match_at(s, pat, j),
            None => forall|j: int| j >= k ==> !match_at(s, pat, j),
        },
    decreases s.len() - k + 1,
{
    if k + pat.len() <= s.len() {
        if s.subrange(k, k + pat.len()) == pat {
        } else {
            lemma_find_at_props(s, pat, k + 1);
        }
    }
}

/// `s` begins with `pat`.
pub open spec fn starts_with_seq(s: Seq<char>, pat: Seq<char>) -> bool {
    match_at(s, pat, 0)
}

/// Finds the position of the first occurrence of `pat` in `s`.
pub fn find_sub(s: &str, pat: &str) -> (r: Option<usize>)
    ensures
        r matches Some(i) ==> spec_find(s@, pat@) == Some(i as int),
        r is None ==> spec_find(s@, pat@) is None,
        r matches Some(i) ==> match_at(s@, pat@, i as int),
        r is None ==> !contains_seq(s@, pat@),
{
    let s_len = s.unicode_len();
    let p_len = pat.unicode_len();
    proof {
        lemma_find_at_props(s@, pat@, 0);
    }
    if p_len > s_len {
        return None;
    }
    if p_len == 0 {
        proof {
            assert(s@.subrange(0, 0) =~= pat@);
        }
        return Some(0);
    }
    let mut i: usize = 0;
    while i <= s_len - p_len
        invariant
            0 <= i <= s_len - p_len + 1,
            1 <= p_len <= s_len,
            s_len == s@.len(),
            p_len == pat@.len(),
            forall|j: int| 0 <= j < i ==> !match_at(s@, pat@, j),
        decreases s_len - i,
    {
        let mut k: usize = 0;
        let mut matching: bool = true;
        while k < p_len
            invariant
                0 <= k <= p_len,
                0 <= i,
                i + p_len <= s_len,
                s_len == s@.len(),
                p_len == pat@.len(),
                matching ==> forall|t: int| 0 <= t < k ==> s@[i + t] == pat@[t],
                !matching ==> !match_at(s@, pat@, i as int),
            decreases p_len - k,
        {
            if s.get_char(i + k) != pat.get_char(k) {
                proof {
                    assert(s@.subrange(i as int, i + pat@.len())[k as int] == s@[i + k]);
                }
                matching = false;
                k = p_len;
            } else {
                k = k + 1;
            }
        }
        if matching {
            proof {
                assert(s@.subrange(i as int, i + pat@.len()) =~= pat@);
                assert(match_at(s@, pat@, i as int));
                lemma_find_at_props(s@, pat@, 0);
                assert(spec_find(s@, pat@) == Some(i as int)) by {
                    match find_at(s@, pat@, 0) {
                        Some(f) => {
                            assert(!(f < i) && !(i < f));
                        },
                        None => {
                            assert(!match_at(s@, pat@, i as int));
                        },
                    }
                }
            }
            return Some(i);
        }
        i = i + 1;
    }
    proof {
        lemma_find_at_props(s@, pat@, 0);
        assert forall|j: int| !match_at(s@, pat@, j) by {
            if match_at(s@, pat@, j) {
                assert(0 <= j <= s@.len() - pat@.len());
            }
        }
    }
    None
}

/// Whether `pat` occurs anywhere in `s`.
pub fn contains_sub(s: &str, pat: &str) -> (r: bool)
    ensures
        r == contains_seq(s@, pat@),
{
    proof {
        lemma_find_at_props(s@, pat@, 0);
    }
    find_sub(s, pat).is_some()
}

/// Whether `s` begins with `pat`.
pub fn starts_with_sub(s: &str, pat: &str) -> (r: bool)
    ensures
        r == starts_with_seq(s@, pat@),
{
    let s_len = s.unicode_len();
    let p_len = pat.unicode_len();
    if p_len > s_len {
        return false;
    }
    let head = s.substring_char(0, p_len);
    str_eq(head, pat)
}

/// Whether two string slices hold the same characters.
pub fn str_eq(a: &str, b: &str) -> (r: bool)
    ensures
        r == (a@ == b@),
{
    let a_len = a.unicode_len();
    let b_len = b.unicode_len();
    if a_len != b_len {
        return false;
    }
    let mut k: usize = 0;
    while k < a_len
        invariant
            0 <= k <= a_len,
            a_len == a@.len(),
            a_len == b@.len(),
            forall|t: int| 0 <= t < k ==> a@[t] == b@[t],
        decreases a_len - k,
    {
        if a.get_char(k) != b.get_char(k) {
            return false;
        }
        k = k + 1;
    }
    proof {
        assert(a@ =~= b@);
    }
    true
}

/// The text before and after the first occurrence of `pat` in `s`.
pub fn split_once_sub(s: &str, pat: &str) -> (r: Option<(String, String)>)
    ensures
        match spec_find(s@, pat@) {
            Some(i) => r matches Some(pair) && pair.0@ == s@.take(i) && pair.1@ == s@.skip(
                i + pat@.len(),
            ),
            None => r is None,
        },
{
    match find_sub(s, pat) {
        Some(i) => {
            let s_len = s.unicode_len();
            let p_len = pat.unicode_len();
            let before = s.substring_char(0, i);
            let after = s.substring_char(i + p_len, s_len);
            proof {
                assert(before@ =~= s@.take(i as int));
                assert(after@ =~= s@.skip(i + pat@.len()));
            }
            Some((String::from_str(before), String::from_str(after)))
        },
        None => None,
    }
}

/// ASCII whitespace, the only kind that occurs on the wire.
pub open spec fn is_ws(c: char) -> bool {
    c == ' ' || c == '\t' || c == '\r' || c == '\n'
}

pub open spec fn trim_start_spec(s: Seq<char>) -> Seq<char>
    decreases s.len(),
{
    if s.len() > 0 && is_ws(s[0]) {
        trim_start_spec(s.drop_first())
    } else {
        s
    }
}

pub open spec fn trim_end_spec(s: Seq<char>) -> Seq<char>
    decreases s.len(),
{
    if s.len() > 0 && is_ws(s.last()) {
        trim_end_spec(s.drop_last())
    } else {
        s
    }
}

/// `s` with leading and trailing ASCII whitespace removed.
pub open spec fn trim_spec(s: Seq<char>) -> Seq<char> {
    trim_end_spec(trim_start_spec(s))
}

proof fn lemma_trim_start_skip(s: Seq<char>, a: int)
    requires
        0 <= a <= s.len(),
        forall|t: int| 0 <= t < a ==> is_ws(s[t]),
        a < s.len() ==> !is_ws(s[a]),
    ensures
        trim_start_spec(s) =~= s.skip(a),
    decreases a,
{
    if a == 0 {
        if s.len() > 0 {
            assert(!is_ws(s[0]));
        }
        assert(trim_start_spec(s) =~= s.skip(0));
    } else {
        assert(is_ws(s[0]));
        lemma_trim_start_skip(s.drop_first(), a - 1);
        assert(s.drop_first().skip(a - 1) =~= s.skip(a));
    }
}

proof fn lemma_trim_end_take(s: Seq<char>, b: int)
    requires
        0 <= b <= s.len(),
        forall|t: int| b <= t < s.len() ==> is_ws(s[t]),
        b > 0 ==> !is_ws(s[b - 1]),
    ensures
        trim_end_spec(s) =~= s.take(b),
    decreases s.len() - b,
{
    if b == s.len() {
        if s.len() > 0 {
            assert(!is_ws(s.last()));
        }
        assert(trim_end_spec(s) =~= s.take(s.len() as int));
    } else {
        assert(is_ws(s.last()));
        lemma_trim_end_take(s.drop_last(), b);
        assert(s.drop_last().take(b) =~= s.take(b));
    }
}

/// `s` with leading and trailing ASCII whitespace removed.
pub fn trim(s: &str) -> (r: String)
    ensures
        r@ == trim_spec(s@),
{
    let len = s.unicode_len();
    let mut a: usize = 0;
    while a < len && is_ws_char(s.get_char(a))
        invariant
            0 <= a <= len,
            len == s@.len(),
            forall|t: int| 0 <= t < a ==> is_ws(s@[t]),
        decreases len - a,
    {
        a = a + 1;
    }
    proof {
        lemma_trim_start_skip(s@, a as int);
    }
    let mut b: usize = len;
    while b > a && is_ws_char(s.get_char(b - 1))
        invariant
            a <= b <= len,
            len == s@.len(),
            forall|t: int| b <= t < len ==> is_ws(s@[t]),
        decreases b,
    {
        b = b - 1;
    }
    let out = s.substring_char(a, b);
    proof {
        if b == a {
            assert(forall|t: int| 0 <= t < s@.skip(a as int).len() ==> is_ws(
                s@.skip(a as int)[t],
            ));
            lemma_trim_end_take(s@.skip(a as int), 0);
        } else {
            assert(!is_ws(s@[b - 1]));
            lemma_trim_end_take(s@.skip(a as int), b - a);
        }
        assert(out@ =~= s@.skip(a as int).take(b - a));
        assert(trim_spec(s@) =~= out@);
    }
    String::from_str(out)
}

/// `s` with leading ASCII whitespace removed.
pub fn trim_start(s: &str) -> (r: String)
    ensures
        r@ == trim_start_spec(s@),
{
    let len = s.unicode_len();
    let mut a: usize = 0;
    while a < len && is_ws_char(s.get_char(a))
        invariant
            0 <= a <= len,
            len == s@.len(),
            forall|t: int| 0 <= t < a ==> is_ws(s@[t]),
        decreases len - a,
    {
        a = a + 1;
    }
    proof {
        lemma_trim_start_skip(s@, a as int);
    }
    let out = s.substring_char(a, len);
    proof {
        assert(out@ =~= s@.skip(a as int));
    }
    String::from_str(out)
}

/// Executable check for [`is_ws`].
pub fn is_ws_char(c: char) -> (r: bool)
    ensures
        r == is_ws(c),
{
    c == ' ' || c == '\t' || c == '\r' || c == '\n'
}

/// `s` with every trailing `"\r\n"` pair removed.
pub open spec fn trim_crlf_spec(s: Seq<char>) -> Seq<char>
    decreases s.len(),
{
    if s.len() >= 2 && s[s.len() - 2] == '\r' && s[s.len() - 1] == '\n' {
        trim_crlf_spec(s.take(s.len() - 2))
    } else {
        s
    }
}

/// Removes every trailing `"\r\n"` pair from `s`.
pub fn trim_crlf(s: &str) -> (r: String)
    ensures
        r@ == trim_crlf_spec(s@),
{
    let len = s.unicode_len();
    proof {
        assert(s@.take(len as int) =~= s@);
    }
    let mut b: usize = len;
    while b >= 2 && s.get_char(b - 2) == '\r' && s.get_char(b - 1) == '\n'
        invariant
            0 <= b <= len,
            len == s@.len(),
            trim_crlf_spec(s@.take(b as int)) == trim_crlf_spec(s@),
        decreases b,
    {
        proof {
            assert(s@.take(b as int).take(b - 2) =~= s@.take(b - 2));
        }
        b = b - 2;
    }
    let out = s.substring_char(0, b);
    proof {
        assert(out@ =~= s@.take(b as int));
    }
    String::from_str(out)
}

/// ASCII lower-casing of one character; everything outside `'A'..='Z'` is kept.
pub open spec fn lower_char(c: char) -> char {
    if 'A' <= c && c <= 'Z' {
        ((c as u8) + 32) as char
    } else {
        c
    }
}

/// Pointwise ASCII lower-casing.
pub open spec fn lower_seq(s: Seq<char>) -> Seq<char> {
    Seq::new(s.len(), |i: int| lower_char(s[i]))
}

/// Case folding equality, as the platform compares account names. The
/// folding is ASCII-only — narrower than std's Unicode folding, which is
/// enough for the platform's identifiers, all ASCII.
pub open spec fn eq_ignore_case_spec(a: Seq<char>, b: Seq<char>) -> bool {
    lower_seq(a) == lower_seq(b)
}

/// Executable ASCII lower-casing of one character.
pub fn to_lower_char(c: char) -> (r: char)
    ensures
        r == lower_char(c),
{
    if 'A' <= c && c <= 'Z' {
        ((c as u8) + 32) as char
    } else {
        c
    }
}

/// Whether two strings hold the same characters up to ASCII case.
pub fn eq_ignore_case(a: &str, b: &str) -> (r: bool)
    ensures
        r == eq_ignore_case_spec(a@, b@),
{
    let a_len = a.unicode_len();
    let b_len = b.unicode_len();
    if a_len != b_len {
        proof {
            assert(lower_seq(a@).len() != lower_seq(b@).len());
        }
        return false;
    }
    let mut k: usize = 0;
    while k < a_len
        invariant
            0 <= k <= a_len,
            a_len == a@.len(),
            a_len == b@.len(),
            forall|t: int| 0 <= t < k ==> lower_char(a@[t]) == lower_char(b@[t]),
        decreases a_len - k,
    {
        if to_lower_char(a.get_char(k)) != to_lower_char(b.get_char(k)) {
            proof {
                assert(lower_seq(a@)[k as int] != lower_seq(b@)[k as int]);
            }
            return false;
        }
        k = k + 1;
    }
    proof {
        assert(lower_seq(a@) =~= lower_seq(b@));
    }
    true
}

/// The string `s` lower-cased character by character. Only ASCII letters
/// fold — narrower than std's Unicode lower-casing, which is enough for
/// the platform's channel and account names, all ASCII.
pub fn to_lowercase(s: &str) -> (r: String)
    ensures
        r@ == lower_seq(s@),
{
    let len = s.unicode_len();
    let mut out = String::new();
    let mut i: usize = 0;
    while i < len
        invariant
            0 <= i <= len,
            len == s@.len(),
            out@ =~= lower_seq(s@.take(i as int)),
        decreases len - i,
    {
        let c = s.get_char(i);
        let piece = s.substring_char(i, i + 1);
        let low = to_lower_char(c);
        if low != c {
            let lowered = lower_letter_str(c);
            out.append(lowered);
        } else {
            out.append(piece);
        }
        proof {
            assert(piece@ =~= seq![s@[i as int]]);
            assert(lower_seq(s@.take(i + 1)) =~= lower_seq(s@.take(i as int)).push(
                lower_char(s@[i as int]),
            ));
        }
        i = i + 1;
    }
    proof {
        assert(s@.take(len as int) =~= s@);
    }
    out
}

/// One-character string for the lower-case form of an upper-case ASCII letter.
fn lower_letter_str(c: char) -> (r: &'static str)
    requires
        'A' <= c && c <= 'Z',
    ensures
        r@ =~= seq![lower_char(c)],
{
    let r: &'static str = match c {
        'A' => "a",
        'B' => "b",
        'C' => "c",
        'D' => "d",
        'E' => "e",
        'F' => "f",
        'G' => "g",
        'H' => "h",
        'I' => "i",
        'J' => "j",
        'K' => "k",
        'L' => "l",
        'M' => "m",
        'N' => "n",
        'O' => "o",
        'P' => "p",
        'Q' => "q",
        'R' => "r",
        'S' => "s",
        'T' => "t",
        'U' => "u",
        'V' => "v",
        'W' => "w",
        'X' => "x",
        'Y' => "y",
        _ => "z",
    };
    proof {
        reveal_strlit("a");
        reveal_strlit("b");
        reveal_strlit("c");
        reveal_strlit("d");
        reveal_strlit("e");
        reveal_strlit("f");
        reveal_strlit("g");
        reveal_strlit("h");
        reveal_strlit("i");
        reveal_strlit("j");
        reveal_strlit("k");
        reveal_strlit("l");
        reveal_strlit("m");
        reveal_strlit("n");
        reveal_strlit("o");
        reveal_strlit("p");
        reveal_strlit("q");
        reveal_strlit("r");
        reveal_strlit("s");
        reveal_strlit("t");
        reveal_strlit("u");
        reveal_strlit("v");
        reveal_strlit("w");
        reveal_strlit("x");
        reveal_strlit("y");
        reveal_strlit("z");
    }
    r
}

/// ASCII upper-casing of one character; everything outside `'a'..='z'` is
/// kept.
pub open spec fn upper_char(c: char) -> char {
    if 'a' <= c && c <= 'z' {
        ((c as u8) - 32) as char
    } else {
        c
    }
}

/// Pointwise ASCII upper-casing.
pub open spec fn upper_seq(s: Seq<char>) -> Seq<char> {
    Seq::new(s.len(), |i: int| upper_char(s[i]))
}

/// Executable ASCII upper-casing of one character.
pub fn to_upper_char(c: char) -> (r: char)
    ensures
        r == upper_char(c),
{
    if 'a' <= c && c <= 'z' {
        ((c as u8) - 32) as char
    } else {
        c
    }
}

/// The string `s` upper-cased character by character. Only ASCII letters
/// fold, which is enough for the translation names this library matches.
pub fn to_uppercase(s: &str) -> (r: String)
    ensures
        r@ == upper_seq(s@),
{
    let len = s.unicode_len();
    let mut out = String::new();
    let mut i: usize = 0;
    while i < len
        invariant
            0 <= i <= len,
            len == s@.len(),
            out@ =~= upper_seq(s@.take(i as int)),
        decreases len - i,
    {
        let c = s.get_char(i);
        let piece = s.substring_char(i, i + 1);
        let up = to_upper_char(c);
        if up != c {
            let raised = upper_letter_str(c);
            out.append(raised);
        } else {
            out.append(piece);
        }
        proof {
            assert(piece@ =~= seq![s@[i as int]]);
            assert(upper_seq(s@.take(i + 1)) =~= upper_seq(s@.take(i as int)).push(
                upper_char(s@[i as int]),
            ));
        }
        i = i + 1;
    }
    proof {
        assert(s@.take(len as int) =~= s@);
    }
    out
}

/// One-character string for the upper-case form of a lower-case ASCII
/// letter.
fn upper_letter_str(c: char) -> (r: &'static str)
    requires
        'a' <= c && c <= 'z',
    ensures
        r@ =~= seq![upper_char(c)],
{
    let r: &'static str = match c {
        'a' => "A",
        'b' => "B",
        'c' => "C",
        'd' => "D",
        'e' => "E",
        'f' => "F",
        'g' => "G",
        'h' => "H",
        'i' => "I",
        'j' => "J",
        'k' => "K",
        'l' => "L",
        'm' => "M",
        'n' => "N",
        'o' => "O",
        'p' => "P",
        'q' => "Q",
        'r' => "R",
        's' => "S",
        't' => "T",
        'u' => "U",
        'v' => "V",
        'w' => "W",
        'x' => "X",
        'y' => "Y",
        _ => "Z",
    };
    proof {
        reveal_strlit("A");
        reveal_strlit("B");
        reveal_strlit("C");
        reveal_strlit("D");
        reveal_strlit("E");
        reveal_strlit("F");
        reveal_strlit("G");
        reveal_strlit("H");
        reveal_strlit("I");
        reveal_strlit("J");
        reveal_strlit("K");
        reveal_strlit("L");
        reveal_strlit("M");
        reveal_strlit("N");
        reveal_strlit("O");
        reveal_strlit("P");
        reveal_strlit("Q");
        reveal_strlit("R");
        reveal_strlit("S");
        reveal_strlit("T");
        reveal_strlit("U");
        reveal_strlit("V");
        reveal_strlit("W");
        reveal_strlit("X");
        reveal_strlit("Y");
        reveal_strlit("Z");
    }
    r
}

/// How `bool::from_str` reads a string: exactly `"true"` or `"false"`.
pub open spec fn parse_bool_spec(s: Seq<char>) -> Option<bool> {
    if s == "true"@ {
        Some(true)
    } else if s == "false"@ {
        Some(false)
    } else {
        None
    }
}

/// Reads a boolean the way the platform writes one.
pub fn parse_bool(s: &str) -> (r: Option<bool>)
    ensures
        r == parse_bool_spec(s@),
{
    if str_eq(s, "true") {
        Some(true)
    } else if str_eq(s, "false") {
        Some(false)
    } else {
        None
    }
}

/// The decimal digit character for `d`.
pub open spec fn digit_char(d: int) -> char {
    if d == 0 {
        '0'
    } else if d == 1 {
        '1'
    } else if d == 2 {
        '2'
    } else if d == 3 {
        '3'
    } else if d == 4 {
        '4'
    } else if d == 5 {
        '5'
    } else if d == 6 {
        '6'
    } else if d == 7 {
        '7'
    } else if d == 8 {
        '8'
    } else {
        '9'
    }
}

/// Decimal notation of `n`, most significant digit first.
pub open spec fn dec_digits(n: int) -> Seq<char>
    decreases n,
{
    if n < 10 {
        seq![digit_char(n)]
    } else {
        dec_digits(n / 10).push(digit_char(n % 10))
    }
}

/// One-character string for a decimal digit.
fn digit_str(d: u64) -> (r: &'static str)
    requires
        d < 10,
    ensures
        r@ =~= seq![digit_char(d as int)],
{
    let r: &'static str = match d {
        0 => "0",
        1 => "1",
        2 => "2",
        3 => "3",
        4 => "4",
        5 => "5",
        6 => "6",
        7 => "7",
        8 => "8",
        _ => "9",
    };
    proof {
        reveal_strlit("0");
        reveal_strlit("1");
        reveal_strlit("2");
        reveal_strlit("3");
        reveal_strlit("4");
        reveal_strlit("5");
        reveal_strlit("6");
        reveal_strlit("7");
        reveal_strlit("8");
        reveal_strlit("9");
    }
    r
}

/// Decimal notation of `n`.
pub fn u64_to_string(n: u64) -> (r: String)
    ensures
        r@ == dec_digits(n as int),
    decreases n,
{
    if n < 10 {
        let mut out = String::new();
        out.append(digit_str(n));
        proof {
            assert(out@ =~= dec_digits(n as int));
        }
        out
    } else {
        let mut out = u64_to_string(n / 10);
        out.append(digit_str(n % 10));
        proof {
            assert(out@ =~= dec_digits(n as int));
        }
        out
    }
}

/// `s` with every occurrence of `pat` replaced by `rep`, scanning left to
/// right.
pub open spec fn replace_all_spec(s: Seq<char>, pat: Seq<char>, rep: Seq<char>) -> Seq<char>
    decreases s.len(),
{
    if pat.len() == 0 {
        s
    } else {
        match spec_find(s, pat) {
            Some(i) => if 0 <= i && i + pat.len() <= s.len() {
                s.take(i) + rep + replace_all_spec(s.skip(i + pat.len()), pat, rep)
            } else {
                s
            },
            None => s,
        }
    }
}

/// Replaces every occurrence of `pat` in `s` by `rep`.
pub fn replace_all(s: &str, pat: &str, rep: &str) -> (r: String)
    requires
        pat@.len() > 0,
    ensures
        r@ == replace_all_spec(s@, pat@, rep@),
    decreases s@.len(),
{
    match find_sub(s, pat) {
        Some(i) => {
            let s_len = s.unicode_len();
            let p_len = pat.unicode_len();
            let before = s.substring_char(0, i);
            let after = s.substring_char(i + p_len, s_len);
            proof {
                assert(before@ =~= s@.take(i as int));
                assert(after@ =~= s@.skip(i + pat@.len()));
            }
            let mut out = String::from_str(before);
            out.append(rep);
            let rest = replace_all(after, pat, rep);
            out.append(rest.as_str());
            out
        },
        None => String::from_str(s),
    }
}

} // verus!
