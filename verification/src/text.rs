//! Verified helpers on strings: characters, decimal numbers, joining and
//! splitting.

use vstd::prelude::*;

verus! {

/// The views of a list of strings, in order.
pub open spec fn strings(v: Seq<String>) -> Seq<Seq<char>> {
    Seq::new(v.len(), |i: int| v[i]@)
}

/// The characters of `s`, in order.
pub fn chars_of(s: &str) -> (v: Vec<char>)
    ensures
        v@ == s@,
{
    let mut v: Vec<char> = Vec::new();
    for c in it: s.chars()
        invariant
            v@ == it.seq().take(it.index() as int),
            it.seq() == s@,
    {
        v.push(c);
    }
    v
}

/// The decimal digit that stands for `d`, for `d` below ten.
pub open spec fn digit_char(d: int) -> char {
    if d == 0 {
        '0'
    } else if d == 1 {
        '1'
    } else if d == 2 {
        '2'
    } else if d == 3 {
        '3'
    } else if d == 4 {
        '4'
    } else if d == 5 {
        '5'
    } else if d == 6 {
        '6'
    } else if d == 7 {
        '7'
    } else if d == 8 {
        '8'
    } else {
        '9'
    }
}

/// The number a decimal digit stands for, if `c` is one.
pub open spec fn digit_value(c: char) -> Option<int> {
    if c == '0' {
        Some(0)
    } else if c == '1' {
        Some(1)
    } else if c == '2' {
        Some(2)
    } else if c == '3' {
        Some(3)
    } else if c == '4' {
        Some(4)
    } else if c == '5' {
        Some(5)
    } else if c == '6' {
        Some(6)
    } else if c == '7' {
        Some(7)
    } else if c == '8' {
        Some(8)
    } else if c == '9' {
        Some(9)
    } else {
        None
    }
}

/// The decimal notation of a natural number, without leading zeros.
pub open spec fn decimal(n: nat) -> Seq<char>
    decreases n,
{
    if n < 10 {
        seq![digit_char(n as int)]
    } else {
        decimal(n / 10).push(digit_char((n % 10) as int))
    }
}

/// The decimal notation of an integer, with a minus sign when negative.
pub open spec fn signed_decimal(n: int) -> Seq<char> {
    if n < 0 {
        seq!['-'] + decimal((-n) as nat)
    } else {
        decimal(n as nat)
    }
}

/// The number that a non-empty run of decimal digits denotes.
pub open spec fn digits_value(s: Seq<char>) -> Option<int>
    decreases s.len(),
{
    if s.len() == 0 {
        None
    } else {
        match digit_value(s.last()) {
            None => None,
            Some(d) => if s.len() == 1 {
                Some(d)
            } else {
                match digits_value(s.drop_last()) {
                    None => None,
                    Some(v) => Some(v * 10 + d),
                }
            },
        }
    }
}

/// The integer that `s` denotes: an optional sign, then decimal digits.
pub open spec fn parse_int(s: Seq<char>) -> Option<int> {
    if s.len() > 0 && s[0] == '-' {
        match digits_value(s.skip(1)) {
            Some(v) => Some(-v),
            None => None,
        }
    } else if s.len() > 0 && s[0] == '+' {
        digits_value(s.skip(1))
    } else {
        digits_value(s)
    }
}

/// The 32-bit integer that `s` denotes, if it denotes one that fits.
pub open spec fn parse_i32_spec(s: Seq<char>) -> Option<i32> {
    match parse_int(s) {
        Some(v) => if i32::MIN <= v <= i32::MAX {
            Some(v as i32)
        } else {
            None
        },
        None => None,
    }
}

/// The position of the first `=` in `s`, or the length of `s` if it has none.
pub open spec fn first_equals(s: Seq<char>) -> int
    decreases s.len(),
{
    if s.len() == 0 {
        0
    } else if s[0] == '=' {
        0
    } else {
        1 + first_equals(s.skip(1))
    }
}

/// The key and value of an assignment `key=value`, split at the first `=`.
pub open spec fn split_assignment_spec(s: Seq<char>) -> Option<(Seq<char>, Seq<char>)> {
    let i = first_equals(s);
    if i < s.len() {
        Some((s.take(i), s.skip(i + 1)))
    } else {
        None
    }
}

/// The words joined by the separator.
pub open spec fn join_by(words: Seq<Seq<char>>, sep: Seq<char>) -> Seq<char>
    decreases words.len(),
{
    if words.len() == 0 {
        Seq::empty()
    } else if words.len() == 1 {
        words[0]
    } else {
        join_by(words.drop_last(), sep) + sep + words.last()
    }
}

/// The words joined by single spaces.
pub open spec fn join_words(words: Seq<Seq<char>>) -> Seq<char> {
    join_by(words, seq![' '])
}

fn digit_str(d: u64) -> (s: &'static str)
    requires
        d < 10,
    ensures
        s@ == seq![digit_char(d as int)],
{
    proof {
        reveal_strlit("0");
        reveal_strlit("1");
        reveal_strlit("2");
        reveal_strlit("3");
        reveal_strlit("4");
        reveal_strlit("5");
        reveal_strlit("6");
        reveal_strlit("7");
        reveal_strlit("8");
        reveal_strlit("9");
    }
    let s = if d == 0 {
        "0"
    } else if d == 1 {
        "1"
    } else if d == 2 {
        "2"
    } else if d == 3 {
        "3"
    } else if d == 4 {
        "4"
    } else if d == 5 {
        "5"
    } else if d == 6 {
        "6"
    } else if d == 7 {
        "7"
    } else if d == 8 {
        "8"
    } else {
        "9"
    };
    assert(s@ =~= seq![digit_char(d as int)]);
    s
}

/// Writes `n` in decimal.
pub fn decimal_u64(n: u64) -> (s: String)
    ensures
        s@ == decimal(n as nat),
    decreases n,
{
    if n < 10 {
        String::from_str(digit_str(n))
    } else {
        let mut s = decimal_u64(n / 10);
        s.append(digit_str(n % 10));
        assert(s@ =~= decimal(n as nat));
        s
    }
}

/// Writes `n` in decimal, with a leading minus sign when it is negative.
pub fn decimal_i32(n: i32) -> (s: String)
    ensures
        s@ == signed_decimal(n as int),
{
    if n < 0 {
        let m: u64 = (-(n as i64)) as u64;
        let mut s = String::from_str("-");
        proof {
            reveal_strlit("-");
        }
        let digits = decimal_u64(m);
        s.append(digits.as_str());
        assert(s@ =~= signed_decimal(n as int));
        s
    } else {
        decimal_u64(n as u64)
    }
}

fn digit_of(c: char) -> (d: Option<i64>)
    ensures
        match d {
            Some(v) => digit_value(c) == Some(v as int) && 0 <= v <= 9,
            None => digit_value(c) is None,
        },
{
    if c == '0' {
        Some(0)
    } else if c == '1' {
        Some(1)
    } else if c == '2' {
        Some(2)
    } else if c == '3' {
        Some(3)
    } else if c == '4' {
        Some(4)
    } else if c == '5' {
        Some(5)
    } else if c == '6' {
        Some(6)
    } else if c == '7' {
        Some(7)
    } else if c == '8' {
        Some(8)
    } else if c == '9' {
        Some(9)
    } else {
        None
    }
}

/// The largest magnitude that the scan keeps exactly; larger ones are held
/// at this value, which is already out of range for either sign.
pub open spec fn scan_cap() -> int {
    0x8000_0001
}

/// `v` held at [`scan_cap`].
pub open spec fn capped(v: int) -> int {
    if v > scan_cap() {
        scan_cap()
    } else {
        v
    }
}

/// Reads a 32-bit integer in decimal, with an optional leading sign.
///
/// Nothing but the sign and the digits may occur, and at least one digit
/// must; a number that does not fit gives `None`.
pub fn parse_i32(s: &str) -> (r: Option<i32>)
    ensures
        r == parse_i32_spec(s@),
{
    let chars = chars_of(s);
    let n = chars.len();
    let mut negative = false;
    let mut start: usize = 0;
    if n > 0 && chars[0] == '-' {
        negative = true;
        start = 1;
    } else if n > 0 && chars[0] == '+' {
        start = 1;
    }
    if start == n {
        assert(s@.skip(start as int).len() == 0);
        return None;
    }
    let mut acc: i64 = 0;
    let mut i: usize = start;
    while i < n
        invariant
            start <= i <= n,
            start < n,
            start <= 1,
            n == chars@.len(),
            chars@ == s@,
            negative ==> start == 1 && chars@[0] == '-',
            !negative && start == 1 ==> chars@[0] == '+',
            start == 0 ==> chars@[0] != '-' && chars@[0] != '+',
            0 <= acc <= scan_cap(),
            i > start ==> match digits_value(chars@.subrange(start as int, i as int)) {
                Some(v) => acc == capped(v) && v >= 0,
                None => false,
            },
            i == start ==> acc == 0,
        decreases n - i,
    {
        let ghost prefix = chars@.subrange(start as int, i as int);
        let ghost next = chars@.subrange(start as int, i as int + 1);
        assert(next.drop_last() =~= prefix);
        assert(next.last() == chars@[i as int]);
        match digit_of(chars[i]) {
            None => {
                proof {
                    assert(chars@.subrange(start as int, n as int) =~= s@.skip(start as int));
                    assert(s@.skip(0) =~= s@);
                    lemma_digits_total(s@.skip(start as int), i - start);
                }
                return None;
            },
            Some(d) => {
                let wide: i64 = acc * 10 + d;
                acc = if wide > 0x8000_0001 {
                    0x8000_0001
                } else {
                    wide
                };
            },
        }
        i = i + 1;
    }
    assert(chars@.subrange(start as int, n as int) =~= s@.skip(start as int));
    assert(s@.skip(0) =~= s@);
    if negative {
        if acc <= 0x8000_0000 {
            Some((-acc) as i32)
        } else {
            None
        }
    } else {
        if acc <= 0x7fff_ffff {
            Some(acc as i32)
        } else {
            None
        }
    }
}

/// A run with a character that is no digit denotes no number.
proof fn lemma_digits_total(s: Seq<char>, k: int)
    requires
        0 <= k < s.len(),
        digit_value(s[k]) is None,
    ensures
        digits_value(s) is None,
    decreases s.len(),
{
    if k < s.len() - 1 {
        assert(s.drop_last()[k] == s[k]);
        lemma_digits_total(s.drop_last(), k);
    }
}

/// Splits `key=value` at its first `=`; `None` if there is no `=`.
pub fn split_assignment(s: &str) -> (r: Option<(String, String)>)
    ensures
        match r {
            Some((k, v)) => split_assignment_spec(s@) == Some((k@, v@)),
            None => split_assignment_spec(s@) is None,
        },
{
    let chars = chars_of(s);
    let n = chars.len();
    let mut i: usize = 0;
    assert(s@.skip(0) =~= s@);
    while i < n
        invariant
            i <= n,
            n == chars@.len(),
            chars@ == s@,
            first_equals(s@) == i + first_equals(s@.skip(i as int)),
        decreases n - i,
    {
        let ghost tail = s@.skip(i as int);
        assert(tail[0] == s@[i as int]);
        assert(tail.skip(1) =~= s@.skip(i as int + 1));
        if chars[i] == '=' {
            let key = s.substring_char(0, i);
            let value = s.substring_char(i + 1, n);
            assert(key@ =~= s@.take(i as int));
            assert(value@ =~= s@.skip(i as int + 1));
            return Some((String::from_str(key), String::from_str(value)));
        }
        i = i + 1;
    }
    assert(s@.skip(n as int).len() == 0);
    None
}

/// Joins the strings with the separator between them.
pub fn join(words: &Vec<String>, sep: &str) -> (r: String)
    ensures
        r@ == join_by(strings(words@), sep@),
{
    let n = words.len();
    let mut r = String::new();
    let ghost all = strings(words@);
    let mut i: usize = 0;
    while i < n
        invariant
            i <= n,
            n == words@.len(),
            all == strings(words@),
            r@ == join_by(all.take(i as int), sep@),
        decreases n - i,
    {
        let ghost before = all.take(i as int);
        let ghost after = all.take(i as int + 1);
        assert(after.drop_last() =~= before);
        assert(after.last() == words@[i as int]@);
        if i > 0 {
            r.append(sep);
        }
        r.append(words[i].as_str());
        assert(r@ =~= join_by(after, sep@));
        i = i + 1;
    }
    assert(all.take(n as int) =~= all);
    r
}

/// Whether the characters spell the word.
pub fn spells(chars: &Vec<char>, word: &str) -> (r: bool)
    ensures
        r == (chars@ == word@),
{
    let n = word.unicode_len();
    if chars.len() != n {
        return false;
    }
    let mut i: usize = 0;
    while i < n
        invariant
            i <= n,
            n == chars@.len(),
            n == word@.len(),
            forall|j: int| 0 <= j < i ==> chars@[j] == word@[j],
        decreases n - i,
    {
        if chars[i] != word.get_char(i) {
            return false;
        }
        i = i + 1;
    }
    assert(chars@ =~= word@);
    true
}

proof fn lemma_decimal_digits(n: nat)
    ensures
        decimal(n).len() >= 1,
        digits_value(decimal(n)) == Some(n as int),
        digit_value(decimal(n)[0]) is Some,
    decreases n,
{
    if n >= 10 {
        let head = decimal(n / 10);
        let c = digit_char((n % 10) as int);
        lemma_decimal_digits(n / 10);
        assert(decimal(n) == head.push(c));
        assert(head.push(c).drop_last() =~= head);
        assert(head.push(c).last() == c);
        assert(head.push(c)[0] == head[0]);
    }
}

/// Reading what was written gives the number back: the decimal notation of
/// a 32-bit integer is read as that integer.
pub proof fn law_decimal_round_trip(n: i32)
    ensures
        parse_i32_spec(signed_decimal(n as int)) == Some(n),
{
    if n < 0 {
        let digits = decimal((-n) as nat);
        let s = seq!['-'] + digits;
        lemma_decimal_digits((-n) as nat);
        assert(s[0] == '-');
        assert(s.skip(1) =~= digits);
        assert(parse_int(s) == Some(n as int));
    } else {
        let s = decimal(n as nat);
        lemma_decimal_digits(n as nat);
        assert(parse_int(s) == Some(n as int));
    }
}

/// Whether the text holds no line end.
pub open spec fn one_line(s: Seq<char>) -> bool {
    forall|i: int| 0 <= i < s.len() ==> s[i] != '\n'
}

/// Two texts without a line end make one without when joined.
pub proof fn lemma_one_line_concat(a: Seq<char>, b: Seq<char>)
    requires
        one_line(a),
        one_line(b),
    ensures
        one_line(a + b),
{
    assert forall|i: int| 0 <= i < (a + b).len() implies (a + b)[i] != '\n' by {
        if i >= a.len() {
            assert((a + b)[i] == b[i - a.len()]);
        }
    }
}

/// A number in decimal holds no line end.
pub proof fn lemma_decimal_one_line(n: nat)
    ensures
        one_line(decimal(n)),
    decreases n,
{
    if n >= 10 {
        lemma_decimal_one_line(n / 10);
        let head = decimal(n / 10);
        let c = digit_char((n % 10) as int);
        assert forall|i: int| 0 <= i < head.push(c).len() implies head.push(c)[i] != '\n' by {
            if i < head.len() {
                assert(head.push(c)[i] == head[i]);
            }
        }
    }
}

/// Words without a line end, joined by a separator without one, hold none.
pub proof fn lemma_join_one_line(words: Seq<Seq<char>>, sep: Seq<char>)
    requires
        forall|i: int| 0 <= i < words.len() ==> one_line(#[trigger] words[i]),
        one_line(sep),
    ensures
        one_line(join_by(words, sep)),
    decreases words.len(),
{
    if words.len() > 1 {
        let init = words.drop_last();
        assert forall|i: int| 0 <= i < init.len() implies one_line(#[trigger] init[i]) by {
            assert(init[i] == words[i]);
        }
        lemma_join_one_line(init, sep);
        lemma_one_line_concat(join_by(init, sep), sep);
        lemma_one_line_concat(join_by(init, sep) + sep, words.last());
    } else if words.len() == 1 {
        assert(one_line(words[0]));
    }
}

} // verus!
