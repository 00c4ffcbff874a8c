//! Identifiers as text: decimal numerals, and token identifiers made of a
//! series identifier, a delimiter and a sequence number.

use vstd::prelude::*;

verus! {

/// The character that separates a series identifier from a sequence number.
pub const TOKEN_DELIMETER: char = ':';

/// The text put between a title and an edition number.
pub const TITLE_DELIMETER: &'static str = " #";

/// The text put between an edition number and the number of copies.
pub const EDITION_DELIMETER: &'static str = "/";

/// The character of a decimal digit.
pub open spec fn digit_char(d: nat) -> char {
    if d == 0 {
        '0'
    } else if d == 1 {
        '1'
    } else if d == 2 {
        '2'
    } else if d == 3 {
        '3'
    } else if d == 4 {
        '4'
    } else if d == 5 {
        '5'
    } else if d == 6 {
        '6'
    } else if d == 7 {
        '7'
    } else if d == 8 {
        '8'
    } else {
        '9'
    }
}

/// Whether `c` is one of the ten decimal digits.
pub open spec fn is_digit(c: char) -> bool {
    c == '0' || c == '1' || c == '2' || c == '3' || c == '4' || c == '5' || c == '6' || c == '7'
        || c == '8' || c == '9'
}

/// The number that a decimal digit stands for.
pub open spec fn digit_value(c: char) -> nat {
    if c == '1' {
        1
    } else if c == '2' {
        2
    } else if c == '3' {
        3
    } else if c == '4' {
        4
    } else if c == '5' {
        5
    } else if c == '6' {
        6
    } else if c == '7' {
        7
    } else if c == '8' {
        8
    } else if c == '9' {
        9
    } else {
        0
    }
}

/// The decimal numeral of `n`, without leading zeros.
pub open spec fn decimal(n: nat) -> Seq<char>
    decreases n,
{
    if n < 10 {
        seq![digit_char(n)]
    } else {
        decimal(n / 10).push(digit_char(n % 10))
    }
}

/// The number that a string of digits stands for, read in base ten.
pub open spec fn numeral_value(s: Seq<char>) -> nat
    decreases s.len(),
{
    if s.len() == 0 {
        0
    } else {
        numeral_value(s.drop_last()) * 10 + digit_value(s.last())
    }
}

/// Whether `s` is a decimal numeral in the form that `decimal` writes:
/// digits only, at least one, and no leading zero before another digit.
pub open spec fn is_numeral(s: Seq<char>) -> bool {
    &&& s.len() > 0
    &&& forall|i: int| 0 <= i < s.len() ==> is_digit(#[trigger] s[i])
    &&& (s.len() > 1 ==> s[0] != '0')
}

/// A numeral written by `decimal` is well formed and reads back as the number.
pub proof fn lemma_decimal_reads_back(n: nat)
    ensures
        is_numeral(decimal(n)),
        numeral_value(decimal(n)) == n,
        n < 10 ==> decimal(n).len() == 1,
        n >= 10 ==> decimal(n).len() > 1,
    decreases n,
{
    if n < 10 {
        let s = decimal(n);
        assert(s.drop_last().len() == 0);
        assert(numeral_value(s.drop_last()) == 0);
        assert(s.last() == digit_char(n));
    } else {
        lemma_decimal_reads_back(n / 10);
        let p = decimal(n / 10);
        let s = decimal(n);
        assert(s.drop_last() =~= p);
        assert(s.last() == digit_char(n % 10));
        assert(s[0] == p[0]);
        if n / 10 < 10 {
            assert(p[0] == digit_char(n / 10));
        }
        assert forall|i: int| 0 <= i < s.len() implies is_digit(#[trigger] s[i]) by {
            if i < p.len() {
                assert(s[i] == p[i]);
            }
        }
    }
}

/// A well-formed numeral is what `decimal` writes for the number it stands for.
pub proof fn lemma_numeral_is_decimal(s: Seq<char>)
    requires
        is_numeral(s),
    ensures
        decimal(numeral_value(s)) == s,
        s.len() > 1 ==> numeral_value(s) >= 10,
    decreases s.len(),
{
    let c = s.last();
    assert(is_digit(c));
    assert(digit_char(digit_value(c)) == c);
    if s.len() == 1 {
        assert(s.drop_last().len() == 0);
        assert(numeral_value(s.drop_last()) == 0);
        assert(decimal(numeral_value(s)) =~= s);
    } else {
        let p = s.drop_last();
        assert(p[0] == s[0]);
        assert forall|i: int| 0 <= i < p.len() implies is_digit(#[trigger] p[i]) by {
            assert(p[i] == s[i]);
        }
        lemma_numeral_is_decimal(p);
        let v = numeral_value(p);
        assert(v >= 1) by {
            if p.len() == 1 {
                assert(p.drop_last().len() == 0);
                assert(numeral_value(p.drop_last()) == 0);
                assert(p.last() == p[0]);
                assert(is_digit(p[0]));
            }
        }
        let n = numeral_value(s);
        assert(n == v * 10 + digit_value(c));
        assert(n / 10 == v && n % 10 == digit_value(c));
        assert(decimal(n) =~= s);
    }
}

/// Different numbers have different decimal numerals.
pub proof fn lemma_decimal_injective(a: nat, b: nat)
    requires
        decimal(a) == decimal(b),
    ensures
        a == b,
{
    lemma_decimal_reads_back(a);
    lemma_decimal_reads_back(b);
}

/// The value of a string of digits is at least the value of each prefix.
pub proof fn lemma_numeral_prefix(s: Seq<char>, k: int)
    requires
        0 <= k <= s.len(),
    ensures
        numeral_value(s.take(k)) <= numeral_value(s),
    decreases s.len() - k,
{
    if k == s.len() {
        assert(s.take(k) =~= s);
    } else {
        lemma_numeral_prefix(s, k + 1);
        let t = s.take(k + 1);
        assert(t.drop_last() =~= s.take(k));
    }
}

fn digit_text(d: u64) -> (s: &'static str)
    requires
        d < 10,
    ensures
        s@ == seq![digit_char(d as nat)],
{
    proof {
        reveal_strlit("0");
        reveal_strlit("1");
        reveal_strlit("2");
        reveal_strlit("3");
        reveal_strlit("4");
        reveal_strlit("5");
        reveal_strlit("6");
        reveal_strlit("7");
        reveal_strlit("8");
        reveal_strlit("9");
    }
    let s = if d == 0 {
        "0"
    } else if d == 1 {
        "1"
    } else if d == 2 {
        "2"
    } else if d == 3 {
        "3"
    } else if d == 4 {
        "4"
    } else if d == 5 {
        "5"
    } else if d == 6 {
        "6"
    } else if d == 7 {
        "7"
    } else if d == 8 {
        "8"
    } else {
        "9"
    };
    assert(s@ =~= seq![digit_char(d as nat)]);
    s
}

/// Writes `n` as a decimal numeral.
pub fn decimal_string(n: u64) -> (s: String)
    ensures
        s@ == decimal(n as nat),
    decreases n,
{
    if n < 10 {
        String::from_str(digit_text(n))
    } else {
        let mut s = decimal_string(n / 10);
        s.append(digit_text(n % 10));
        assert(s@ =~= decimal(n as nat));
        s
    }
}

fn digit_of(c: char) -> (d: Option<u64>)
    ensures
        d.is_some() == is_digit(c),
        d matches Some(v) ==> v == digit_value(c) && v < 10,
{
    if c == '0' {
        Some(0)
    } else if c == '1' {
        Some(1)
    } else if c == '2' {
        Some(2)
    } else if c == '3' {
        Some(3)
    } else if c == '4' {
        Some(4)
    } else if c == '5' {
        Some(5)
    } else if c == '6' {
        Some(6)
    } else if c == '7' {
        Some(7)
    } else if c == '8' {
        Some(8)
    } else if c == '9' {
        Some(9)
    } else {
        None
    }
}

/// Reads a decimal numeral. The result is the number whose numeral `s` is,
/// if there is one that fits in 64 bits.
pub fn parse_decimal(s: &str) -> (r: Option<u64>)
    ensures
        match r {
            Some(n) => s@ == decimal(n as nat),
            None => forall|n: u64| decimal(n as nat) != s@,
        },
{
    let len = s.unicode_len();
    if len == 0 {
        proof {
            assert forall|n: u64| decimal(n as nat) != s@ by {
                lemma_decimal_reads_back(n as nat);
            }
        }
        return None;
    }
    let mut value: u64 = 0;
    let mut i: usize = 0;
    while i < len
        invariant
            0 <= i <= len,
            len == s@.len(),
            value == numeral_value(s@.take(i as int)),
            forall|j: int| 0 <= j < i ==> is_digit(#[trigger] s@[j]),
        decreases len - i,
    {
        let c = s.get_char(i);
        proof {
            let t = s@.take(i + 1);
            assert(t.drop_last() =~= s@.take(i as int));
            assert(t.last() == c);
        }
        match digit_of(c) {
            None => {
                proof {
                    assert forall|n: u64| decimal(n as nat) != s@ by {
                        lemma_decimal_reads_back(n as nat);
                    }
                }
                return None;
            },
            Some(d) => {
                if value > (u64::MAX - d) / 10 {
                    proof {
                        lemma_numeral_prefix(s@, i + 1);
                        assert(numeral_value(s@.take(i + 1)) > u64::MAX);
                        assert forall|n: u64| decimal(n as nat) != s@ by {
                            lemma_decimal_reads_back(n as nat);
                        }
                    }
                    return None;
                }
                value = value * 10 + d;
            },
        }
        i += 1;
    }
    proof {
        assert(s@.take(len as int) =~= s@);
    }
    if len > 1 && s.get_char(0) == '0' {
        proof {
            assert forall|n: u64| decimal(n as nat) != s@ by {
                lemma_decimal_reads_back(n as nat);
            }
        }
        return None;
    }
    proof {
        lemma_numeral_is_decimal(s@);
    }
    Some(value)
}

/// The identifier of the token with number `sequence` in the series
/// `series_id`: the series identifier, the delimiter, and the number.
pub open spec fn token_id_text(series_id: Seq<char>, sequence: nat) -> Seq<char> {
    series_id.push(TOKEN_DELIMETER) + decimal(sequence)
}

/// Where the first delimiter stands in `s`, or the length of `s` if it holds none.
pub open spec fn delimiter_index(s: Seq<char>) -> int
    decreases s.len(),
{
    if s.len() == 0 || s[0] == TOKEN_DELIMETER {
        0
    } else {
        1 + delimiter_index(s.drop_first())
    }
}

/// The series identifier that a token identifier starts with: the text
/// before its first delimiter.
pub open spec fn series_part(token_id: Seq<char>) -> Seq<char> {
    token_id.take(delimiter_index(token_id))
}

/// The first delimiter stands at `k` if none stands before `k` and one
/// stands there, or the text ends there.
pub proof fn lemma_delimiter_index(s: Seq<char>, k: int)
    requires
        0 <= k <= s.len(),
        forall|j: int| 0 <= j < k ==> s[j] != TOKEN_DELIMETER,
        k < s.len() ==> s[k] == TOKEN_DELIMETER,
    ensures
        delimiter_index(s) == k,
    decreases k,
{
    if k > 0 {
        let t = s.drop_first();
        assert forall|j: int| 0 <= j < k - 1 implies t[j] != TOKEN_DELIMETER by {
            assert(t[j] == s[j + 1]);
        }
        lemma_delimiter_index(t, k - 1);
    }
}

/// A token identifier made from a series identifier without a delimiter
/// starts with that series identifier.
pub proof fn lemma_series_part_of_token_id(series_id: Seq<char>, sequence: nat)
    requires
        forall|j: int| 0 <= j < series_id.len() ==> series_id[j] != TOKEN_DELIMETER,
    ensures
        series_part(token_id_text(series_id, sequence)) == series_id,
{
    let t = token_id_text(series_id, sequence);
    let k = series_id.len() as int;
    assert(t[k] == TOKEN_DELIMETER);
    assert forall|j: int| 0 <= j < k implies t[j] != TOKEN_DELIMETER by {
        assert(t[j] == series_id[j]);
    }
    lemma_delimiter_index(t, k);
    assert(t.take(k) =~= series_id);
}

/// A decimal numeral holds no delimiter.
pub proof fn lemma_decimal_has_no_delimiter(n: nat)
    ensures
        forall|j: int| 0 <= j < decimal(n).len() ==> decimal(n)[j] != TOKEN_DELIMETER,
{
    lemma_decimal_reads_back(n);
    assert forall|j: int| 0 <= j < decimal(n).len() implies decimal(n)[j] != TOKEN_DELIMETER by {
        assert(is_digit(decimal(n)[j]));
    }
}

/// Builds the identifier of the token with number `sequence` in a series.
pub fn make_token_id(series_id: &str, sequence: u64) -> (id: String)
    ensures
        id@ == token_id_text(series_id@, sequence as nat),
{
    proof {
        reveal_strlit(":");
    }
    let mut id = String::from_str(series_id);
    id.append(":");
    assert(id@ =~= series_id@.push(TOKEN_DELIMETER));
    let number = decimal_string(sequence);
    id.append(number.as_str());
    id
}

/// Takes the series identifier off the front of a token identifier.
pub fn series_id_of(token_id: &str) -> (series_id: String)
    ensures
        series_id@ == series_part(token_id@),
{
    let len = token_id.unicode_len();
    let mut i: usize = 0;
    while i < len && token_id.get_char(i) != TOKEN_DELIMETER
        invariant
            0 <= i <= len,
            len == token_id@.len(),
            forall|j: int| 0 <= j < i ==> token_id@[j] != TOKEN_DELIMETER,
        decreases len - i,
    {
        i += 1;
    }
    proof {
        lemma_delimiter_index(token_id@, i as int);
    }
    String::from_str(token_id.substring_char(0, i))
}

} // verus!
