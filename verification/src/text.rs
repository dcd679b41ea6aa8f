//! Text helpers shared by the router and the lifecycle manager.

use vstd::prelude::*;
use vstd::string::*;

verus! {

/// The separator between a command and its arguments, and between arguments.
pub open spec fn is_separator(c: char) -> bool {
    c == ' '
}

/// The decimal digit that stands for `d`, for `d` below ten.
pub open spec fn digit_char(d: nat) -> char {
    if d == 0 {
        '0'
    } else if d == 1 {
        '1'
    } else if d == 2 {
        '2'
    } else if d == 3 {
        '3'
    } else if d == 4 {
        '4'
    } else if d == 5 {
        '5'
    } else if d == 6 {
        '6'
    } else if d == 7 {
        '7'
    } else if d == 8 {
        '8'
    } else {
        '9'
    }
}

/// The decimal notation of `n`, most significant digit first, without
/// leading zeros.
pub open spec fn decimal_text(n: nat) -> Seq<char>
    decreases n,
{
    if n < 10 {
        seq![digit_char(n)]
    } else {
        decimal_text(n / 10).push(digit_char(n % 10))
    }
}

fn digit_str(d: u64) -> (r: &'static str)
    requires
        d < 10,
    ensures
        r@ == seq![digit_char(d as nat)],
{
    proof {
        reveal_strlit("0");
        reveal_strlit("1");
        reveal_strlit("2");
        reveal_strlit("3");
        reveal_strlit("4");
        reveal_strlit("5");
        reveal_strlit("6");
        reveal_strlit("7");
        reveal_strlit("8");
        reveal_strlit("9");
    }
    let r = if d == 0 {
        "0"
    } else if d == 1 {
        "1"
    } else if d == 2 {
        "2"
    } else if d == 3 {
        "3"
    } else if d == 4 {
        "4"
    } else if d == 5 {
        "5"
    } else if d == 6 {
        "6"
    } else if d == 7 {
        "7"
    } else if d == 8 {
        "8"
    } else {
        "9"
    };
    assert(r@ =~= seq![digit_char(d as nat)]);
    r
}

/// Writes `n` in decimal notation.
pub fn decimal(n: u64) -> (s: String)
    ensures
        s@ == decimal_text(n as nat),
    decreases n,
{
    if n < 10 {
        String::from_str(digit_str(n))
    } else {
        let mut s = decimal(n / 10);
        s.append(digit_str(n % 10));
        assert(s@ =~= decimal_text(n as nat));
        s
    }
}

/// Whether a word begins at position `i` of `s`: a character that is no
/// separator, at the start of the text or behind a separator.
pub open spec fn is_word_start(s: Seq<char>, i: int) -> bool {
    &&& 0 <= i < s.len()
    &&& !is_separator(s[i])
    &&& (i == 0 || is_separator(s[i - 1]))
}

/// Number of words that begin before position `n` of `s`.
pub open spec fn words_before(s: Seq<char>, n: int) -> nat
    decreases n,
{
    if n <= 0 {
        0
    } else {
        words_before(s, n - 1) + if is_word_start(s, n - 1) {
            1nat
        } else {
            0nat
        }
    }
}

/// Number of words in `s`, a word being a longest run of characters without
/// a separator.
pub open spec fn word_count(s: Seq<char>) -> nat {
    words_before(s, s.len() as int)
}

/// The first position at or behind `from` that holds a separator, or the
/// length of `s` if there is none.
pub open spec fn separator_from(s: Seq<char>, from: int) -> int
    decreases s.len() - from,
{
    if from < 0 || from >= s.len() {
        s.len() as int
    } else if is_separator(s[from]) {
        from
    } else {
        separator_from(s, from + 1)
    }
}

/// `separator_from` finds the first separator: none stands between `from`
/// and the position it gives.
pub proof fn lemma_separator_from(s: Seq<char>, from: int)
    requires
        0 <= from <= s.len(),
    ensures
        from <= separator_from(s, from) <= s.len(),
        separator_from(s, from) < s.len() ==> is_separator(s[separator_from(s, from)]),
        forall|i: int| from <= i < separator_from(s, from) ==> !is_separator(#[trigger] s[i]),
    decreases s.len() - from,
{
    if from < s.len() && !is_separator(s[from]) {
        lemma_separator_from(s, from + 1);
    }
}

/// Counts the words of `chars`.
pub fn count_words(chars: &Vec<char>) -> (n: usize)
    ensures
        n == word_count(chars@),
{
    let mut n: usize = 0;
    let mut i: usize = 0;
    let mut after_separator = true;
    while i < chars.len()
        invariant
            i <= chars@.len(),
            n == words_before(chars@, i as int),
            n <= i,
            after_separator == (i == 0 || is_separator(chars@[i - 1])),
        decreases chars@.len() - i,
    {
        let here = chars[i] == ' ';
        if !here && after_separator {
            n = n + 1;
        }
        after_separator = here;
        i = i + 1;
    }
    n
}

/// The first position at or behind `from` where `chars` holds a separator,
/// or its length.
pub fn find_separator(chars: &Vec<char>, from: usize) -> (at: usize)
    ensures
        at == separator_from(chars@, from as int),
        at <= chars@.len(),
        from <= chars@.len() ==> from <= at,
{
    if from >= chars.len() {
        return chars.len();
    }
    let mut i: usize = from;
    while i < chars.len() && chars[i] != ' '
        invariant
            from <= i <= chars@.len(),
            separator_from(chars@, from as int) == separator_from(chars@, i as int),
        decreases chars@.len() - i,
    {
        i = i + 1;
    }
    i
}

/// The characters of `s`, in order.
pub fn chars_of(s: &str) -> (v: Vec<char>)
    ensures
        v@ == s@,
{
    let mut v: Vec<char> = Vec::new();
    for c in it: s.chars()
        invariant
            it.seq() == s@,
            v@ == s@.take(it.index()),
    {
        v.push(c);
        assert(s@.take(it.index() + 1) =~= s@.take(it.index()).push(c));
    }
    assert(s@.take(s@.len() as int) =~= s@);
    v
}

/// Whether two texts hold the same characters.
pub fn same_text(a: &str, b: &str) -> (r: bool)
    ensures
        r == (a@ == b@),
{
    String::from_str(a) == String::from_str(b)
}

} // verus!
