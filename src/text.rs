//! Character-level text helpers shared by the other modules.

use vstd::prelude::*;
use vstd::string::*;

verus! {

/// The decimal digit character for a value below ten.
pub open spec fn digit_char(d: nat) -> char {
    ((48 + d) as u8) as char
}

/// Decimal notation of a natural number, most significant digit first,
/// without leading zeros ("0" for zero).
pub open spec fn decimal(n: nat) -> Seq<char>
    decreases n,
{
    if n < 10 {
        seq![digit_char(n)]
    } else {
        decimal(n / 10).push(digit_char(n % 10))
    }
}

/// Whether `pat` occurs in `s` at position `i`.
pub open spec fn occurs_at(s: Seq<char>, pat: Seq<char>, i: int) -> bool {
    0 <= i && i + pat.len() <= s.len() && s.subrange(i, i + pat.len()) == pat
}

/// Whether `pat` occurs anywhere in `s`.
pub open spec fn contains_seq(s: Seq<char>, pat: Seq<char>) -> bool {
    exists|i: int| occurs_at(s, pat, i)
}

/// The first position at or after `from` where `pat` occurs in `s`.
pub open spec fn first_at(s: Seq<char>, pat: Seq<char>, from: int) -> Option<int>
    decreases s.len() + 1 - from,
{
    if from < 0 || from + pat.len() > s.len() {
        None
    } else if occurs_at(s, pat, from) {
        Some(from)
    } else {
        first_at(s, pat, from + 1)
    }
}

/// Relies on `str::chars` collected into a vector: the characters of `s` in order.
#[verifier::external_body]
pub(crate) fn chars_of(s: &str) -> (r: Vec<char>)
    ensures
        r@ == s@,
{
    s.chars().collect()
}

/// Relies on collecting characters into a `String` (`FromIterator<char>`):
/// the string made of exactly those characters.
#[verifier::external_body]
pub(crate) fn string_of(cs: &[char]) -> (r: String)
    ensures
        r@ == cs@,
{
    cs.iter().collect()
}

/// The decimal notation of `n`.
pub fn decimal_text(n: u64) -> (r: String)
    ensures
        r@ == decimal(n as nat),
{
    let mut digits: Vec<char> = Vec::new();
    let mut m: u64 = n;
    while m >= 10
        invariant
            decimal(n as nat) == decimal(m as nat) + digits@,
        decreases m,
    {
        let c: char = ((48 + m % 10) as u8) as char;
        digits.insert(0, c);
        let ghost old_m = m;
        m = m / 10;
        assert(decimal(old_m as nat) == decimal(m as nat).push(c));
        assert(decimal(n as nat) == decimal(m as nat) + digits@);
    }
    let c: char = ((48 + m) as u8) as char;
    digits.insert(0, c);
    assert(decimal(m as nat) == seq![c]);
    assert(decimal(n as nat) =~= digits@);
    string_of(digits.as_slice())
}

/// First position at or after `from` where `pat` occurs in `s`.
pub fn find_from(s: &Vec<char>, pat: &Vec<char>, from: usize) -> (r: Option<usize>)
    requires
        from <= s@.len(),
    ensures
        r matches Some(i) ==> first_at(s@, pat@, from as int) == Some(i as int),
        r is None ==> first_at(s@, pat@, from as int) is None,
        match r {
            Some(i) => from <= i && occurs_at(s@, pat@, i as int) && forall|j: int|
                from <= j < i ==> !occurs_at(s@, pat@, j),
            None => forall|j: int| from <= j ==> !occurs_at(s@, pat@, j),
        },
{
    if pat.len() > s.len() {
        return None;
    }
    let n: usize = s.len();
    let last: usize = n - pat.len();
    let mut i: usize = from;
    while i <= last
        invariant
            from <= i,
            last == s@.len() - pat@.len(),
            pat@.len() <= s@.len(),
            n == s@.len(),
            forall|j: int| from <= j < i ==> !occurs_at(s@, pat@, j),
            first_at(s@, pat@, from as int) == first_at(s@, pat@, i as int),
        decreases last + 1 - i,
    {
        let mut k: usize = 0;
        let mut same: bool = true;
        while k < pat.len()
            invariant
                i <= last,
                last == s@.len() - pat@.len(),
                k <= pat@.len(),
                same == forall|t: int| 0 <= t < k ==> s@[i + t] == pat@[t],
                n == s@.len(),
            decreases pat@.len() - k,
        {
            let at_k: usize = i + k;
            if s[at_k] != pat[k] {
                same = false;
            }
            k = k + 1;
        }
        if same {
            assert(s@.subrange(i as int, i + pat@.len()) =~= pat@);
            return Some(i);
        }
        let ghost at = i;
        assert(!occurs_at(s@, pat@, i as int)) by {
            let t = choose|t: int| 0 <= t < pat@.len() && s@[i + t] != pat@[t];
            if s@.subrange(i as int, i + pat@.len()) == pat@ {
                assert(s@.subrange(i as int, i + pat@.len())[t] == s@[i + t]);
            }
        }
        if i == last {
            assert forall|j: int| from <= j implies !occurs_at(s@, pat@, j) by {
                if j > at {
                    assert(j + pat@.len() > s@.len());
                }
            }
            assert(first_at(s@, pat@, i + 1) is None);
            return None;
        }
        i = i + 1;
    }
    None
}

/// Whether `pat` occurs in `s`.
pub fn contains_text(s: &str, pat: &str) -> (r: bool)
    ensures
        r == contains_seq(s@, pat@),
{
    let cs = chars_of(s);
    let ps = chars_of(pat);
    match find_from(&cs, &ps, 0) {
        Some(_) => true,
        None => false,
    }
}

/// The parts of a text between occurrences of `sep`, as `str::split` gives
/// them.
pub open spec fn split_char(s: Seq<char>, sep: char) -> Seq<Seq<char>>
    decreases s.len(),
{
    if s.len() == 0 {
        seq![Seq::empty()]
    } else {
        let p = split_char(s.drop_last(), sep);
        if s.last() == sep {
            p.push(Seq::empty())
        } else {
            p.update(p.len() - 1, p.last().push(s.last()))
        }
    }
}

pub proof fn lemma_split_nonempty(s: Seq<char>, sep: char)
    ensures
        split_char(s, sep).len() >= 1,
    decreases s.len(),
{
    if s.len() > 0 {
        lemma_split_nonempty(s.drop_last(), sep);
    }
}

/// The parts of a text between occurrences of `sep`.
pub fn split_text(path: &str, sep: char) -> (r: Vec<String>)
    ensures
        r@.len() == split_char(path@, sep).len(),
        forall|k: int| 0 <= k < r@.len() ==> #[trigger] r@[k]@ == split_char(path@, sep)[k],
{
    let cs = chars_of(path);
    let mut parts: Vec<String> = Vec::new();
    let mut cur: Vec<char> = Vec::new();
    let mut i: usize = 0;
    while i < cs.len()
        invariant
            cs@ == path@,
            i <= cs@.len(),
            parts@.len() + 1 == split_char(cs@.take(i as int), sep).len(),
            forall|k: int| 0 <= k < parts@.len() ==> #[trigger] parts@[k]@ == split_char(cs@.take(i as int), sep)[k],
            cur@ == split_char(cs@.take(i as int), sep).last(),
        decreases cs@.len() - i,
    {
        proof {
            assert(cs@.take(i + 1).drop_last() =~= cs@.take(i as int));
            lemma_split_nonempty(cs@.take(i as int), sep);
        }
        let c = cs[i];
        if c == sep {
            parts.push(string_of(cur.as_slice()));
            cur = Vec::new();
        } else {
            cur.push(c);
        }
        i = i + 1;
    }
    assert(cs@.take(cs@.len() as int) =~= cs@);
    parts.push(string_of(cur.as_slice()));
    proof {
        lemma_split_nonempty(path@, sep);
        assert forall|k: int| 0 <= k < parts@.len() implies #[trigger] parts@[k]@ == split_char(path@, sep)[k] by {
        }
    }
    parts
}

} // verus!
