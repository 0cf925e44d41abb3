//! Reading documents for import: newline-delimited JSON, and CSV records whose
//! cells are typed as null, integer, floating-point number, boolean or text.

use vstd::prelude::*;
use vstd::string::*;
use crate::json::{parse_json, parsed_json, Json};
use crate::text::{chars_of, decimal, decimal_text, split_char, split_text, string_of};

verus! {

/// Whether a character is white space as `char::is_whitespace` defines it:
/// the Unicode `White_Space` property, twenty-five code points.
pub open spec fn whitespace(c: char) -> bool {
    let u = c as u32;
    (0x9 <= u <= 0xd) || u == 0x20 || u == 0x85 || u == 0xa0 || u == 0x1680 || (0x2000 <= u <= 0x200a)
        || u == 0x2028 || u == 0x2029 || u == 0x202f || u == 0x205f || u == 0x3000
}

/// Whether a character is white space.
pub fn is_whitespace(c: char) -> (r: bool)
    ensures
        r == whitespace(c),
{
    let u = c as u32;
    (0x9 <= u && u <= 0xd) || u == 0x20 || u == 0x85 || u == 0xa0 || u == 0x1680 || (0x2000 <= u && u <= 0x200a)
        || u == 0x2028 || u == 0x2029 || u == 0x202f || u == 0x205f || u == 0x3000
}

/// Number of leading whitespace characters.
pub open spec fn lead_ws(s: Seq<char>) -> nat
    decreases s.len(),
{
    if s.len() > 0 && whitespace(s[0]) {
        1 + lead_ws(s.drop_first())
    } else {
        0
    }
}

/// Number of trailing whitespace characters.
pub open spec fn trail_ws(s: Seq<char>) -> nat
    decreases s.len(),
{
    if s.len() > 0 && whitespace(s.last()) {
        1 + trail_ws(s.drop_last())
    } else {
        0
    }
}

/// The text without leading and trailing whitespace.
pub open spec fn trimmed(s: Seq<char>) -> Seq<char> {
    let front = s.skip(lead_ws(s) as int);
    front.take(front.len() - trail_ws(front))
}

proof fn lemma_lead_bound(s: Seq<char>)
    ensures
        lead_ws(s) <= s.len(),
    decreases s.len(),
{
    if s.len() > 0 && whitespace(s[0]) {
        lemma_lead_bound(s.drop_first());
    }
}

proof fn lemma_trail_bound(s: Seq<char>)
    ensures
        trail_ws(s) <= s.len(),
    decreases s.len(),
{
    if s.len() > 0 && whitespace(s.last()) {
        lemma_trail_bound(s.drop_last());
    }
}

/// The text without leading and trailing whitespace.
pub fn trim_text(s: &str) -> (r: String)
    ensures
        r@ == trimmed(s@),
{
    let cs = chars_of(s);
    let mut a: usize = 0;
    proof {
        lemma_lead_bound(cs@);
        assert(cs@.skip(0) =~= cs@);
    }
    while a < cs.len() && is_whitespace(cs[a])
        invariant
            a <= cs@.len(),
            cs@ == s@,
            lead_ws(cs@) == a + lead_ws(cs@.skip(a as int)),
        decreases cs@.len() - a,
    {
        proof {
            assert(cs@.skip(a as int).drop_first() =~= cs@.skip(a + 1));
        }
        a = a + 1;
    }
    proof {
        if a < cs@.len() {
            assert(cs@.skip(a as int)[0] == cs@[a as int]);
        } else {
            assert(cs@.skip(a as int).len() == 0);
        }
    }
    assert(lead_ws(cs@) == a);
    let ghost front = cs@.skip(a as int);
    let mut b: usize = cs.len();
    assert(front.take(b - a) =~= front);
    while b > a && is_whitespace(cs[b - 1])
        invariant
            a <= b <= cs@.len(),
            front == cs@.skip(a as int),
            trail_ws(front) == (cs@.len() - b) + trail_ws(front.take(b - a)),
        decreases b,
    {
        proof {
            assert(front.take(b - a).drop_last() =~= front.take(b - a - 1));
            assert(front.take(b - a).last() == cs@[b - 1]);
        }
        b = b - 1;
    }
    proof {
        assert(front.take(b - a) =~= front.take(b - a));
        if b > a {
            assert(front.take(b - a).last() == cs@[b - 1]);
        } else {
            assert(front.take(b - a).len() == 0);
        }
        assert(trail_ws(front.take(b - a)) == 0);
        assert(cs@.subrange(a as int, b as int) =~= front.take(front.len() - trail_ws(front)));
    }
    string_of(&cs.as_slice()[a..b])
}

/// What one line of a newline-delimited JSON file holds: nothing for a blank
/// line, a document, or a failure to parse.
pub open spec fn line_document(line: Seq<char>) -> Result<Option<Json>, ()> {
    let t = trimmed(line);
    if t.len() == 0 {
        Ok(None)
    } else {
        match parsed_json(t) {
            Some(j) => Ok(Some(j)),
            None => Err(()),
        }
    }
}

/// The documents of the lines of a newline-delimited JSON file, or the
/// 1-based number of the first line that does not parse.
pub open spec fn lines_documents(lines: Seq<Seq<char>>) -> Result<Seq<Json>, nat>
    decreases lines.len(),
{
    if lines.len() == 0 {
        Ok(Seq::empty())
    } else {
        match lines_documents(lines.drop_last()) {
            Err(k) => Err(k),
            Ok(ds) => match line_document(lines.last()) {
                Ok(None) => Ok(ds),
                Ok(Some(j)) => Ok(ds.push(j)),
                Err(()) => Err(lines.len()),
            },
        }
    }
}

proof fn lemma_lines_failure_persists(lines: Seq<Seq<char>>, k: int, n: nat)
    requires
        0 <= k <= lines.len(),
        lines_documents(lines.take(k)) == Err::<Seq<Json>, nat>(n),
    ensures
        lines_documents(lines) == Err::<Seq<Json>, nat>(n),
    decreases lines.len() - k,
{
    if k == lines.len() {
        assert(lines.take(k) =~= lines);
    } else {
        assert(lines.take(k + 1).drop_last() =~= lines.take(k));
        lemma_lines_failure_persists(lines, k + 1, n);
    }
}

/// Parses the lines of a newline-delimited JSON file: blank lines are
/// skipped; the first line that does not parse fails the whole file.
pub fn parse_json_lines(lines: &Vec<String>) -> (r: Result<Vec<Json>, usize>)
    ensures
        match r {
            Ok(ds) => lines_documents(line_texts(lines@)) == Ok::<Seq<Json>, nat>(ds@),
            Err(k) => lines_documents(line_texts(lines@)) == Err::<Seq<Json>, nat>(k as nat),
        },
{
    let mut docs: Vec<Json> = Vec::new();
    let mut i: usize = 0;
    while i < lines.len()
        invariant
            i <= lines@.len(),
            lines_documents(line_texts(lines@).take(i as int)) == Ok::<Seq<Json>, nat>(docs@),
        decreases lines@.len() - i,
    {
        proof {
            assert(line_texts(lines@).take(i + 1).drop_last() =~= line_texts(lines@).take(i as int));
            assert(line_texts(lines@).take(i + 1).last() == lines@[i as int]@);
        }
        let t = trim_text(lines[i].as_str());
        if !t.as_str().is_empty() {
            match parse_json(t.as_str()) {
                Some(j) => {
                    docs.push(j);
                },
                None => {
                    proof {
                        lemma_lines_failure_persists(line_texts(lines@), i + 1, (i + 1) as nat);
                    }
                    return Err(i + 1);
                },
            }
        }
        i = i + 1;
    }
    assert(line_texts(lines@).take(i as int) =~= line_texts(lines@));
    Ok(docs)
}

/// The characters of each line.
pub open spec fn line_texts(lines: Seq<String>) -> Seq<Seq<char>> {
    lines.map_values(|s: String| s@)
}

/// The documents of a JSON file: the elements when the whole text is one
/// JSON array, otherwise one document per non-blank line, or the 1-based
/// number of the first line that does not parse.
pub open spec fn file_documents(text: Seq<char>) -> Result<Seq<Json>, nat> {
    match parsed_json(text) {
        Some(Json::Array(items)) => Ok(items@),
        _ => lines_documents(split_char(text, '\n')),
    }
}

/// Reads the documents of a JSON file: an array of documents, or
/// newline-delimited documents.
pub fn parse_json_text(text: &str) -> (r: Result<Vec<Json>, usize>)
    ensures
        match r {
            Ok(ds) => file_documents(text@) == Ok::<Seq<Json>, nat>(ds@),
            Err(k) => file_documents(text@) == Err::<Seq<Json>, nat>(k as nat),
        },
{
    match parse_json(text) {
        Some(Json::Array(items)) => {
            return Ok(items);
        },
        _ => {},
    }
    let lines = split_text(text, '\n');
    assert(line_texts(lines@) =~= split_char(text@, '\n'));
    parse_json_lines(&lines)
}

/// Whether every character is an ASCII digit.
pub open spec fn all_digits(s: Seq<char>) -> bool {
    forall|i: int| 0 <= i < s.len() ==> '0' <= #[trigger] s[i] <= '9'
}

/// The value of a string of decimal digits.
pub open spec fn digits_value(s: Seq<char>) -> nat
    decreases s.len(),
{
    if s.len() == 0 {
        0
    } else {
        digits_value(s.drop_last()) * 10 + ((s.last() as u32) - 48) as nat
    }
}

/// What `str::parse::<i64>` gives: an optional sign, then one or more
/// decimal digits, of a value in range.
pub open spec fn parsed_i64(s: Seq<char>) -> Option<int> {
    let negative = s.len() > 0 && s[0] == '-';
    let signed = s.len() > 0 && (s[0] == '-' || s[0] == '+');
    let body = if signed {
        s.drop_first()
    } else {
        s
    };
    if body.len() == 0 || !all_digits(body) {
        None
    } else {
        let v: int = if negative {
            -(digits_value(body) as int)
        } else {
            digits_value(body) as int
        };
        if i64::MIN <= v <= i64::MAX {
            Some(v)
        } else {
            None
        }
    }
}

/// The decimal notation of an integer, with a leading `-` when negative.
pub open spec fn signed_decimal(v: int) -> Seq<char> {
    if v < 0 {
        "-"@ + decimal((-v) as nat)
    } else {
        decimal(v as nat)
    }
}

/// The code of a character, with ASCII capitals taken as small letters.
pub open spec fn lower_code(c: char) -> u32 {
    if 'A' <= c <= 'Z' {
        ((c as u32) + 32) as u32
    } else {
        c as u32
    }
}

/// Equality up to ASCII case.
pub open spec fn same_ignoring_ascii_case(a: Seq<char>, b: Seq<char>) -> bool {
    a.len() == b.len() && forall|i: int| 0 <= i < a.len() ==> lower_code(#[trigger] a[i]) == lower_code(b[i])
}

fn lower_code_of(c: char) -> (r: u32)
    ensures
        r == lower_code(c),
{
    if 'A' <= c && c <= 'Z' {
        c as u32 + 32
    } else {
        c as u32
    }
}

/// Equality up to ASCII case, as `str::eq_ignore_ascii_case` decides it.
pub fn eq_ignore_ascii_case(a: &str, b: &str) -> (r: bool)
    ensures
        r == same_ignoring_ascii_case(a@, b@),
{
    let x = chars_of(a);
    let y = chars_of(b);
    if x.len() != y.len() {
        return false;
    }
    let mut i: usize = 0;
    while i < x.len()
        invariant
            x@ == a@,
            y@ == b@,
            x@.len() == y@.len(),
            i <= x@.len(),
            forall|k: int| 0 <= k < i ==> lower_code(#[trigger] x@[k]) == lower_code(y@[k]),
        decreases x@.len() - i,
    {
        if lower_code_of(x[i]) != lower_code_of(y[i]) {
            return false;
        }
        i = i + 1;
    }
    true
}

/// The decimal notation of an integer, with a leading `-` when negative.
pub fn signed_text(v: i64) -> (r: String)
    ensures
        r@ == signed_decimal(v as int),
{
    if v < 0 {
        let magnitude: u64 = if v == -9223372036854775807 - 1 {
            9223372036854775808
        } else {
            (-v) as u64
        };
        String::from_str("-").concat(decimal_text(magnitude).as_str())
    } else {
        decimal_text(v as u64)
    }
}

/// The value of a CSV cell; `float_text` is the JSON text of the cell read as
/// a finite `f64`, where it reads as one.
pub fn csv_value(field: &str, float_text: Option<String>) -> (r: Json)
    ensures
        cell_of(r) == Some(csv_cell(field@, crate::error::opt_text(float_text))),
{
    if field.is_empty() {
        return Json::Null;
    }
    match parse_i64_text(field) {
        Some(v) => Json::Number(signed_text(v)),
        None => match float_text {
            Some(t) => Json::Number(t),
            None => {
                proof {
                    reveal_strlit("true");
                    reveal_strlit("false");
                }
                if eq_ignore_ascii_case(field, "true") {
                    Json::Bool(true)
                } else if eq_ignore_ascii_case(field, "false") {
                    Json::Bool(false)
                } else {
                    Json::Str(String::from_str(field))
                }
            },
        },
    }
}

/// The document of one CSV record: each field under the header of its
/// column; fields beyond the header are dropped.
pub fn csv_document(headers: &Vec<String>, fields: &Vec<String>, float_texts: &Vec<Option<String>>) -> (r: Json)
    requires
        float_texts@.len() == fields@.len(),
    ensures
        r matches Json::Object(members) && {
            &&& members@.len() == if fields@.len() <= headers@.len() {
                fields@.len()
            } else {
                headers@.len()
            }
            &&& forall|i: int|
                0 <= i < members@.len() ==> {
                    &&& (#[trigger] members@[i]).0@ == headers@[i]@
                    &&& cell_of(members@[i].1) == Some(
                        csv_cell(fields@[i]@, crate::error::opt_text(float_texts@[i])),
                    )
                }
        },
{
    let n: usize = if fields.len() <= headers.len() {
        fields.len()
    } else {
        headers.len()
    };
    let mut members: Vec<(String, Json)> = Vec::new();
    let mut i: usize = 0;
    while i < n
        invariant
            n <= fields@.len(),
            n <= headers@.len(),
            float_texts@.len() == fields@.len(),
            i <= n,
            members@.len() == i,
            forall|k: int|
                0 <= k < i ==> {
                    &&& (#[trigger] members@[k]).0@ == headers@[k]@
                    &&& cell_of(members@[k].1) == Some(
                        csv_cell(fields@[k]@, crate::error::opt_text(float_texts@[k])),
                    )
                },
        decreases n - i,
    {
        let float_text = crate::types::copy_opt_text(&float_texts[i]);
        let value = csv_value(fields[i].as_str(), float_text);
        members.push((headers[i].clone(), value));
        i = i + 1;
    }
    Json::Object(members)
}

/// The value of a CSV cell: null when empty, then an integer, then the
/// floating-point reading `float_text` (the JSON text of the cell read as a
/// finite `f64`, where it reads as one), then `true` or `false` in any ASCII
/// case, else the text itself.
pub open spec fn csv_cell(field: Seq<char>, float_text: Option<Seq<char>>) -> JsonCell {
    if field.len() == 0 {
        JsonCell::Null
    } else {
        match parsed_i64(field) {
            Some(v) => JsonCell::Number(signed_decimal(v)),
            None => match float_text {
                Some(t) => JsonCell::Number(t),
                None => if same_ignoring_ascii_case(field, "true"@) {
                    JsonCell::Bool(true)
                } else if same_ignoring_ascii_case(field, "false"@) {
                    JsonCell::Bool(false)
                } else {
                    JsonCell::Str(field)
                },
            },
        }
    }
}

/// The kinds of value a CSV cell becomes.
pub enum JsonCell {
    Null,
    Bool(bool),
    Number(Seq<char>),
    Str(Seq<char>),
}

/// The cell kind of a scalar value.
pub open spec fn cell_of(j: Json) -> Option<JsonCell> {
    match j {
        Json::Null => Some(JsonCell::Null),
        Json::Bool(b) => Some(JsonCell::Bool(b)),
        Json::Number(t) => Some(JsonCell::Number(t@)),
        Json::Str(s) => Some(JsonCell::Str(s@)),
        _ => None,
    }
}

/// Reads a decimal integer with optional sign, as `str::parse::<i64>` does.
pub fn parse_i64_text(s: &str) -> (r: Option<i64>)
    ensures
        match r {
            Some(v) => parsed_i64(s@) == Some(v as int),
            None => parsed_i64(s@) is None,
        },
{
    let cs = chars_of(s);
    if cs.len() == 0 {
        return None;
    }
    let negative = cs[0] == '-';
    let signed = cs[0] == '-' || cs[0] == '+';
    let start: usize = if signed {
        1
    } else {
        0
    };
    let ghost body = if signed {
        cs@.drop_first()
    } else {
        cs@
    };
    assert(body =~= cs@.skip(start as int));
    if start == cs.len() {
        return None;
    }
    let limit: u64 = if negative {
        9223372036854775808
    } else {
        9223372036854775807
    };
    let mut acc: u64 = 0;
    let mut i: usize = start;
    while i < cs.len()
        invariant
            start <= i <= cs@.len(),
            cs@ == s@,
            body == cs@.skip(start as int),
            all_digits(cs@.subrange(start as int, i as int)),
            acc as nat == digits_value(cs@.subrange(start as int, i as int)),
            acc <= limit,
            cs@.len() > 0,
            negative == (cs@[0] == '-'),
            signed == (cs@[0] == '-' || cs@[0] == '+'),
            start == (if signed { 1usize } else { 0usize }),
            body == (if signed { cs@.drop_first() } else { cs@ }),
            limit == (if negative { 9223372036854775808u64 } else { 9223372036854775807u64 }),
        decreases cs@.len() - i,
    {
        let c = cs[i];
        proof {
            assert(cs@.subrange(start as int, i + 1).drop_last() =~= cs@.subrange(start as int, i as int));
        }
        if c < '0' || c > '9' {
            proof {
                assert(body[i - start] == c);
                assert(!all_digits(body));
            }
            return None;
        }
        assert(48 <= (c as u32) <= 57);
        let d: u64 = (c as u32 - 48) as u64;
        if acc > (limit - d) / 10 {
            proof {
                assert(acc * 10 + d > limit) by (nonlinear_arith)
                    requires
                        acc > (limit - d) / 10,
                        d <= 9,
                        d <= limit,
                ;
                let k = (i - start) as int;
                assert(body.take(k) =~= cs@.subrange(start as int, i as int));
                assert(body.take(k + 1).drop_last() =~= body.take(k));
                assert(body.take(k + 1).last() == c);
                assert(digits_value(body.take(k + 1)) == acc * 10 + d);
                lemma_digits_grow(body, k);
            }
            return None;
        }
        proof {
            assert(acc * 10 + d <= limit) by (nonlinear_arith)
                requires
                    acc <= (limit - d) / 10,
                    d <= limit,
            ;
            assert(all_digits(cs@.subrange(start as int, i + 1)));
        }
        acc = acc * 10 + d;
        i = i + 1;
    }
    assert(cs@.subrange(start as int, i as int) =~= body);
    if negative {
        if acc == 9223372036854775808 {
            Some(-9223372036854775807 - 1)
        } else {
            Some(-(acc as i64))
        }
    } else {
        Some(acc as i64)
    }
}

/// What `str::parse` gives for an unsigned type whose largest value is
/// `max`: an optional `+`, then one or more decimal digits, of a value in range.
pub open spec fn parsed_unsigned(s: Seq<char>, max: nat) -> Option<nat> {
    let body = if s.len() > 0 && s[0] == '+' {
        s.drop_first()
    } else {
        s
    };
    if body.len() == 0 || !all_digits(body) || digits_value(body) > max {
        None
    } else {
        Some(digits_value(body))
    }
}

/// Reads a decimal number of at most `max`, as `str::parse` does for the
/// unsigned type whose largest value is `max`.
pub fn parse_unsigned_text(s: &str, max: u64) -> (r: Option<u64>)
    ensures
        match r {
            Some(v) => parsed_unsigned(s@, max as nat) == Some(v as nat),
            None => parsed_unsigned(s@, max as nat) is None,
        },
{
    let cs = chars_of(s);
    if cs.len() == 0 {
        return None;
    }
    let signed = cs[0] == '+';
    let start: usize = if signed {
        1
    } else {
        0
    };
    let ghost body = if signed {
        cs@.drop_first()
    } else {
        cs@
    };
    assert(body =~= cs@.skip(start as int));
    if start == cs.len() {
        return None;
    }
    let mut acc: u64 = 0;
    let mut i: usize = start;
    while i < cs.len()
        invariant
            start <= i <= cs@.len(),
            cs@ == s@,
            cs@.len() > 0,
            signed == (cs@[0] == '+'),
            start == (if signed { 1usize } else { 0usize }),
            body == (if signed { cs@.drop_first() } else { cs@ }),
            body == cs@.skip(start as int),
            all_digits(cs@.subrange(start as int, i as int)),
            acc as nat == digits_value(cs@.subrange(start as int, i as int)),
            acc <= max,
        decreases cs@.len() - i,
    {
        let c = cs[i];
        proof {
            assert(cs@.subrange(start as int, i + 1).drop_last() =~= cs@.subrange(start as int, i as int));
        }
        if c < '0' || c > '9' {
            proof {
                assert(body[i - start] == c);
                assert(!all_digits(body));
            }
            return None;
        }
        assert(48 <= (c as u32) <= 57);
        let d: u64 = (c as u32 - 48) as u64;
        if d > max || acc > (max - d) / 10 {
            proof {
                assert(acc * 10 + d > max) by (nonlinear_arith)
                    requires
                        d > max || acc > (max - d) / 10,
                        d <= 9,
                ;
                let k = (i - start) as int;
                assert(body.take(k) =~= cs@.subrange(start as int, i as int));
                assert(body.take(k + 1).drop_last() =~= body.take(k));
                assert(body.take(k + 1).last() == c);
                assert(digits_value(body.take(k + 1)) == acc * 10 + d);
                lemma_digits_grow(body, k);
            }
            return None;
        }
        proof {
            assert(acc * 10 + d <= max) by (nonlinear_arith)
                requires
                    acc <= (max - d) / 10,
                    d <= max,
            ;
            assert(all_digits(cs@.subrange(start as int, i + 1)));
        }
        acc = acc * 10 + d;
        i = i + 1;
    }
    assert(cs@.subrange(start as int, i as int) =~= body);
    Some(acc)
}

/// Once a prefix of a digit string exceeds a bound, so does the whole.
proof fn lemma_digits_grow(s: Seq<char>, k: int)
    requires
        0 <= k < s.len(),
        all_digits(s.take(k)),
    ensures
        all_digits(s) ==> digits_value(s) >= digits_value(s.take(k + 1)),
    decreases s.len() - k,
{
    if all_digits(s) {
        if k + 1 < s.len() {
            assert(all_digits(s.take(k + 1)));
            lemma_digits_grow(s, k + 1);
            assert(s.take(k + 2).drop_last() =~= s.take(k + 1));
        } else {
            assert(s.take(k + 1) =~= s);
        }
    }
}

} // verus!
