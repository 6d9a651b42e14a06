use vstd::prelude::*;
use vstd::string::*;

verus! {

broadcast use vstd::string::group_string_axioms;

/// The character of a decimal digit.
pub open spec fn digit_char(d: nat) -> char {
    if d == 0 { '0' }
    else if d == 1 { '1' }
    else if d == 2 { '2' }
    else if d == 3 { '3' }
    else if d == 4 { '4' }
    else if d == 5 { '5' }
    else if d == 6 { '6' }
    else if d == 7 { '7' }
    else if d == 8 { '8' }
    else { '9' }
}

/// The decimal representation of `n`, without sign or leading zeros
/// (`0` is written as a single `'0'`).
pub open spec fn decimal(n: nat) -> Seq<char>
    decreases n,
{
    if n < 10 {
        seq![digit_char(n)]
    } else {
        decimal(n / 10).push(digit_char(n % 10))
    }
}

/// The value of a decimal digit character (0 for any other character).
pub open spec fn digit_value(c: char) -> nat {
    if c == '1' { 1 }
    else if c == '2' { 2 }
    else if c == '3' { 3 }
    else if c == '4' { 4 }
    else if c == '5' { 5 }
    else if c == '6' { 6 }
    else if c == '7' { 7 }
    else if c == '8' { 8 }
    else if c == '9' { 9 }
    else { 0 }
}

/// Whether a character is a decimal digit.
pub open spec fn is_digit(c: char) -> bool {
    c == '0' || c == '1' || c == '2' || c == '3' || c == '4' || c == '5' || c == '6' || c == '7'
        || c == '8' || c == '9'
}

/// The number a string of decimal digits stands for.
pub open spec fn numeral_value(s: Seq<char>) -> nat
    decreases s.len(),
{
    if s.len() == 0 {
        0
    } else {
        numeral_value(s.drop_last()) * 10 + digit_value(s.last())
    }
}

/// Reading back the decimal representation of `n` gives `n`: it is a nonempty string
/// of digits, without a leading zero unless `n` is zero, whose value is `n`.
pub proof fn lemma_decimal_round_trip(n: nat)
    ensures
        decimal(n).len() >= 1,
        forall|i: int| 0 <= i < decimal(n).len() ==> is_digit(#[trigger] decimal(n)[i]),
        n > 0 ==> decimal(n)[0] != '0',
        numeral_value(decimal(n)) == n,
    decreases n,
{
    if n < 10 {
        assert(decimal(n) == seq![digit_char(n)]);
        assert(decimal(n).drop_last() =~= Seq::<char>::empty());
        assert(numeral_value(decimal(n)) == numeral_value(Seq::<char>::empty()) * 10 + digit_value(digit_char(n)));
    } else {
        lemma_decimal_round_trip(n / 10);
        let s = decimal(n);
        assert(s == decimal(n / 10).push(digit_char(n % 10)));
        assert(s.drop_last() =~= decimal(n / 10));
        assert(s[0] == decimal(n / 10)[0]);
        assert(digit_value(digit_char(n % 10)) == n % 10);
        assert(numeral_value(s) == numeral_value(decimal(n / 10)) * 10 + digit_value(s.last()));
        assert(n == (n / 10) * 10 + n % 10);
        assert forall|i: int| 0 <= i < s.len() implies is_digit(#[trigger] s[i]) by {
            if i < s.len() - 1 {
                assert(s[i] == decimal(n / 10)[i]);
            }
        }
    }
}

/// `text` is a decimal numeral (one or more digits) whose value is `n`.
pub open spec fn spells(text: Seq<char>, n: nat) -> bool {
    &&& text.len() > 0
    &&& forall|i: int| 0 <= i < text.len() ==> is_digit(#[trigger] text[i])
    &&& numeral_value(text) == n
}

/// Every decimal numeral the crate writes reads back as its number.
pub proof fn lemma_decimal_spells(n: nat)
    ensures
        spells(decimal(n), n),
{
    lemma_decimal_round_trip(n);
}

/// The digits of an unsigned numeral: the text without one leading `+`.
pub open spec fn unsigned_digits(text: Seq<char>) -> Seq<char> {
    if text.len() > 0 && text[0] == '+' { text.drop_first() } else { text }
}

/// What `str::parse::<usize>` gives for a text: an optional `+` followed by at least one
/// decimal digit and nothing else, whose value fits a `usize`; `None` for anything else.
pub open spec fn usize_numeral(text: Seq<char>) -> Option<usize> {
    let d = unsigned_digits(text);
    if d.len() > 0 && (forall|i: int| 0 <= i < d.len() ==> is_digit(#[trigger] d[i]))
        && numeral_value(d) <= usize::MAX {
        Some(numeral_value(d) as usize)
    } else {
        None
    }
}

/// Appending digits never makes a numeral smaller.
proof fn lemma_numeral_grows(s: Seq<char>, k: int)
    requires
        0 <= k <= s.len(),
    ensures
        numeral_value(s.subrange(0, k)) <= numeral_value(s),
    decreases s.len() - k,
{
    if k < s.len() {
        let t = s.subrange(0, k + 1);
        assert(t.drop_last() =~= s.subrange(0, k));
        lemma_numeral_grows(s, k + 1);
    } else {
        assert(s.subrange(0, k) =~= s);
    }
}

/// Reading what was printed gives the number back: the decimal numeral of `n` parses as
/// `n`, with or without a leading `+`.
pub proof fn lemma_parse_reads_decimal(n: usize)
    ensures
        usize_numeral(decimal(n as nat)) == Some(n),
        usize_numeral(seq!['+'] + decimal(n as nat)) == Some(n),
{
    lemma_decimal_round_trip(n as nat);
    let d = decimal(n as nat);
    assert(is_digit(d[0]));
    assert(unsigned_digits(d) == d);
    let t = seq!['+'] + d;
    assert(t[0] == '+');
    assert(t.drop_first() =~= d);
    assert(unsigned_digits(t) == d);
}

fn digit_of(c: char) -> (d: Option<usize>)
    ensures
        d is Some <==> is_digit(c),
        d matches Some(v) ==> v == digit_value(c) && v < 10,
{
    if c == '0' { Some(0) }
    else if c == '1' { Some(1) }
    else if c == '2' { Some(2) }
    else if c == '3' { Some(3) }
    else if c == '4' { Some(4) }
    else if c == '5' { Some(5) }
    else if c == '6' { Some(6) }
    else if c == '7' { Some(7) }
    else if c == '8' { Some(8) }
    else if c == '9' { Some(9) }
    else { None }
}

/// Reads an unsigned decimal numeral as `str::parse::<usize>` does: an optional `+`, then
/// at least one digit and nothing else, with a value that fits a `usize`.
pub fn parse_usize(text: &str) -> (r: Option<usize>)
    ensures
        r == usize_numeral(text@),
{
    let n = text.unicode_len();
    if n == 0 {
        return None;
    }
    let start: usize = if text.get_char(0) == '+' { 1 } else { 0 };
    let ghost digits = unsigned_digits(text@);
    proof {
        if start == 1 {
            assert(digits =~= text@.subrange(1, n as int));
        } else {
            assert(digits =~= text@.subrange(0, n as int));
        }
    }
    if start == n {
        return None;
    }
    let mut acc: usize = 0;
    let mut i: usize = start;
    while i < n
        invariant
            n == text@.len(),
            start <= i <= n,
            start < n,
            digits == text@.subrange(start as int, n as int),
            digits == unsigned_digits(text@),
            forall|k: int| start <= k < i ==> is_digit(#[trigger] text@[k]),
            acc == numeral_value(text@.subrange(start as int, i as int)),
        decreases n - i,
    {
        let c = text.get_char(i);
        let ghost prefix = text@.subrange(start as int, i + 1);
        proof {
            assert(prefix.drop_last() =~= text@.subrange(start as int, i as int));
            assert(prefix.last() == c);
            assert(prefix =~= digits.subrange(0, i + 1 - start));
        }
        let d = match digit_of(c) {
            Some(d) => d,
            None => {
                proof {
                    assert(digits[i - start] == c);
                    assert(!is_digit(digits[i - start]));
                    assert(!(forall|k: int| 0 <= k < digits.len() ==> is_digit(#[trigger] digits[k])));
                    assert(unsigned_digits(text@) == digits);
                    assert(usize_numeral(text@) is None);
                }
                return None;
            }
        };
        let next = match acc.checked_mul(10) {
            Some(m) => m.checked_add(d),
            None => None,
        };
        match next {
            Some(v) => {
                acc = v;
            }
            None => {
                proof {
                    assert(numeral_value(prefix) > usize::MAX);
                    lemma_numeral_grows(digits, i + 1 - start);
                    assert(numeral_value(digits.subrange(0, i + 1 - start)) > usize::MAX);
                    assert(numeral_value(digits) > usize::MAX);
                    assert(unsigned_digits(text@) == digits);
                    assert(usize_numeral(text@) is None);
                }
                return None;
            }
        }
        i = i + 1;
    }
    proof {
        assert(text@.subrange(start as int, n as int) == digits);
        assert forall|k: int| 0 <= k < digits.len() implies is_digit(#[trigger] digits[k]) by {
            assert(digits[k] == text@[k + start]);
        }
    }
    Some(acc)
}

fn digit_str(d: usize) -> (s: &'static str)
    requires
        d < 10,
    ensures
        s@ == seq![digit_char(d as nat)],
{
    if d == 0 {
        proof { reveal_strlit("0"); }
        "0"
    } else if d == 1 {
        proof { reveal_strlit("1"); }
        "1"
    } else if d == 2 {
        proof { reveal_strlit("2"); }
        "2"
    } else if d == 3 {
        proof { reveal_strlit("3"); }
        "3"
    } else if d == 4 {
        proof { reveal_strlit("4"); }
        "4"
    } else if d == 5 {
        proof { reveal_strlit("5"); }
        "5"
    } else if d == 6 {
        proof { reveal_strlit("6"); }
        "6"
    } else if d == 7 {
        proof { reveal_strlit("7"); }
        "7"
    } else if d == 8 {
        proof { reveal_strlit("8"); }
        "8"
    } else {
        proof { reveal_strlit("9"); }
        "9"
    }
}

/// Appends the decimal representation of `n` to `out`.
pub fn push_decimal(out: &mut String, n: usize)
    ensures
        final(out)@ == old(out)@ + decimal(n as nat),
    decreases n,
{
    if n >= 10 {
        push_decimal(out, n / 10);
    }
    out.append(digit_str(n % 10));
    proof {
        if n >= 10 {
            assert(decimal(n as nat) == decimal((n / 10) as nat).push(digit_char((n % 10) as nat)));
        }
    }
}

/// The decimal representation of `n` as a string.
pub fn decimal_string(n: usize) -> (s: String)
    ensures
        s@ == decimal(n as nat),
{
    let mut s = String::new();
    push_decimal(&mut s, n);
    s
}

/// The pieces joined with a comma between each two neighbours.
pub open spec fn comma_join(parts: Seq<Seq<char>>) -> Seq<char>
    decreases parts.len(),
{
    if parts.len() == 0 {
        Seq::empty()
    } else if parts.len() == 1 {
        parts[0]
    } else {
        comma_join(parts.drop_last()) + ","@ + parts.last()
    }
}

/// A text between double quotes, as the dashboard writes a JSON string (nothing is escaped).
pub open spec fn quoted(text: Seq<char>) -> Seq<char> {
    "\""@ + text + "\""@
}

/// A JSON array written from already written elements.
pub open spec fn json_array(elements: Seq<Seq<char>>) -> Seq<char> {
    "["@ + comma_join(elements) + "]"@
}

/// The JSON array of the given strings.
pub open spec fn json_strings(items: Seq<Seq<char>>) -> Seq<char> {
    json_array(items.map_values(|t: Seq<char>| quoted(t)))
}

/// The JSON array of the given counts.
pub open spec fn json_counts(counts: Seq<usize>) -> Seq<char> {
    json_array(counts.map_values(|c: usize| decimal(c as nat)))
}

/// The views of a list of strings.
pub open spec fn views(items: Seq<String>) -> Seq<Seq<char>> {
    items.map_values(|s: String| s@)
}

/// The label `prefix` followed by the decimal number `n`.
pub open spec fn numbered_label(prefix: Seq<char>, n: nat) -> Seq<char> {
    prefix + decimal(n)
}

proof fn lemma_comma_join_step(parts: Seq<Seq<char>>, i: int)
    requires
        0 <= i < parts.len(),
    ensures
        comma_join(parts.take(i + 1)) == if i == 0 {
            parts[0]
        } else {
            comma_join(parts.take(i)) + ","@ + parts[i]
        },
{
    assert(parts.take(i + 1).drop_last() =~= parts.take(i));
    if i == 0 {
        assert(parts.take(1).len() == 1);
    }
}

/// The shape of a JSON array: an empty one is `[]`, one element `e` gives `[e]`, and
/// appending an element to a nonempty array puts a comma and the element before the
/// closing bracket.
pub proof fn lemma_json_array_shape(elements: Seq<Seq<char>>, x: Seq<char>)
    ensures
        elements.len() == 0 ==> json_array(elements) == seq!['[', ']'],
        elements.len() == 1 ==> json_array(elements) == seq!['['] + elements[0] + seq![']'],
        elements.len() >= 1 ==> json_array(elements.push(x)) == json_array(elements).drop_last() + seq![','] + x
            + seq![']'],
{
    reveal_strlit("[");
    reveal_strlit("]");
    reveal_strlit(",");
    assert(elements.push(x).drop_last() =~= elements);
    if elements.len() == 0 {
        assert(json_array(elements) =~= seq!['[', ']']);
    }
    if elements.len() == 1 {
        assert(json_array(elements) =~= seq!['['] + elements[0] + seq![']']);
    }
    if elements.len() >= 1 {
        let j = "["@ + comma_join(elements) + "]"@;
        assert(j.drop_last() =~= "["@ + comma_join(elements));
        assert(json_array(elements.push(x)) =~= j.drop_last() + seq![','] + x + seq![']']);
    }
}

/// A JSON string is the text between two double quotes.
pub proof fn lemma_quoted_shape(text: Seq<char>)
    ensures
        quoted(text) == seq!['"'] + text + seq!['"'],
{
    reveal_strlit("\"");
    assert(quoted(text) =~= seq!['"'] + text + seq!['"']);
}

/// A numbered label is the prefix followed by a numeral that reads as the number.
pub proof fn lemma_numbered_label_reads_back(prefix: Seq<char>, n: nat)
    ensures
        numbered_label(prefix, n).subrange(0, prefix.len() as int) == prefix,
        spells(numbered_label(prefix, n).subrange(prefix.len() as int, numbered_label(prefix, n).len() as int), n),
{
    lemma_decimal_round_trip(n);
    let l = numbered_label(prefix, n);
    assert(l.subrange(0, prefix.len() as int) =~= prefix);
    assert(l.subrange(prefix.len() as int, l.len() as int) =~= decimal(n));
}

/// Writes a JSON array from already written elements, with commas between them.
pub fn json_raw_array(elements: &[String]) -> (s: String)
    ensures
        s@ == json_array(views(elements@)),
{
    let ghost parts = views(elements@);
    let mut s = String::new();
    s.append("[");
    let n = elements.len();
    for i in 0..n
        invariant
            n == elements@.len(),
            parts.len() == n,
            forall|k: int| 0 <= k < n ==> #[trigger] parts[k] == elements@[k]@,
            s@ == "["@ + comma_join(parts.take(i as int)),
    {
        proof { lemma_comma_join_step(parts, i as int); }
        if i > 0 {
            s.append(",");
        }
        s.append(elements[i].as_str());
        proof {
            assert(parts[i as int] == elements@[i as int]@);
            if i > 0 {
                assert(s@ =~= "["@ + (comma_join(parts.take(i as int)) + ","@ + parts[i as int]));
            } else {
                assert(s@ =~= "["@ + parts[i as int]);
            }
        }
    }
    s.append("]");
    proof { assert(parts.take(n as int) =~= parts); }
    s
}

/// Writes the JSON array of the given strings: each is put between double quotes,
/// with commas between them.
pub fn json_string_array(items: &[String]) -> (s: String)
    ensures
        s@ == json_strings(views(items@)),
{
    let ghost parts = views(items@).map_values(|t: Seq<char>| quoted(t));
    let mut s = String::new();
    s.append("[");
    let n = items.len();
    for i in 0..n
        invariant
            n == items@.len(),
            parts.len() == n,
            forall|k: int| 0 <= k < n ==> #[trigger] parts[k] == quoted(items@[k]@),
            s@ == "["@ + comma_join(parts.take(i as int)),
    {
        proof { lemma_comma_join_step(parts, i as int); }
        if i > 0 {
            s.append(",");
        }
        s.append("\"");
        s.append(items[i].as_str());
        s.append("\"");
        proof {
            assert(parts[i as int] == quoted(items@[i as int]@));
            if i > 0 {
                assert(s@ =~= "["@ + (comma_join(parts.take(i as int)) + ","@ + parts[i as int]));
            } else {
                assert(s@ =~= "["@ + parts[i as int]);
            }
        }
    }
    s.append("]");
    proof { assert(parts.take(n as int) =~= parts); }
    s
}

/// Writes the JSON array of the given counts, in decimal, with commas between them.
pub fn json_count_array(counts: &[usize]) -> (s: String)
    ensures
        s@ == json_counts(counts@),
{
    let ghost parts = counts@.map_values(|c: usize| decimal(c as nat));
    let mut s = String::new();
    s.append("[");
    let n = counts.len();
    for i in 0..n
        invariant
            n == counts@.len(),
            parts.len() == n,
            forall|k: int| 0 <= k < n ==> #[trigger] parts[k] == decimal(counts@[k] as nat),
            s@ == "["@ + comma_join(parts.take(i as int)),
    {
        proof { lemma_comma_join_step(parts, i as int); }
        if i > 0 {
            s.append(",");
        }
        push_decimal(&mut s, counts[i]);
        proof {
            assert(parts[i as int] == decimal(counts@[i as int] as nat));
            if i > 0 {
                assert(s@ =~= "["@ + (comma_join(parts.take(i as int)) + ","@ + parts[i as int]));
            } else {
                assert(s@ =~= "["@ + parts[i as int]);
            }
        }
    }
    s.append("]");
    proof { assert(parts.take(n as int) =~= parts); }
    s
}

/// The labels `prefix` + `first`, `prefix` + `first + 1`, ..., `count` of them.
fn numbered_labels(prefix: &str, first: usize, count: usize) -> (labels: Vec<String>)
    requires
        first + count <= usize::MAX,
    ensures
        labels@.len() == count,
        forall|i: int| 0 <= i < count ==> #[trigger] labels@[i]@ == numbered_label(prefix@, (first + i) as nat),
{
    let mut labels: Vec<String> = Vec::new();
    for i in 0..count
        invariant
            first + count <= usize::MAX,
            labels@.len() == i,
            forall|k: int| 0 <= k < i ==> #[trigger] labels@[k]@ == numbered_label(prefix@, (first + k) as nat),
    {
        let mut label = String::from_str(prefix);
        push_decimal(&mut label, first + i);
        labels.push(label);
    }
    labels
}

/// The forecast labels of the dashboard: `W1`, `W2`, ..., `Wn`.
pub fn forecast_labels(n: usize) -> (labels: Vec<String>)
    requires
        n < usize::MAX,
    ensures
        labels@.len() == n,
        forall|i: int| 0 <= i < n ==> #[trigger] labels@[i]@ == numbered_label("W"@, (i + 1) as nat),
{
    numbered_labels("W", 1, n)
}

/// The labels of the historical observations on the dashboard: `H0`, `H1`, ..., `H(n-1)`.
pub fn history_labels(n: usize) -> (labels: Vec<String>)
    ensures
        labels@.len() == n,
        forall|i: int| 0 <= i < n ==> #[trigger] labels@[i]@ == numbered_label("H"@, i as nat),
{
    numbered_labels("H", 0, n)
}

} // verus!
