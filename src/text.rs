//! Character-level helpers: splitting, case-insensitive comparison,
//! decimal parsing and rendering.
use vstd::prelude::*;

verus! {

broadcast use vstd::string::group_string_axioms;

/// Relies on `String::push`: appends one character at the end.
#[verifier::external_body]
pub(crate) fn push_char(s: &mut String, c: char)
    ensures
        final(s)@ == old(s)@.push(c),
{
    s.push(c)
}

/// The characters of `s`, in order.
pub fn chars_of(s: &str) -> (r: Vec<char>)
    ensures
        r@ == s@,
{
    let mut r: Vec<char> = Vec::new();
    for c in it: s.chars()
        invariant
            it.seq() == s@,
            r@ == s@.take(it.index() as int),
    {
        r.push(c);
    }
    assert(r@ =~= s@);
    r
}

/// The string holding exactly the characters of `v`.
pub fn string_of(v: &Vec<char>) -> (r: String)
    ensures
        r@ == v@,
{
    let mut r = String::new();
    for i in 0..v.len()
        invariant
            r@ == v@.take(i as int),
    {
        push_char(&mut r, v[i]);
        assert(v@.take(i + 1) =~= v@.take(i as int).push(v@[i as int]));
    }
    assert(v@.take(v.len() as int) =~= v@);
    r
}

/// Appends the characters of `t` to `s`.
pub fn push_str(s: &mut String, t: &str)
    ensures
        final(s)@ == old(s)@ + t@,
{
    let ghost start = s@;
    for c in it: t.chars()
        invariant
            it.seq() == t@,
            s@ == start + t@.take(it.index() as int),
    {
        push_char(s, c);
        assert(t@.take(it.index() + 1) =~= t@.take(it.index() as int).push(c));
    }
    assert(t@.take(t@.len() as int) =~= t@);
}

/// The pieces of `s` between occurrences of `sep`; never empty, as
/// `str::split` yields one piece more than there are separators.
pub open spec fn split_on(s: Seq<char>, sep: char) -> Seq<Seq<char>>
    decreases s.len(),
{
    if s.len() == 0 {
        seq![Seq::<char>::empty()]
    } else {
        let init = split_on(s.drop_last(), sep);
        if s.last() == sep {
            init.push(Seq::<char>::empty())
        } else {
            init.update(init.len() - 1, init.last().push(s.last()))
        }
    }
}

pub proof fn lemma_split_on_nonempty(s: Seq<char>, sep: char)
    ensures
        split_on(s, sep).len() >= 1,
    decreases s.len(),
{
    if s.len() > 0 {
        lemma_split_on_nonempty(s.drop_last(), sep);
    }
}

/// The character sequences that the vectors hold.
pub open spec fn views(parts: Seq<Vec<char>>) -> Seq<Seq<char>> {
    parts.map_values(|p: Vec<char>| p@)
}

/// Splits `s` at every `sep`, as `str::split` with a character pattern does.
pub fn split_chars(s: &Vec<char>, sep: char) -> (r: Vec<Vec<char>>)
    ensures
        views(r@) == split_on(s@, sep),
{
    let mut parts: Vec<Vec<char>> = Vec::new();
    let mut cur: Vec<char> = Vec::new();
    for i in 0..s.len()
        invariant
            views(parts@).push(cur@) == split_on(s@.take(i as int), sep),
    {
        let c = s[i];
        proof {
            lemma_split_on_nonempty(s@.take(i as int), sep);
            assert(s@.take(i + 1).drop_last() =~= s@.take(i as int));
            assert(s@.take(i + 1).last() == c);
        }
        if c == sep {
            let done = cur;
            parts.push(done);
            cur = Vec::new();
            assert(views(parts@).push(cur@) =~= split_on(s@.take(i + 1), sep));
        } else {
            cur.push(c);
            assert(views(parts@).push(cur@) =~= split_on(s@.take(i + 1), sep));
        }
    }
    parts.push(cur);
    assert(s@.take(s.len() as int) =~= s@);
    assert(views(parts@) =~= split_on(s@, sep));
    parts
}

/// ASCII lower-casing of one character, by its code point.
pub open spec fn ascii_lower(c: char) -> int {
    if 65 <= (c as u32) && (c as u32) <= 90 {
        (c as u32) + 32
    } else {
        c as u32 as int
    }
}

/// `str::eq_ignore_ascii_case`: equal up to ASCII case.
pub open spec fn eq_ignore_case(a: Seq<char>, b: Seq<char>) -> bool {
    &&& a.len() == b.len()
    &&& forall|i: int| 0 <= i < a.len() ==> ascii_lower(#[trigger] a[i]) == ascii_lower(b[i])
}

fn lower_code(c: char) -> (r: u32)
    ensures
        r == ascii_lower(c),
{
    let u = c as u32;
    if 65 <= u && u <= 90 {
        u + 32
    } else {
        u
    }
}

/// Compares `a` with the word `w`, ignoring ASCII case.
pub fn eq_ignore_ascii_case(a: &Vec<char>, w: &str) -> (r: bool)
    ensures
        r == eq_ignore_case(a@, w@),
{
    let b = chars_of(w);
    if a.len() != b.len() {
        return false;
    }
    for i in 0..a.len()
        invariant
            a.len() == b.len(),
            b@ == w@,
            forall|j: int| 0 <= j < i ==> ascii_lower(#[trigger] a@[j]) == ascii_lower(b@[j]),
    {
        if lower_code(a[i]) != lower_code(b[i]) {
            return false;
        }
    }
    true
}

pub open spec fn is_digit(c: char) -> bool {
    48 <= (c as u32) && (c as u32) <= 57
}

pub open spec fn all_digits(s: Seq<char>) -> bool {
    forall|i: int| 0 <= i < s.len() ==> is_digit(#[trigger] s[i])
}

/// The number that a run of decimal digits spells.
pub open spec fn digits_value(s: Seq<char>) -> nat
    decreases s.len(),
{
    if s.len() == 0 {
        0
    } else {
        10 * digits_value(s.drop_last()) + ((s.last() as u32) - 48) as nat
    }
}

/// What `str::parse::<u16>` gives: an optional `+`, then at least one
/// decimal digit, and a value that fits.
pub open spec fn parse_u16_spec(s: Seq<char>) -> Option<u16> {
    let d = if s.len() > 0 && s[0] == '+' { s.drop_first() } else { s };
    if d.len() > 0 && all_digits(d) && digits_value(d) <= u16::MAX {
        Some(digits_value(d) as u16)
    } else {
        None
    }
}

/// Parses a decimal `u16`, with the rules of `str::parse::<u16>`.
pub fn parse_u16(s: &Vec<char>) -> (r: Option<u16>)
    ensures
        r == parse_u16_spec(s@),
{
    let start: usize = if s.len() > 0 && s[0] == '+' { 1 } else { 0 };
    let ghost d = if s@.len() > 0 && s@[0] == '+' { s@.drop_first() } else { s@ };
    assert(d =~= s@.subrange(start as int, s@.len() as int));
    if start >= s.len() {
        return None;
    }
    let mut value: u32 = 0;
    let mut i: usize = start;
    while i < s.len()
        invariant
            start <= i <= s.len(),
            d == (if s@.len() > 0 && s@[0] == '+' { s@.drop_first() } else { s@ }),
            d =~= s@.subrange(start as int, s@.len() as int),
            all_digits(s@.subrange(start as int, i as int)),
            value == digits_value(s@.subrange(start as int, i as int)),
            value <= u16::MAX,
        decreases s.len() - i,
    {
        let c = s[i];
        #[verifier::truncate]
        let code = c as u32;
        let ghost next = s@.subrange(start as int, i + 1);
        assert(next.drop_last() =~= s@.subrange(start as int, i as int));
        assert(next.last() == c);
        if code < 48 || code > 57 {
            assert(d[i - start] == c);
            assert(!is_digit(d[i - start]));
            assert(!all_digits(d));
            return None;
        }
        value = value * 10 + (code - 48);
        assert(value == digits_value(next));
        assert(all_digits(next)) by {
            assert forall|j: int| 0 <= j < next.len() implies is_digit(#[trigger] next[j]) by {
                if j < next.len() - 1 {
                    assert(next[j] == s@.subrange(start as int, i as int)[j]);
                }
            }
        }
        if value > 65535 {
            proof {
                lemma_digits_value_grows(s@.subrange(start as int, s@.len() as int), i + 1 - start);
                assert(s@.subrange(start as int, s@.len() as int).take(i + 1 - start)
                    =~= s@.subrange(start as int, i + 1));
            }
            return None;
        }
        i = i + 1;
    }
    assert(s@.subrange(start as int, i as int) =~= d);
    Some(value as u16)
}

/// The character of a decimal digit.
pub open spec fn digit_char(d: nat) -> char {
    if d == 0 { '0' }
    else if d == 1 { '1' }
    else if d == 2 { '2' }
    else if d == 3 { '3' }
    else if d == 4 { '4' }
    else if d == 5 { '5' }
    else if d == 6 { '6' }
    else if d == 7 { '7' }
    else if d == 8 { '8' }
    else { '9' }
}

/// The decimal rendering of `n`, without leading zeros.
pub open spec fn dec(n: nat) -> Seq<char>
    decreases n,
{
    if n < 10 {
        seq![digit_char(n)]
    } else {
        dec(n / 10).push(digit_char(n % 10))
    }
}

fn digit(d: u64) -> (c: char)
    requires
        d < 10,
    ensures
        c == digit_char(d as nat),
{
    if d == 0 { '0' }
    else if d == 1 { '1' }
    else if d == 2 { '2' }
    else if d == 3 { '3' }
    else if d == 4 { '4' }
    else if d == 5 { '5' }
    else if d == 6 { '6' }
    else if d == 7 { '7' }
    else if d == 8 { '8' }
    else { '9' }
}

/// Appends the decimal rendering of `n`.
pub fn push_decimal(s: &mut String, n: u64)
    ensures
        final(s)@ == old(s)@ + dec(n as nat),
    decreases n,
{
    let ghost start = s@;
    if n >= 10 {
        push_decimal(s, n / 10);
    }
    push_char(s, digit(n % 10));
    assert(s@ =~= start + dec(n as nat));
}

/// The decimal rendering of `n`.
pub fn decimal(n: u64) -> (r: String)
    ensures
        r@ == dec(n as nat),
{
    let mut r = String::new();
    push_decimal(&mut r, n);
    assert(r@ =~= dec(n as nat));
    r
}

/// Whether `a` holds exactly the characters of `w`.
pub fn eq_chars(a: &Vec<char>, w: &str) -> (r: bool)
    ensures
        r == (a@ == w@),
{
    let b = chars_of(w);
    if a.len() != b.len() {
        return false;
    }
    for i in 0..a.len()
        invariant
            a.len() == b.len(),
            b@ == w@,
            forall|j: int| 0 <= j < i ==> a@[j] == b@[j],
    {
        if a[i] != b[i] {
            return false;
        }
    }
    assert(a@ =~= b@);
    true
}

/// The pieces one after the other, with `sep` between neighbours.
pub open spec fn join(parts: Seq<Seq<char>>, sep: Seq<char>) -> Seq<char>
    decreases parts.len(),
{
    if parts.len() == 0 {
        Seq::<char>::empty()
    } else if parts.len() == 1 {
        parts[0]
    } else {
        join(parts.drop_last(), sep) + sep + parts.last()
    }
}

/// The character sequences that the strings hold.
pub open spec fn string_views(parts: Seq<String>) -> Seq<Seq<char>> {
    parts.map_values(|p: String| p@)
}

/// Appends the strings of `parts` with `sep` between neighbours.
pub fn push_joined(s: &mut String, parts: &Vec<String>, sep: &str)
    ensures
        final(s)@ == old(s)@ + join(string_views(parts@), sep@),
{
    let ghost start = s@;
    for i in 0..parts.len()
        invariant
            s@ == start + join(string_views(parts@.take(i as int)), sep@),
    {
        let ghost prefix = string_views(parts@.take(i as int));
        assert(string_views(parts@.take(i + 1)).drop_last() =~= prefix);
        assert(string_views(parts@.take(i + 1)).last() == parts@[i as int]@);
        if i > 0 {
            push_str(s, sep);
        }
        push_str(s, parts[i].as_str());
        proof {
            if i == 0 {
                assert(string_views(parts@.take(1)) =~= seq![parts@[0]@]);
            }
            assert(s@ =~= start + join(string_views(parts@.take(i + 1)), sep@));
        }
    }
    assert(parts@.take(parts.len() as int) =~= parts@);
}

/// A longer run of digits is worth at least as much as its prefix.
proof fn lemma_digits_value_grows(s: Seq<char>, k: int)
    requires
        0 <= k <= s.len(),
    ensures
        digits_value(s.take(k)) <= digits_value(s) || !all_digits(s),
    decreases s.len() - k,
{
    if k < s.len() && all_digits(s) {
        lemma_digits_value_grows(s, k + 1);
        assert(s.take(k + 1).drop_last() =~= s.take(k));
        assert(is_digit(s[k]));
    }
    if k == s.len() {
        assert(s.take(k) =~= s);
    }
}

} // verus!
