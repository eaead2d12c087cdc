//! Text as sequences of characters: the string operations the drill's
//! messages, names and numbers are built from.
use vstd::prelude::*;

verus! {

/// A text that may be absent, as characters.
pub open spec fn text_in(s: Option<&str>) -> Option<Seq<char>> {
    match s {
        Some(t) => Some(t@),
        None => None,
    }
}

/// `String::push` appends the character it is given to the end of the string.
pub assume_specification[ String::push ](s: &mut String, c: char)
    ensures
        final(s)@ == old(s)@.push(c),
;

/// The characters of each string, in order.
pub open spec fn texts(v: Seq<String>) -> Seq<Seq<char>> {
    Seq::new(v.len(), |i: int| v[i]@)
}

/// The pieces one after the other, with `sep` between each two.
pub open spec fn joined(parts: Seq<Seq<char>>, sep: Seq<char>) -> Seq<char>
    decreases parts.len(),
{
    if parts.len() == 0 {
        Seq::empty()
    } else if parts.len() == 1 {
        parts[0]
    } else {
        joined(parts.drop_last(), sep) + sep + parts.last()
    }
}

/// Joins the strings with `sep` between each two.
pub fn join(parts: &Vec<String>, sep: &str) -> (r: String)
    ensures
        r@ == joined(texts(parts@), sep@),
{
    let mut out = String::new();
    let mut i: usize = 0;
    proof {
        assert(texts(parts@).take(0) =~= Seq::empty());
    }
    while i < parts.len()
        invariant
            0 <= i <= parts.len(),
            out@ == joined(texts(parts@).take(i as int), sep@),
        decreases parts.len() - i,
    {
        let ghost prev = texts(parts@).take(i as int);
        let ghost next = texts(parts@).take(i + 1);
        proof {
            assert(next.drop_last() =~= prev);
            assert(next.last() == parts@[i as int]@);
        }
        if i > 0 {
            out.append(sep);
        }
        out.append(parts[i].as_str());
        proof {
            if i == 0 {
                assert(prev.len() == 0);
                assert(out@ =~= next[0]);
            }
        }
        i += 1;
    }
    proof {
        assert(texts(parts@).take(parts.len() as int) =~= texts(parts@));
    }
    out
}

/// Copies texts.
pub fn copy_texts(v: &Vec<String>) -> (r: Vec<String>)
    ensures
        r@ == v@,
{
    let mut out: Vec<String> = Vec::new();
    let mut i: usize = 0;
    while i < v.len()
        invariant
            0 <= i <= v.len(),
            out.len() == i,
            forall|j: int| 0 <= j < i ==> #[trigger] out@[j] == v@[j],
        decreases v.len() - i,
    {
        out.push(v[i].clone());
        i += 1;
    }
    proof {
        assert(out@ =~= v@);
    }
    out
}

/// The characters of a string as a vector.
pub fn chars_of(s: &str) -> (r: Vec<char>)
    ensures
        r@ == s@,
{
    let mut out: Vec<char> = Vec::new();
    for c in it: s.chars()
        invariant
            out@ == it.seq().take(it.index() as int),
            it.seq() == s@,
    {
        out.push(c);
        proof {
            assert(it.seq().take(it.index() + 1) =~= it.seq().take(it.index() as int).push(c));
        }
    }
    proof {
        assert(s@.take(s@.len() as int) =~= s@);
    }
    out
}

/// The string made of the characters `from..to`.
pub fn string_of(chars: &Vec<char>, from: usize, to: usize) -> (r: String)
    requires
        from <= to <= chars.len(),
    ensures
        r@ == chars@.subrange(from as int, to as int),
{
    let mut out = String::new();
    let mut i: usize = from;
    proof {
        assert(chars@.subrange(from as int, from as int) =~= Seq::empty());
    }
    while i < to
        invariant
            from <= i <= to <= chars.len(),
            out@ == chars@.subrange(from as int, i as int),
        decreases to - i,
    {
        out.push(chars[i]);
        proof {
            assert(chars@.subrange(from as int, i + 1) =~= chars@.subrange(
                from as int,
                i as int,
            ).push(chars@[i as int]));
        }
        i += 1;
    }
    out
}

/// The decimal digit of a number below ten.
pub open spec fn digit(d: nat) -> char {
    (48 + d) as char
}

/// A natural number in decimal, without leading zeros.
pub open spec fn decimal(n: nat) -> Seq<char>
    decreases n,
{
    if n < 10 {
        seq![digit(n)]
    } else {
        decimal(n / 10).push(digit(n % 10))
    }
}

/// An integer in decimal, with a minus sign before a negative one.
pub open spec fn decimal_int(n: int) -> Seq<char> {
    if n < 0 {
        "-"@ + decimal((-n) as nat)
    } else {
        decimal(n as nat)
    }
}

/// A number in decimal.
pub fn u64_text(n: u64) -> (r: String)
    ensures
        r@ == decimal(n as nat),
    decreases n,
{
    if n < 10 {
        let mut s = String::new();
        s.push((48 + n as u8) as char);
        proof {
            assert(s@ =~= seq![digit(n as nat)]);
        }
        s
    } else {
        let mut s = u64_text(n / 10);
        s.push((48 + (n % 10) as u8) as char);
        s
    }
}

/// A signed number in decimal.
pub fn i64_text(n: i64) -> (r: String)
    ensures
        r@ == decimal_int(n as int),
{
    if n < 0 {
        let below: i64 = -(n + 1);
        let magnitude: u64 = below as u64 + 1;
        let mut s = "-".to_owned();
        s.append(u64_text(magnitude).as_str());
        s
    } else {
        u64_text(n as u64)
    }
}


/// White space, as the Unicode property of that name has it.
pub open spec fn is_space(c: char) -> bool {
    let n = c as u32;
    ||| 0x9 <= n <= 0xd
    ||| n == 0x20
    ||| n == 0x85
    ||| n == 0xa0
    ||| n == 0x1680
    ||| 0x2000 <= n <= 0x200a
    ||| n == 0x2028
    ||| n == 0x2029
    ||| n == 0x202f
    ||| n == 0x205f
    ||| n == 0x3000
}

/// Whether a character is white space.
pub fn char_is_space(c: char) -> (r: bool)
    ensures
        r == is_space(c),
{
    let n: u32 = c as u32;
    (0x9 <= n && n <= 0xd) || n == 0x20 || n == 0x85 || n == 0xa0 || n == 0x1680 || (0x2000 <= n
        && n <= 0x200a) || n == 0x2028 || n == 0x2029 || n == 0x202f || n == 0x205f || n == 0x3000
}

/// White space and nothing else.
pub open spec fn blank(s: Seq<char>) -> bool {
    forall|i: int| 0 <= i < s.len() ==> is_space(#[trigger] s[i])
}

/// Whether a string is empty once its white space is trimmed.
pub fn is_blank(s: &str) -> (r: bool)
    ensures
        r == blank(s@),
{
    let chars = chars_of(s);
    let mut i: usize = 0;
    while i < chars.len()
        invariant
            0 <= i <= chars.len(),
            chars@ == s@,
            forall|j: int| 0 <= j < i ==> is_space(#[trigger] s@[j]),
        decreases chars.len() - i,
    {
        if !char_is_space(chars[i]) {
            return false;
        }
        i += 1;
    }
    true
}

/// The text without its leading white space.
pub open spec fn trimmed_start(s: Seq<char>) -> Seq<char>
    decreases s.len(),
{
    if s.len() > 0 && is_space(s[0]) {
        trimmed_start(s.drop_first())
    } else {
        s
    }
}

/// The text without its trailing white space.
pub open spec fn trimmed_end(s: Seq<char>) -> Seq<char>
    decreases s.len(),
{
    if s.len() > 0 && is_space(s.last()) {
        trimmed_end(s.drop_last())
    } else {
        s
    }
}

/// The text without white space at either end.
pub open spec fn trimmed(s: Seq<char>) -> Seq<char> {
    trimmed_end(trimmed_start(s))
}

/// Copies the text without white space at either end.
pub fn trim(s: &str) -> (r: String)
    ensures
        r@ == trimmed(s@),
{
    let chars = chars_of(s);
    let n: usize = chars.len();
    let mut from: usize = 0;
    proof {
        assert(s@.subrange(0, n as int) =~= s@);
    }
    while from < n && char_is_space(chars[from])
        invariant
            0 <= from <= n == chars.len(),
            chars@ == s@,
            trimmed_start(s@) == trimmed_start(s@.subrange(from as int, n as int)),
        decreases n - from,
    {
        proof {
            assert(s@.subrange(from as int, n as int).drop_first() =~= s@.subrange(
                from + 1,
                n as int,
            ));
        }
        from += 1;
    }
    proof {
        assert(trimmed_start(s@) == s@.subrange(from as int, n as int));
    }
    let mut to: usize = n;
    while to > from && char_is_space(chars[to - 1])
        invariant
            0 <= from <= to <= n == chars.len(),
            chars@ == s@,
            trimmed(s@) == trimmed_end(s@.subrange(from as int, to as int)),
        decreases to,
    {
        proof {
            assert(s@.subrange(from as int, to as int).drop_last() =~= s@.subrange(
                from as int,
                to - 1,
            ));
        }
        to -= 1;
    }
    string_of(&chars, from, to)
}

/// An ASCII decimal digit.
pub open spec fn is_digit(c: char) -> bool {
    '0' <= c <= '9'
}

/// The number that a run of decimal digits spells.
pub open spec fn digits_value(s: Seq<char>) -> nat
    decreases s.len(),
{
    if s.len() == 0 {
        0
    } else {
        digits_value(s.drop_last()) * 10 + (s.last() as nat - 48) as nat
    }
}

/// A run of at least one decimal digit.
pub open spec fn is_digits(s: Seq<char>) -> bool {
    s.len() > 0 && forall|i: int| 0 <= i < s.len() ==> is_digit(#[trigger] s[i])
}

/// The integer that a text spells: an optional sign and then digits.
pub open spec fn spelled(s: Seq<char>) -> Option<int> {
    if s.len() > 0 && s[0] == '-' {
        if is_digits(s.drop_first()) {
            Some(-(digits_value(s.drop_first()) as int))
        } else {
            None
        }
    } else if s.len() > 0 && s[0] == '+' {
        if is_digits(s.drop_first()) {
            Some(digits_value(s.drop_first()) as int)
        } else {
            None
        }
    } else if is_digits(s) {
        Some(digits_value(s) as int)
    } else {
        None
    }
}

/// The text as a 64-bit signed integer, where it spells one that fits.
pub open spec fn spelled_i64(s: Seq<char>) -> Option<i64> {
    match spelled(s) {
        Some(n) => if i64::MIN <= n <= i64::MAX {
            Some(n as i64)
        } else {
            None
        },
        None => None,
    }
}

/// The number that the digits `from..` spell, where there is at least one of
/// them, all are digits, and the number is at most 2^63.
fn digits_from(chars: &Vec<char>, from: usize) -> (r: Option<u64>)
    requires
        from <= chars.len(),
    ensures
        ({
            let s = chars@.subrange(from as int, chars.len() as int);
            r == (if is_digits(s) && digits_value(s) <= 0x8000_0000_0000_0000 {
                Some(digits_value(s) as u64)
            } else {
                None
            })
        }),
{
    let ghost whole = chars@.subrange(from as int, chars.len() as int);
    if from == chars.len() {
        return None;
    }
    let limit: u64 = 0x8000_0000_0000_0000;
    let mut value: u64 = 0;
    let mut over: bool = false;
    let mut i: usize = from;
    proof {
        assert(chars@.subrange(from as int, from as int) =~= Seq::empty());
    }
    while i < chars.len()
        invariant
            from <= i <= chars.len(),
            whole == chars@.subrange(from as int, chars.len() as int),
            limit == 0x8000_0000_0000_0000,
            value <= limit,
            forall|j: int| 0 <= j < i - from ==> is_digit(#[trigger] whole[j]),
            over ==> digits_value(chars@.subrange(from as int, i as int)) > limit,
            !over ==> digits_value(chars@.subrange(from as int, i as int)) == value,
        decreases chars.len() - i,
    {
        let c = chars[i];
        proof {
            assert(whole[i - from] == c);
            assert(chars@.subrange(from as int, i + 1).drop_last() =~= chars@.subrange(
                from as int,
                i as int,
            ));
        }
        if c < '0' || c > '9' {
            return None;
        }
        let d: u64 = (c as u32 - 48) as u64;
        if !over {
            if value > (limit - d) / 10 {
                over = true;
            } else {
                value = value * 10 + d;
            }
        }
        i += 1;
    }
    if over {
        None
    } else {
        Some(value)
    }
}

/// Reads a text as a 64-bit signed integer.
pub fn parse_i64(s: &str) -> (r: Option<i64>)
    ensures
        r == spelled_i64(s@),
{
    let chars = chars_of(s);
    parse_i64_chars(&chars)
}

/// Reads characters as a 64-bit signed integer.
pub fn parse_i64_chars(chars: &Vec<char>) -> (r: Option<i64>)
    ensures
        r == spelled_i64(chars@),
{
    let limit: u64 = 0x8000_0000_0000_0000;
    proof {
        assert(chars@.subrange(0, chars.len() as int) =~= chars@);
        if chars.len() > 0 {
            assert(chars@.subrange(1, chars.len() as int) =~= chars@.drop_first());
        }
    }
    if chars.len() > 0 && chars[0] == '-' {
        match digits_from(chars, 1) {
            Some(m) => if m == limit {
                Some(i64::MIN)
            } else {
                Some(-(m as i64))
            },
            None => None,
        }
    } else {
        let from: usize = if chars.len() > 0 && chars[0] == '+' {
            1
        } else {
            0
        };
        match digits_from(chars, from) {
            Some(m) => if m < limit {
                Some(m as i64)
            } else {
                None
            },
            None => None,
        }
    }
}

/// A number in decimal is digits, and they have its value.
proof fn digits_have_the_value(n: nat)
    ensures
        is_digits(decimal(n)),
        digits_value(decimal(n)) == n,
    decreases n,
{
    reveal_with_fuel(digits_value, 2);
    let s = decimal(n);
    if n < 10 {
        assert(s.drop_last() =~= Seq::empty());
        assert(s.last() == digit(n));
    } else {
        let rest = decimal(n / 10);
        digits_have_the_value(n / 10);
        assert(s.drop_last() =~= rest);
        assert forall|i: int| 0 <= i < s.len() implies is_digit(#[trigger] s[i]) by {
            if i < rest.len() {
                assert(s[i] == rest[i]);
            }
        }
    }
}

/// A number that was written in decimal reads back as itself; it is written in
/// digits, with a minus sign before a negative one, and the last digit counts
/// what ten does not divide.
pub proof fn a_number_reads_back(n: i64)
    ensures
        spelled_i64(decimal_int(n as int)) == Some(n),
        n >= 0 ==> decimal_int(n as int).last() == ((n % 10) + 48) as char,
        n < 0 ==> decimal_int(n as int)[0] == '-' && decimal_int(n as int).len() > 1,
        forall|i: int|
            1 <= i < decimal_int(n as int).len() ==> '0' <= #[trigger] decimal_int(n as int)[i]
                <= '9',
{
    reveal_strlit("-");
    let s = decimal_int(n as int);
    if n < 0 {
        let digits = decimal((-(n as int)) as nat);
        digits_have_the_value((-(n as int)) as nat);
        assert(s.drop_first() =~= digits);
        assert forall|i: int| 1 <= i < s.len() implies '0' <= #[trigger] s[i] <= '9' by {
            assert(s[i] == digits[i - 1]);
            assert(is_digit(digits[i - 1]));
        }
    } else {
        digits_have_the_value(n as nat);
        assert(is_digit(s[0]));
        assert forall|i: int| 1 <= i < s.len() implies '0' <= #[trigger] s[i] <= '9' by {
            assert(is_digit(s[i]));
        }
    }
}

/// Only a sign and digits spell a number, and one that does not fit is none.
pub proof fn only_digits_spell_a_number(s: Seq<char>, i: int)
    ensures
        s.len() == 0 ==> spelled_i64(s) is None,
        spelled_i64(s) is Some && 1 <= i < s.len() ==> '0' <= s[i] <= '9',
        spelled_i64(s) is Some ==> ('0' <= s[0] <= '9' || s[0] == '-' || s[0] == '+'),
        spelled_i64(s) is Some && s[0] == '-' ==> spelled_i64(s)->0 <= 0 && s.len() > 1,
        spelled_i64(s) is Some && s[0] != '-' ==> spelled_i64(s)->0 >= 0,
{
    if spelled_i64(s) is Some {
        if s[0] == '-' || s[0] == '+' {
            let rest = s.drop_first();
            if 1 <= i < s.len() {
                assert(is_digit(rest[i - 1]));
            }
        } else {
            assert(is_digit(s[0]));
            if 1 <= i < s.len() {
                assert(is_digit(s[i]));
            }
        }
    }
}

/// Bytes read as the characters of the same numbers.
pub open spec fn latin(b: Seq<u8>) -> Seq<char> {
    Seq::new(b.len(), |i: int| b[i] as char)
}

/// Reads bytes as a 64-bit signed integer; only ASCII spells one.
pub fn parse_i64_bytes(b: &Vec<u8>) -> (r: Option<i64>)
    ensures
        r == spelled_i64(latin(b@)),
{
    let mut chars: Vec<char> = Vec::new();
    let mut i: usize = 0;
    while i < b.len()
        invariant
            0 <= i <= b.len(),
            chars.len() == i,
            forall|j: int| 0 <= j < i ==> chars@[j] == b@[j] as char,
        decreases b.len() - i,
    {
        chars.push(b[i] as char);
        i += 1;
    }
    proof {
        assert(chars@ =~= latin(b@));
    }
    parse_i64_chars(&chars)
}


/// Whether a text opens with another.
pub fn starts_with(s: &str, opening: &str) -> (r: bool)
    ensures
        r == opening@.is_prefix_of(s@),
{
    let a = chars_of(s);
    let b = chars_of(opening);
    if b.len() > a.len() {
        return false;
    }
    let mut i: usize = 0;
    while i < b.len()
        invariant
            0 <= i <= b.len() <= a.len(),
            a@ == s@,
            b@ == opening@,
            forall|j: int| 0 <= j < i ==> a@[j] == b@[j],
        decreases b.len() - i,
    {
        if a[i] != b[i] {
            proof {
                assert(s@.subrange(0, b.len() as int)[i as int] == s@[i as int]);
            }
            return false;
        }
        i += 1;
    }
    proof {
        assert(opening@ =~= s@.subrange(0, b.len() as int));
    }
    true
}

/// A text without its opening, where it has that opening.
pub open spec fn without_opening(s: Seq<char>, opening: Seq<char>) -> Option<Seq<char>> {
    if opening.is_prefix_of(s) {
        Some(s.skip(opening.len() as int))
    } else {
        None
    }
}

/// Takes a text's opening off, where it has that opening.
pub fn strip_prefix(s: &str, opening: &str) -> (r: Option<String>)
    ensures
        r is Some <==> without_opening(s@, opening@) is Some,
        r is Some ==> Some(r->0@) == without_opening(s@, opening@),
{
    if starts_with(s, opening) {
        let chars = chars_of(s);
        let from: usize = opening.unicode_len();
        proof {
            assert(s@.skip(opening@.len() as int) =~= s@.subrange(
                from as int,
                chars.len() as int,
            ));
        }
        Some(string_of(&chars, from, chars.len()))
    } else {
        None
    }
}


/// The text occurs in another, from that index on.
pub open spec fn occurs_at(s: Seq<char>, needle: Seq<char>, i: int) -> bool {
    0 <= i <= s.len() - needle.len() && s.subrange(i, i + needle.len()) == needle
}

/// The text occurs in another.
pub open spec fn occurs(s: Seq<char>, needle: Seq<char>) -> bool {
    exists|i: int| occurs_at(s, needle, i)
}

/// The first index, from `from` on, at which a text occurs in another.
pub open spec fn first_at(s: Seq<char>, needle: Seq<char>, from: int) -> Option<int>
    decreases s.len() + 1 - from,
{
    if from > s.len() {
        None
    } else if occurs_at(s, needle, from) {
        Some(from)
    } else {
        first_at(s, needle, from + 1)
    }
}

/// Whether the needle stands at an index.
fn stands_at(s: &Vec<char>, needle: &Vec<char>, i: usize) -> (r: bool)
    requires
        i <= s.len(),
    ensures
        r == occurs_at(s@, needle@, i as int),
{
    if needle.len() > s.len() - i {
        return false;
    }
    let mut k: usize = 0;
    while k < needle.len()
        invariant
            0 <= k <= needle.len(),
            i + needle.len() <= s.len(),
            forall|j: int| 0 <= j < k ==> s@[i + j] == needle@[j],
        decreases needle.len() - k,
    {
        if s[i + k] != needle[k] {
            proof {
                assert(s@.subrange(i as int, i + needle@.len())[k as int] == s@[i + k]);
            }
            return false;
        }
        k += 1;
    }
    proof {
        assert(s@.subrange(i as int, i + needle@.len()) =~= needle@);
    }
    true
}

/// Finds the first index, from `from` on, at which the needle stands.
pub fn find_from(s: &Vec<char>, needle: &Vec<char>, from: usize) -> (r: Option<usize>)
    requires
        from <= s.len(),
    ensures
        match r {
            Some(i) => first_at(s@, needle@, from as int) == Some(i as int) && from <= i && i
                + needle.len() <= s.len(),
            None => first_at(s@, needle@, from as int) is None,
        },
{
    let mut i: usize = from;
    loop
        invariant
            from <= i <= s.len(),
            first_at(s@, needle@, from as int) == first_at(s@, needle@, i as int),
        decreases s.len() - i,
    {
        if stands_at(s, needle, i) {
            return Some(i);
        }
        if i == s.len() {
            proof {
                assert(first_at(s@, needle@, s.len() + 1) is None);
            }
            return None;
        }
        i += 1;
    }
}

/// A text occurs in another exactly where it has a first index.
pub proof fn occurs_has_first(s: Seq<char>, needle: Seq<char>, from: int)
    requires
        0 <= from,
    ensures
        first_at(s, needle, from) is Some <==> exists|i: int| from <= i && occurs_at(s, needle, i),
    decreases s.len() + 1 - from,
{
    if from <= s.len() {
        if !occurs_at(s, needle, from) {
            occurs_has_first(s, needle, from + 1);
            if exists|i: int| from <= i && occurs_at(s, needle, i) {
                let i = choose|i: int| from <= i && occurs_at(s, needle, i);
                assert(from + 1 <= i && occurs_at(s, needle, i));
            }
        }
    }
}

/// Each of the pieces that were put together stands in what they were put
/// together to.
pub proof fn a_piece_is_found_again(parts: Seq<Seq<char>>, sep: Seq<char>, i: int)
    requires
        0 <= i < parts.len(),
    ensures
        occurs(joined(parts, sep), parts[i]),
    decreases parts.len(),
{
    let whole = joined(parts, sep);
    if parts.len() == 1 {
        assert(whole.subrange(0, parts[0].len() as int) =~= parts[0]);
        assert(occurs_at(whole, parts[0], 0));
    } else if i == parts.len() - 1 {
        let at = (whole.len() - parts[i].len()) as int;
        assert(whole.subrange(at, at + parts[i].len()) =~= parts[i]);
        assert(occurs_at(whole, parts[i], at));
    } else {
        let rest = joined(parts.drop_last(), sep);
        a_piece_is_found_again(parts.drop_last(), sep, i);
        assert(parts.drop_last()[i] == parts[i]);
        let at = choose|at: int| occurs_at(rest, parts[i], at);
        assert(whole.subrange(at, at + parts[i].len()) =~= rest.subrange(at, at + parts[i].len()));
        assert(occurs_at(whole, parts[i], at));
    }
}

/// A text stands in whatever it is put into.
pub proof fn found_within(before: Seq<char>, s: Seq<char>, after: Seq<char>, needle: Seq<char>)
    requires
        occurs(s, needle),
    ensures
        occurs(before + s + after, needle),
{
    let at = choose|at: int| occurs_at(s, needle, at);
    let whole = before + s + after;
    let from = before.len() + at;
    assert(whole.subrange(from, from + needle.len()) =~= s.subrange(at, at + needle.len()));
    assert(occurs_at(whole, needle, from));
}

/// Whether a text occurs in another.
pub fn contains(s: &str, needle: &str) -> (r: bool)
    ensures
        r == occurs(s@, needle@),
{
    let a = chars_of(s);
    let b = chars_of(needle);
    proof {
        occurs_has_first(s@, needle@, 0);
        if occurs(s@, needle@) {
            let i = choose|i: int| occurs_at(s@, needle@, i);
            assert(0 <= i && occurs_at(s@, needle@, i));
        }
    }
    find_from(&a, &b, 0).is_some()
}

/// What is found is the first of its kind: it stands there, and nowhere before.
pub proof fn what_is_found_is_the_first(s: Seq<char>, needle: Seq<char>, from: int, k: int)
    requires
        0 <= from,
    ensures
        first_at(s, needle, from) matches Some(i) ==> from <= i && i + needle.len() <= s.len()
            && s.subrange(i, i + needle.len()) == needle && (from <= k < i ==> !(k + needle.len()
            <= s.len() && s.subrange(k, k + needle.len()) == needle)),
        first_at(s, needle, from) is None ==> !(from <= k && k + needle.len() <= s.len()
            && s.subrange(k, k + needle.len()) == needle),
    decreases s.len() + 1 - from,
{
    if from <= s.len() && !occurs_at(s, needle, from) {
        what_is_found_is_the_first(s, needle, from + 1, k);
    }
}

/// What is left when the spaces around a text are taken away neither begins nor
/// ends with one, and only spaces were taken away.
pub proof fn only_spaces_are_trimmed(s: Seq<char>)
    ensures
        trimmed(s).len() > 0 ==> !is_space(trimmed(s)[0]) && !is_space(trimmed(s).last()),
        exists|a: int, b: int|
            0 <= a <= b <= s.len() && trimmed(s) == #[trigger] s.subrange(a, b) && blank(s.take(a))
                && blank(s.skip(b)),
        is_space(' ') && is_space('\n') && is_space('\t') && is_space('\r'),
        forall|c: char| '!' <= c <= '~' ==> !is_space(c),
{
    trimmed_from(s);
    let start = trimmed_start(s);
    let a = choose|a: int| 0 <= a <= s.len() && start == s.skip(a) && #[trigger] blank(s.take(a));
    trimmed_to(start);
    let n = choose|n: int|
        0 <= n <= start.len() && trimmed(s) == start.take(n) && #[trigger] blank(start.skip(n));
    let b = a + n;
    assert(start.take(n) =~= s.subrange(a, b));
    assert(start.skip(n) =~= s.skip(b));
    if n > 0 {
        assert(trimmed(s)[0] == start[0]);
    }
}

proof fn trimmed_from(s: Seq<char>)
    ensures
        exists|a: int|
            0 <= a <= s.len() && trimmed_start(s) == s.skip(a) && #[trigger] blank(s.take(a)),
        trimmed_start(s).len() > 0 ==> !is_space(trimmed_start(s)[0]),
    decreases s.len(),
{
    if s.len() > 0 && is_space(s[0]) {
        let rest = s.drop_first();
        trimmed_from(rest);
        let a = choose|a: int|
            0 <= a <= rest.len() && trimmed_start(rest) == rest.skip(a) && #[trigger] blank(
                rest.take(a),
            );
        assert(rest.skip(a) =~= s.skip(a + 1));
        assert forall|i: int| 0 <= i < s.take(a + 1).len() implies is_space(
            #[trigger] s.take(a + 1)[i],
        ) by {
            if i > 0 {
                assert(s.take(a + 1)[i] == rest.take(a)[i - 1]);
            }
        }
        assert(blank(s.take(a + 1)));
    } else {
        assert(s.skip(0) =~= s);
        assert(blank(s.take(0)));
    }
}

proof fn trimmed_to(s: Seq<char>)
    ensures
        exists|n: int|
            0 <= n <= s.len() && trimmed_end(s) == s.take(n) && #[trigger] blank(s.skip(n)),
        trimmed_end(s).len() > 0 ==> !is_space(trimmed_end(s).last()),
    decreases s.len(),
{
    if s.len() > 0 && is_space(s.last()) {
        let rest = s.drop_last();
        trimmed_to(rest);
        let n = choose|n: int|
            0 <= n <= rest.len() && trimmed_end(rest) == rest.take(n) && #[trigger] blank(
                rest.skip(n),
            );
        assert(rest.take(n) =~= s.take(n));
        assert forall|i: int| 0 <= i < s.skip(n).len() implies is_space(#[trigger] s.skip(n)[i]) by {
            if i < rest.skip(n).len() {
                assert(s.skip(n)[i] == rest.skip(n)[i]);
            }
        }
        assert(blank(s.skip(n)));
    } else {
        assert(s.take(s.len() as int) =~= s);
        assert(blank(s.skip(s.len() as int)));
    }
}

/// A sign before a number, or a zero, does not change what it spells.
pub proof fn a_plus_and_a_zero_change_nothing(n: i64)
    requires
        n >= 0,
    ensures
        spelled_i64(seq!['+'] + decimal_int(n as int)) == Some(n),
        spelled_i64(seq!['0'] + decimal_int(n as int)) == Some(n),
        n > 0 ==> spelled_i64(seq!['-'] + decimal_int(n as int)) == Some((-n) as i64),
{
    let s = decimal(n as nat);
    digits_have_the_value(n as nat);
    assert((seq!['+'] + s).drop_first() =~= s);
    assert((seq!['-'] + s).drop_first() =~= s);
    a_zero_adds_nothing(s);
    let t = seq!['0'] + s;
    assert forall|i: int| 0 <= i < t.len() implies is_digit(#[trigger] t[i]) by {
        if i > 0 {
            assert(t[i] == s[i - 1]);
        }
    }
}

proof fn a_zero_adds_nothing(s: Seq<char>)
    ensures
        digits_value(seq!['0'] + s) == digits_value(s),
    decreases s.len(),
{
    reveal_with_fuel(digits_value, 2);
    let t = seq!['0'] + s;
    if s.len() == 0 {
        assert(t.drop_last() =~= Seq::<char>::empty());
        assert(t.last() == '0');
    } else {
        assert(t.drop_last() =~= seq!['0'] + s.drop_last());
        assert(t.last() == s.last());
        a_zero_adds_nothing(s.drop_last());
    }
}

/// What stands in a piece stands in what the pieces are joined to.
pub proof fn what_a_piece_holds_is_found_again(
    parts: Seq<Seq<char>>,
    sep: Seq<char>,
    i: int,
    needle: Seq<char>,
)
    requires
        0 <= i < parts.len(),
        occurs(parts[i], needle),
    ensures
        occurs(joined(parts, sep), needle),
{
    let (whole, part) = (joined(parts, sep), parts[i]);
    a_piece_is_found_again(parts, sep, i);
    let at = choose|at: int| occurs_at(whole, part, at);
    let before = whole.take(at);
    let rest = whole.skip(at + part.len());
    found_within(before, part, rest, needle);
    assert(whole.subrange(at, at + part.len()) == part);
    assert(before + part + rest =~= whole);
}

} // verus!
