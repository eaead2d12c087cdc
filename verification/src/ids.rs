//! The names of runs.
//!
//! A run is named by 26 characters: when it began, to the millisecond, and
//! eighty random bits, so that names sort by time and two runs of one
//! millisecond still differ.
use vstd::prelude::*;
use crate::clock::{millis_of, now, Moment, Timestamp, MAX_SECS};
use crate::order::precedes;

verus! {

/// How many milliseconds a name tells apart.
pub const TIME_SPAN: u64 = 0x1_0000_0000_0000;

/// How many random parts a name may have.
pub const RANDOM_SPAN: u128 = 0x1_0000_0000_0000_0000_0000;

/// How many characters a name has.
pub const RUN_ID_LEN: u64 = 26;

/// The character of a number below 32: a digit, or a capital letter that is
/// none of I, L, O and U.
pub open spec fn crockford(d: int) -> char {
    if d < 10 {
        (48 + d) as char
    } else if d < 18 {
        (65 + (d - 10)) as char
    } else if d < 20 {
        (74 + (d - 18)) as char
    } else if d < 22 {
        (77 + (d - 20)) as char
    } else if d < 27 {
        (80 + (d - 22)) as char
    } else {
        (86 + (d - 27)) as char
    }
}

/// A number in `n` characters, the most significant first.
pub open spec fn crockford_text(v: int, n: nat) -> Seq<char>
    decreases n,
{
    if n == 0 {
        Seq::empty()
    } else {
        crockford_text(v / 32, (n - 1) as nat).push(crockford(v % 32))
    }
}

/// The number that a name spells.
pub open spec fn run_number(ms: int, random: int) -> int {
    (ms % TIME_SPAN as int) * RANDOM_SPAN + random % RANDOM_SPAN as int
}

/// The name of a run.
pub open spec fn run_id_text(ms: int, random: int) -> Seq<char> {
    crockford_text(run_number(ms, random), RUN_ID_LEN as nat)
}

/// When a run began, for its name: a clock that stands before 1970 counts as
/// 1970.
pub open spec fn naming_millis(at: Moment) -> int {
    if millis_of(at) < 0 {
        0
    } else {
        millis_of(at)
    }
}

/// The character of a number below 32.
fn crockford_char(d: u8) -> (r: char)
    requires
        d < 32,
    ensures
        r == crockford(d as int),
{
    if d < 10 {
        (48 + d) as char
    } else if d < 18 {
        (65 + (d - 10)) as char
    } else if d < 20 {
        (74 + (d - 18)) as char
    } else if d < 22 {
        (77 + (d - 20)) as char
    } else if d < 27 {
        (80 + (d - 22)) as char
    } else {
        (86 + (d - 27)) as char
    }
}

/// A number in `n` characters.
fn spell(v: u128, n: u64) -> (r: String)
    ensures
        r@ == crockford_text(v as int, n as nat),
    decreases n,
{
    if n == 0 {
        let s = String::new();
        proof {
            assert(s@ =~= Seq::empty());
        }
        s
    } else {
        let mut s = spell(v / 32, n - 1);
        s.push(crockford_char((v % 32) as u8));
        s
    }
}

/// The name of a run that began then, with those random bits.
pub fn format_run_id(ms: u64, random: u128) -> (r: String)
    ensures
        r@ == run_id_text(ms as int, random as int),
{
    let time: u128 = (ms % TIME_SPAN) as u128;
    let low: u128 = random % RANDOM_SPAN;
    spell(time * RANDOM_SPAN + low, RUN_ID_LEN)
}

/// The name of a run that begins at that instant, with those random bits.
pub fn run_id_at(at: &Timestamp, random: u128) -> (r: String)
    ensures
        r@ == run_id_text(naming_millis(at@), random as int),
{
    let ms: i64 = at.millis();
    let ms: u64 = if ms < 0 {
        0
    } else {
        ms as u64
    };
    format_run_id(ms, random)
}

/// `ulid::Ulid::new` and `ulid::Ulid::random`: the random part of a fresh
/// identifier, which is eighty bits long. Nothing else is claimed of it.
#[verifier::external_body]
fn random_80_bits() -> (r: u128)
    ensures
        r < RANDOM_SPAN,
{
    ulid::Ulid::new().random()
}

/// A fresh name, by the clock and by chance.
pub fn new_run_id() -> (r: String)
    ensures
        exists|at: Moment, random: int|
            0 <= random < RANDOM_SPAN && 0 <= at.secs <= MAX_SECS && 0 <= at.nanos < 1_000_000_000
                && r@ == #[trigger] run_id_text(naming_millis(at), random),
{
    let at = now();
    let random = random_80_bits();
    run_id_at(&at, random)
}

// ---- what follows for every name ---------------------------------------------------------

/// A greater digit has a greater character.
proof fn digits_keep_order(a: int, b: int)
    requires
        0 <= a < b < 32,
    ensures
        crockford(a) < crockford(b),
{
}

/// Texts of one length that are in order stay so, whatever is put behind them;
/// equal ones are put in order by what is put behind them.
proof fn precedes_behind(s: Seq<char>, t: Seq<char>, a: char, b: char)
    requires
        s.len() == t.len(),
        precedes(s, t) || (s == t && a < b),
    ensures
        precedes(s.push(a), t.push(b)),
    decreases s.len(),
{
    let x = s.push(a);
    let y = t.push(b);
    if s.len() > 0 {
        assert(x.drop_first() =~= s.drop_first().push(a));
        assert(y.drop_first() =~= t.drop_first().push(b));
        if s[0] == t[0] {
            precedes_behind(s.drop_first(), t.drop_first(), a, b);
        }
    }
}

/// Numbers that fit are spelled in their order.
proof fn spelling_keeps_order(v: int, w: int, n: nat)
    requires
        0 <= v < w < pow32(n),
    ensures
        precedes(crockford_text(v, n), crockford_text(w, n)),
    decreases n,
{
    if n > 0 {
        let m = (n - 1) as nat;
        spelling_has_length(v / 32, m);
        spelling_has_length(w / 32, m);
        if v / 32 < w / 32 {
            spelling_keeps_order(v / 32, w / 32, m);
        } else {
            digits_keep_order(v % 32, w % 32);
        }
        precedes_behind(
            crockford_text(v / 32, m),
            crockford_text(w / 32, m),
            crockford(v % 32),
            crockford(w % 32),
        );
    }
}

/// How many numbers fit in `n` characters.
pub open spec fn pow32(n: nat) -> int
    decreases n,
{
    if n == 0 {
        1
    } else {
        32 * pow32((n - 1) as nat)
    }
}

/// A spelling is as long as it was asked to be.
proof fn spelling_has_length(v: int, n: nat)
    ensures
        crockford_text(v, n).len() == n,
    decreases n,
{
    if n > 0 {
        spelling_has_length(v / 32, (n - 1) as nat);
    }
}

/// Every run's number fits in its name.
proof fn a_run_number_fits(ms: int, random: int)
    ensures
        0 <= run_number(ms, random) < pow32(RUN_ID_LEN as nat),
{
    reveal_with_fuel(pow32, 27);
    let t = ms % TIME_SPAN as int;
    let r = random % RANDOM_SPAN as int;
    assert(0 <= t * RANDOM_SPAN + r < TIME_SPAN * RANDOM_SPAN) by (nonlinear_arith)
        requires
            0 <= t < TIME_SPAN,
            0 <= r < RANDOM_SPAN,
    ;
}

/// A later run's name comes after an earlier one's, as long as the clock fits in
/// a name; of two runs of one millisecond the random bits decide.
pub proof fn names_sort_by_time(ms: int, random: int, later: int, other: int)
    requires
        0 <= ms <= later < TIME_SPAN,
        0 <= random < RANDOM_SPAN,
        0 <= other < RANDOM_SPAN,
        ms < later || (ms == later && random < other),
    ensures
        precedes(run_id_text(ms, random), run_id_text(later, other)),
{
    a_run_number_fits(ms, random);
    a_run_number_fits(later, other);
    assert(run_number(ms, random) < run_number(later, other)) by (nonlinear_arith)
        requires
            run_number(ms, random) == ms * RANDOM_SPAN + random,
            run_number(later, other) == later * RANDOM_SPAN + other,
            ms < later || (ms == later && random < other),
            0 <= random < RANDOM_SPAN,
            0 <= other < RANDOM_SPAN,
    ;
    spelling_keeps_order(run_number(ms, random), run_number(later, other), RUN_ID_LEN as nat);
}

/// A name is 26 characters long, and two runs that differ in when they began or
/// in their random bits have different names.
pub proof fn names_tell_runs_apart(ms: int, random: int, later: int, other: int)
    requires
        0 <= ms < TIME_SPAN,
        0 <= later < TIME_SPAN,
        0 <= random < RANDOM_SPAN,
        0 <= other < RANDOM_SPAN,
    ensures
        run_id_text(ms, random).len() == 26,
        run_id_text(ms, random) == run_id_text(later, other) ==> ms == later && random == other,
{
    spelling_has_length(run_number(ms, random), RUN_ID_LEN as nat);
    crate::order::precedes_irreflexive(run_id_text(ms, random));
    if ms < later || (ms == later && random < other) {
        names_sort_by_time(ms, random, later, other);
    } else if later < ms || (ms == later && other < random) {
        names_sort_by_time(later, other, ms, random);
    }
}

/// Every character of a name is a digit in base 32: the least one stands last, and
/// the rest is the name of the number without it. The digits are the ten figures
/// and the capital letters but for I, L, O and U.
pub proof fn a_name_is_spelled_digit_by_digit(v: int, n: nat)
    requires
        0 <= v,
    ensures
        crockford_text(v, n).len() == n,
        n > 0 ==> crockford_text(v, n).last() == "0123456789ABCDEFGHJKMNPQRSTVWXYZ"@[v % 32],
        n > 0 ==> crockford_text(v, n).drop_last() == crockford_text(v / 32, (n - 1) as nat),
{
    spelling_has_length(v, n);
    reveal_strlit("0123456789ABCDEFGHJKMNPQRSTVWXYZ");
    if n > 0 {
        assert(crockford_text(v, n).drop_last() =~= crockford_text(v / 32, (n - 1) as nat));
    }
}

/// The number of a run holds the millisecond before its random part, and neither
/// runs into the other.
pub proof fn a_run_number_keeps_its_parts(ms: int, random: int)
    requires
        0 <= ms < TIME_SPAN,
        0 <= random < RANDOM_SPAN,
    ensures
        run_number(ms, random) / (RANDOM_SPAN as int) == ms,
        run_number(ms, random) % (RANDOM_SPAN as int) == random,
{
}

} // verus!
