//! Reading decimal text back: the inverse of the rendering in `text`.

use vstd::prelude::*;
use vstd::string::*;
use crate::text::{
    date_text, digit_char, digit_value, distribution_key_text, enrolment_key_text, entry_string,
    entry_text, fraction_text, int_text, is_digit, nat_text, padded_text, probability_text,
};
use crate::types::Date;
use crate::types::MILLION;

verus! {

/// Past this bound a scanned value stops growing, so that it fits the machine.
pub const SCAN_CAP: u64 = 10_000_000_000;

/// The value of a digit; any other character counts as zero.
pub open spec fn lenient_digit(c: char) -> nat {
    if is_digit(c) {
        digit_value(c) as nat
    } else {
        0
    }
}

/// The number that a run of characters writes when read as decimal digits,
/// as long as it stays under `SCAN_CAP`.
pub open spec fn lenient_value(s: Seq<char>) -> nat
    decreases s.len(),
{
    if s.len() == 0 {
        0
    } else {
        let front = lenient_value(s.drop_last());
        if front >= SCAN_CAP {
            front
        } else {
            front * 10 + lenient_digit(s.last())
        }
    }
}

/// Ten to the power `k`.
pub open spec fn pow10(k: nat) -> nat
    decreases k,
{
    if k == 0 {
        1
    } else {
        10 * pow10((k - 1) as nat)
    }
}

/// Whether every character of `s` is a decimal digit.
pub open spec fn all_digits(s: Seq<char>) -> bool {
    forall|k: int| 0 <= k < s.len() ==> is_digit(#[trigger] s[k])
}

/// The character of a digit is a digit and reads back as the digit.
pub proof fn lemma_digit_char(d: int)
    requires
        0 <= d < 10,
    ensures
        is_digit(digit_char(d)),
        lenient_digit(digit_char(d)) == d,
{
}

/// The decimal form of a number is a non-empty run of digits that reads back
/// as the number.
pub proof fn lemma_nat_text(n: nat)
    ensures
        nat_text(n).len() >= 1,
        all_digits(nat_text(n)),
        n < SCAN_CAP ==> lenient_value(nat_text(n)) == n,
    decreases n,
{
    if n < 10 {
        lemma_digit_char(n as int);
        let s = nat_text(n);
        assert(s.drop_last() =~= Seq::<char>::empty());
        assert(lenient_value(s.drop_last()) == 0);
    } else {
        lemma_nat_text(n / 10);
        lemma_digit_char((n % 10) as int);
        let s = nat_text(n);
        assert(s.drop_last() =~= nat_text(n / 10));
        assert(s.last() == digit_char((n % 10) as int));
    }
}

/// A number in a fixed width is that many digits, and reads back as the
/// number when the width holds it.
pub proof fn lemma_padded_text(n: nat, width: nat)
    ensures
        padded_text(n, width).len() == width,
        all_digits(padded_text(n, width)),
        width <= 9 && n < pow10(width) ==> lenient_value(padded_text(n, width)) == n,
    decreases width,
{
    if width > 0 {
        lemma_padded_text(n / 10, (width - 1) as nat);
        lemma_digit_char((n % 10) as int);
        let s = padded_text(n, width);
        assert(s.drop_last() =~= padded_text(n / 10, (width - 1) as nat));
        assert(s.last() == digit_char((n % 10) as int));
        lemma_pow10_bound(width);
        lemma_pow10_bound((width - 1) as nat);
    }
}

/// A power of ten is at least one, and up to the ninth it stays under the
/// bound of scanning.
pub proof fn lemma_pow10_bound(k: nat)
    ensures
        pow10(k) >= 1,
        k <= 9 ==> pow10(k) * 10 <= SCAN_CAP,
    decreases k,
{
    reveal_with_fuel(pow10, 11);
    if k > 9 {
        lemma_pow10_bound((k - 1) as nat);
    }
}

/// The digits of a fraction are between one and `width` digits, and read
/// back, scaled to the full width, as the fraction.
pub proof fn lemma_fraction_text(f: nat, width: nat)
    requires
        0 < f < pow10(width),
        width <= 9,
    ensures
        1 <= fraction_text(f, width).len() <= width,
        all_digits(fraction_text(f, width)),
        lenient_value(fraction_text(f, width)) * pow10(
            (width - fraction_text(f, width).len()) as nat,
        ) == f,
    decreases width,
{
    if width == 0 {
    } else if f % 10 == 0 {
        lemma_fraction_text(f / 10, (width - 1) as nat);
        let t = fraction_text(f / 10, (width - 1) as nat);
        let gap = (width - 1 - t.len()) as nat;
        assert(fraction_text(f, width) == t);
        assert(pow10((width - t.len()) as nat) == 10 * pow10(gap));
        assert(lenient_value(t) * (10 * pow10(gap)) == 10 * (lenient_value(t) * pow10(gap)))
            by (nonlinear_arith);
        assert(lenient_value(t) * pow10((width - t.len()) as nat) == f);
    } else {
        lemma_padded_text(f, width);
        let t = padded_text(f, width);
        assert(fraction_text(f, width) == t);
        assert(pow10((width - t.len()) as nat) == 1);
        assert(lenient_value(t) == f);
        assert(lenient_value(t) * pow10((width - t.len()) as nat) == f);
    }
}

/// Whether `at` is the first place in `s` where `c` stands.
pub open spec fn first_at(s: Seq<char>, c: char, at: int) -> bool {
    &&& 0 <= at < s.len()
    &&& s[at] == c
    &&& forall|j: int| 0 <= j < at ==> s[j] != c
}

/// Whether `c` stands nowhere in `s`.
pub open spec fn absent(s: Seq<char>, c: char) -> bool {
    forall|j: int| 0 <= j < s.len() ==> s[j] != c
}

/// The first place in `s` where `c` stands, if it stands anywhere.
pub fn find_first(s: &str, c: char) -> (r: Option<usize>)
    ensures
        match r {
            Some(at) => first_at(s@, c, at as int),
            None => absent(s@, c),
        },
{
    let n = s.unicode_len();
    let mut i: usize = 0;
    while i < n
        invariant
            i <= n,
            n == s@.len(),
            forall|j: int| 0 <= j < i ==> s@[j] != c,
        decreases n - i,
    {
        if s.get_char(i) == c {
            return Some(i);
        }
        i += 1;
    }
    None
}

/// Reads `s` as decimal digits, counting any other character as zero and
/// holding the value once it passes `SCAN_CAP`.
pub fn scan_number(s: &str) -> (r: u64)
    ensures
        r == lenient_value(s@),
{
    let n = s.unicode_len();
    let mut v: u64 = 0;
    let mut i: usize = 0;
    while i < n
        invariant
            i <= n,
            n == s@.len(),
            v == lenient_value(s@.subrange(0, i as int)),
            v <= 10 * SCAN_CAP + 9,
        decreases n - i,
    {
        let c = s.get_char(i);
        proof {
            let t = s@.subrange(0, i + 1);
            assert(t.drop_last() =~= s@.subrange(0, i as int));
            assert(t.last() == c);
        }
        if v < SCAN_CAP {
            let d: u64 = if '0' <= c && c <= '9' {
                (c as u32 - '0' as u32) as u64
            } else {
                0
            };
            v = v * 10 + d;
        }
        i += 1;
    }
    assert(s@.subrange(0, n as int) =~= s@);
    v
}

/// Ten to the power `k`.
fn pow10_u64(k: u32) -> (r: u64)
    requires
        k <= 9,
    ensures
        r == pow10(k as nat),
{
    let mut r: u64 = 1;
    let mut i: u32 = 0;
    while i < k
        invariant
            i <= k <= 9,
            r == pow10(i as nat),
        decreases k - i,
    {
        proof {
            lemma_pow10_bound(i as nat);
        }
        r = r * 10;
        i += 1;
    }
    r
}

/// In a text made of a part without `c`, then `c`, then a rest, the first
/// `c` stands right after the first part.
pub proof fn lemma_split_point(head: Seq<char>, c: char, tail: Seq<char>, at: int)
    requires
        absent(head, c),
        first_at(head + seq![c] + tail, c, at),
    ensures
        at == head.len(),
        (head + seq![c] + tail).subrange(0, at) == head,
        (head + seq![c] + tail).subrange(at + 1, (head + seq![c] + tail).len() as int) == tail,
{
    let whole = head + seq![c] + tail;
    if at < head.len() {
        assert(whole[at] == head[at]);
    }
    if at > head.len() {
        assert(whole[head.len() as int] == c);
    }
    assert(whole.subrange(0, at) =~= head);
    assert(whole.subrange(at + 1, whole.len() as int) =~= tail);
}

/// The decimal form of an integer holds signs and digits only.
pub proof fn lemma_int_text_chars(i: int, c: char)
    requires
        c != '-',
        !is_digit(c),
    ensures
        absent(int_text(i), c),
        int_text(i).len() >= 1,
{
    if i < 0 {
        lemma_nat_text((-i) as nat);
        let digits = nat_text((-i) as nat);
        assert forall|j: int| 0 <= j < int_text(i).len() implies int_text(i)[j] != c by {
            if j > 0 {
                assert(int_text(i)[j] == digits[j - 1]);
            }
        }
    } else {
        lemma_nat_text(i as nat);
    }
}

/// The integer that `s` writes, for every `s` that is the decimal form of
/// one; for any other text the result is arbitrary.
fn guess_int(s: &str) -> (r: Option<i32>)
    ensures
        forall|i: i32| s@ == #[trigger] int_text(i as int) ==> r == Some(i),
{
    let n = s.unicode_len();
    if n == 0 {
        assert forall|i: i32| s@ == #[trigger] int_text(i as int) implies false by {
            lemma_int_text_chars(i as int, ':');
        }
        return None;
    }
    if s.get_char(0) == '-' {
        let rest = s.substring_char(1, n);
        let v = scan_number(rest);
        let r = if v > 2147483648 {
            None
        } else {
            Some((-(v as i64)) as i32)
        };
        assert forall|i: i32| s@ == #[trigger] int_text(i as int) implies r == Some(i) by {
            if i < 0 {
                lemma_nat_text((-i) as nat);
                assert(rest@ =~= nat_text((-i) as nat));
            } else {
                lemma_nat_text(i as nat);
                assert(is_digit(nat_text(i as nat)[0]));
            }
        }
        r
    } else {
        let v = scan_number(s);
        let r = if v > 2147483647 {
            None
        } else {
            Some(v as i32)
        };
        assert forall|i: i32| s@ == #[trigger] int_text(i as int) implies r == Some(i) by {
            if i < 0 {
                assert(int_text(i as int)[0] == '-');
            } else {
                lemma_nat_text(i as nat);
            }
        }
        r
    }
}

/// The count of millionths that `s` writes, for every `s` that is the
/// decimal form of a probability; for any other text the result is arbitrary.
fn guess_probability(s: &str) -> (r: Option<u32>)
    ensures
        forall|m: u32| m <= MILLION && s@ == #[trigger] probability_text(m as nat) ==> r == Some(m),
{
    let n = s.unicode_len();
    match find_first(s, '.') {
        None => {
            let v = scan_number(s);
            let r = if v > 1 {
                None
            } else {
                Some((v * 1_000_000) as u32)
            };
            assert forall|m: u32|
                m <= MILLION && s@ == #[trigger] probability_text(m as nat) implies r == Some(
                m,
            ) by {
                let whole = nat_text(m as nat / 1_000_000);
                lemma_nat_text(m as nat / 1_000_000);
                if m % 1_000_000 != 0 {
                    let text = whole + seq!['.'] + fraction_text(m as nat % 1_000_000, 6);
                    assert(text[whole.len() as int] == '.');
                }
            }
            r
        },
        Some(q) => {
            let places = n - q - 1;
            if places == 0 || places > 6 {
                assert forall|m: u32|
                    m <= MILLION && s@ == #[trigger] probability_text(m as nat) implies false by {
                    lemma_probability_parts(m, s@, q as int);
                }
                return None;
            }
            let whole = scan_number(s.substring_char(0, q));
            let fraction = scan_number(s.substring_char(q + 1, n));
            let scale = pow10_u64((6 - places) as u32);
            proof {
                lemma_pow10_bound((6 - places) as nat);
            }
            let r = if whole > 1 || fraction >= 1_000_000 {
                None
            } else {
                assert(fraction * scale <= 1_000_000 * 1_000_000_000) by (nonlinear_arith)
                    requires
                        fraction < 1_000_000,
                        scale <= 1_000_000_000,
                ;
                let total = whole * 1_000_000 + fraction * scale;
                if total > 1_000_000 {
                    None
                } else {
                    Some(total as u32)
                }
            };
            assert forall|m: u32|
                m <= MILLION && s@ == #[trigger] probability_text(m as nat) implies r == Some(
                m,
            ) by {
                lemma_probability_parts(m, s@, q as int);
                let f = m as nat % 1_000_000;
                assert(fraction * scale == f);
                assert(fraction <= fraction * scale) by (nonlinear_arith)
                    requires
                        scale >= 1,
                        fraction >= 0,
                ;
            }
            r
        },
    }
}

/// Where a probability's text holds a point, the point stands after the whole
/// part, the whole part reads back, and so does the fraction.
pub proof fn lemma_probability_parts(m: u32, s: Seq<char>, q: int)
    requires
        m <= MILLION,
        s == probability_text(m as nat),
        first_at(s, '.', q),
    ensures
        m % 1_000_000 != 0,
        lenient_value(s.subrange(0, q)) == m as nat / 1_000_000,
        1 <= s.len() - q - 1 <= 6,
        lenient_value(s.subrange(q + 1, s.len() as int)) * pow10((6 - (s.len() - q - 1)) as nat)
            == m as nat % 1_000_000,
{
    let whole = nat_text(m as nat / 1_000_000);
    lemma_nat_text(m as nat / 1_000_000);
    if m % 1_000_000 == 0 {
        assert(is_digit(whole[q]));
    } else {
        let f = m as nat % 1_000_000;
        let digits = fraction_text(f, 6);
        reveal_with_fuel(pow10, 7);
        lemma_fraction_text(f, 6);
        assert(absent(whole, '.')) by {
            assert forall|j: int| 0 <= j < whole.len() implies whole[j] != '.' by {
                assert(is_digit(whole[j]));
            }
        }
        lemma_split_point(whole, '.', digits, q);
    }
}

/// Whether `s` is the cache entry of the coupon type `id` with `m` millionths.
pub open spec fn is_entry(s: Seq<char>, id: i32, m: u32) -> bool {
    m <= MILLION && s == entry_text(id as int, m as nat)
}

/// The coupon type and probability that the cache entry `s` stands for, if
/// it is the text of any.
pub open spec fn entry_of(s: Seq<char>) -> Option<(i32, u32)> {
    if exists|id: i32, m: u32| is_entry(s, id, m) {
        let pair = choose|pair: (i32, u32)| is_entry(s, pair.0, pair.1);
        Some(pair)
    } else {
        None
    }
}

/// An entry's text stands for the coupon type and probability it was made of,
/// and for no other.
pub proof fn lemma_entry_of(id: i32, m: u32)
    requires
        m <= MILLION,
    ensures
        entry_of(entry_text(id as int, m as nat)) == Some((id, m)),
{
    let s = entry_text(id as int, m as nat);
    assert(is_entry(s, id, m));
    let pair = choose|pair: (i32, u32)| is_entry(s, pair.0, pair.1);
    assert(is_entry(s, (id, m).0, (id, m).1));
    lemma_entry_text_injective(id, m, pair.0, pair.1);
}

/// Two entries with one text are of one coupon type and one probability.
pub proof fn lemma_entry_text_injective(id: i32, m: u32, id2: i32, m2: u32)
    requires
        m <= MILLION,
        m2 <= MILLION,
        entry_text(id as int, m as nat) == entry_text(id2 as int, m2 as nat),
    ensures
        id == id2,
        m == m2,
{
    let s = entry_text(id as int, m as nat);
    lemma_int_text_chars(id as int, ':');
    lemma_int_text_chars(id2 as int, ':');
    let a = int_text(id as int);
    let b = int_text(id2 as int);
    assert(s[a.len() as int] == ':');
    assert(first_at(s, ':', a.len() as int)) by {
        assert forall|j: int| 0 <= j < a.len() implies s[j] != ':' by {
            assert(s[j] == a[j]);
        }
    }
    lemma_split_point(b, ':', probability_text(m2 as nat), a.len() as int);
    lemma_split_point(a, ':', probability_text(m as nat), a.len() as int);
    lemma_int_text_injective(id, id2);
    lemma_probability_text_injective(m, m2);
}

/// Two integers with one decimal form are equal.
pub proof fn lemma_int_text_injective(a: i32, b: i32)
    requires
        int_text(a as int) == int_text(b as int),
    ensures
        a == b,
{
    if a < 0 {
        lemma_nat_text((-a) as nat);
        assert(int_text(a as int)[0] == '-');
        if b < 0 {
            lemma_nat_text((-b) as nat);
            assert(int_text(a as int).subrange(1, int_text(a as int).len() as int) =~= nat_text(
                (-a) as nat,
            ));
            assert(int_text(b as int).subrange(1, int_text(b as int).len() as int) =~= nat_text(
                (-b) as nat,
            ));
        } else {
            lemma_nat_text(b as nat);
            assert(is_digit(nat_text(b as nat)[0]));
        }
    } else {
        lemma_nat_text(a as nat);
        assert(is_digit(nat_text(a as nat)[0]));
        if b < 0 {
            assert(int_text(b as int)[0] == '-');
        } else {
            lemma_nat_text(b as nat);
        }
    }
}

/// Two probabilities of at most one with one decimal form are equal.
pub proof fn lemma_probability_text_injective(a: u32, b: u32)
    requires
        a <= MILLION,
        b <= MILLION,
        probability_text(a as nat) == probability_text(b as nat),
    ensures
        a == b,
{
    let s = probability_text(a as nat);
    let whole_a = nat_text(a as nat / 1_000_000);
    let whole_b = nat_text(b as nat / 1_000_000);
    lemma_nat_text(a as nat / 1_000_000);
    lemma_nat_text(b as nat / 1_000_000);
    if a % 1_000_000 == 0 {
        if b % 1_000_000 != 0 {
            assert(s[whole_b.len() as int] == '.');
            assert(is_digit(whole_a[whole_b.len() as int]));
        }
    } else {
        assert(s[whole_a.len() as int] == '.');
        assert(first_at(s, '.', whole_a.len() as int)) by {
            assert forall|j: int| 0 <= j < whole_a.len() implies s[j] != '.' by {
                assert(s[j] == whole_a[j]);
                assert(is_digit(whole_a[j]));
            }
        }
        if b % 1_000_000 == 0 {
            assert(is_digit(whole_b[whole_a.len() as int]));
        } else {
            lemma_probability_parts(a, s, whole_a.len() as int);
            lemma_probability_parts(b, s, whole_a.len() as int);
        }
    }
}

/// Reads one entry of a cached distribution. The entry is accepted exactly
/// when it is the text of a coupon type and a probability of at most one.
pub fn parse_entry(s: &str) -> (r: Option<(i32, u32)>)
    ensures
        r == entry_of(s@),
{
    let r = read_entry(s);
    proof {
        if exists|id: i32, m: u32| is_entry(s@, id, m) {
            let pair = choose|pair: (i32, u32)| is_entry(s@, pair.0, pair.1);
            assert(s@ == entry_text(pair.0 as int, pair.1 as nat));
        } else {
            if let Some((id, m)) = r {
                assert(is_entry(s@, id, m));
            }
        }
    }
    r
}

/// Reads an entry by guessing its parts and writing them again: the guess
/// stands only if it gives the same text.
fn read_entry(s: &str) -> (r: Option<(i32, u32)>)
    ensures
        r matches Some((id, m)) ==> m <= MILLION && s@ == entry_text(id as int, m as nat),
        forall|id: i32, m: u32|
            m <= MILLION && s@ == #[trigger] entry_text(id as int, m as nat) ==> r == Some(
                (id, m),
            ),
{
    let n = s.unicode_len();
    match find_first(s, ':') {
        None => {
            assert forall|id: i32, m: u32|
                m <= MILLION && s@ == #[trigger] entry_text(id as int, m as nat) implies false by {
                let head = int_text(id as int);
                assert(entry_text(id as int, m as nat)[head.len() as int] == ':');
            }
            None
        },
        Some(p) => {
            let head = s.substring_char(0, p);
            let tail = s.substring_char(p + 1, n);
            let guess_id = guess_int(head);
            let guess_m = guess_probability(tail);
            proof {
                assert forall|id: i32, m: u32|
                    m <= MILLION && s@ == #[trigger] entry_text(
                        id as int,
                        m as nat,
                    ) implies guess_id == Some(id) && guess_m == Some(m) by {
                    lemma_int_text_chars(id as int, ':');
                    lemma_split_point(
                        int_text(id as int),
                        ':',
                        probability_text(m as nat),
                        p as int,
                    );
                }
            }
            match (guess_id, guess_m) {
                (Some(id), Some(m)) => {
                    if m > MILLION {
                        return None;
                    }
                    let again = entry_string(id, m);
                    let given = String::from_str(s);
                    if again == given {
                        Some((id, m))
                    } else {
                        None
                    }
                },
                _ => None,
            }
        },
    }
}

/// Two days with one text are one day.
pub proof fn lemma_date_text_injective(a: Date, b: Date)
    requires
        a.wf(),
        b.wf(),
        date_text(a) == date_text(b),
    ensures
        a == b,
{
    reveal_with_fuel(pow10, 5);
    lemma_padded_text(a.year as nat, 4);
    lemma_padded_text(a.month as nat, 2);
    lemma_padded_text(a.day as nat, 2);
    lemma_padded_text(b.year as nat, 4);
    lemma_padded_text(b.month as nat, 2);
    lemma_padded_text(b.day as nat, 2);
    let s = date_text(a);
    let t = date_text(b);
    assert(s.subrange(0, 4) =~= padded_text(a.year as nat, 4));
    assert(t.subrange(0, 4) =~= padded_text(b.year as nat, 4));
    assert(s.subrange(5, 7) =~= padded_text(a.month as nat, 2));
    assert(t.subrange(5, 7) =~= padded_text(b.month as nat, 2));
    assert(s.subrange(8, 10) =~= padded_text(a.day as nat, 2));
    assert(t.subrange(8, 10) =~= padded_text(b.day as nat, 2));
}

/// Two enrolment keys with one text are of one user and one day.
pub proof fn lemma_enrolment_key_injective(user_a: i32, day_a: Date, user_b: i32, day_b: Date)
    requires
        day_a.wf(),
        day_b.wf(),
        enrolment_key_text(user_a as int, day_a) == enrolment_key_text(user_b as int, day_b),
    ensures
        user_a == user_b,
        day_a == day_b,
{
    reveal_strlit("user-");
    reveal_strlit(":enrolled-campaigns:");
    let prefix = "user-"@;
    let middle = ":enrolled-campaigns:"@;
    let rest = middle.subrange(1, middle.len() as int);
    let key = enrolment_key_text(user_a as int, day_a);
    let id_a = int_text(user_a as int);
    let id_b = int_text(user_b as int);
    let tail_a = rest + date_text(day_a);
    let tail_b = rest + date_text(day_b);
    let body = key.subrange(5, key.len() as int);
    assert(middle =~= seq![':'] + rest);
    assert(body =~= id_a + seq![':'] + tail_a);
    assert(body =~= id_b + seq![':'] + tail_b);
    lemma_int_text_chars(user_a as int, ':');
    lemma_int_text_chars(user_b as int, ':');
    assert(first_at(id_a + seq![':'] + tail_a, ':', id_a.len() as int)) by {
        let whole = id_a + seq![':'] + tail_a;
        assert(whole[id_a.len() as int] == ':');
        assert forall|j: int| 0 <= j < id_a.len() implies whole[j] != ':' by {
            assert(whole[j] == id_a[j]);
        }
    }
    lemma_split_point(id_a, ':', tail_a, id_a.len() as int);
    lemma_split_point(id_b, ':', tail_b, id_a.len() as int);
    lemma_int_text_injective(user_a, user_b);
    assert(tail_a.subrange(rest.len() as int, tail_a.len() as int) =~= date_text(day_a));
    assert(tail_b.subrange(rest.len() as int, tail_b.len() as int) =~= date_text(day_b));
    lemma_date_text_injective(day_a, day_b);
}

/// Two distribution keys with one text are of one campaign.
pub proof fn lemma_distribution_key_injective(campaign_a: i32, campaign_b: i32)
    requires
        distribution_key_text(campaign_a as int) == distribution_key_text(campaign_b as int),
    ensures
        campaign_a == campaign_b,
{
    reveal_strlit("campaign-");
    reveal_strlit(":prob-dist");
    let middle = ":prob-dist"@;
    let rest = middle.subrange(1, middle.len() as int);
    let key = distribution_key_text(campaign_a as int);
    let id_a = int_text(campaign_a as int);
    let id_b = int_text(campaign_b as int);
    let body = key.subrange(9, key.len() as int);
    assert(middle =~= seq![':'] + rest);
    assert(body =~= id_a + seq![':'] + rest);
    assert(body =~= id_b + seq![':'] + rest);
    lemma_int_text_chars(campaign_a as int, ':');
    lemma_int_text_chars(campaign_b as int, ':');
    assert(first_at(id_a + seq![':'] + rest, ':', id_a.len() as int)) by {
        let whole = id_a + seq![':'] + rest;
        assert(whole[id_a.len() as int] == ':');
        assert forall|j: int| 0 <= j < id_a.len() implies whole[j] != ':' by {
            assert(whole[j] == id_a[j]);
        }
    }
    lemma_split_point(id_a, ':', rest, id_a.len() as int);
    lemma_split_point(id_b, ':', rest, id_a.len() as int);
    lemma_int_text_injective(campaign_a, campaign_b);
}

/// No enrolment key is a distribution key.
pub proof fn lemma_key_kinds_differ(user_id: i32, day: Date, campaign_id: i32)
    ensures
        enrolment_key_text(user_id as int, day) != distribution_key_text(campaign_id as int),
{
    reveal_strlit("user-");
    reveal_strlit("campaign-");
    assert(enrolment_key_text(user_id as int, day)[0] == 'u');
    assert(distribution_key_text(campaign_id as int)[0] == 'c');
}

} // verus!
