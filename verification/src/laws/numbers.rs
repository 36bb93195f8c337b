//! Numbers and texts: how they compare, and how they are written and read.

use crate::scalar::{infinity_spec, zero_spec, Scalar};
use crate::text::{
    all_digits, begins_with, count_from, decimal, digits_value, find, finishes_with, has_at,
    is_digit, joined, lemma_find_is_first, lemma_rfind_is_last, rfind, signed_decimal,
};
use vstd::prelude::*;

verus! {

// Real numbers.

/// Whether bits are those of a number, positive infinity the greatest of them.
pub open spec fn is_number(a: Scalar) -> bool {
    a.bits <= 0x7ff0_0000_0000_0000 || 0x8000_0000_0000_0000 <= a.bits <= 0xfff0_0000_0000_0000
}

/// Numbers compare as IEEE 754 has it. Of two positive numbers the one with the lesser bits is
/// the lesser, of two negative ones the one with the greater bits; a negative number is below
/// a positive one, and the two zeros are equal. What is not a number compares with nothing.
pub proof fn numbers_compare_by_their_bits(a: Scalar, b: Scalar)
    ensures
        a.not_a_number() <==> !is_number(a),
        a.finite() <==> a.bits < 0x7ff0_0000_0000_0000 || 0x8000_0000_0000_0000 <= a.bits
            < 0xfff0_0000_0000_0000,
        !is_number(a) || !is_number(b) ==> !a.below(b) && !a.at_most(b),
        is_number(a) && is_number(b) ==> {
            &&& a.at_most(b) <==> !b.below(a)
            &&& a.bits < 0x8000_0000_0000_0000 && b.bits < 0x8000_0000_0000_0000 ==> (a.below(b)
                <==> a.bits < b.bits)
            &&& a.bits >= 0x8000_0000_0000_0000 && b.bits >= 0x8000_0000_0000_0000 ==> (a.below(b)
                <==> a.bits > b.bits)
            &&& a.bits >= 0x8000_0000_0000_0000 && b.bits < 0x8000_0000_0000_0000 ==> a.at_most(b)
                && (a.below(b) <==> !(a.bits == 0x8000_0000_0000_0000 && b.bits == 0))
        },
        a.magnitude() == 0 <==> a.bits == 0 || a.bits == 0x8000_0000_0000_0000,
        zero_spec().bits == 0,
        infinity_spec().bits == 0x7ff0_0000_0000_0000,
{
}

/// The lesser of two is one of them, and none of them that is a number is below it; where one
/// of them is a number, so is the lesser.
pub proof fn the_lesser_is_one_of_the_two(a: Scalar, b: Scalar)
    ensures
        a.lesser(b) == a || a.lesser(b) == b,
        !a.below(a.lesser(b)) && !b.below(a.lesser(b)),
        is_number(a) || is_number(b) ==> is_number(a.lesser(b)),
{
}

// Whole numbers.

/// The character of a digit.
pub open spec fn is_digit_of(c: char, d: nat) -> bool {
    c as nat == 48 + d
}

/// A number is written with its own digits: one digit for a number below ten, and else those
/// of its tenth part with one more behind them. A negative number has a minus sign before it.
pub proof fn numbers_are_written_in_decimal(n: nat, d: nat)
    requires
        d < 10,
    ensures
        decimal(d).len() == 1 && is_digit_of(decimal(d)[0], d),
        n > 0 ==> decimal(10 * n + d).len() == decimal(n).len() + 1 && decimal(
            10 * n + d,
        ).drop_last() == decimal(n) && is_digit_of(decimal(10 * n + d).last(), d),
        signed_decimal(n as int) == decimal(n),
        n > 0 ==> signed_decimal(-n) == seq!['-'] + decimal(n),
{
    if n > 0 {
        assert((10 * n + d) / 10 == n && (10 * n + d) % 10 == d) by (nonlinear_arith)
            requires
                d < 10,
        ;
        assert(decimal(10 * n + d).drop_last() =~= decimal(n));
    }
}

/// Whether a character is one of the ten digits.
pub open spec fn is_one_digit(c: char) -> bool {
    48 <= c as nat <= 57
}

/// Digits are read from the front: each further one makes a number ten times as great and adds
/// its own value.
pub proof fn digits_are_read_in_decimal(s: Seq<char>, c: char)
    ensures
        digits_value(Seq::<char>::empty()) == 0,
        is_one_digit(c) ==> digits_value(s.push(c)) == 10 * digits_value(s) + (c as nat - 48),
        is_digit(c) <==> is_one_digit(c),
        all_digits(s) <==> s.len() > 0 && forall|i: int|
            0 <= i < s.len() ==> is_one_digit(#[trigger] s[i]),
{
    assert(s.push(c).drop_last() =~= s);
    assert forall|i: int| 0 <= i < s.len() implies (is_digit(#[trigger] s[i]) <==> is_one_digit(
        s[i],
    )) by {
        lemma_same_digit(s[i]);
    }
}

proof fn lemma_same_digit(c: char)
    ensures
        is_digit(c) <==> is_one_digit(c),
{
}

/// A number that was written is read as it was.
pub proof fn a_number_is_read_as_it_was_written(n: nat)
    ensures
        all_digits(decimal(n)),
        digits_value(decimal(n)) == n,
    decreases n,
{
    if n >= 10 {
        a_number_is_read_as_it_was_written(n / 10);
        assert(decimal(n).drop_last() =~= decimal(n / 10));
    } else {
        reveal_with_fuel(digits_value, 2);
    }
}

// Texts.

/// A text begins with another one where it is that one with something behind it, ends with it
/// where it is that one with something in front of it, and has it at a place where both stand
/// around it.
pub proof fn texts_are_made_of_their_parts(front: Seq<char>, p: Seq<char>, back: Seq<char>)
    ensures
        begins_with(p + back, p),
        finishes_with(front + p, p),
        has_at(front + p + back, p, front.len() as int),
{
    assert((p + back).take(p.len() as int) =~= p);
    assert((front + p).skip(front.len() as int) =~= p);
    assert((front + p + back).subrange(front.len() as int, (front + p).len() as int) =~= p);
}

/// And the other way round: each of these gives such parts.
pub proof fn parts_make_their_texts(s: Seq<char>, p: Seq<char>, i: int)
    ensures
        begins_with(s, p) ==> s == p + s.skip(p.len() as int),
        finishes_with(s, p) ==> s == s.take(s.len() - p.len()) + p,
        has_at(s, p, i) ==> s == s.take(i) + p + s.skip(i + p.len()) && 0 <= i <= s.len() - p.len(),
{
    if begins_with(s, p) {
        assert(s =~= p + s.skip(p.len() as int));
    }
    if finishes_with(s, p) {
        assert(s =~= s.take(s.len() - p.len()) + p);
    }
    if has_at(s, p, i) {
        assert(s =~= s.take(i) + s.subrange(i, i + p.len()) + s.skip(i + p.len()));
    }
}

/// The first place of a text is one before which it does not stand, the last place one behind
/// which it does not; there is none only where the text does not occur.
pub proof fn a_text_is_found_at_its_first_and_last_place(s: Seq<char>, p: Seq<char>)
    ensures
        match find(s, p) {
            Some(k) => has_at(s, p, k) && forall|j: int| 0 <= j < k ==> !has_at(s, p, j),
            None => forall|j: int| !has_at(s, p, j),
        },
        match rfind(s, p) {
            Some(k) => has_at(s, p, k) && forall|j: int| k < j ==> !has_at(s, p, j),
            None => forall|j: int| !has_at(s, p, j),
        },
{
    lemma_find_is_first(s, p, 0);
    lemma_rfind_is_last(s, p, s.len() - p.len());
}

/// A text without another one counts none of it; one that has it counts one for its first
/// place and what the rest behind that counts.
pub proof fn occurrences_are_counted_one_by_one(s: Seq<char>, p: Seq<char>)
    requires
        p.len() > 0,
    ensures
        match find(s, p) {
            None => count_from(s, p, 0) == 0,
            Some(k) => count_from(s, p, 0) == 1 + count_from(s.skip(k + p.len()), p, 0),
        },
{
    a_text_is_found_at_its_first_and_last_place(s, p);
    match find(s, p) {
        None => {
            lemma_no_place(s, p, 0, s.len() as int);
        },
        Some(k) => {
            lemma_no_place(s, p, 0, k);
            lemma_counts_behind(s, p, k + p.len(), k + p.len());
        },
    }
}

proof fn lemma_no_place(s: Seq<char>, p: Seq<char>, i: int, n: int)
    requires
        p.len() > 0,
        0 <= i <= n <= s.len(),
        forall|j: int| i <= j < n ==> !has_at(s, p, j),
    ensures
        count_from(s, p, i) == count_from(s, p, n),
    decreases n - i,
{
    if i < n {
        assert(!has_at(s, p, i));
        lemma_no_place(s, p, i + 1, n);
        if i + p.len() > s.len() {
            assert(count_from(s, p, i) == 0);
            assert(count_from(s, p, i + 1) == 0);
        }
    }
}

proof fn lemma_counts_behind(s: Seq<char>, p: Seq<char>, at: int, i: int)
    requires
        p.len() > 0,
        0 <= at <= i,
        at <= s.len(),
    ensures
        count_from(s, p, i) == count_from(s.skip(at), p, i - at),
    decreases s.len() + 1 - i,
{
    if i + p.len() <= s.len() {
        assert(s.subrange(i, i + p.len()) =~= s.skip(at).subrange(i - at, i - at + p.len()));
        if has_at(s, p, i) {
            lemma_counts_behind(s, p, at, i + p.len());
        } else {
            lemma_counts_behind(s, p, at, i + 1);
        }
    }
}

/// Texts are joined in order, with the separator between each two.
pub proof fn texts_are_joined_in_order(parts: Seq<Seq<char>>, last: Seq<char>, sep: Seq<char>)
    ensures
        joined(Seq::<Seq<char>>::empty(), sep).len() == 0,
        joined(seq![last], sep) == last,
        parts.len() > 0 ==> joined(parts.push(last), sep) == joined(parts, sep) + sep + last,
{
    assert(parts.push(last).drop_last() =~= parts);
}

} // verus!
