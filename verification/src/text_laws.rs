//! Laws on what the text helpers give.
use vstd::prelude::*;

use crate::text::{
    all_space, ascii_lower, concat_all, contains_seq, decimal, decimal_nat,
    drop_trailing, ellipsized, first_chars, has_prefix, has_suffix, join_seq, last_chars,
    replace_parts, replace_seq, same_ignoring_ascii_case, trim_end_seq, trim_seq, trim_start_seq,
};

verus! {

/// The beginning of a text is cut off at the length asked for, and the end of one too;
/// a text that is short enough stays whole.
pub proof fn law_cuts_keep_the_ends(a: Seq<char>, b: Seq<char>)
    ensures
        first_chars(a + b, a.len() as int) == a,
        last_chars(a + b, b.len() as int) == b,
        forall|n: int| n >= a.len() ==> #[trigger] first_chars(a, n) == a,
        forall|n: int| n >= a.len() ==> #[trigger] last_chars(a, n) == a,
{
    assert((a + b).take(a.len() as int) =~= a);
    assert((a + b).skip((a + b).len() - b.len()) =~= b);
    assert(b.len() == 0 ==> a + b =~= a);
    assert(a.len() == 0 ==> a + b =~= b);
}

/// A text that is cut ends in an ellipsis, and one that is not does not get one.
pub proof fn law_a_cut_is_marked(a: Seq<char>, b: Seq<char>)
    requires
        b.len() > 0,
    ensures
        ellipsized(a + b, a.len() as int) == a + seq!['…'],
        forall|n: int| n >= a.len() ==> #[trigger] ellipsized(a, n) == a,
{
    assert((a + b).take(a.len() as int).push('…') =~= a + seq!['…']);
}

/// One text occurs in another exactly where the other is made of it and of what stands
/// before and after it.
pub proof fn law_what_occurs_is_a_part(hay: Seq<char>, needle: Seq<char>)
    ensures
        contains_seq(hay, needle) <==> exists|before: Seq<char>, after: Seq<char>|
            hay == #[trigger] (before + needle + after),
{
    if contains_seq(hay, needle) {
        let i = choose|i: int|
            0 <= i <= hay.len() - needle.len() && #[trigger] hay.subrange(i, i + needle.len())
                == needle;
        let before = hay.take(i);
        let after = hay.skip(i + needle.len());
        assert(hay =~= before + hay.subrange(i, i + needle.len()) + after);
        assert(hay == before + needle + after);
    }
    assert forall|before: Seq<char>, after: Seq<char>|
        hay == #[trigger] (before + needle + after) implies contains_seq(hay, needle) by {
        let i = before.len() as int;
        assert(hay.subrange(i, i + needle.len()) =~= needle);
    }
}

/// A text begins with what it was begun with and ends with what it was ended with, and
/// with nothing that it was not.
pub proof fn law_texts_begin_and_end(s: Seq<char>, part: Seq<char>)
    ensures
        has_prefix(s, part) <==> exists|rest: Seq<char>| s == #[trigger] (part + rest),
        has_suffix(s, part) <==> exists|rest: Seq<char>| s == #[trigger] (rest + part),
{
    if has_prefix(s, part) {
        assert(s =~= part + s.skip(part.len() as int));
    }
    assert forall|rest: Seq<char>| s == #[trigger] (part + rest) implies has_prefix(
        s,
        part,
    ) by {
        assert(s.take(part.len() as int) =~= part);
    }
    if has_suffix(s, part) {
        assert(s =~= s.take(s.len() - part.len()) + part);
    }
    assert forall|rest: Seq<char>| s == #[trigger] (rest + part) implies has_suffix(
        s,
        part,
    ) by {
        assert(s.skip(s.len() - part.len()) =~= part);
    }
}

/// The number that digits stand for.
pub open spec fn read_digits(s: Seq<char>) -> int
    decreases s.len(),
{
    if s.len() == 0 {
        0
    } else {
        10 * read_digits(s.drop_last()) + (s.last() as int - '0' as int)
    }
}

/// The number that a text stands for.
pub open spec fn read_number(s: Seq<char>) -> int {
    if s.len() > 0 && s[0] == '-' {
        -read_digits(s.drop_first())
    } else {
        read_digits(s)
    }
}

proof fn lemma_read_digits(n: nat)
    ensures
        read_digits(decimal_nat(n)) == n,
        decimal_nat(n).len() > 0,
        decimal_nat(n)[0] != '-',
        n > 0 ==> decimal_nat(n)[0] != '0',
    decreases n,
{
    let s = decimal_nat(n);
    if n < 10 {
        assert(s.drop_last() =~= Seq::empty());
        reveal_with_fuel(read_digits, 2);
    } else {
        lemma_read_digits(n / 10);
        assert(s.drop_last() =~= decimal_nat(n / 10));
        assert(s[0] == decimal_nat(n / 10)[0]);
    }
}

/// A number that was written down is read back, and it is written without needless
/// zeros.
pub proof fn law_numbers_are_read_back(i: int)
    ensures
        read_number(decimal(i)) == i,
        i > 0 ==> decimal(i)[0] != '0',
{
    if i < 0 {
        lemma_read_digits((-i) as nat);
        assert(decimal(i).drop_first() =~= decimal_nat((-i) as nat));
    } else {
        lemma_read_digits(i as nat);
    }
}

/// Two characters that are one letter of the Latin alphabet, the first in upper case.
pub open spec fn upper_of(upper: char, lower: char) -> bool {
    'A' <= upper && upper <= 'Z' && lower as int == upper as int + 32
}

/// Case apart, two texts are the same where each character is the same or the same
/// Latin letter in the other case.
pub proof fn law_only_latin_case_is_ignored(a: Seq<char>, b: Seq<char>)
    ensures
        same_ignoring_ascii_case(a, b) <==> a.len() == b.len() && (forall|i: int|
            #![trigger a[i]]
            0 <= i < a.len() ==> a[i] == b[i] || upper_of(a[i], b[i]) || upper_of(b[i], a[i])),
{
    assert forall|x: char, y: char| #[trigger]
        ascii_lower(x) == #[trigger] ascii_lower(y) <==> x == y || upper_of(x, y) || upper_of(
            y,
            x,
        ) by {}
    if a.len() == b.len() {
        assert forall|i: int| 0 <= i < a.len() implies (ascii_lower(#[trigger] a[i])
            == ascii_lower(b[i]) <==> a[i] == b[i] || upper_of(a[i], b[i]) || upper_of(
            b[i],
            a[i],
        )) by {}
    }
}

/// Replacing goes character by character: what is looked for gives way to what it is
/// replaced by, and everything else stays.
pub proof fn law_only_what_is_looked_for_is_replaced(
    s: Seq<char>,
    c: char,
    from: char,
    to: Seq<char>,
)
    ensures
        replace_seq(Seq::empty(), from, to) == Seq::<char>::empty(),
        replace_seq(s.push(from), from, to) == replace_seq(s, from, to) + to,
        c != from ==> replace_seq(s.push(c), from, to) == replace_seq(s, from, to).push(c),
{
    assert(replace_parts(Seq::empty(), from, to) =~= Seq::empty());
    assert forall|d: char| #![trigger s.push(d)] replace_parts(s.push(d), from, to).drop_last()
        =~= replace_parts(s, from, to) by {}
    assert(replace_parts(s.push(from), from, to).last() == to);
    assert(c != from ==> replace_parts(s.push(c), from, to).last() == seq![c]);
    if c != from {
        assert(replace_parts(s.push(c), from, to).drop_last() =~= replace_parts(s, from, to));
        assert(replace_seq(s, from, to) + seq![c] =~= replace_seq(s, from, to).push(c));
    }
    assert(replace_parts(s.push(from), from, to).drop_last() =~= replace_parts(s, from, to));
}

/// What is dropped from the end of a text is that one character, as often as it stands
/// there.
pub proof fn law_the_whole_run_is_dropped(s: Seq<char>, c: char, n: nat)
    requires
        s.len() > 0 ==> s.last() != c,
    ensures
        drop_trailing(s + Seq::new(n, |i: int| c), c) == s,
    decreases n,
{
    let run = Seq::new(n, |i: int| c);
    if n == 0 {
        assert(s + run =~= s);
    } else {
        law_the_whole_run_is_dropped(s, c, (n - 1) as nat);
        assert((s + run).drop_last() =~= s + Seq::new((n - 1) as nat, |i: int| c));
    }
}

/// Texts that are joined stand in their order, with the separator between each two.
pub proof fn law_joined_texts_stand_in_order(
    parts: Seq<Seq<char>>,
    more: Seq<char>,
    sep: Seq<char>,
)
    ensures
        join_seq(Seq::empty(), sep) == Seq::<char>::empty(),
        join_seq(seq![more], sep) == more,
        parts.len() > 0 ==> join_seq(parts.push(more), sep) == join_seq(parts, sep) + sep + more,
        concat_all(Seq::empty()) == Seq::<char>::empty(),
        concat_all(parts.push(more)) == concat_all(parts) + more,
{
    assert(parts.push(more).drop_last() =~= parts);
}

proof fn lemma_start_is_space(s: Seq<char>)
    ensures
        exists|before: Seq<char>| all_space(before) && s == #[trigger] (before + trim_start_seq(
            s,
        )),
    decreases s.len(),
{
    if s.len() > 0 && trim_start_seq(s) != s {
        lemma_start_is_space(s.drop_first());
        let b = choose|b: Seq<char>|
            all_space(b) && s.drop_first() == #[trigger] (b + trim_start_seq(s.drop_first()));
        let before = seq![s[0]] + b;
        assert(s =~= seq![s[0]] + s.drop_first());
        assert(s =~= before + trim_start_seq(s));
        assert(all_space(before));
    } else {
        assert(s =~= Seq::<char>::empty() + trim_start_seq(s));
        assert(all_space(Seq::empty()));
    }
}

proof fn lemma_end_is_space(s: Seq<char>)
    ensures
        exists|after: Seq<char>| all_space(after) && s == #[trigger] (trim_end_seq(s) + after),
    decreases s.len(),
{
    if s.len() > 0 && trim_end_seq(s) != s {
        lemma_end_is_space(s.drop_last());
        let a = choose|a: Seq<char>|
            all_space(a) && s.drop_last() == #[trigger] (trim_end_seq(s.drop_last()) + a);
        let after = a.push(s.last());
        assert(s =~= s.drop_last().push(s.last()));
        assert(s =~= trim_end_seq(s) + after);
        assert(all_space(after));
    } else {
        assert(s =~= trim_end_seq(s) + Seq::<char>::empty());
        assert(all_space(Seq::empty()));
    }
}

/// Trimming takes nothing but white space off the ends of a text.
pub proof fn law_only_padding_is_trimmed(s: Seq<char>)
    ensures
        exists|before: Seq<char>, after: Seq<char>|
            all_space(before) && all_space(after) && s == #[trigger] (before + trim_seq(s)
                + after),
{
    lemma_start_is_space(s);
    let t = trim_start_seq(s);
    let before = choose|b: Seq<char>| all_space(b) && s == #[trigger] (b + t);
    lemma_end_is_space(t);
    let after = choose|a: Seq<char>| all_space(a) && t == #[trigger] (trim_end_seq(t) + a);
    assert(s =~= before + trim_seq(s) + after);
}

} // verus!
