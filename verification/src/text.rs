//! Sequences of strings: joining, first-seen deduplication, decimal numerals.
use vstd::prelude::*;

verus! {

/// The element-wise view of a sequence.
pub open spec fn views<T: View>(s: Seq<T>) -> Seq<T::V> {
    Seq::new(s.len(), |i: int| s[i]@)
}

/// `parts` written one after another with `sep` between neighbours.
pub open spec fn joined(parts: Seq<Seq<char>>, sep: Seq<char>) -> Seq<char>
    decreases parts.len(),
{
    if parts.len() == 0 {
        Seq::empty()
    } else if parts.len() == 1 {
        parts[0]
    } else {
        joined(parts.drop_last(), sep) + sep + parts.last()
    }
}

/// `acc` extended by each element of `items`, left to right, that it does not
/// hold yet.
pub open spec fn absorb(acc: Seq<Seq<char>>, items: Seq<Seq<char>>) -> Seq<Seq<char>>
    decreases items.len(),
{
    if items.len() == 0 {
        acc
    } else {
        let before = absorb(acc, items.drop_last());
        if before.contains(items.last()) {
            before
        } else {
            before.push(items.last())
        }
    }
}

/// The elements of `items` in order of first appearance, each once.
pub open spec fn distinct(items: Seq<Seq<char>>) -> Seq<Seq<char>> {
    absorb(Seq::empty(), items)
}

/// Pushing an element pushes its view.
pub proof fn lemma_views_push<T: View>(s: Seq<T>, x: T)
    ensures
        views(s.push(x)) == views(s).push(x@),
{
    assert(views(s.push(x)) =~= views(s).push(x@));
}

/// Whether `items` holds a string equal to `wanted`.
pub fn contains_string(items: &Vec<String>, wanted: &String) -> (found: bool)
    ensures
        found == views(items@).contains(wanted@),
{
    let mut i: usize = 0;
    while i < items.len()
        invariant
            i <= items.len(),
            forall|k: int| 0 <= k < i ==> views(items@)[k] != wanted@,
        decreases items.len() - i,
    {
        if items[i] == *wanted {
            assert(views(items@)[i as int] == wanted@);
            return true;
        }
        i += 1;
    }
    false
}

/// Joins `parts` with `sep` between neighbours.
pub fn join_with(parts: &Vec<String>, sep: &str) -> (out: String)
    ensures
        out@ == joined(views(parts@), sep@),
{
    let mut out = String::new();
    let mut i: usize = 0;
    while i < parts.len()
        invariant
            i <= parts.len(),
            out@ == joined(views(parts@).take(i as int), sep@),
        decreases parts.len() - i,
    {
        proof {
            let next = views(parts@).take(i + 1);
            assert(next.drop_last() =~= views(parts@).take(i as int));
        }
        if i > 0 {
            out.append(sep);
        }
        out.append(parts[i].as_str());
        i += 1;
    }
    assert(views(parts@).take(parts.len() as int) =~= views(parts@));
    out
}

/// Appends `item` to `acc` unless `acc` already holds an equal string.
pub fn push_distinct(acc: &mut Vec<String>, item: String)
    ensures
        views(final(acc)@) == absorb(views(old(acc)@), seq![item@]),
{
    proof {
        reveal_with_fuel(absorb, 2);
        lemma_views_push(acc@, item);
    }
    if !contains_string(acc, &item) {
        acc.push(item);
    }
}

/// Appends each of `items`, in order, that `acc` does not hold yet.
pub fn absorb_all(acc: &mut Vec<String>, items: Vec<String>)
    ensures
        views(final(acc)@) == absorb(views(old(acc)@), views(items@)),
{
    let mut i: usize = 0;
    while i < items.len()
        invariant
            i <= items.len(),
            views(acc@) == absorb(views(old(acc)@), views(items@).take(i as int)),
        decreases items.len() - i,
    {
        proof {
            assert(views(items@).take(i + 1) =~= views(items@).take(i as int) + seq![
                items@[i as int]@,
            ]);
            lemma_absorb_concat(
                views(old(acc)@),
                views(items@).take(i as int),
                seq![items@[i as int]@],
            );
        }
        push_distinct(acc, items[i].clone());
        i += 1;
    }
    assert(views(items@).take(i as int) =~= views(items@));
}

/// Absorbing two runs one after the other is absorbing their concatenation.
pub proof fn lemma_absorb_concat(acc: Seq<Seq<char>>, a: Seq<Seq<char>>, b: Seq<Seq<char>>)
    ensures
        absorb(absorb(acc, a), b) == absorb(acc, a + b),
    decreases b.len(),
{
    if b.len() == 0 {
        assert(a + b =~= a);
    } else {
        lemma_absorb_concat(acc, a, b.drop_last());
        assert((a + b).drop_last() =~= a + b.drop_last());
        assert((a + b).last() == b.last());
    }
}

/// What absorbing keeps and adds: every element of either side is in the
/// result and nothing else is, the accumulator stays in front unchanged, and
/// an accumulator without repeats gives a result without repeats.
pub proof fn lemma_absorb_members(acc: Seq<Seq<char>>, items: Seq<Seq<char>>)
    ensures
        forall|x: Seq<char>|
            absorb(acc, items).contains(x) <==> (acc.contains(x) || items.contains(x)),
        acc.len() <= absorb(acc, items).len(),
        absorb(acc, items).take(acc.len() as int) == acc,
        acc.no_duplicates() ==> absorb(acc, items).no_duplicates(),
    decreases items.len(),
{
    let out = absorb(acc, items);
    if items.len() == 0 {
        assert(out.take(acc.len() as int) =~= acc);
        assert forall|x: Seq<char>| out.contains(x) <==> (acc.contains(x) || items.contains(x)) by {
            if items.contains(x) {
                let i = choose|i: int| 0 <= i < items.len() && items[i] == x;
            }
        }
    } else {
        let front = items.drop_last();
        let before = absorb(acc, front);
        lemma_absorb_members(acc, front);
        assert(out.take(acc.len() as int) =~= before.take(acc.len() as int));
        assert forall|x: Seq<char>| out.contains(x) <==> (acc.contains(x) || items.contains(x)) by {
            if items.contains(x) {
                let i = choose|i: int| 0 <= i < items.len() && items[i] == x;
                if i < items.len() - 1 {
                    assert(front[i] == x);
                    assert(front.contains(x));
                }
            }
            if front.contains(x) {
                let i = choose|i: int| 0 <= i < front.len() && front[i] == x;
                assert(items[i] == x);
            }
            assert(items[items.len() - 1] == items.last());
            if out.contains(x) && !before.contains(x) {
                let i = choose|i: int| 0 <= i < out.len() && out[i] == x;
                if i < before.len() {
                    assert(before[i] == x);
                }
                assert(x == items.last());
            }
            if before.contains(x) {
                let i = choose|i: int| 0 <= i < before.len() && before[i] == x;
                assert(out[i] == x);
            }
            if x == items.last() && !before.contains(x) {
                assert(out[before.len() as int] == x);
            }
        }
    }
}

/// The numeral of one decimal digit.
pub open spec fn digit(d: nat) -> Seq<char> {
    if d == 0 {
        "0"@
    } else if d == 1 {
        "1"@
    } else if d == 2 {
        "2"@
    } else if d == 3 {
        "3"@
    } else if d == 4 {
        "4"@
    } else if d == 5 {
        "5"@
    } else if d == 6 {
        "6"@
    } else if d == 7 {
        "7"@
    } else if d == 8 {
        "8"@
    } else {
        "9"@
    }
}

/// The decimal numeral of `n`, without leading zeros.
pub open spec fn decimal(n: nat) -> Seq<char>
    decreases n,
{
    if n < 10 {
        digit(n)
    } else {
        decimal(n / 10) + digit(n % 10)
    }
}

/// The character of one decimal digit.
pub open spec fn digit_char(d: nat) -> char {
    if d == 0 {
        '0'
    } else if d == 1 {
        '1'
    } else if d == 2 {
        '2'
    } else if d == 3 {
        '3'
    } else if d == 4 {
        '4'
    } else if d == 5 {
        '5'
    } else if d == 6 {
        '6'
    } else if d == 7 {
        '7'
    } else if d == 8 {
        '8'
    } else {
        '9'
    }
}

/// The numeral of a digit is its one character.
pub proof fn lemma_digit(d: nat)
    ensures
        digit(d) == seq![digit_char(d)],
{
    reveal_strlit("0");
    reveal_strlit("1");
    reveal_strlit("2");
    reveal_strlit("3");
    reveal_strlit("4");
    reveal_strlit("5");
    reveal_strlit("6");
    reveal_strlit("7");
    reveal_strlit("8");
    reveal_strlit("9");
    assert(digit(d) =~= seq![digit_char(d)]);
}

/// The shape of a numeral: the numeral of the tens, if there are any,
/// followed by the character of the last digit.
pub proof fn lemma_decimal_shape(n: nat)
    ensures
        decimal(n).len() >= 1,
        decimal(n).last() == digit_char(n % 10),
        n < 10 ==> decimal(n).len() == 1,
        n >= 10 ==> decimal(n).len() >= 2 && decimal(n).drop_last() == decimal(n / 10),
    decreases n,
{
    lemma_digit(n % 10);
    if n >= 10 {
        lemma_decimal_shape(n / 10);
        assert(decimal(n).drop_last() =~= decimal(n / 10));
    }
}

/// Different numbers have different numerals.
pub proof fn lemma_decimal_injective(a: nat, b: nat)
    requires
        decimal(a) == decimal(b),
    ensures
        a == b,
    decreases a,
{
    lemma_decimal_shape(a);
    lemma_decimal_shape(b);
    if a >= 10 {
        lemma_decimal_injective(a / 10, b / 10);
    }
}

/// The numeral of one decimal digit.
fn digit_str(d: usize) -> (out: &'static str)
    requires
        d < 10,
    ensures
        out@ == digit(d as nat),
{
    if d == 0 {
        "0"
    } else if d == 1 {
        "1"
    } else if d == 2 {
        "2"
    } else if d == 3 {
        "3"
    } else if d == 4 {
        "4"
    } else if d == 5 {
        "5"
    } else if d == 6 {
        "6"
    } else if d == 7 {
        "7"
    } else if d == 8 {
        "8"
    } else {
        "9"
    }
}

/// Writes `n` in decimal.
pub fn decimal_string(n: usize) -> (out: String)
    ensures
        out@ == decimal(n as nat),
    decreases n,
{
    if n < 10 {
        String::from_str(digit_str(n))
    } else {
        let mut out = decimal_string(n / 10);
        out.append(digit_str(n % 10));
        out
    }
}

/// Appends a copy of each string of `more`, in order.
pub fn extend_cloned(acc: &mut Vec<String>, more: &Vec<String>)
    ensures
        views(final(acc)@) == views(old(acc)@) + views(more@),
{
    let mut i: usize = 0;
    while i < more.len()
        invariant
            i <= more.len(),
            views(acc@) == views(old(acc)@) + views(more@).take(i as int),
        decreases more.len() - i,
    {
        let item = more[i].clone();
        proof {
            lemma_views_push(acc@, item);
            assert((views(old(acc)@) + views(more@).take(i as int)).push(item@) =~= views(
                old(acc)@,
            ) + views(more@).take(i + 1));
        }
        acc.push(item);
        i += 1;
    }
}

} // verus!
