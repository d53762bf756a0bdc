//! Putting texts together.

use vstd::prelude::*;

verus! {

/// The contents of a list of texts.
pub open spec fn contents(parts: Seq<&str>) -> Seq<Seq<char>> {
    parts.map_values(|part: &str| part@)
}

/// The contents of a list of owned texts.
pub open spec fn strings(parts: Seq<String>) -> Seq<Seq<char>> {
    parts.map_values(|part: String| part@)
}

/// `parts` in a row, with `sep` between each two of them.
pub open spec fn joined(parts: Seq<Seq<char>>, sep: Seq<char>) -> Seq<char>
    decreases parts.len(),
{
    if parts.len() == 0 {
        Seq::empty()
    } else if parts.len() == 1 {
        parts[0]
    } else {
        joined(parts.drop_last(), sep) + sep + parts.last()
    }
}

/// `items` with `sep` between each two of them.
pub open spec fn interspersed<T>(items: Seq<T>, sep: T) -> Seq<T> {
    Seq::new(
        if items.len() == 0 {
            0
        } else {
            (2 * items.len() - 1) as nat
        },
        |i: int|
            if i % 2 == 0 {
                items[i / 2]
            } else {
                sep
            },
    )
}

/// `itertools::Itertools::intersperse` hands out the items in their order, and a copy of `sep`
/// between each two of them; the result collects what it hands out.
#[verifier::external_body]
fn intersperse<'a>(items: &[&'a str], sep: &'a str) -> (res: Vec<&'a str>)
    ensures
        res@ == interspersed(items@, sep),
{
    itertools::Itertools::intersperse(items.iter().cloned(), sep).collect()
}

/// Joins `parts` with `sep`, as the slice method of that name does.
pub fn join(parts: &[&str], sep: &str) -> (res: String)
    ensures
        res@ == joined(contents(parts@), sep@),
{
    let mut res = String::new();
    let mut i: usize = 0;
    while i < parts.len()
        invariant
            i <= parts@.len(),
            res@ == joined(contents(parts@.take(i as int)), sep@),
        decreases parts@.len() - i,
    {
        let ghost before = contents(parts@.take(i as int));
        let ghost after = contents(parts@.take(i + 1));
        assert(after.drop_last() == before);
        assert(after.last() == parts@[i as int]@);
        if i > 0 {
            res.append(sep);
        }
        res.append(parts[i]);
        i = i + 1;
    }
    assert(parts@.take(i as int) == parts@);
    res
}

/// Copies `parts`.
pub(crate) fn own(parts: &[&str]) -> (res: Vec<String>)
    ensures
        strings(res@) == contents(parts@),
        res@.len() == parts@.len(),
        forall|i: int| 0 <= i < parts@.len() ==> (#[trigger] res@[i])@ == parts@[i]@,
{
    let mut res: Vec<String> = Vec::new();
    let mut i: usize = 0;
    while i < parts.len()
        invariant
            i <= parts@.len(),
            strings(res@) == contents(parts@.take(i as int)),
        decreases parts@.len() - i,
    {
        let ghost before = res@;
        let part = String::from_str(parts[i]);
        res.push(part);
        assert(strings(res@) == strings(before).push(part@));
        assert(contents(parts@.take(i + 1)) == contents(parts@.take(i as int)).push(part@));
        i = i + 1;
    }
    assert(parts@.take(i as int) == parts@);
    proof {
        law_contents_one_for_one(parts@, res@);
        assert(strings(res@).len() == contents(parts@).len());
        assert forall|i: int| 0 <= i < parts@.len() implies (#[trigger] res@[i])@ == parts@[i]@ by {
            assert(strings(res@)[i] == contents(parts@)[i]);
        }
    }
    res
}

/// The digit for `value`.
pub open spec fn digit(value: nat) -> char {
    ('0' as int + value) as char
}

/// `value` in decimal, without leading zeros.
pub open spec fn decimal(value: nat) -> Seq<char>
    decreases value,
{
    if value < 10 {
        seq![digit(value)]
    } else {
        decimal(value / 10).push(digit(value % 10))
    }
}

/// Writes a digit.
fn digit_text(value: u16) -> (res: &'static str)
    requires
        value < 10,
    ensures
        res@ == seq![digit(value as nat)],
{
    proof {
        reveal_strlit("0");
        reveal_strlit("1");
        reveal_strlit("2");
        reveal_strlit("3");
        reveal_strlit("4");
        reveal_strlit("5");
        reveal_strlit("6");
        reveal_strlit("7");
        reveal_strlit("8");
        reveal_strlit("9");
    }
    match value {
        0 => "0",
        1 => "1",
        2 => "2",
        3 => "3",
        4 => "4",
        5 => "5",
        6 => "6",
        7 => "7",
        8 => "8",
        _ => "9",
    }
}

/// Writes `value` in decimal.
pub(crate) fn decimal_text(value: u16) -> (res: String)
    ensures
        res@ == decimal(value as nat),
        is_plain_decimal(res@),
        decimal_value(res@) == value,
    decreases value,
{
    proof {
        law_decimal_reads_back(value as nat);
    }
    if value < 10 {
        String::from_str(digit_text(value))
    } else {
        let mut res = decimal_text(value / 10);
        res.append(digit_text(value % 10));
        res
    }
}

/// Joins `parts` with `sep`, by putting it between them first.
pub(crate) fn join_interspersed(parts: &[&str], sep: &str) -> (res: String)
    ensures
        res@ == joined(contents(parts@), sep@),
{
    let pieces = intersperse(parts, sep);
    proof {
        lemma_interspersed_is_joined(parts@, sep);
    }
    join(pieces.as_slice(), "")
}

proof fn lemma_joined_with_nothing(parts: Seq<Seq<char>>, last: Seq<char>)
    ensures
        joined(parts.push(last), Seq::empty()) == joined(parts, Seq::empty()) + last,
{
    assert(parts.push(last).drop_last() == parts);
    if parts.len() == 0 {
        assert(joined(parts.push(last), Seq::empty()) == last);
    } else {
        assert(joined(parts, Seq::empty()) + Seq::<char>::empty() == joined(parts, Seq::empty()));
    }
}

proof fn lemma_interspersed_is_joined(items: Seq<&str>, sep: &str)
    ensures
        joined(contents(interspersed(items, sep)), ""@) == joined(contents(items), sep@),
    decreases items.len(),
{
    reveal_strlit("");
    assert(""@ == Seq::<char>::empty());
    if items.len() == 1 {
        assert(contents(interspersed(items, sep)) == contents(items));
    } else if items.len() > 1 {
        let head = items.drop_last();
        lemma_interspersed_is_joined(head, sep);
        let all = contents(interspersed(items, sep));
        let some = contents(interspersed(head, sep));
        assert(all == some.push(sep@).push(items.last()@));
        lemma_joined_with_nothing(some, sep@);
        lemma_joined_with_nothing(some.push(sep@), items.last()@);
        assert(contents(items).drop_last() == contents(head));
    }
}

/// The contents of a list are those of its texts, one for one.
pub proof fn law_contents_one_for_one(parts: Seq<&str>, owned: Seq<String>)
    ensures
        contents(parts).len() == parts.len(),
        forall|i: int| 0 <= i < parts.len() ==> #[trigger] contents(parts)[i] == parts[i]@,
        strings(owned).len() == owned.len(),
        forall|i: int| 0 <= i < owned.len() ==> #[trigger] strings(owned)[i] == owned[i]@,
{
}

/// One text joined is itself, and two lists joined one after the other have the separator between
/// them.
pub proof fn law_joining_puts_separator_between(
    first: Seq<Seq<char>>,
    second: Seq<Seq<char>>,
    one: Seq<char>,
    sep: Seq<char>,
)
    ensures
        joined(Seq::empty(), sep) == Seq::<char>::empty(),
        joined(seq![one], sep) == one,
        first.len() > 0 && second.len() > 0 ==> joined(first + second, sep) == joined(first, sep)
            + sep + joined(second, sep),
    decreases second.len(),
{
    if first.len() > 0 && second.len() > 0 {
        assert((first + second).last() == second.last());
        assert((first + second).drop_last() == first + second.drop_last());
        if second.len() == 1 {
            assert(first + second.drop_last() == first);
            assert(joined(second, sep) == second.last());
        } else {
            law_joining_puts_separator_between(first, second.drop_last(), one, sep);
            assert(joined(first + second, sep) == joined(first, sep) + sep + joined(
                second.drop_last(),
                sep,
            ) + sep + second.last());
            assert(joined(second, sep) == joined(second.drop_last(), sep) + sep + second.last());
            assert(joined(first + second, sep) == joined(first, sep) + sep + joined(second, sep));
        }
    }
}

/// Items with a separator put between them alternate with it, and begin and end with an item.
pub proof fn law_items_and_separators_alternate<T>(items: Seq<T>, sep: T)
    requires
        items.len() > 0,
    ensures
        interspersed(Seq::empty(), sep) == Seq::<T>::empty(),
        interspersed(items, sep).len() + 1 == 2 * items.len(),
        forall|i: int| 0 <= i < items.len() ==> interspersed(items, sep)[2 * i] == #[trigger] items[i],
        forall|i: int|
            #![trigger items[i]]
            0 <= i < items.len() - 1 ==> interspersed(items, sep)[2 * i + 1] == sep,
{
}

/// To put a separator between texts and then join them with nothing is to join them with it.
pub proof fn law_interspersed_is_joined(items: Seq<&str>, sep: &str)
    ensures
        joined(contents(interspersed(items, sep)), Seq::empty()) == joined(contents(items), sep@),
{
    reveal_strlit("");
    assert(""@ == Seq::<char>::empty());
    lemma_interspersed_is_joined(items, sep);
}

/// The number that a text of digits stands for.
pub open spec fn decimal_value(text: Seq<char>) -> int
    decreases text.len(),
{
    if text.len() == 0 {
        0
    } else {
        10 * decimal_value(text.drop_last()) + (text.last() as int - '0' as int)
    }
}

/// A text is a number as it is written by hand: digits only, at least one, and no zero in front
/// unless it is the only digit.
pub open spec fn is_plain_decimal(text: Seq<char>) -> bool {
    &&& text.len() > 0
    &&& forall|i: int| 0 <= i < text.len() ==> '0' as int <= (#[trigger] text[i]) as int <= '9' as int
    &&& text[0] == '0' ==> text.len() == 1
}

/// A number in decimal reads back as that number.
pub proof fn law_decimal_reads_back(value: nat)
    ensures
        is_plain_decimal(decimal(value)),
        decimal_value(decimal(value)) == value,
    decreases value,
{
    let text = decimal(value);
    if value < 10 {
        assert(text.drop_last() == Seq::<char>::empty());
        assert(text.last() as int == '0' as int + value);
        assert(decimal_value(text.drop_last()) == 0);
    } else {
        let head = decimal(value / 10);
        law_decimal_reads_back(value / 10);
        assert(text.drop_last() == head);
        assert(text.last() as int == '0' as int + value % 10);
        assert(text[0] == head[0]);
        if head[0] == '0' {
            assert(decimal_value(head.drop_last()) == 0);
            assert(decimal_value(head) == 0);
        }
        assert forall|i: int| 0 <= i < text.len() implies '0' as int <= (
        #[trigger] text[i]) as int <= '9' as int by {
            if i < head.len() {
                assert(text[i] == head[i]);
            }
        }
    }
}

/// Different numbers are written differently.
pub proof fn law_decimals_differ(value: nat, other: nat)
    ensures
        decimal(value) == decimal(other) <==> value == other,
{
    law_decimal_reads_back(value);
    law_decimal_reads_back(other);
}

} // verus!
