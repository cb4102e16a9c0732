//! Splitting text and writing numbers.
use vstd::prelude::*;
use vstd::string::*;

verus! {

/// The parts of a text between the separators. There is always one more part than there are
/// separators, and parts may be empty.
pub open spec fn split(text: Seq<char>, separator: char) -> Seq<Seq<char>>
    decreases text.len(),
{
    if text.len() == 0 {
        seq![Seq::empty()]
    } else {
        let front = split(text.drop_last(), separator);
        if text.last() == separator {
            front.push(Seq::empty())
        } else {
            front.drop_last().push(front.last().push(text.last()))
        }
    }
}

/// Parts put together again, with the separator between them.
pub open spec fn join(parts: Seq<Seq<char>>, separator: char) -> Seq<char>
    decreases parts.len(),
{
    if parts.len() == 0 {
        Seq::empty()
    } else if parts.len() == 1 {
        parts[0]
    } else {
        join(parts.drop_last(), separator).push(separator) + parts.last()
    }
}

/// The texts that a list of strings holds.
pub open spec fn texts(strings: Seq<String>) -> Seq<Seq<char>> {
    strings.map_values(|s: String| s@)
}

/// Splits a text at every separator.
pub fn split_text(text: &str, separator: char) -> (parts: Vec<String>)
    ensures
        texts(parts@) == split(text@, separator),
{
    let len = text.unicode_len();
    let mut parts: Vec<String> = Vec::new();
    let mut start: usize = 0;
    let mut i: usize = 0;
    assert(text@.take(0) =~= Seq::empty());
    assert(texts(parts@).push(text@.subrange(0, 0)) =~= split(text@.take(0), separator));
    while i < len
        invariant
            len == text@.len(),
            start <= i <= len,
            texts(parts@).push(text@.subrange(start as int, i as int)) == split(
                text@.take(i as int),
                separator,
            ),
        decreases len - i,
    {
        let ghost before = texts(parts@);
        let ghost part = text@.subrange(start as int, i as int);
        assert(text@.take(i + 1).drop_last() =~= text@.take(i as int));
        if text.get_char(i) == separator {
            parts.push(text.substring_char(start, i).to_owned());
            start = i + 1;
            assert(texts(parts@) =~= before.push(part));
            assert(text@.subrange(start as int, i + 1) =~= Seq::empty());
        } else {
            assert(before.push(part).drop_last() =~= before);
            assert(text@.subrange(start as int, i + 1) =~= part.push(text@[i as int]));
        }
        i = i + 1;
    }
    let ghost before = texts(parts@);
    parts.push(text.substring_char(start, len).to_owned());
    assert(texts(parts@) =~= before.push(text@.subrange(start as int, len as int)));
    assert(text@.take(len as int) =~= text@);
    parts
}

/// The character for a digit.
pub open spec fn digit(value: nat) -> char {
    (48 + value) as char
}

/// A number in decimal, without leading zeros.
pub open spec fn decimal(value: nat) -> Seq<char>
    decreases value,
{
    if value < 10 {
        seq![digit(value)]
    } else {
        decimal(value / 10).push(digit(value % 10))
    }
}

/// The text of one digit.
fn digit_text(value: u16) -> (text: &'static str)
    requires
        value < 10,
    ensures
        text@ == seq![digit(value as nat)],
{
    proof {
        reveal_strlit("0");
        reveal_strlit("1");
        reveal_strlit("2");
        reveal_strlit("3");
        reveal_strlit("4");
        reveal_strlit("5");
        reveal_strlit("6");
        reveal_strlit("7");
        reveal_strlit("8");
        reveal_strlit("9");
    }
    let text = match value {
        0 => "0",
        1 => "1",
        2 => "2",
        3 => "3",
        4 => "4",
        5 => "5",
        6 => "6",
        7 => "7",
        8 => "8",
        _ => "9",
    };
    assert(text@ =~= seq![digit(value as nat)]);
    text
}

/// Writes a number in decimal.
pub fn decimal_text(value: u16) -> (text: String)
    ensures
        text@ == decimal(value as nat),
    decreases value,
{
    if value < 10 {
        digit_text(value).to_owned()
    } else {
        let mut text = decimal_text(value / 10);
        text.append(digit_text(value % 10));
        assert(text@ =~= decimal(value as nat));
        text
    }
}

/// Splitting loses nothing: the parts, put together again, are the text, and the separator is in
/// none of them.
pub proof fn law_split_then_join(text: Seq<char>, separator: char)
    ensures
        split(text, separator).len() >= 1,
        join(split(text, separator), separator) == text,
        forall|i: int|
            0 <= i < split(text, separator).len() ==> !(#[trigger] split(
                text,
                separator,
            )[i]).contains(separator),
    decreases text.len(),
{
    let parts = split(text, separator);
    if text.len() > 0 {
        let shorter = text.drop_last();
        let front = split(shorter, separator);
        law_split_then_join(shorter, separator);
        if text.last() == separator {
            assert(parts.drop_last() =~= front);
            assert(join(parts, separator) =~= text);
        } else {
            assert(parts.drop_last() =~= front.drop_last());
            assert(parts.last() =~= front.last().push(text.last()));
            assert(join(parts, separator) =~= join(front, separator).push(text.last()));
            assert(join(parts, separator) =~= text);
            assert forall|i: int| 0 <= i < parts.len() implies !(
            #[trigger] parts[i]).contains(separator) by {
                if i < parts.len() - 1 {
                    assert(parts[i] == front[i]);
                } else {
                    let last = front.last();
                    assert(front[front.len() - 1] == last);
                    assert forall|j: int| 0 <= j < parts[i].len() implies parts[i][j]
                        != separator by {
                        if j < last.len() {
                            assert(last[j] == parts[i][j]);
                        }
                    }
                }
            }
        }
    }
}

/// The number that a text of decimal digits spells.
pub open spec fn decimal_value(text: Seq<char>) -> int
    decreases text.len(),
{
    if text.len() == 0 {
        0
    } else {
        decimal_value(text.drop_last()) * 10 + (text.last() as int - 48)
    }
}

/// Reading a number back that was written in decimal gives that number.
pub proof fn law_decimal_reads_back(value: nat)
    ensures
        decimal_value(decimal(value)) == value,
    decreases value,
{
    if value < 10 {
        reveal_with_fuel(decimal_value, 2);
        assert(decimal(value).drop_last() =~= Seq::empty());
    } else {
        law_decimal_reads_back(value / 10);
        assert(decimal(value).drop_last() =~= decimal(value / 10));
    }
}

/// A text without the separator is its own only part. A text with one before which there is none has
/// what stands before it as its first part, and the parts of what stands behind it as the others.
pub proof fn law_split_cuts_at_separators(first: Seq<char>, rest: Seq<char>, separator: char)
    requires
        !first.contains(separator),
    ensures
        split(first, separator) == seq![first],
        split(first.push(separator) + rest, separator) == seq![first] + split(rest, separator),
    decreases first.len(), rest.len(),
{
    if first.len() > 0 {
        let front = first.drop_last();
        assert(!front.contains(separator)) by {
            if front.contains(separator) {
                let i = front.index_of(separator);
                assert(first[i] == separator);
            }
        }
        law_split_cuts_at_separators(front, Seq::empty(), separator);
        assert(first.last() != separator) by {
            assert(first[first.len() - 1] == first.last());
        }
        assert(seq![front].drop_last() =~= Seq::empty());
        assert(front.push(first.last()) =~= first);
        assert(split(first, separator) =~= seq![first]);
    } else {
        assert(first =~= Seq::empty());
        assert(split(first, separator) =~= seq![first]);
    }
    let text = first.push(separator) + rest;
    if rest.len() == 0 {
        assert(rest =~= Seq::empty());
        assert(text =~= first.push(separator));
        assert(text.drop_last() =~= first);
        assert(split(text, separator) =~= seq![first] + split(rest, separator));
    } else {
        let shorter = rest.drop_last();
        law_split_cuts_at_separators(first, shorter, separator);
        law_split_then_join(shorter, separator);
        assert(text.drop_last() =~= first.push(separator) + shorter);
        assert(text.last() == rest.last());
        let parts = split(shorter, separator);
        assert((seq![first] + parts).drop_last() =~= seq![first] + parts.drop_last());
        assert((seq![first] + parts).last() == parts.last());
        assert(split(text, separator) =~= seq![first] + split(rest, separator));
    }
}

/// Numbers below ten are one digit, and any other number is a tenth of it with one more digit. The
/// digits are those from `0` on.
pub proof fn law_decimal_digits(value: nat)
    ensures
        value < 10 ==> decimal(value) == seq![('0' as int + value) as char],
        value >= 10 ==> decimal(value) == decimal(value / 10).push(
            ('0' as int + value % 10) as char,
        ),
{
}

/// The texts of strings are those of each, in order.
pub proof fn law_texts_are_those_of_the_strings(strings: Seq<String>)
    ensures
        texts(strings).len() == strings.len(),
        forall|i: int| 0 <= i < strings.len() ==> #[trigger] texts(strings)[i] == strings[i]@,
{
}

} // verus!
