//! The few text operations that messages and packet summaries are made of.

use vstd::prelude::*;
use vstd::string::*;

verus! {

/// The digit that stands for a value below 16.
pub open spec fn digit(value: nat) -> char {
    if value < 10 {
        (48 + value) as char
    } else {
        (87 + value) as char
    }
}

/// A number in base ten, without leading zeros.
pub open spec fn decimal(value: nat) -> Seq<char>
    decreases value,
{
    if value < 10 {
        seq![digit(value)]
    } else {
        decimal(value / 10).push(digit(value % 10))
    }
}

/// A number in base sixteen, in lower case and without leading zeros.
pub open spec fn hexadecimal(value: nat) -> Seq<char>
    decreases value,
{
    if value < 16 {
        seq![digit(value)]
    } else {
        hexadecimal(value / 16).push(digit(value % 16))
    }
}

/// The texts of a list of strings.
pub open spec fn texts(parts: Seq<String>) -> Seq<Seq<char>> {
    Seq::new(parts.len(), |i: int| parts[i]@)
}

/// The parts one after another, with `separator` between each two of them.
pub open spec fn joined(parts: Seq<Seq<char>>, separator: Seq<char>) -> Seq<char>
    decreases parts.len(),
{
    if parts.len() == 0 {
        Seq::empty()
    } else if parts.len() == 1 {
        parts[0]
    } else {
        joined(parts.drop_last(), separator) + separator + parts.last()
    }
}

/// The characters with the Unicode property White_Space.
pub open spec fn is_white_space(c: char) -> bool {
    ||| '\u{9}' <= c <= '\u{d}'
    ||| c == ' '
    ||| c == '\u{85}'
    ||| c == '\u{a0}'
    ||| c == '\u{1680}'
    ||| '\u{2000}' <= c <= '\u{200a}'
    ||| c == '\u{2028}'
    ||| c == '\u{2029}'
    ||| c == '\u{202f}'
    ||| c == '\u{205f}'
    ||| c == '\u{3000}'
}

/// A text without the white space at its beginning and at its end.
pub open spec fn trimmed(text: Seq<char>) -> Seq<char>
    decreases text.len(),
{
    if text.len() == 0 {
        text
    } else if is_white_space(text.first()) {
        trimmed(text.drop_first())
    } else if is_white_space(text.last()) {
        trimmed(text.drop_last())
    } else {
        text
    }
}

/// Removes the white space at both ends of a text.
///
/// Calls `str::trim`, which is documented to return the slice with leading and trailing white
/// space removed, white space being what has the Unicode property White_Space.
#[verifier::external_body]
pub(crate) fn trim(text: &str) -> (rest: &str)
    ensures
        rest@ == trimmed(text@),
{
    text.trim()
}

/// The text of a single digit.
fn digit_text(value: u8) -> (text: &'static str)
    requires
        value < 16,
    ensures
        text@ == seq![digit(value as nat)],
{
    proof {
        reveal_strlit("0");
        reveal_strlit("1");
        reveal_strlit("2");
        reveal_strlit("3");
        reveal_strlit("4");
        reveal_strlit("5");
        reveal_strlit("6");
        reveal_strlit("7");
        reveal_strlit("8");
        reveal_strlit("9");
        reveal_strlit("a");
        reveal_strlit("b");
        reveal_strlit("c");
        reveal_strlit("d");
        reveal_strlit("e");
        reveal_strlit("f");
    }
    match value {
        0 => "0",
        1 => "1",
        2 => "2",
        3 => "3",
        4 => "4",
        5 => "5",
        6 => "6",
        7 => "7",
        8 => "8",
        9 => "9",
        10 => "a",
        11 => "b",
        12 => "c",
        13 => "d",
        14 => "e",
        _ => "f",
    }
}

/// Appends a number in base ten.
pub fn append_decimal(text: &mut String, value: u64)
    ensures
        final(text)@ == old(text)@ + decimal(value as nat),
    decreases value,
{
    if value >= 10 {
        append_decimal(text, value / 10);
    }
    text.append(digit_text((value % 10) as u8));
}

/// Appends a number in base sixteen.
pub fn append_hexadecimal(text: &mut String, value: u64)
    ensures
        final(text)@ == old(text)@ + hexadecimal(value as nat),
    decreases value,
{
    if value >= 16 {
        append_hexadecimal(text, value / 16);
    }
    text.append(digit_text((value % 16) as u8));
}

/// Joins the parts, with `separator` between each two of them.
pub fn join(parts: &Vec<String>, separator: &str) -> (text: String)
    ensures
        text@ == joined(texts(parts@), separator@),
{
    let mut text = String::new();
    let mut index: usize = 0;
    while index < parts.len()
        invariant
            index <= parts@.len(),
            text@ == joined(texts(parts@).take(index as int), separator@),
        decreases parts@.len() - index,
    {
        if index > 0 {
            text.append(separator);
        }
        text.append(parts[index].as_str());
        assert(texts(parts@).take(index + 1).drop_last() == texts(parts@).take(index as int));
        index = index + 1;
    }
    assert(texts(parts@).take(index as int) == texts(parts@));
    text
}

/// Whether a character occurs in a text.
pub fn has_char(text: &str, wanted: char) -> (answer: bool)
    ensures
        answer == text@.contains(wanted),
{
    let mut found: bool = false;
    for c in it: text.chars()
        invariant
            it.seq() == text@,
            found == it.seq().take(it.index()).contains(wanted),
    {
        let ghost seen = it.seq().take(it.index());
        let ghost more = it.seq().take(it.index() + 1);
        assert(more == seen.push(c));
        assert(more.contains(wanted) == (seen.contains(wanted) || c == wanted)) by {
            assert(more[it.index()] == c);
            if seen.contains(wanted) {
                let i = seen.index_of(wanted);
                assert(more[i] == wanted);
            }
        }
        if c == wanted {
            found = true;
        }
    }
    assert(text@.take(text@.len() as int) == text@);
    found
}

/// Whether a text begins with a character.
pub fn begins_with(text: &str, wanted: char) -> (answer: bool)
    ensures
        answer == (0 < text@.len() && text@[0] == wanted),
{
    if text.is_empty() {
        false
    } else {
        text.get_char(0) == wanted
    }
}

/// A number in base ten is made of digits, does not begin with a zero unless it is one, and reads
/// back as the number. `shifted` is what a number becomes when a digit is put behind it.
pub proof fn law_decimal_reads_back(value: nat, shifted: spec_fn(int, char) -> int)
    requires
        forall|number: int, c: char| #[trigger]
            shifted(number, c) == 10 * number + (c as int - '0' as int),
    ensures
        decimal(value).fold_left(0, shifted) == value,
        decimal(value).len() > 0,
        value >= 10 ==> decimal(value).len() > 1,
        decimal(value).len() > 1 ==> decimal(value)[0] != '0',
        forall|i: int| 0 <= i < decimal(value).len() ==> '0' <= #[trigger] decimal(value)[i] <= '9',
    decreases value,
{
    let text = decimal(value);
    if value < 10 {
        assert(text.drop_last() =~= Seq::empty());
        reveal_with_fuel(Seq::fold_left, 2);
        assert(shifted(0, text.last()) == value);
    } else {
        law_decimal_reads_back(value / 10, shifted);
        assert(text.drop_last() =~= decimal(value / 10));
        assert(shifted(value as int / 10, text.last()) == value);
        if value / 10 < 10 {
            assert(decimal(value / 10)[0] == text[0]);
        }
        assert forall|i: int| 0 <= i < text.len() implies '0' <= #[trigger] text[i] <= '9' by {
            if i < text.len() - 1 {
                assert(text[i] == decimal(value / 10)[i]);
            }
        }
    }
}

/// A number in base sixteen is made of lower-case digits, does not begin with a zero unless it is
/// one, and reads back as the number. `shifted` is what a number becomes when a digit is put behind
/// it.
pub proof fn law_hexadecimal_reads_back(value: nat, shifted: spec_fn(int, char) -> int)
    requires
        forall|number: int, c: char| #[trigger]
            shifted(number, c) == 16 * number + if c <= '9' {
                c as int - '0' as int
            } else {
                10 + c as int - 'a' as int
            },
    ensures
        hexadecimal(value).fold_left(0, shifted) == value,
        hexadecimal(value).len() > 0,
        value >= 16 ==> hexadecimal(value).len() > 1,
        hexadecimal(value).len() > 1 ==> hexadecimal(value)[0] != '0',
        forall|i: int|
            0 <= i < hexadecimal(value).len() ==> '0' <= #[trigger] hexadecimal(value)[i] <= '9'
                || 'a' <= hexadecimal(value)[i] <= 'f',
    decreases value,
{
    let text = hexadecimal(value);
    if value < 16 {
        assert(text.drop_last() =~= Seq::empty());
        reveal_with_fuel(Seq::fold_left, 2);
        assert(shifted(0, text.last()) == value);
    } else {
        law_hexadecimal_reads_back(value / 16, shifted);
        assert(text.drop_last() =~= hexadecimal(value / 16));
        assert(shifted(value as int / 16, text.last()) == value);
        if value / 16 < 16 {
            assert(hexadecimal(value / 16)[0] == text[0]);
        }
        assert forall|i: int| 0 <= i < text.len() implies '0' <= #[trigger] text[i] <= '9' || 'a'
            <= text[i] <= 'f' by {
            if i < text.len() - 1 {
                assert(text[i] == hexadecimal(value / 16)[i]);
            }
        }
    }
}

/// A list that is cut in two anywhere is joined by joining the two, with the separator between
/// them.
pub proof fn law_joined_lists(first: Seq<Seq<char>>, second: Seq<Seq<char>>, separator: Seq<char>)
    ensures
        first.len() > 0 && second.len() > 0 ==> joined(first + second, separator) == joined(
            first,
            separator,
        ) + separator + joined(second, separator),
        first.len() == 0 ==> joined(first, separator) == Seq::<char>::empty(),
        first.len() == 1 ==> joined(first, separator) == first[0],
    decreases second.len(),
{
    if first.len() > 0 && second.len() > 0 {
        let both = first + second;
        assert(both.drop_last() =~= first + second.drop_last());
        if second.len() > 1 {
            law_joined_lists(first, second.drop_last(), separator);
            assert(joined(both, separator) =~= joined(first, separator) + separator + joined(
                second,
                separator,
            ));
        } else {
            assert(second.drop_last() =~= Seq::empty());
            assert(both.drop_last() =~= first);
        }
    }
}

/// Trimming leaves what stands between the white space at both ends: whatever it holds inside, and
/// nothing where there is only white space.
pub proof fn law_trimming_leaves_the_middle(before: Seq<char>, middle: Seq<char>, after: Seq<char>)
    requires
        forall|i: int|
            0 <= i < before.len() ==> {
                let c = #[trigger] before[i];
                '\u{9}' <= c <= '\u{d}' || c == ' ' || c == '\u{85}' || c == '\u{a0}' || c
                    == '\u{1680}' || '\u{2000}' <= c <= '\u{200a}' || c == '\u{2028}' || c
                    == '\u{2029}' || c == '\u{202f}' || c == '\u{205f}' || c == '\u{3000}'
            },
        forall|i: int|
            0 <= i < after.len() ==> {
                let c = #[trigger] after[i];
                '\u{9}' <= c <= '\u{d}' || c == ' ' || c == '\u{85}' || c == '\u{a0}' || c
                    == '\u{1680}' || '\u{2000}' <= c <= '\u{200a}' || c == '\u{2028}' || c
                    == '\u{2029}' || c == '\u{202f}' || c == '\u{205f}' || c == '\u{3000}'
            },
        middle.len() > 0 ==> {
            let c = middle.first();
            let d = middle.last();
            &&& !('\u{9}' <= c <= '\u{d}' || c == ' ' || c == '\u{85}' || c == '\u{a0}' || c
                    == '\u{1680}' || '\u{2000}' <= c <= '\u{200a}' || c == '\u{2028}' || c
                    == '\u{2029}' || c == '\u{202f}' || c == '\u{205f}' || c == '\u{3000}')
            &&& !('\u{9}' <= d <= '\u{d}' || d == ' ' || d == '\u{85}' || d == '\u{a0}' || d
                    == '\u{1680}' || '\u{2000}' <= d <= '\u{200a}' || d == '\u{2028}' || d
                    == '\u{2029}' || d == '\u{202f}' || d == '\u{205f}' || d == '\u{3000}')
        },
    ensures
        trimmed(before + middle + after) == middle,
    decreases before.len() + after.len(),
{
    let text = before + middle + after;
    if before.len() > 0 {
        assert(text.first() == before[0]);
        let rest = before.drop_first();
        assert forall|i: int| 0 <= i < rest.len() implies is_white_space(#[trigger] rest[i]) by {
            assert(rest[i] == before[i + 1]);
        }
        assert(text.drop_first() =~= rest + middle + after);
        law_trimming_leaves_the_middle(rest, middle, after);
    } else if after.len() > 0 {
        assert(text.last() == after.last());
        let rest = after.drop_last();
        assert forall|i: int| 0 <= i < rest.len() implies is_white_space(#[trigger] rest[i]) by {
            assert(rest[i] == after[i]);
        }
        if middle.len() > 0 {
            assert(text.first() == middle.first());
            assert(text.drop_last() =~= before + middle + rest);
            law_trimming_leaves_the_middle(before, middle, rest);
        } else {
            let tail = after.drop_first();
            assert forall|i: int| 0 <= i < tail.len() implies is_white_space(
                #[trigger] tail[i],
            ) by {
                assert(tail[i] == after[i + 1]);
            }
            assert(text.first() == after[0]);
            assert(text.drop_first() =~= before + middle + tail);
            law_trimming_leaves_the_middle(before, middle, tail);
        }
    } else {
        assert(text =~= middle);
    }
}

/// The texts of a list are those of its strings, each in its place.
pub proof fn law_texts_of_strings(parts: Seq<String>)
    ensures
        texts(parts).len() == parts.len(),
        forall|i: int| 0 <= i < parts.len() ==> #[trigger] texts(parts)[i] == parts[i]@,
{
}

} // verus!
