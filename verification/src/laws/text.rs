//! What trimming, splitting and writing numbers do to a text.

use vstd::prelude::*;

use crate::text::{
    ascii_lowercase, ascii_uppercase, control, decimal, decimal2, digit, digits_value, join,
    nonempty, parsed_i64, parsed_u64, signed_decimal, split, trim, trim_end, trim_start,
    white_space, words, CharSet,
};

verus! {

/// Every character of `s` is in the set.
pub open spec fn all_in(s: Seq<char>, set: CharSet) -> bool {
    forall|i: int| 0 <= i < s.len() ==> set.spec_has(#[trigger] s[i])
}

/// No character of `s` is in the set.
pub open spec fn none_in(s: Seq<char>, set: CharSet) -> bool {
    forall|i: int| 0 <= i < s.len() ==> !set.spec_has(#[trigger] s[i])
}

proof fn lemma_trim_start(s: Seq<char>, set: CharSet) -> (head: Seq<char>)
    ensures
        s == head + trim_start(s, set),
        all_in(head, set),
        trim_start(s, set).len() > 0 ==> !set.spec_has(trim_start(s, set)[0]),
    decreases s.len(),
{
    if s.len() > 0 && set.spec_has(s[0]) {
        let rest = lemma_trim_start(s.drop_first(), set);
        let head = seq![s[0]] + rest;
        let kept = trim_start(s, set);
        assert(s.drop_first() == rest + kept);
        assert(s =~= seq![s[0]] + s.drop_first());
        assert(seq![s[0]] + (rest + kept) =~= head + kept);
        assert forall|i: int| 0 <= i < head.len() implies set.spec_has(#[trigger] head[i]) by {
            if i > 0 {
                assert(head[i] == rest[i - 1]);
            }
        }
        head
    } else {
        assert(s =~= Seq::<char>::empty() + s);
        Seq::empty()
    }
}

proof fn lemma_trim_end(s: Seq<char>, set: CharSet) -> (tail: Seq<char>)
    ensures
        s == trim_end(s, set) + tail,
        all_in(tail, set),
        trim_end(s, set).len() > 0 ==> !set.spec_has(trim_end(s, set).last()),
    decreases s.len(),
{
    if s.len() > 0 && set.spec_has(s.last()) {
        let rest = lemma_trim_end(s.drop_last(), set);
        let tail = rest.push(s.last());
        let kept = trim_end(s, set);
        assert(s.drop_last() == kept + rest);
        assert(s =~= s.drop_last().push(s.last()));
        assert((kept + rest).push(s.last()) =~= kept + tail);
        assert forall|i: int| 0 <= i < tail.len() implies set.spec_has(#[trigger] tail[i]) by {
            if i < rest.len() {
                assert(tail[i] == rest[i]);
            }
        }
        tail
    } else {
        assert(s =~= s + Seq::<char>::empty());
        Seq::empty()
    }
}

/// Trimming takes characters of the set away at both ends, and nothing else, until none stands
/// there.
pub proof fn law_trimming_takes_the_ends(s: Seq<char>, set: CharSet)
    ensures
        exists|head: Seq<char>, tail: Seq<char>|
            s == #[trigger] (head + trim(s, set) + tail) && all_in(head, set) && all_in(tail, set),
        trim(s, set).len() > 0 ==> !set.spec_has(trim(s, set)[0]) && !set.spec_has(
            trim(s, set).last(),
        ),
{
    let head = lemma_trim_start(s, set);
    let middle = trim_start(s, set);
    let tail = lemma_trim_end(middle, set);
    assert(s =~= head + trim(s, set) + tail);
    if trim(s, set).len() > 0 {
        assert(trim(s, set)[0] == middle[0]);
    }
}

proof fn lemma_join_push(parts: Seq<Seq<char>>, part: Seq<char>, sep: Seq<char>)
    requires
        parts.len() > 0,
    ensures
        join(parts.push(part), sep) == join(parts, sep) + sep + part,
{
    assert(parts.push(part).drop_last() =~= parts);
}

/// Splitting a text at the one character of the set that it holds loses nothing: the parts, with
/// the character between them, are the text, and no part holds it.
pub proof fn law_splitting_is_undone_by_joining(s: Seq<char>, set: CharSet, c: char)
    requires
        forall|i: int| 0 <= i < s.len() ==> (set.spec_has(#[trigger] s[i]) <==> s[i] == c),
    ensures
        split(s, set).len() > 0,
        join(split(s, set), seq![c]) == s,
        forall|i: int| 0 <= i < split(s, set).len() ==> none_in(#[trigger] split(s, set)[i], set),
    decreases s.len(),
{
    let parts = split(s, set);
    if s.len() == 0 {
        assert(parts[0] =~= s);
    } else {
        let before = split(s.drop_last(), set);
        assert(set.spec_has(s[s.len() - 1]) <==> s[s.len() - 1] == c);
        assert forall|i: int| 0 <= i < s.drop_last().len() implies (set.spec_has(
            #[trigger] s.drop_last()[i],
        ) <==> s.drop_last()[i] == c) by {
            assert(s.drop_last()[i] == s[i]);
        }
        law_splitting_is_undone_by_joining(s.drop_last(), set, c);
        if set.spec_has(s.last()) {
            lemma_join_push(before, Seq::empty(), seq![c]);
            assert(join(parts, seq![c]) =~= s);
            assert forall|i: int| 0 <= i < parts.len() implies none_in(
                #[trigger] parts[i],
                set,
            ) by {
                if i < before.len() {
                    assert(parts[i] == before[i]);
                }
            }
        } else {
            let last = before.last().push(s.last());
            if before.len() == 1 {
                assert(parts[0] == last);
                assert(join(parts, seq![c]) =~= s);
            } else {
                let rest = before.drop_last();
                assert(parts.drop_last() =~= rest);
                assert(join(parts, seq![c]) =~= join(before, seq![c]).push(s.last()));
                assert(s =~= s.drop_last().push(s.last()));
            }
            assert forall|i: int| 0 <= i < parts.len() implies none_in(
                #[trigger] parts[i],
                set,
            ) by {
                if i < before.len() - 1 {
                    assert(parts[i] == before[i]);
                } else {
                    assert(none_in(before[before.len() - 1], set));
                }
            }
        }
    }
}

/// The characters of `s` that are not white space.
pub open spec fn inked(s: Seq<char>) -> Seq<char>
    decreases s.len(),
{
    if s.len() == 0 {
        Seq::empty()
    } else if white_space(s.last()) {
        inked(s.drop_last())
    } else {
        inked(s.drop_last()).push(s.last())
    }
}

/// The parts one after the other.
pub open spec fn strung(parts: Seq<Seq<char>>) -> Seq<char>
    decreases parts.len(),
{
    if parts.len() == 0 {
        Seq::empty()
    } else {
        strung(parts.drop_last()) + parts.last()
    }
}

proof fn lemma_split_strung(s: Seq<char>)
    ensures
        split(s, CharSet::WhiteSpace).len() > 0,
        strung(split(s, CharSet::WhiteSpace)) == inked(s),
        forall|i: int|
            0 <= i < split(s, CharSet::WhiteSpace).len() ==> none_in(
                #[trigger] split(s, CharSet::WhiteSpace)[i],
                CharSet::WhiteSpace,
            ),
    decreases s.len(),
{
    let set = CharSet::WhiteSpace;
    let parts = split(s, set);
    if s.len() == 0 {
        assert(parts.drop_last() =~= Seq::<Seq<char>>::empty());
        assert(strung(Seq::<Seq<char>>::empty()) == Seq::<char>::empty());
        assert(strung(parts) =~= Seq::<char>::empty());
    } else {
        let before = split(s.drop_last(), set);
        lemma_split_strung(s.drop_last());
        if white_space(s.last()) {
            assert(parts.drop_last() =~= before);
            assert(strung(parts) =~= strung(before));
            assert forall|i: int| 0 <= i < parts.len() implies none_in(
                #[trigger] parts[i],
                set,
            ) by {
                if i < before.len() {
                    assert(parts[i] == before[i]);
                }
            }
        } else {
            assert(parts.drop_last() =~= before.drop_last());
            assert(strung(parts) =~= strung(before).push(s.last()));
            assert forall|i: int| 0 <= i < parts.len() implies none_in(
                #[trigger] parts[i],
                set,
            ) by {
                if i < before.len() - 1 {
                    assert(parts[i] == before[i]);
                } else {
                    assert(none_in(before[before.len() - 1], set));
                }
            }
        }
    }
}

proof fn lemma_nonempty_strung(parts: Seq<Seq<char>>)
    ensures
        strung(nonempty(parts)) == strung(parts),
        forall|i: int|
            0 <= i < nonempty(parts).len() ==> (#[trigger] nonempty(parts)[i]).len() > 0
                && parts.contains(nonempty(parts)[i]),
    decreases parts.len(),
{
    if parts.len() > 0 {
        let before = parts.drop_last();
        let kept = nonempty(parts);
        lemma_nonempty_strung(before);
        assert forall|i: int| 0 <= i < kept.len() implies (#[trigger] kept[i]).len() > 0
            && parts.contains(kept[i]) by {
            if i < nonempty(before).len() {
                assert(kept[i] == nonempty(before)[i]);
                let k = choose|k: int| 0 <= k < before.len() && before[k] == kept[i];
                assert(parts[k] == kept[i]);
            } else {
                assert(parts[parts.len() - 1] == kept[i]);
            }
        }
        if parts.last().len() > 0 {
            assert(kept.drop_last() =~= nonempty(before));
        } else {
            assert(strung(parts) =~= strung(before));
        }
    }
}

/// The words of a text are its characters that are not white space, in runs without white space
/// that are not empty.
pub proof fn law_words_are_what_is_written(s: Seq<char>)
    ensures
        strung(words(s)) == inked(s),
        forall|i: int|
            0 <= i < words(s).len() ==> (#[trigger] words(s)[i]).len() > 0 && none_in(
                words(s)[i],
                CharSet::WhiteSpace,
            ),
{
    let parts = split(s, CharSet::WhiteSpace);
    lemma_split_strung(s);
    lemma_nonempty_strung(parts);
    assert forall|i: int| 0 <= i < words(s).len() implies (#[trigger] words(s)[i]).len() > 0
        && none_in(words(s)[i], CharSet::WhiteSpace) by {
        let k = choose|k: int| 0 <= k < parts.len() && parts[k] == words(s)[i];
        assert(none_in(parts[k], CharSet::WhiteSpace));
    }
}

proof fn lemma_decimal(n: nat)
    ensures
        decimal(n).len() > 0,
        digits_value(decimal(n)) == Some(n),
        forall|i: int| 0 <= i < decimal(n).len() ==> '0' <= #[trigger] decimal(n)[i] <= '9',
        n > 0 ==> decimal(n)[0] != '0',
        n < 10 ==> decimal(n).len() == 1,
    decreases n,
{
    assert(digits_value(Seq::<char>::empty()) == Some(0nat));
    assert(digit(n % 10) as u32 - 48 == n % 10);
    if n < 10 {
        assert(decimal(n).drop_last() =~= Seq::<char>::empty());
        assert(decimal(n).last() == digit(n % 10));
    } else {
        lemma_decimal(n / 10);
        assert(decimal(n).drop_last() =~= decimal(n / 10));
        assert(decimal(n)[0] == decimal(n / 10)[0]);
    }
}

/// A number that was written in decimal is read back. It is written in digits alone, without zeros
/// in front; in two places at least, with one zero in front where it needs it.
pub proof fn law_written_numbers_are_read_back(n: u64, m: i64)
    ensures
        parsed_u64(decimal(n as nat)) == Some(n),
        parsed_i64(signed_decimal(m as int)) == Some(m),
        forall|i: int|
            0 <= i < decimal(n as nat).len() ==> '0' <= #[trigger] decimal(n as nat)[i] <= '9',
        n > 0 ==> decimal(n as nat)[0] != '0',
        decimal(0) == seq!['0'],
        parsed_u64(decimal2(n as nat)) == Some(n),
        decimal2(n as nat).len() >= 2,
        n < 10 ==> decimal2(n as nat).len() == 2 && decimal2(n as nat)[0] == '0',
        n >= 10 ==> decimal2(n as nat) == decimal(n as nat),
{
    lemma_decimal(n as nat);
    let size = if m < 0 {
        (-m) as nat
    } else {
        m as nat
    };
    lemma_decimal(size);
    let text = signed_decimal(m as int);
    if m < 0 {
        assert(text.drop_first() =~= decimal(size));
        assert(text[0] == '-');
    } else {
        assert('0' <= text[0] <= '9');
    }
    assert(decimal(0) =~= seq!['0']);
    let wide = decimal2(n as nat);
    if n < 10 {
        assert(wide.len() == 2);
        assert(wide.drop_last() =~= seq!['0']);
        assert(digits_value(Seq::<char>::empty()) == Some(0nat));
        assert(seq!['0'].drop_last() =~= Seq::<char>::empty());
        assert(digits_value(seq!['0']) == Some(0nat));
        assert(digit(n as nat) as u32 - 48 == n);
        assert(wide.drop_last().drop_last() =~= Seq::<char>::empty());
        assert(wide.last() == digit(n as nat));
    } else {
        lemma_decimal((n / 10) as nat);
        assert(decimal(n as nat).len() == decimal((n / 10) as nat).len() + 1);
    }
    assert('0' <= decimal(n as nat)[0] <= '9');
}

proof fn lemma_digits_only(s: Seq<char>)
    requires
        digits_value(s) is Some,
    ensures
        forall|i: int| 0 <= i < s.len() ==> '0' <= #[trigger] s[i] <= '9',
    decreases s.len(),
{
    if s.len() > 0 {
        lemma_digits_only(s.drop_last());
        assert forall|i: int| 0 <= i < s.len() implies '0' <= #[trigger] s[i] <= '9' by {
            if i < s.len() - 1 {
                assert(s[i] == s.drop_last()[i]);
            }
        }
    }
}

/// Only digits, with at most a sign in front, are a number; an empty text is none.
pub proof fn law_only_digits_are_numbers(s: Seq<char>)
    ensures
        parsed_u64(s) is Some ==> s.len() > 0 && forall|i: int|
            0 < i < s.len() ==> '0' <= #[trigger] s[i] <= '9',
        parsed_u64(s) is Some ==> s[0] == '+' || '0' <= s[0] <= '9',
        parsed_i64(s) is Some ==> s.len() > 0 && forall|i: int|
            0 < i < s.len() ==> '0' <= #[trigger] s[i] <= '9',
        parsed_i64(s) is Some ==> s[0] == '+' || s[0] == '-' || '0' <= s[0] <= '9',
{
    if parsed_u64(s) is Some || parsed_i64(s) is Some {
        let rest = s.drop_first();
        if digits_value(s) is Some {
            lemma_digits_only(s);
        }
        if digits_value(rest) is Some {
            lemma_digits_only(rest);
            assert forall|i: int| 0 < i < s.len() implies '0' <= #[trigger] s[i] <= '9' by {
                assert(s[i] == rest[i - 1]);
            }
        }
    }
}

/// Lowering and raising letters concerns `A` to `Z` and `a` to `z` alone, each letter becoming its
/// counterpart.
pub proof fn law_ascii_letters_change_case(s: Seq<char>, i: int)
    requires
        0 <= i < s.len(),
    ensures
        ascii_lowercase(s).len() == s.len(),
        ascii_uppercase(s).len() == s.len(),
        'A' <= s[i] <= 'Z' ==> ascii_lowercase(s)[i] as int - 'a' as int == s[i] as int
            - 'A' as int,
        'a' <= s[i] <= 'z' ==> ascii_uppercase(s)[i] as int - 'A' as int == s[i] as int
            - 'a' as int,
        !('A' <= s[i] <= 'Z') ==> ascii_lowercase(s)[i] == s[i],
        !('a' <= s[i] <= 'z') ==> ascii_uppercase(s)[i] == s[i],
{
}

/// Blanks, tabs and line ends are white space and no printed ASCII character is; the characters
/// below the blank, and the one that deletes, are control characters, and no printed one is.
pub proof fn law_printed_characters(c: char)
    ensures
        c == ' ' || c == '\t' || c == '\n' || c == '\r' ==> white_space(c),
        33 <= c as u32 <= 126 ==> !white_space(c),
        (c as u32) < 32 || c as u32 == 127 ==> control(c),
        32 <= c as u32 <= 126 ==> !control(c),
        c as u32 >= 0xA0 ==> !control(c),
        CharSet::Slash.spec_has(c) <==> c == '/',
        CharSet::SpaceOrDot.spec_has(c) <==> c == ' ' || c == '.',
        CharSet::LineFeed.spec_has(c) <==> c == '\n',
        CharSet::Comma.spec_has(c) <==> c == ',',
        CharSet::WhiteSpace.spec_has(c) <==> white_space(c),
{
}

} // verus!
