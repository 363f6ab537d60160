//! Operations on text, stated over the sequence of characters that a string holds.

use vstd::prelude::*;
use vstd::slice::slice_subrange;

verus! {

broadcast use vstd::seq_lib::group_seq_properties;

/// `String::push`: the character is appended to the text.
pub assume_specification[ String::push ](text: &mut String, ch: char)
    ensures
        final(text)@ == old(text)@.push(ch),
;

/// `String::pop`: the last character leaves the text and is returned; an empty text gives `None`.
pub assume_specification[ String::pop ](text: &mut String) -> (res: Option<char>)
    ensures
        old(text)@.len() == 0 ==> res is None && final(text)@ == old(text)@,
        old(text)@.len() > 0 ==> res == Some(old(text)@.last()) && final(text)@
            == old(text)@.drop_last(),
;

/// `String::clear`: the text becomes empty.
pub assume_specification[ String::clear ](text: &mut String)
    ensures
        final(text)@ == Seq::<char>::empty(),
;

/// The result of `str::to_lowercase`, which maps every character by the Unicode tables.
pub uninterp spec fn lowercase(text: Seq<char>) -> Seq<char>;

/// `str::to_lowercase`: a function of the text alone, named by [`lowercase`].
#[verifier::external_body]
pub(crate) fn to_lowercase(text: &str) -> (res: String)
    ensures
        res@ == lowercase(text@),
{
    text.to_lowercase()
}

/// A set of characters that text is trimmed by or split at.
#[derive(Clone, Copy, Debug, PartialEq, Eq, Structural)]
pub enum CharSet {
    /// The characters with the Unicode property `White_Space`.
    WhiteSpace,
    /// The path separator `/`.
    Slash,
    /// A space or a full stop.
    SpaceOrDot,
    /// A line feed.
    LineFeed,
    /// A comma.
    Comma,
}

/// The Unicode property `White_Space`.
pub open spec fn white_space(c: char) -> bool {
    let u = c as u32;
    ||| 9 <= u <= 13
    ||| u == 32
    ||| u == 0x85
    ||| u == 0xA0
    ||| u == 0x1680
    ||| 0x2000 <= u <= 0x200A
    ||| u == 0x2028
    ||| u == 0x2029
    ||| u == 0x202F
    ||| u == 0x205F
    ||| u == 0x3000
}

/// The Unicode general category `Cc` (control characters).
pub open spec fn control(c: char) -> bool {
    let u = c as u32;
    u < 0x20 || 0x7F <= u <= 0x9F
}

pub fn is_white_space(c: char) -> (res: bool)
    ensures
        res == white_space(c),
{
    let u: u32 = c as u32;
    (9 <= u && u <= 13) || u == 32 || u == 0x85 || u == 0xA0 || u == 0x1680 || (0x2000 <= u && u
        <= 0x200A) || u == 0x2028 || u == 0x2029 || u == 0x202F || u == 0x205F || u == 0x3000
}

pub fn is_control(c: char) -> (res: bool)
    ensures
        res == control(c),
{
    let u: u32 = c as u32;
    u < 0x20 || (0x7F <= u && u <= 0x9F)
}

impl CharSet {
    pub open spec fn spec_has(self, c: char) -> bool {
        match self {
            CharSet::WhiteSpace => white_space(c),
            CharSet::Slash => c == '/',
            CharSet::SpaceOrDot => c == ' ' || c == '.',
            CharSet::LineFeed => c == '\n',
            CharSet::Comma => c == ',',
        }
    }

    pub fn has(self, c: char) -> (res: bool)
        ensures
            res == self.spec_has(c),
    {
        match self {
            CharSet::WhiteSpace => is_white_space(c),
            CharSet::Slash => c == '/',
            CharSet::SpaceOrDot => c == ' ' || c == '.',
            CharSet::LineFeed => c == '\n',
            CharSet::Comma => c == ',',
        }
    }
}

/// `s` without its longest prefix of characters of `set`.
pub open spec fn trim_start(s: Seq<char>, set: CharSet) -> Seq<char>
    decreases s.len(),
{
    if s.len() > 0 && set.spec_has(s[0]) {
        trim_start(s.drop_first(), set)
    } else {
        s
    }
}

/// `s` without its longest suffix of characters of `set`.
pub open spec fn trim_end(s: Seq<char>, set: CharSet) -> Seq<char>
    decreases s.len(),
{
    if s.len() > 0 && set.spec_has(s.last()) {
        trim_end(s.drop_last(), set)
    } else {
        s
    }
}

/// `s` without leading and trailing characters of `set`.
pub open spec fn trim(s: Seq<char>, set: CharSet) -> Seq<char> {
    trim_end(trim_start(s, set), set)
}

/// The parts of `s` between the characters of `set`; always at least one part.
pub open spec fn split(s: Seq<char>, set: CharSet) -> Seq<Seq<char>>
    decreases s.len(),
{
    if s.len() == 0 {
        seq![Seq::<char>::empty()]
    } else {
        let before = split(s.drop_last(), set);
        if set.spec_has(s.last()) {
            before.push(Seq::<char>::empty())
        } else {
            before.drop_last().push(before.last().push(s.last()))
        }
    }
}

/// The parts that hold at least one character, in order.
pub open spec fn nonempty(parts: Seq<Seq<char>>) -> Seq<Seq<char>>
    decreases parts.len(),
{
    if parts.len() == 0 {
        Seq::empty()
    } else if parts.last().len() > 0 {
        nonempty(parts.drop_last()).push(parts.last())
    } else {
        nonempty(parts.drop_last())
    }
}

/// The maximal runs of characters that are not white space.
pub open spec fn words(s: Seq<char>) -> Seq<Seq<char>> {
    nonempty(split(s, CharSet::WhiteSpace))
}

/// The parts one after another with `sep` between neighbours.
pub open spec fn join(parts: Seq<Seq<char>>, sep: Seq<char>) -> Seq<char>
    decreases parts.len(),
{
    if parts.len() == 0 {
        Seq::empty()
    } else if parts.len() == 1 {
        parts[0]
    } else {
        join(parts.drop_last(), sep) + sep + parts.last()
    }
}

/// `needle` occurs in `s` as a contiguous run.
pub open spec fn contains_text(s: Seq<char>, needle: Seq<char>) -> bool {
    exists|i: int| #[trigger] occurs_at(s, needle, i)
}

pub open spec fn occurs_at(s: Seq<char>, needle: Seq<char>, i: int) -> bool {
    0 <= i && i + needle.len() <= s.len() && s.subrange(i, i + needle.len()) == needle
}

/// `s` begins with `prefix`.
pub open spec fn begins_with(s: Seq<char>, prefix: Seq<char>) -> bool {
    prefix.len() <= s.len() && s.subrange(0, prefix.len() as int) == prefix
}

pub open spec fn ascii_lower(c: char) -> char {
    if 'A' <= c <= 'Z' {
        ((c as u32) + 32) as char
    } else {
        c
    }
}

pub open spec fn ascii_upper(c: char) -> char {
    if 'a' <= c <= 'z' {
        ((c as u32) - 32) as char
    } else {
        c
    }
}

/// `s` with the letters `A` to `Z` replaced by `a` to `z`.
pub open spec fn ascii_lowercase(s: Seq<char>) -> Seq<char> {
    Seq::new(s.len(), |i: int| ascii_lower(s[i]))
}

/// `s` with the letters `a` to `z` replaced by `A` to `Z`.
pub open spec fn ascii_uppercase(s: Seq<char>) -> Seq<char> {
    Seq::new(s.len(), |i: int| ascii_upper(s[i]))
}

pub open spec fn is_digit(c: char) -> bool {
    '0' <= c <= '9'
}

/// The number that a run of decimal digits stands for; `None` if another character occurs.
pub open spec fn digits_value(s: Seq<char>) -> Option<nat>
    decreases s.len(),
{
    if s.len() == 0 {
        Some(0nat)
    } else {
        match digits_value(s.drop_last()) {
            Some(v) => if is_digit(s.last()) {
                Some((v * 10 + (s.last() as u32 - 48)) as nat)
            } else {
                None
            },
            None => None,
        }
    }
}

/// An unsigned decimal number: an optional `+`, then one or more digits, within `u64`.
pub open spec fn parsed_u64(s: Seq<char>) -> Option<u64> {
    let body = if s.len() > 0 && s[0] == '+' {
        s.drop_first()
    } else {
        s
    };
    if body.len() == 0 {
        None
    } else {
        match digits_value(body) {
            Some(v) => if v <= u64::MAX {
                Some(v as u64)
            } else {
                None
            },
            None => None,
        }
    }
}

/// A signed decimal number: an optional `+` or `-`, then one or more digits, within `i64`.
pub open spec fn parsed_i64(s: Seq<char>) -> Option<i64> {
    let negative = s.len() > 0 && s[0] == '-';
    let body = if s.len() > 0 && (s[0] == '+' || s[0] == '-') {
        s.drop_first()
    } else {
        s
    };
    if body.len() == 0 {
        None
    } else {
        match digits_value(body) {
            Some(v) => if negative {
                if v <= i64::MAX + 1 {
                    Some((-(v as int)) as i64)
                } else {
                    None
                }
            } else if v <= i64::MAX {
                Some(v as i64)
            } else {
                None
            },
            None => None,
        }
    }
}

pub open spec fn digit(d: nat) -> char {
    ((48 + d) as u32) as char
}

/// The decimal digits of `n`, without leading zeros.
pub open spec fn decimal(n: nat) -> Seq<char>
    decreases n,
{
    if n < 10 {
        seq![digit(n)]
    } else {
        decimal(n / 10).push(digit(n % 10))
    }
}

/// The decimal digits of `n` with a minus sign in front where `n` is negative.
pub open spec fn signed_decimal(n: int) -> Seq<char> {
    if n < 0 {
        seq!['-'] + decimal((-n) as nat)
    } else {
        decimal(n as nat)
    }
}

/// The decimal digits of `n`, filled up with zeros on the left to at least two places.
pub open spec fn decimal2(n: nat) -> Seq<char> {
    if n < 10 {
        seq!['0'] + decimal(n)
    } else {
        decimal(n)
    }
}

/// The contents of each vector.
pub open spec fn views(parts: Seq<Vec<char>>) -> Seq<Seq<char>> {
    Seq::new(parts.len(), |i: int| parts[i]@)
}

/// The characters of a string.
pub fn chars_of(s: &str) -> (res: Vec<char>)
    ensures
        res@ == s@,
{
    let mut out: Vec<char> = Vec::new();
    for c in it: s.chars()
        invariant
            out@ == s@.take(it.index()),
            it.seq() == s@,
    {
        out.push(c);
        assert(out@ =~= s@.take(it.index() + 1));
    }
    assert(s@.take(s@.len() as int) =~= s@);
    out
}

/// The string of the given characters.
pub fn string_of(chars: &[char]) -> (res: String)
    ensures
        res@ == chars@,
{
    let mut out = String::new();
    let mut i: usize = 0;
    while i < chars.len()
        invariant
            i <= chars@.len(),
            out@ == chars@.take(i as int),
        decreases chars@.len() - i,
    {
        out.push(chars[i]);
        i = i + 1;
        assert(out@ =~= chars@.take(i as int));
    }
    assert(chars@.take(i as int) =~= chars@);
    out
}

/// Whether two slices hold the same characters.
pub fn same_chars(a: &[char], b: &[char]) -> (res: bool)
    ensures
        res == (a@ == b@),
{
    if a.len() != b.len() {
        return false;
    }
    let mut i: usize = 0;
    while i < a.len()
        invariant
            a@.len() == b@.len(),
            i <= a@.len(),
            forall|j: int| 0 <= j < i ==> a@[j] == b@[j],
        decreases a@.len() - i,
    {
        if a[i] != b[i] {
            return false;
        }
        i = i + 1;
    }
    assert(a@ =~= b@);
    true
}

/// Whether two strings hold the same text.
pub fn same_text(a: &str, b: &str) -> (res: bool)
    ensures
        res == (a@ == b@),
{
    let left = chars_of(a);
    let right = chars_of(b);
    same_chars(left.as_slice(), right.as_slice())
}

/// Trims characters of `set` at the front.
pub fn trim_start_chars<'a>(chars: &'a [char], set: CharSet) -> (res: &'a [char])
    ensures
        res@ == trim_start(chars@, set),
{
    let mut start: usize = 0;
    assert(chars@.subrange(0, chars@.len() as int) =~= chars@);
    while start < chars.len() && set.has(chars[start])
        invariant
            start <= chars@.len(),
            trim_start(chars@, set) == trim_start(
                chars@.subrange(start as int, chars@.len() as int),
                set,
            ),
        decreases chars@.len() - start,
    {
        assert(chars@.subrange(start as int, chars@.len() as int).drop_first() =~= chars@.subrange(
            start as int + 1,
            chars@.len() as int,
        ));
        start = start + 1;
    }
    slice_subrange(chars, start, chars.len())
}

/// Trims characters of `set` at the end.
pub fn trim_end_chars<'a>(chars: &'a [char], set: CharSet) -> (res: &'a [char])
    ensures
        res@ == trim_end(chars@, set),
{
    let mut end: usize = chars.len();
    assert(chars@.subrange(0, chars@.len() as int) =~= chars@);
    while end > 0 && set.has(chars[end - 1])
        invariant
            end <= chars@.len(),
            trim_end(chars@, set) == trim_end(chars@.subrange(0, end as int), set),
        decreases end,
    {
        assert(chars@.subrange(0, end as int).drop_last() =~= chars@.subrange(0, end - 1));
        end = end - 1;
    }
    slice_subrange(chars, 0, end)
}

/// Trims characters of `set` on both ends.
pub fn trim_chars<'a>(chars: &'a [char], set: CharSet) -> (res: &'a [char])
    ensures
        res@ == trim(chars@, set),
{
    trim_end_chars(trim_start_chars(chars, set), set)
}

/// A string without white space on both ends.
pub fn trimmed(s: &str) -> (res: &str)
    ensures
        res@ == trim(s@, CharSet::WhiteSpace),
{
    let chars = chars_of(s);
    let mut start: usize = 0;
    let mut end: usize = chars.len();
    assert(s@.subrange(0, s@.len() as int) =~= s@);
    while start < end && is_white_space(chars[start])
        invariant
            chars@ == s@,
            start <= end == chars@.len(),
            trim_start(s@, CharSet::WhiteSpace) == trim_start(
                s@.subrange(start as int, end as int),
                CharSet::WhiteSpace,
            ),
        decreases end - start,
    {
        assert(s@.subrange(start as int, end as int).drop_first() =~= s@.subrange(
            start as int + 1,
            end as int,
        ));
        start = start + 1;
    }
    let ghost kept = trim_start(s@, CharSet::WhiteSpace);
    assert(kept == s@.subrange(start as int, end as int));
    while start < end && is_white_space(chars[end - 1])
        invariant
            chars@ == s@,
            start <= end <= chars@.len(),
            trim_end(kept, CharSet::WhiteSpace) == trim_end(
                s@.subrange(start as int, end as int),
                CharSet::WhiteSpace,
            ),
        decreases end - start,
    {
        assert(s@.subrange(start as int, end as int).drop_last() =~= s@.subrange(
            start as int,
            end - 1,
        ));
        end = end - 1;
    }
    s.substring_char(start, end)
}

/// Splits at every character of `set`.
pub fn split_chars(chars: &[char], set: CharSet) -> (res: Vec<Vec<char>>)
    ensures
        views(res@) == split(chars@, set),
        res@.len() >= 1,
{
    let mut parts: Vec<Vec<char>> = Vec::new();
    let mut current: Vec<char> = Vec::new();
    let mut i: usize = 0;
    assert(chars@.take(0) =~= Seq::<char>::empty());
    assert(views(parts@).push(current@) =~= seq![Seq::<char>::empty()]);
    while i < chars.len()
        invariant
            i <= chars@.len(),
            views(parts@).push(current@) == split(chars@.take(i as int), set),
        decreases chars@.len() - i,
    {
        let c = chars[i];
        let ghost before = views(parts@).push(current@);
        proof {
            let taken = chars@.take(i as int + 1);
            assert(taken.drop_last() =~= chars@.take(i as int));
            assert(taken.last() == c);
            assert(before.drop_last() =~= views(parts@));
        }
        if set.has(c) {
            let ghost old_parts = parts@;
            parts.push(current);
            current = Vec::new();
            assert(views(parts@).push(current@) =~= before.push(Seq::<char>::empty()));
        } else {
            current.push(c);
        }
        i = i + 1;
    }
    assert(chars@.take(i as int) =~= chars@);
    let ghost done = views(parts@).push(current@);
    parts.push(current);
    assert(views(parts@) =~= done);
    parts
}

/// Keeps the parts that hold at least one character.
pub fn keep_nonempty(parts: Vec<Vec<char>>) -> (res: Vec<Vec<char>>)
    ensures
        views(res@) == nonempty(views(parts@)),
{
    let mut kept: Vec<Vec<char>> = Vec::new();
    let mut i: usize = 0;
    assert(views(parts@).take(0) =~= Seq::<Seq<char>>::empty());
    assert(views(kept@) =~= Seq::<Seq<char>>::empty());
    while i < parts.len()
        invariant
            i <= parts@.len(),
            views(kept@) == nonempty(views(parts@).take(i as int)),
        decreases parts@.len() - i,
    {
        let ghost all = views(parts@);
        let ghost before = views(kept@);
        assert(all.take(i as int + 1).drop_last() =~= all.take(i as int));
        if parts[i].len() > 0 {
            let part = string_copy(&parts[i]);
            kept.push(part);
            assert(views(kept@) =~= before.push(all[i as int]));
        }
        i = i + 1;
    }
    assert(views(parts@).take(i as int) =~= views(parts@));
    kept
}

/// A copy of a character vector.
pub fn string_copy(chars: &Vec<char>) -> (res: Vec<char>)
    ensures
        res@ == chars@,
{
    let mut out: Vec<char> = Vec::new();
    let mut i: usize = 0;
    while i < chars.len()
        invariant
            i <= chars@.len(),
            out@ == chars@.take(i as int),
        decreases chars@.len() - i,
    {
        out.push(chars[i]);
        i = i + 1;
        assert(out@ =~= chars@.take(i as int));
    }
    assert(chars@.take(i as int) =~= chars@);
    out
}

/// The maximal runs of characters that are not white space.
pub fn words_of(chars: &[char]) -> (res: Vec<Vec<char>>)
    ensures
        views(res@) == words(chars@),
{
    keep_nonempty(split_chars(chars, CharSet::WhiteSpace))
}

/// Appends every character of `from`.
pub fn extend_chars(out: &mut Vec<char>, from: &[char])
    ensures
        final(out)@ == old(out)@ + from@,
{
    let mut i: usize = 0;
    let ghost start = out@;
    assert(start + from@.take(0) =~= start);
    while i < from.len()
        invariant
            i <= from@.len(),
            out@ == start + from@.take(i as int),
        decreases from@.len() - i,
    {
        out.push(from[i]);
        i = i + 1;
        assert(out@ =~= start + from@.take(i as int));
    }
    assert(from@.take(i as int) =~= from@);
}

/// Joins the parts with one character between neighbours.
pub fn join_chars(parts: &Vec<Vec<char>>, sep: char) -> (res: Vec<char>)
    ensures
        res@ == join(views(parts@), seq![sep]),
{
    let mut out: Vec<char> = Vec::new();
    let mut i: usize = 0;
    let ghost all = views(parts@);
    assert(all.take(0) =~= Seq::<Seq<char>>::empty());
    while i < parts.len()
        invariant
            i <= parts@.len(),
            all == views(parts@),
            out@ == join(all.take(i as int), seq![sep]),
        decreases parts@.len() - i,
    {
        let ghost before = out@;
        assert(all.take(i as int + 1).drop_last() =~= all.take(i as int));
        if i > 0 {
            out.push(sep);
        }
        extend_chars(&mut out, parts[i].as_slice());
        proof {
            if i > 0 {
                assert(out@ =~= before + seq![sep] + all[i as int]);
            } else {
                assert(before =~= Seq::<char>::empty());
                assert(out@ =~= all[0]);
            }
        }
        i = i + 1;
    }
    assert(all.take(i as int) =~= all);
    out
}

/// Whether `prefix` stands at index `at`.
fn matches_at(chars: &[char], prefix: &[char], at: usize) -> (res: bool)
    requires
        at + prefix@.len() <= chars@.len(),
    ensures
        res == occurs_at(chars@, prefix@, at as int),
{
    let mut j: usize = 0;
    let count: usize = chars.len();
    while j < prefix.len()
        invariant
            at + prefix@.len() <= count == chars@.len(),
            j <= prefix@.len(),
            forall|k: int| 0 <= k < j ==> chars@[at + k] == prefix@[k],
        decreases prefix@.len() - j,
    {
        if chars[at + j] != prefix[j] {
            assert(chars@.subrange(at as int, at + prefix@.len())[j as int] != prefix@[j as int]);
            return false;
        }
        j = j + 1;
    }
    assert(chars@.subrange(at as int, at + prefix@.len()) =~= prefix@);
    true
}

/// Whether `needle` occurs in `chars`.
pub fn contains_chars(chars: &[char], needle: &[char]) -> (res: bool)
    ensures
        res == contains_text(chars@, needle@),
{
    if needle.len() > chars.len() {
        return false;
    }
    let last: usize = chars.len() - needle.len();
    let mut i: usize = 0;
    while i <= last
        invariant
            last + needle@.len() == chars@.len(),
            i <= last + 1,
            forall|j: int| 0 <= j < i ==> !#[trigger] occurs_at(chars@, needle@, j),
        decreases last + 1 - i,
    {
        if matches_at(chars, needle, i) {
            return true;
        }
        if i == last {
            return false;
        }
        i = i + 1;
    }
    false
}

/// Whether `needle` occurs in `s`.
pub fn contains_str(s: &str, needle: &str) -> (res: bool)
    ensures
        res == contains_text(s@, needle@),
{
    let chars = chars_of(s);
    let pattern = chars_of(needle);
    contains_chars(chars.as_slice(), pattern.as_slice())
}

/// Whether `chars` begins with `prefix`.
pub fn starts_with_chars(chars: &[char], prefix: &str) -> (res: bool)
    ensures
        res == begins_with(chars@, prefix@),
{
    let pattern = chars_of(prefix);
    if pattern.len() > chars.len() {
        return false;
    }
    matches_at(chars, pattern.as_slice(), 0)
}

pub fn to_ascii_lower(c: char) -> (res: char)
    ensures
        res == ascii_lower(c),
{
    if 'A' <= c && c <= 'Z' {
        ((c as u8) + 32) as char
    } else {
        c
    }
}

pub fn to_ascii_upper(c: char) -> (res: char)
    ensures
        res == ascii_upper(c),
{
    if 'a' <= c && c <= 'z' {
        ((c as u8) - 32) as char
    } else {
        c
    }
}

pub fn ascii_lowercase_chars(chars: &[char]) -> (res: Vec<char>)
    ensures
        res@ == ascii_lowercase(chars@),
{
    let mut out: Vec<char> = Vec::new();
    let mut i: usize = 0;
    while i < chars.len()
        invariant
            i <= chars@.len(),
            out@ =~= ascii_lowercase(chars@).take(i as int),
        decreases chars@.len() - i,
    {
        out.push(to_ascii_lower(chars[i]));
        i = i + 1;
    }
    out
}

pub fn ascii_uppercase_chars(chars: &[char]) -> (res: Vec<char>)
    ensures
        res@ == ascii_uppercase(chars@),
{
    let mut out: Vec<char> = Vec::new();
    let mut i: usize = 0;
    while i < chars.len()
        invariant
            i <= chars@.len(),
            out@ =~= ascii_uppercase(chars@).take(i as int),
        decreases chars@.len() - i,
    {
        out.push(to_ascii_upper(chars[i]));
        i = i + 1;
    }
    out
}

/// A prefix of a run of digits never stands for more than the run itself.
proof fn lemma_digits_value_prefix(s: Seq<char>, n: int)
    requires
        0 <= n <= s.len(),
        digits_value(s) is Some,
    ensures
        digits_value(s.take(n)) is Some,
        digits_value(s.take(n))->0 <= digits_value(s)->0,
    decreases s.len() - n,
{
    if n == s.len() {
        assert(s.take(n) =~= s);
    } else {
        lemma_digits_value_prefix(s, n + 1);
        assert(s.take(n + 1).drop_last() =~= s.take(n));
    }
}

/// The number that the digits stand for; `None` if another character occurs or the number
/// exceeds `limit`.
fn digits_within(chars: &[char], limit: u64) -> (res: Option<u64>)
    ensures
        match res {
            Some(v) => digits_value(chars@) == Some(v as nat) && v <= limit,
            None => digits_value(chars@) is None || digits_value(chars@)->0 > limit,
        },
{
    let mut value: u64 = 0;
    let mut i: usize = 0;
    assert(chars@.take(0) =~= Seq::<char>::empty());
    while i < chars.len()
        invariant
            i <= chars@.len(),
            digits_value(chars@.take(i as int)) == Some(value as nat),
            value <= limit,
        decreases chars@.len() - i,
    {
        let c = chars[i];
        proof {
            assert(chars@.take(i as int + 1).drop_last() =~= chars@.take(i as int));
            if digits_value(chars@) is Some {
                lemma_digits_value_prefix(chars@, i as int + 1);
            }
        }
        if c < '0' || '9' < c {
            return None;
        }
        let d: u64 = (c as u64) - 48;
        match value.checked_mul(10) {
            None => {
                return None;
            },
            Some(tens) => match tens.checked_add(d) {
                None => {
                    return None;
                },
                Some(next) => {
                    if next > limit {
                        return None;
                    }
                    value = next;
                },
            },
        }
        i = i + 1;
    }
    assert(chars@.take(i as int) =~= chars@);
    Some(value)
}

/// Reads an unsigned decimal number.
pub fn parse_u64(chars: &[char]) -> (res: Option<u64>)
    ensures
        res == parsed_u64(chars@),
{
    let start: usize = if chars.len() > 0 && chars[0] == '+' {
        1
    } else {
        0
    };
    let body = slice_subrange(chars, start, chars.len());
    proof {
        if start == 1 {
            assert(body@ =~= chars@.drop_first());
        } else {
            assert(body@ =~= chars@);
        }
    }
    if body.len() == 0 {
        return None;
    }
    digits_within(body, u64::MAX)
}

/// Reads a signed decimal number.
pub fn parse_i64(chars: &[char]) -> (res: Option<i64>)
    ensures
        res == parsed_i64(chars@),
{
    let negative = chars.len() > 0 && chars[0] == '-';
    let start: usize = if chars.len() > 0 && (chars[0] == '+' || chars[0] == '-') {
        1
    } else {
        0
    };
    let body = slice_subrange(chars, start, chars.len());
    proof {
        if start == 1 {
            assert(body@ =~= chars@.drop_first());
        } else {
            assert(body@ =~= chars@);
        }
    }
    if body.len() == 0 {
        return None;
    }
    if negative {
        match digits_within(body, 9223372036854775808) {
            None => None,
            Some(v) => {
                if v == 9223372036854775808 {
                    Some(i64::MIN)
                } else {
                    Some(-(v as i64))
                }
            },
        }
    } else {
        match digits_within(body, 9223372036854775807) {
            None => None,
            Some(v) => Some(v as i64),
        }
    }
}

/// Reads an unsigned decimal number from a string.
pub fn parse_u64_text(s: &str) -> (res: Option<u64>)
    ensures
        res == parsed_u64(s@),
{
    let chars = chars_of(s);
    parse_u64(chars.as_slice())
}

/// Reads a signed decimal number from a string.
pub fn parse_i64_text(s: &str) -> (res: Option<i64>)
    ensures
        res == parsed_i64(s@),
{
    let chars = chars_of(s);
    parse_i64(chars.as_slice())
}

/// Appends the decimal digits of `n`.
pub fn push_decimal(out: &mut String, n: u64)
    ensures
        final(out)@ == old(out)@ + decimal(n as nat),
    decreases n,
{
    let ghost start = out@;
    if n >= 10 {
        push_decimal(out, n / 10);
    }
    let d: u8 = (n % 10) as u8;
    out.push((48 + d) as char);
    assert(out@ =~= start + decimal(n as nat));
}

/// Appends the decimal digits of a large number.
pub fn push_large_decimal(out: &mut String, n: u128)
    ensures
        final(out)@ == old(out)@ + decimal(n as nat),
    decreases n,
{
    let ghost start = out@;
    if n >= 10 {
        push_large_decimal(out, n / 10);
    }
    let d: u8 = (n % 10) as u8;
    out.push((48 + d) as char);
    assert(out@ =~= start + decimal(n as nat));
}

/// Appends the decimal digits of `n` with at least two places.
pub fn push_decimal2(out: &mut String, n: u64)
    ensures
        final(out)@ == old(out)@ + decimal2(n as nat),
{
    let ghost start = out@;
    if n < 10 {
        out.push('0');
    }
    push_decimal(out, n);
    assert(out@ =~= start + decimal2(n as nat));
}

/// Appends the decimal digits of `n`, with a minus sign where it is negative.
pub fn push_signed_decimal(out: &mut String, n: i64)
    ensures
        final(out)@ == old(out)@ + signed_decimal(n as int),
{
    let ghost start = out@;
    if n < 0 {
        out.push('-');
        let magnitude: u64 = if n == i64::MIN {
            9223372036854775808
        } else {
            (-n) as u64
        };
        push_decimal(out, magnitude);
        assert(out@ =~= start + signed_decimal(n as int));
    } else {
        push_decimal(out, n as u64);
    }
}

} // verus!
