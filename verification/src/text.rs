//! Text as sequences of characters: building, comparing, cutting and searching.
use vstd::prelude::*;

verus! {

/// `String::push` appends one character at the end.
pub assume_specification[ String::push ](text: &mut String, c: char)
    ensures
        final(text)@ == old(text)@.push(c),
;

/// The characters of `text`, in order.
pub fn chars_of(text: &str) -> (chars: Vec<char>)
    ensures
        chars@ == text@,
{
    let mut chars: Vec<char> = Vec::new();
    for c in it: text.chars()
        invariant
            it.seq() == text@,
            chars@ == text@.take(it.index() as int),
    {
        chars.push(c);
    }
    chars
}

/// The text made of the characters from `from` up to `to`.
pub fn slice_text(chars: &Vec<char>, from: usize, to: usize) -> (text: String)
    requires
        from <= to <= chars.len(),
    ensures
        text@ == chars@.subrange(from as int, to as int),
{
    let mut text = String::new();
    let mut i: usize = from;
    while i < to
        invariant
            from <= i <= to <= chars.len(),
            text@ == chars@.subrange(from as int, i as int),
        decreases to - i,
    {
        text.push(chars[i]);
        i = i + 1;
    }
    text
}

/// The text made of all of `chars`.
pub fn text_of(chars: &Vec<char>) -> (text: String)
    ensures
        text@ == chars@,
{
    slice_text(chars, 0, chars.len())
}

/// Whether two texts hold the same characters.
pub fn same_text(a: &str, b: &str) -> (same: bool)
    ensures
        same == (a@ == b@),
{
    let x = chars_of(a);
    let y = chars_of(b);
    if x.len() != y.len() {
        return false;
    }
    let mut i: usize = 0;
    while i < x.len()
        invariant
            i <= x.len() == y.len(),
            x@ == a@,
            y@ == b@,
            forall|j: int| 0 <= j < i ==> x@[j] == y@[j],
        decreases x.len() - i,
    {
        if x[i] != y[i] {
            return false;
        }
        i = i + 1;
    }
    assert(x@ =~= y@);
    true
}

/// Two texts, one after the other.
pub fn joined(a: &str, b: &str) -> (text: String)
    ensures
        text@ == a@ + b@,
{
    let mut text = a.to_owned();
    text.append(b);
    text
}

/// Three texts, one after the other.
pub fn joined3(a: &str, b: &str, c: &str) -> (text: String)
    ensures
        text@ == a@ + b@ + c@,
{
    let mut text = joined(a, b);
    text.append(c);
    text
}

/// Whether `part` stands in `whole` at index `at`.
pub open spec fn stands_at(whole: Seq<char>, part: Seq<char>, at: int) -> bool {
    0 <= at && at + part.len() <= whole.len() && whole.subrange(at, at + part.len()) == part
}

/// Whether `part` stands somewhere in `whole`.
pub open spec fn holds_text(whole: Seq<char>, part: Seq<char>) -> bool {
    exists|at: int| #[trigger] stands_at(whole, part, at)
}

/// Whether `part` stands in `whole` at index `at`.
pub fn matches_at(whole: &Vec<char>, part: &Vec<char>, at: usize) -> (found: bool)
    ensures
        found == stands_at(whole@, part@, at as int),
{
    if at > whole.len() || part.len() > whole.len() - at {
        return false;
    }
    let mut i: usize = 0;
    while i < part.len()
        invariant
            i <= part.len(),
            at + part.len() <= whole.len(),
            forall|j: int| 0 <= j < i ==> whole@[at + j] == part@[j],
        decreases part.len() - i,
    {
        if whole[at + i] != part[i] {
            assert(whole@.subrange(at as int, at + part@.len())[i as int] != part@[i as int]);
            return false;
        }
        i = i + 1;
    }
    assert(whole@.subrange(at as int, at + part@.len()) =~= part@);
    true
}

/// Whether `part` stands somewhere in `whole`.
pub fn contains_text(whole: &str, part: &str) -> (found: bool)
    ensures
        found == holds_text(whole@, part@),
{
    let w = chars_of(whole);
    let p = chars_of(part);
    let mut at: usize = 0;
    while at < w.len()
        invariant
            at <= w.len(),
            w@ == whole@,
            p@ == part@,
            forall|j: int| 0 <= j < at ==> !#[trigger] stands_at(w@, p@, j),
        decreases w.len() - at,
    {
        if matches_at(&w, &p, at) {
            return true;
        }
        at = at + 1;
    }
    let found = matches_at(&w, &p, at);
    assert(forall|j: int| 0 <= j <= at ==> stands_at(w@, p@, j) ==> found);
    found
}

/// Whether `text` begins with `prefix`.
pub open spec fn begins_with(text: Seq<char>, prefix: Seq<char>) -> bool {
    stands_at(text, prefix, 0)
}

/// Whether `text` ends with `suffix`.
pub open spec fn ends_in(text: Seq<char>, suffix: Seq<char>) -> bool {
    stands_at(text, suffix, text.len() - suffix.len())
}

/// What follows `prefix` in `text`, where `text` begins with it.
pub open spec fn rest_after(text: Seq<char>, prefix: Seq<char>) -> Option<Seq<char>> {
    if begins_with(text, prefix) {
        Some(text.skip(prefix.len() as int))
    } else {
        None
    }
}

/// Whether `text` begins with `prefix`.
pub fn has_prefix(text: &str, prefix: &str) -> (found: bool)
    ensures
        found == begins_with(text@, prefix@),
{
    matches_at(&chars_of(text), &chars_of(prefix), 0)
}

/// Whether `text` ends with `suffix`.
pub fn has_suffix(text: &str, suffix: &str) -> (found: bool)
    ensures
        found == ends_in(text@, suffix@),
{
    let t = chars_of(text);
    let s = chars_of(suffix);
    s.len() <= t.len() && matches_at(&t, &s, t.len() - s.len())
}

/// What follows `prefix` in `text`, where `text` begins with it.
pub fn after_prefix(text: &str, prefix: &str) -> (rest: Option<String>)
    ensures
        rest is Some == rest_after(text@, prefix@) is Some,
        rest matches Some(r) ==> r@ == rest_after(text@, prefix@)->0,
{
    let t = chars_of(text);
    let p = chars_of(prefix);
    if matches_at(&t, &p, 0) {
        let rest = slice_text(&t, p.len(), t.len());
        assert(rest@ =~= text@.skip(prefix@.len() as int));
        Some(rest)
    } else {
        None
    }
}

/// Whether a character is white space: the characters with the Unicode property White_Space.
pub open spec fn is_white(c: char) -> bool {
    ||| '\u{9}' <= c <= '\u{d}'
    ||| c == ' '
    ||| c == '\u{85}'
    ||| c == '\u{a0}'
    ||| c == '\u{1680}'
    ||| '\u{2000}' <= c <= '\u{200a}'
    ||| c == '\u{2028}'
    ||| c == '\u{2029}'
    ||| c == '\u{202f}'
    ||| c == '\u{205f}'
    ||| c == '\u{3000}'
}

/// Whether a character is white space.
pub fn is_white_space(c: char) -> (white: bool)
    ensures
        white == is_white(c),
{
    ('\u{9}' <= c && c <= '\u{d}') || c == ' ' || c == '\u{85}' || c == '\u{a0}' || c == '\u{1680}' || (
    '\u{2000}' <= c && c <= '\u{200a}') || c == '\u{2028}' || c == '\u{2029}' || c == '\u{202f}' || c
        == '\u{205f}' || c == '\u{3000}'
}

/// The text without the white space that it begins with.
pub open spec fn trim_start(text: Seq<char>) -> Seq<char>
    decreases text.len(),
{
    if text.len() > 0 && is_white(text[0]) {
        trim_start(text.drop_first())
    } else {
        text
    }
}

/// The text without the white space that it ends in.
pub open spec fn trim_end(text: Seq<char>) -> Seq<char>
    decreases text.len(),
{
    if text.len() > 0 && is_white(text.last()) {
        trim_end(text.drop_last())
    } else {
        text
    }
}

/// The text without the white space at its two ends.
pub open spec fn trim(text: Seq<char>) -> Seq<char> {
    trim_end(trim_start(text))
}

/// The first index from `from` on, below `to`, that holds no white space; `to` where there is
/// none.
pub fn skip_white(chars: &Vec<char>, from: usize, to: usize) -> (at: usize)
    requires
        from <= to <= chars.len(),
    ensures
        from <= at <= to,
        chars@.subrange(at as int, to as int) == trim_start(chars@.subrange(from as int, to as int)),
{
    let mut at: usize = from;
    while at < to && is_white_space(chars[at])
        invariant
            from <= at <= to <= chars.len(),
            trim_start(chars@.subrange(at as int, to as int)) == trim_start(
                chars@.subrange(from as int, to as int),
            ),
        decreases to - at,
    {
        assert(chars@.subrange(at as int, to as int).drop_first() =~= chars@.subrange(
            at + 1,
            to as int,
        ));
        at = at + 1;
    }
    at
}

/// The index behind the last character from `from` on, below `to`, that is no white space.
pub fn skip_white_back(chars: &Vec<char>, from: usize, to: usize) -> (end: usize)
    requires
        from <= to <= chars.len(),
    ensures
        from <= end <= to,
        chars@.subrange(from as int, end as int) == trim_end(
            chars@.subrange(from as int, to as int),
        ),
{
    let mut end: usize = to;
    while from < end && is_white_space(chars[end - 1])
        invariant
            from <= end <= to <= chars.len(),
            trim_end(chars@.subrange(from as int, end as int)) == trim_end(
                chars@.subrange(from as int, to as int),
            ),
        decreases end - from,
    {
        assert(chars@.subrange(from as int, end as int).drop_last() =~= chars@.subrange(
            from as int,
            end - 1,
        ));
        end = end - 1;
    }
    end
}

/// The text without the white space at its two ends.
pub fn trimmed(text: &str) -> (result: String)
    ensures
        result@ == trim(text@),
{
    let chars = chars_of(text);
    assert(chars@.subrange(0, chars@.len() as int) =~= chars@);
    let from = skip_white(&chars, 0, chars.len());
    let to = skip_white_back(&chars, from, chars.len());
    slice_text(&chars, from, to)
}

/// The first index of `c` in `text`; the length of `text` where there is none.
pub open spec fn index_of(text: Seq<char>, c: char) -> int
    decreases text.len(),
{
    if text.len() == 0 || text[0] == c {
        0
    } else {
        1 + index_of(text.drop_first(), c)
    }
}

/// What `index_of` gives is the first index, or the length.
pub proof fn index_of_bounds(text: Seq<char>, c: char)
    ensures
        0 <= index_of(text, c) <= text.len(),
        index_of(text, c) < text.len() ==> text[index_of(text, c)] == c,
        forall|i: int| 0 <= i < index_of(text, c) ==> text[i] != c,
    decreases text.len(),
{
    if text.len() > 0 && text[0] != c {
        let rest = text.drop_first();
        index_of_bounds(rest, c);
        assert forall|i: int| 0 <= i < index_of(text, c) implies text[i] != c by {
            if i > 0 {
                assert(rest[i - 1] == text[i]);
            }
        }
    }
}

/// The first index of `c` in `chars`; their number where there is none.
pub fn find_char(chars: &Vec<char>, c: char) -> (at: usize)
    ensures
        at == index_of(chars@, c),
        at <= chars@.len(),
{
    let mut i: usize = 0;
    assert(chars@.skip(0) =~= chars@);
    while i < chars.len() && chars[i] != c
        invariant
            i <= chars.len(),
            index_of(chars@, c) == i + index_of(chars@.skip(i as int), c),
        decreases chars.len() - i,
    {
        assert(chars@.skip(i as int).drop_first() =~= chars@.skip(i + 1));
        i = i + 1;
    }
    i
}

/// The texts one after the other, with `between` between each two.
pub open spec fn join(parts: Seq<Seq<char>>, between: Seq<char>) -> Seq<char>
    decreases parts.len(),
{
    if parts.len() == 0 {
        seq![]
    } else if parts.len() == 1 {
        parts[0]
    } else {
        join(parts.drop_last(), between) + between + parts.last()
    }
}

/// The views of a sequence of texts.
pub open spec fn texts(list: Seq<String>) -> Seq<Seq<char>> {
    Seq::new(list.len(), |i: int| list[i]@)
}

/// The texts one after the other, with `between` between each two.
pub fn join_texts(parts: &Vec<String>, between: &str) -> (text: String)
    ensures
        text@ == join(texts(parts@), between@),
{
    let mut text = String::new();
    let ghost all = texts(parts@);
    let mut i: usize = 0;
    while i < parts.len()
        invariant
            i <= parts.len(),
            all == texts(parts@),
            text@ == join(all.take(i as int), between@),
        decreases parts.len() - i,
    {
        let ghost sofar = all.take(i + 1);
        assert(sofar.drop_last() =~= all.take(i as int));
        if i > 0 {
            text.append(between);
            text.append(parts[i].as_str());
        } else {
            text.append(parts[i].as_str());
            assert(text@ =~= parts@[0]@);
        }
        i = i + 1;
    }
    assert(all.take(i as int) =~= all);
    text
}

/// Appends a text to a list.
pub fn push_text(list: &mut Vec<String>, text: String)
    ensures
        texts(final(list)@) == texts(old(list)@).push(text@),
{
    let ghost before = texts(list@);
    list.push(text);
    assert(texts(list@) =~= before.push(text@));
}

/// Whether one of `list` is `text`.
pub fn among(list: &Vec<String>, text: &str) -> (found: bool)
    ensures
        found == texts(list@).contains(text@),
{
    let ghost all = texts(list@);
    let mut i: usize = 0;
    while i < list.len()
        invariant
            i <= list.len(),
            all == texts(list@),
            forall|j: int| 0 <= j < i ==> all[j] != text@,
        decreases list.len() - i,
    {
        if same_text(list[i].as_str(), text) {
            assert(all[i as int] == text@);
            return true;
        }
        i = i + 1;
    }
    false
}

/// Whether every character of a text is white space.
pub open spec fn all_white(text: Seq<char>) -> bool {
    forall|i: int| 0 <= i < text.len() ==> is_white(#[trigger] text[i])
}

/// White space is what Unicode calls so: the characters with these numbers and no others.
pub proof fn white_space_is_that_of_unicode(c: char)
    ensures
        is_white(c) <==> seq![
            9int,
            10,
            11,
            12,
            13,
            32,
            0x85,
            0xa0,
            0x1680,
            0x2000,
            0x2001,
            0x2002,
            0x2003,
            0x2004,
            0x2005,
            0x2006,
            0x2007,
            0x2008,
            0x2009,
            0x200a,
            0x2028,
            0x2029,
            0x202f,
            0x205f,
            0x3000,
        ].contains(c as int),
{
    let all = seq![
        9int,
        10,
        11,
        12,
        13,
        32,
        0x85,
        0xa0,
        0x1680,
        0x2000,
        0x2001,
        0x2002,
        0x2003,
        0x2004,
        0x2005,
        0x2006,
        0x2007,
        0x2008,
        0x2009,
        0x200a,
        0x2028,
        0x2029,
        0x202f,
        0x205f,
        0x3000,
    ];
    if is_white(c) {
        let n = c as int;
        let at = if n <= 13 {
            n - 9
        } else if n == 32 {
            5
        } else if n == 0x85 {
            6
        } else if n == 0xa0 {
            7
        } else if n == 0x1680 {
            8
        } else if n <= 0x200a {
            n - 0x2000 + 9
        } else if n == 0x2028 {
            20
        } else if n == 0x2029 {
            21
        } else if n == 0x202f {
            22
        } else if n == 0x205f {
            23
        } else {
            24
        };
        assert(all[at] == n);
    }
}

proof fn trim_start_takes_white(text: Seq<char>) -> (lead: Seq<char>)
    ensures
        text == lead + trim_start(text),
        all_white(lead),
        trim_start(text).len() > 0 ==> !is_white(trim_start(text)[0]),
    decreases text.len(),
{
    if text.len() > 0 && is_white(text[0]) {
        let rest = trim_start_takes_white(text.drop_first());
        let lead = seq![text[0]] + rest;
        assert(text =~= seq![text[0]] + text.drop_first());
        assert(seq![text[0]] + (rest + trim_start(text)) =~= lead + trim_start(text));
        lead
    } else {
        assert(text =~= Seq::<char>::empty() + text);
        seq![]
    }
}

proof fn trim_end_takes_white(text: Seq<char>) -> (tail: Seq<char>)
    ensures
        text == trim_end(text) + tail,
        all_white(tail),
        trim_end(text).len() > 0 ==> !is_white(trim_end(text).last()),
        trim_end(text).len() > 0 ==> trim_end(text)[0] == text[0],
    decreases text.len(),
{
    if text.len() > 0 && is_white(text.last()) {
        let rest = trim_end_takes_white(text.drop_last());
        let tail = rest.push(text.last());
        assert(text =~= text.drop_last().push(text.last()));
        assert((trim_end(text) + rest).push(text.last()) =~= trim_end(text) + tail);
        tail
    } else {
        assert(text =~= text + Seq::<char>::empty());
        seq![]
    }
}

/// Trimming takes white space away at the two ends and nothing else, and leaves none there.
pub proof fn trim_takes_white_ends(text: Seq<char>) -> (ends: (Seq<char>, Seq<char>))
    ensures
        text == ends.0 + trim(text) + ends.1,
        all_white(ends.0),
        all_white(ends.1),
        trim(text).len() > 0 ==> !is_white(trim(text)[0]) && !is_white(trim(text).last()),
{
    let lead = trim_start_takes_white(text);
    let tail = trim_end_takes_white(trim_start(text));
    assert(text =~= lead + trim(text) + tail);
    (lead, tail)
}

/// A text without white space at its ends is trimmed to itself.
pub proof fn trim_keeps_bare(text: Seq<char>)
    requires
        text.len() > 0 ==> !is_white(text[0]) && !is_white(text.last()),
    ensures
        trim(text) == text,
{
}

/// What follows a prefix is what was put behind it, and nothing else is taken for a prefix.
pub proof fn rest_is_what_follows(text: Seq<char>, prefix: Seq<char>, rest: Seq<char>)
    ensures
        rest_after(text, prefix) == Some(rest) <==> text == prefix + rest,
{
    if text == prefix + rest {
        assert(text.subrange(0, prefix.len() as int) =~= prefix);
        assert(text.skip(prefix.len() as int) =~= rest);
    }
    if rest_after(text, prefix) == Some(rest) {
        assert(text =~= text.subrange(0, prefix.len() as int) + text.skip(prefix.len() as int));
    }
}

/// A text holds another exactly where it is that one with something before and behind it.
pub proof fn holding_is_standing_between(whole: Seq<char>, part: Seq<char>)
    ensures
        holds_text(whole, part) <==> exists|a: Seq<char>, b: Seq<char>|
            #[trigger] (a + part + b) == whole,
{
    if holds_text(whole, part) {
        let at = choose|at: int| #[trigger] stands_at(whole, part, at);
        let a = whole.take(at);
        let b = whole.skip(at + part.len());
        assert(a + part + b =~= whole);
    }
    if exists|a: Seq<char>, b: Seq<char>| #[trigger] (a + part + b) == whole {
        let (a, b) = choose|a: Seq<char>, b: Seq<char>| #[trigger] (a + part + b) == whole;
        assert(whole.subrange(a.len() as int, (a.len() + part.len()) as int) =~= part);
        assert(stands_at(whole, part, a.len() as int));
    }
}

/// A text ends in another exactly where that one stands behind something.
pub proof fn ending_is_standing_last(whole: Seq<char>, suffix: Seq<char>)
    ensures
        ends_in(whole, suffix) <==> exists|a: Seq<char>| #[trigger] (a + suffix) == whole,
{
    if ends_in(whole, suffix) {
        let a = whole.take(whole.len() - suffix.len());
        assert(a + suffix =~= whole);
    }
    if exists|a: Seq<char>| #[trigger] (a + suffix) == whole {
        let a = choose|a: Seq<char>| #[trigger] (a + suffix) == whole;
        assert(whole.subrange(a.len() as int, whole.len() as int) =~= suffix);
    }
}

/// Joined texts stand one after the other: two lists joined are what each of them joins to, with
/// the separator between, and a single text joins to itself.
pub proof fn join_is_in_turn(a: Seq<Seq<char>>, b: Seq<Seq<char>>, between: Seq<char>)
    ensures
        a.len() == 0 ==> join(a, between) == Seq::<char>::empty(),
        a.len() == 1 ==> join(a, between) == a[0],
        a.len() > 0 && b.len() > 0 ==> join(a + b, between) == join(a, between) + between + join(
            b,
            between,
        ),
    decreases b.len(),
{
    if a.len() > 0 && b.len() > 0 {
        assert((a + b).drop_last() =~= a + b.drop_last());
        if b.len() == 1 {
            assert(a + b.drop_last() =~= a);
        } else {
            join_is_in_turn(a, b.drop_last(), between);
            assert(join(a + b, between) =~= join(a, between) + between + join(b, between));
        }
    }
}

} // verus!
