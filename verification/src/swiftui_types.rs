//! SwiftUI type names: taking the modifiers that a type name nests apart from the view's own type.
use crate::text::{
    chars_of, ends_in, find_char, has_suffix, index_of, index_of_bounds, is_white, push_text,
    same_text, slice_text, texts, trim, trim_end, trim_start, trimmed,
};
use vstd::prelude::*;
use vstd::utf8::encode_utf8;

verus! {

/// Whether a character opens a bracket.
pub open spec fn opens(c: char) -> bool {
    c == '<' || c == '(' || c == '['
}

/// Whether a character closes a bracket.
pub open spec fn closes(c: char) -> bool {
    c == '>' || c == ')' || c == ']'
}

/// The character that closes the bracket that a character opens.
pub open spec fn closer(c: char) -> char {
    if c == '<' {
        '>'
    } else if c == '(' {
        ')'
    } else {
        ']'
    }
}

/// Where the first of the brackets closes that are open at index `at`, given by the characters
/// that opened them. Each bracket is closed by its own kind; where one is not, nothing closes.
pub open spec fn close_of(text: Seq<char>, at: int, open: Seq<char>) -> Option<int>
    decreases text.len() - at,
{
    if at >= text.len() {
        None
    } else if opens(text[at]) {
        close_of(text, at + 1, open.push(text[at]))
    } else if closes(text[at]) {
        if open.len() == 0 || closer(open.last()) != text[at] {
            None
        } else if open.len() == 1 {
            Some(at)
        } else {
            close_of(text, at + 1, open.drop_last())
        }
    } else {
        close_of(text, at + 1, open)
    }
}

/// How many more brackets open than close from index `from` up to index `to`.
pub open spec fn bracket_depth(text: Seq<char>, from: int, to: int) -> int
    decreases to - from,
{
    if to <= from {
        0
    } else {
        bracket_depth(text, from, to - 1) + if opens(text[to - 1]) {
            1int
        } else if closes(text[to - 1]) {
            -1
        } else {
            0
        }
    }
}

/// Whether no bracket is closed by one of another kind, up to where the first of the brackets
/// closes that are open at index `at`.
pub open spec fn kinds_agree(text: Seq<char>, at: int, open: Seq<char>) -> bool
    decreases text.len() - at,
{
    if at >= text.len() {
        true
    } else if opens(text[at]) {
        kinds_agree(text, at + 1, open.push(text[at]))
    } else if closes(text[at]) {
        &&& open.len() > 0
        &&& closer(open.last()) == text[at]
        &&& open.len() > 1 ==> kinds_agree(text, at + 1, open.drop_last())
    } else {
        kinds_agree(text, at + 1, open)
    }
}

proof fn close_balances(text: Seq<char>, from: int, at: int, open: Seq<char>)
    requires
        0 <= from < at <= text.len(),
        open.len() >= 1,
        open[0] == '<',
        open.len() == bracket_depth(text, from, at),
    ensures
        close_of(text, at, open) matches Some(i) ==> at <= i < text.len() && text[i] == '>'
            && bracket_depth(text, from, i + 1) == 0 && forall|j: int|
            at <= j <= i ==> #[trigger] bracket_depth(text, from, j) >= 1,
        close_of(text, at, open) is None && kinds_agree(text, at, open) ==> forall|j: int|
            at <= j <= text.len() ==> #[trigger] bracket_depth(text, from, j) >= 1,
    decreases text.len() - at,
{
    if at < text.len() {
        if opens(text[at]) {
            close_balances(text, from, at + 1, open.push(text[at]));
        } else if closes(text[at]) {
            if closer(open.last()) == text[at] && open.len() > 1 {
                close_balances(text, from, at + 1, open.drop_last());
            }
        } else {
            close_balances(text, from, at + 1, open);
        }
    }
}

/// What closes an angle bracket is an angle bracket, behind which as many brackets have closed as
/// opened, and before which fewer have. Where no bracket is closed by one of another kind, nothing
/// closes it only where the brackets never balance.
pub proof fn angle_bracket_closes_in_balance(text: Seq<char>, open: int)
    requires
        0 <= open < text.len(),
        text[open] == '<',
    ensures
        close_of(text, open, seq![]) matches Some(i) ==> open < i < text.len() && text[i] == '>'
            && bracket_depth(text, open, i + 1) == 0 && forall|j: int|
            open < j <= i ==> #[trigger] bracket_depth(text, open, j) >= 1,
        kinds_agree(text, open, seq![]) ==> (close_of(text, open, seq![]) is None <==> forall|
            j: int,
        |
            open < j <= text.len() ==> #[trigger] bracket_depth(text, open, j) != 0),
{
    let none = Seq::<char>::empty();
    assert(none.push(text[open])[0] == '<');
    assert(bracket_depth(text, open, open) == 0);
    assert(bracket_depth(text, open, open + 1) == 1);
    close_balances(text, open, open + 1, none.push(text[open]));
}

/// The bytes of a text, each as the character of its number.
pub open spec fn byte_chars(text: Seq<char>) -> Seq<char> {
    Seq::new(encode_utf8(text).len(), |i: int| encode_utf8(text)[i] as char)
}

/// The pieces between the commas outside brackets from index `at` on, each without the white space
/// around it. The first piece starts at `start`, and `depth` brackets are open at `at`.
pub open spec fn comma_pieces(text: Seq<char>, start: int, at: int, depth: int) -> Seq<Seq<char>>
    decreases text.len() - at,
{
    if at >= text.len() {
        seq![trim(text.subrange(start, text.len() as int))]
    } else if opens(text[at]) {
        comma_pieces(text, start, at + 1, depth + 1)
    } else if closes(text[at]) {
        comma_pieces(text, start, at + 1, depth - 1)
    } else if text[at] == ',' && depth == 0 {
        seq![trim(text.subrange(start, at))] + comma_pieces(text, at + 1, at + 1, depth)
    } else {
        comma_pieces(text, start, at + 1, depth)
    }
}

/// The name and the arguments of a type name that is one generic type and nothing behind it.
pub open spec fn outer_generic(text: Seq<char>) -> Option<(Seq<char>, Seq<Seq<char>>)> {
    let open = index_of(text, '<');
    if open <= 0 || open >= text.len() {
        None
    } else {
        match close_of(text, open, seq![]) {
            Some(close) => if close == text.len() - 1 {
                Some(
                    (
                        text.take(open),
                        comma_pieces(text.subrange(open + 1, close), 0, 0, 0),
                    ),
                )
            } else {
                None
            },
            None => None,
        }
    }
}

/// Whether a name is that of `ModifiedContent`, with or without its module.
pub open spec fn names_modified_content(name: Seq<char>) -> bool {
    name == "ModifiedContent"@ || ends_in(name, ".ModifiedContent"@)
}

/// The base and the modifier of a modified type.
pub open spec fn base_and_modifier(text: Seq<char>) -> Option<(Seq<char>, Seq<char>)> {
    match outer_generic(text) {
        Some((name, args)) => if names_modified_content(name) && args.len() == 2 {
            Some((trim(args[0]), trim(args[1])))
        } else {
            None
        },
        None => None,
    }
}

/// A type name without the modifiers nested around it, and those modifiers, the outermost first.
pub open spec fn peeled(text: Seq<char>) -> (Seq<char>, Seq<Seq<char>>)
    decreases text.len(),
    when true
    via peeled_shortens
{
    match base_and_modifier(text) {
        Some((base, modifier)) => {
            let (inner, modifiers) = peeled(base);
            (inner, seq![modifier] + modifiers)
        },
        None => (text, seq![]),
    }
}

#[via_fn]
proof fn peeled_shortens(text: Seq<char>) {
    base_is_shorter(text);
}

/// Trimming does not lengthen a text.
pub proof fn trim_shortens(text: Seq<char>)
    ensures
        trim(text).len() <= text.len(),
{
    trim_start_shortens(text);
    trim_end_shortens(trim_start(text));
}

proof fn trim_start_shortens(text: Seq<char>)
    ensures
        trim_start(text).len() <= text.len(),
    decreases text.len(),
{
    if text.len() > 0 && is_white(text[0]) {
        trim_start_shortens(text.drop_first());
    }
}

proof fn trim_end_shortens(text: Seq<char>)
    ensures
        trim_end(text).len() <= text.len(),
    decreases text.len(),
{
    if text.len() > 0 && is_white(text.last()) {
        trim_end_shortens(text.drop_last());
    }
}

/// Whether no text of a list is longer than `max`.
spec fn none_longer(list: Seq<Seq<char>>, max: int) -> bool {
    forall|i: int| 0 <= i < list.len() ==> (#[trigger] list[i]).len() <= max
}

/// No piece is longer than what was split.
proof fn pieces_are_shorter(text: Seq<char>, start: int, at: int, depth: int)
    requires
        0 <= start <= at <= text.len(),
    ensures
        none_longer(comma_pieces(text, start, at, depth), text.len() as int),
    decreases text.len() - at,
{
    let all = comma_pieces(text, start, at, depth);
    if at >= text.len() {
        let only = text.subrange(start, text.len() as int);
        trim_shortens(only);
        assert(all =~= seq![trim(only)]);
    } else if opens(text[at]) {
        pieces_are_shorter(text, start, at + 1, depth + 1);
    } else if closes(text[at]) {
        pieces_are_shorter(text, start, at + 1, depth - 1);
    } else if text[at] == ',' && depth == 0 {
        let first = text.subrange(start, at);
        trim_shortens(first);
        pieces_are_shorter(text, at + 1, at + 1, depth);
        let rest = comma_pieces(text, at + 1, at + 1, depth);
        assert(all =~= seq![trim(first)] + rest);
        assert forall|i: int| 0 <= i < all.len() implies (#[trigger] all[i]).len()
            <= text.len() by {
            if i > 0 {
                assert(all[i] == rest[i - 1]);
            }
        }
    } else {
        pieces_are_shorter(text, start, at + 1, depth);
    }
}

/// The base of a modified type is shorter than the type.
pub proof fn base_is_shorter(text: Seq<char>)
    ensures
        base_and_modifier(text) matches Some((base, modifier)) ==> base.len() < text.len(),
{
    if let Some((name, args)) = outer_generic(text) {
        let open = index_of(text, '<');
        let close = close_of(text, open, seq![])->0;
        index_of_bounds(text, '<');
        angle_bracket_closes_in_balance(text, open);
        pieces_are_shorter(text.subrange(open + 1, close), 0, 0, 0);
        if args.len() == 2 {
            trim_shortens(args[0]);
        }
    }
}

/// What is left after peeling is no modified type, and peeling it again changes nothing.
pub proof fn peeled_is_bare(text: Seq<char>)
    ensures
        base_and_modifier(peeled(text).0) is None,
        peeled(peeled(text).0) == (peeled(text).0, Seq::<Seq<char>>::empty()),
    decreases text.len(),
{
    base_is_shorter(text);
    if let Some((base, modifier)) = base_and_modifier(text) {
        peeled_is_bare(base);
    }
}

fn opens_bracket(c: char) -> (yes: bool)
    ensures
        yes == opens(c),
{
    c == '<' || c == '(' || c == '['
}

fn closes_bracket(c: char) -> (yes: bool)
    ensures
        yes == closes(c),
{
    c == '>' || c == ')' || c == ']'
}

fn closing_of(c: char) -> (closing: char)
    ensures
        closing == closer(c),
{
    if c == '<' {
        '>'
    } else if c == '(' {
        ')'
    } else {
        ']'
    }
}

fn find_close(chars: &Vec<char>, start: usize) -> (close: Option<usize>)
    requires
        start < chars.len(),
        chars@[start as int] == '<',
    ensures
        close is Some == close_of(chars@, start as int, seq![]) is Some,
        close matches Some(i) ==> close_of(chars@, start as int, seq![]) == Some(i as int) && start
            < i < chars.len(),
{
    let mut open: Vec<char> = vec!['<'];
    let mut i: usize = start + 1;
    assert(open@ =~= Seq::<char>::empty().push('<'));
    while i < chars.len()
        invariant
            start < i <= chars.len(),
            open@.len() >= 1,
            close_of(chars@, start as int, seq![]) == close_of(chars@, i as int, open@),
        decreases chars.len() - i,
    {
        let c = chars[i];
        if opens_bracket(c) {
            open.push(c);
        } else if closes_bracket(c) {
            if closing_of(open[open.len() - 1]) != c {
                return None;
            }
            if open.len() == 1 {
                return Some(i);
            }
            let ghost before = open@;
            let _ = open.pop();
            assert(open@ =~= before.drop_last());
        }
        i = i + 1;
    }
    None
}

/// The index of the `>` that closes the `<` at index `open`, where brackets of all kinds nest and
/// each is closed by its own kind. Both indexes count the bytes of the text.
pub fn matching_close_angle_bracket(s: &str, open: usize) -> (close: Option<usize>)
    requires
        open < encode_utf8(s@).len(),
        byte_chars(s@)[open as int] == '<',
    ensures
        close is Some == close_of(byte_chars(s@), open as int, seq![]) is Some,
        close matches Some(i) ==> close_of(byte_chars(s@), open as int, seq![]) == Some(i as int)
            && encode_utf8(s@)[i as int] == 0x3e,
{
    let bytes = s.as_bytes();
    let mut chars: Vec<char> = Vec::new();
    let mut i: usize = 0;
    while i < bytes.len()
        invariant
            i <= bytes.len(),
            bytes@ == encode_utf8(s@),
            chars@ == byte_chars(s@).take(i as int),
        decreases bytes.len() - i,
    {
        chars.push(bytes[i] as char);
        assert(chars@ =~= byte_chars(s@).take(i + 1));
        i = i + 1;
    }
    assert(chars@ =~= byte_chars(s@));
    proof {
        angle_bracket_closes_in_balance(byte_chars(s@), open as int);
    }
    find_close(&chars, open)
}

/// Splits a text at the commas outside brackets. The pieces come without the white space around
/// them.
pub fn split_top_level_commas(s: &str) -> (parts: Vec<String>)
    ensures
        texts(parts@) == comma_pieces(s@, 0, 0, 0),
{
    let chars = chars_of(s);
    let mut parts: Vec<String> = Vec::new();
    let mut depth: i128 = 0;
    let mut start: usize = 0;
    let mut i: usize = 0;
    assert(texts(parts@) + comma_pieces(s@, 0, 0, 0) =~= comma_pieces(s@, 0, 0, 0));
    while i < chars.len()
        invariant
            chars@ == s@,
            start <= i <= chars.len(),
            -(i as int) <= depth <= i,
            texts(parts@) + comma_pieces(s@, start as int, i as int, depth as int) == comma_pieces(
                s@,
                0,
                0,
                0,
            ),
        decreases chars.len() - i,
    {
        let c = chars[i];
        if opens_bracket(c) {
            depth = depth + 1;
        } else if closes_bracket(c) {
            depth = depth - 1;
        } else if c == ',' && depth == 0 {
            let ghost before = texts(parts@);
            let piece = trimmed(slice_text(&chars, start, i).as_str());
            push_text(&mut parts, piece);
            assert(before.push(piece@) + comma_pieces(s@, i + 1, i + 1, 0) =~= before + (
            seq![piece@] + comma_pieces(s@, i + 1, i + 1, 0)));
            start = i + 1;
        }
        i = i + 1;
    }
    let ghost before = texts(parts@);
    let piece = trimmed(slice_text(&chars, start, chars.len()).as_str());
    push_text(&mut parts, piece);
    assert(before.push(piece@) =~= before + seq![piece@]);
    parts
}

/// The name and the arguments of a type name that is one generic type and nothing behind it.
pub fn parse_outer_generic(s: &str) -> (parsed: Option<(String, Vec<String>)>)
    ensures
        parsed is Some == outer_generic(s@) is Some,
        parsed matches Some((name, args)) ==> outer_generic(s@) == Some((name@, texts(args@))),
{
    let chars = chars_of(s);
    let open = find_char(&chars, '<');
    proof {
        index_of_bounds(s@, '<');
    }
    if open == 0 || open == chars.len() {
        return None;
    }
    let close = match find_close(&chars, open) {
        Some(close) => close,
        None => return None,
    };
    if close != chars.len() - 1 {
        return None;
    }
    let name = slice_text(&chars, 0, open);
    assert(name@ =~= s@.take(open as int));
    let inner = slice_text(&chars, open + 1, close);
    Some((name, split_top_level_commas(inner.as_str())))
}

/// Whether a name is that of `ModifiedContent`, with or without its module.
pub fn is_modified_content(name: &str) -> (yes: bool)
    ensures
        yes == names_modified_content(name@),
{
    same_text(name, "ModifiedContent") || has_suffix(name, ".ModifiedContent")
}

/// Takes the modifiers that a type name nests apart from the view's own type. It stops at the
/// first shape that is not a modified type.
pub fn unwrap_modified_content(type_str: &str) -> (result: (String, Vec<String>))
    ensures
        result.0@ == peeled(trim(type_str@)).0,
        texts(result.1@) == peeled(trim(type_str@)).1,
{
    let mut current = trimmed(type_str);
    let mut modifiers: Vec<String> = Vec::new();
    let ghost goal = peeled(trim(type_str@));
    assert(texts(modifiers@) + goal.1 =~= goal.1);
    loop
        invariant
            goal == peeled(trim(type_str@)),
            goal.0 == peeled(current@).0,
            goal.1 == texts(modifiers@) + peeled(current@).1,
        decreases current@.len(),
    {
        proof {
            base_is_shorter(current@);
        }
        let (name, args) = match parse_outer_generic(current.as_str()) {
            Some(parsed) => parsed,
            None => {
                assert(texts(modifiers@) + Seq::<Seq<char>>::empty() =~= texts(modifiers@));
                return (current, modifiers);
            },
        };
        assert(texts(args@).len() == args@.len());
        if !is_modified_content(name.as_str()) || args.len() != 2 {
            assert(texts(modifiers@) + Seq::<Seq<char>>::empty() =~= texts(modifiers@));
            return (current, modifiers);
        }
        assert(texts(args@)[0] == args@[0]@);
        assert(texts(args@)[1] == args@[1]@);
        let modifier = trimmed(args[1].as_str());
        let base = trimmed(args[0].as_str());
        let ghost before = texts(modifiers@);
        push_text(&mut modifiers, modifier);
        assert(before + (seq![modifier@] + peeled(base@).1) =~= before.push(modifier@) + peeled(
            base@,
        ).1);
        current = base;
    }
}

/// A text cut after `max` characters, with an ellipsis where anything was cut.
pub open spec fn capped(text: Seq<char>, max: int) -> Seq<char> {
    if text.len() <= max {
        text
    } else {
        text.take(max).push('…')
    }
}

/// Cuts a text after `max_chars` characters, with an ellipsis where anything was cut.
pub fn cap_display_length(s: &str, max_chars: usize) -> (capped_text: String)
    ensures
        capped_text@ == capped(s@, max_chars as int),
        capped_text@.len() <= max_chars + 1,
{
    let chars = chars_of(s);
    if chars.len() <= max_chars {
        return s.to_owned();
    }
    let mut result = slice_text(&chars, 0, max_chars);
    assert(result@ =~= s@.take(max_chars as int));
    result.push('…');
    result
}

/// The brackets that are open behind a text, where `open` are open before it and each is closed by
/// its own kind.
pub open spec fn left_open(text: Seq<char>, open: Seq<char>) -> Option<Seq<char>>
    decreases text.len(),
{
    if text.len() == 0 {
        Some(open)
    } else if opens(text[0]) {
        left_open(text.drop_first(), open.push(text[0]))
    } else if closes(text[0]) {
        if open.len() > 0 && closer(open.last()) == text[0] {
            left_open(text.drop_first(), open.drop_last())
        } else {
            None
        }
    } else {
        left_open(text.drop_first(), open)
    }
}

/// Whether the brackets of a text match.
pub open spec fn matched(text: Seq<char>) -> bool {
    left_open(text, seq![]) == Some(Seq::<char>::empty())
}

/// Whether a text holds no comma outside brackets.
pub open spec fn holds_no_comma(text: Seq<char>, open: Seq<char>) -> bool
    decreases text.len(),
{
    if text.len() == 0 {
        true
    } else if opens(text[0]) {
        holds_no_comma(text.drop_first(), open.push(text[0]))
    } else if closes(text[0]) {
        holds_no_comma(text.drop_first(), open.drop_last())
    } else {
        (text[0] == ',' ==> open.len() > 0) && holds_no_comma(text.drop_first(), open)
    }
}

/// The kinds of brackets are the angle, the round and the square one.
pub proof fn brackets_come_in_pairs(c: char)
    ensures
        opens(c) <==> (c == '<' || c == '(' || c == '['),
        closes(c) <==> (c == '>' || c == ')' || c == ']'),
        closer('<') == '>',
        closer('(') == ')',
        closer('[') == ']',
{
}

proof fn close_lies_behind(
    whole: Seq<char>,
    at: int,
    text: Seq<char>,
    outer: Seq<char>,
    inner: Seq<char>,
)
    requires
        0 <= at,
        at + text.len() <= whole.len(),
        whole.subrange(at, at + text.len()) == text,
        outer.len() >= 1,
        left_open(text, inner) is Some,
    ensures
        close_of(whole, at, outer + inner) == close_of(
            whole,
            at + text.len(),
            outer + left_open(text, inner)->0,
        ),
    decreases text.len(),
{
    if text.len() > 0 {
        let rest = text.drop_first();
        assert(whole[at] == text[0]) by {
            assert(whole.subrange(at, at + text.len())[0] == whole[at]);
        }
        assert(whole.subrange(at + 1, at + 1 + rest.len()) =~= rest) by {
            assert forall|i: int| 0 <= i < rest.len() implies whole.subrange(
                at + 1,
                at + 1 + rest.len(),
            )[i] == rest[i] by {
                assert(whole.subrange(at, at + text.len())[i + 1] == text[i + 1]);
            }
        }
        if opens(text[0]) {
            assert((outer + inner).push(text[0]) =~= outer + inner.push(text[0]));
            close_lies_behind(whole, at + 1, rest, outer, inner.push(text[0]));
        } else if closes(text[0]) {
            assert((outer + inner).last() == inner.last());
            assert((outer + inner).drop_last() =~= outer + inner.drop_last());
            close_lies_behind(whole, at + 1, rest, outer, inner.drop_last());
        } else {
            close_lies_behind(whole, at + 1, rest, outer, inner);
        }
    }
}

proof fn pieces_lie_behind(whole: Seq<char>, start: int, at: int, text: Seq<char>, open: Seq<char>)
    requires
        0 <= start <= at,
        at + text.len() <= whole.len(),
        whole.subrange(at, at + text.len()) == text,
        left_open(text, open) is Some,
        holds_no_comma(text, open),
    ensures
        comma_pieces(whole, start, at, open.len() as int) == comma_pieces(
            whole,
            start,
            at + text.len(),
            left_open(text, open)->0.len() as int,
        ),
    decreases text.len(),
{
    if text.len() > 0 {
        let rest = text.drop_first();
        assert(whole[at] == text[0]) by {
            assert(whole.subrange(at, at + text.len())[0] == whole[at]);
        }
        assert(whole.subrange(at + 1, at + 1 + rest.len()) =~= rest) by {
            assert forall|i: int| 0 <= i < rest.len() implies whole.subrange(
                at + 1,
                at + 1 + rest.len(),
            )[i] == rest[i] by {
                assert(whole.subrange(at, at + text.len())[i + 1] == text[i + 1]);
            }
        }
        if opens(text[0]) {
            pieces_lie_behind(whole, start, at + 1, rest, open.push(text[0]));
        } else if closes(text[0]) {
            pieces_lie_behind(whole, start, at + 1, rest, open.drop_last());
        } else {
            pieces_lie_behind(whole, start, at + 1, rest, open);
        }
    }
}

/// A text with brackets that match and no comma outside them is a single piece; two such texts with
/// a comma between are two pieces, in their order and without white space around them.
pub proof fn commas_separate(first: Seq<char>, second: Seq<char>)
    requires
        matched(first),
        holds_no_comma(first, seq![]),
        matched(second),
        holds_no_comma(second, seq![]),
    ensures
        comma_pieces(first, 0, 0, 0) == seq![trim(first)],
        comma_pieces(first + seq![','] + second, 0, 0, 0) == seq![trim(first), trim(second)],
{
    let none = Seq::<char>::empty();
    assert(first.subrange(0, first.len() as int) =~= first);
    pieces_lie_behind(first, 0, 0, first, none);
    let whole = first + seq![','] + second;
    let behind: int = first.len() + 1int;
    assert(whole.subrange(0, first.len() as int) =~= first);
    assert(whole.subrange(behind, behind + second.len()) =~= second);
    pieces_lie_behind(whole, 0, 0, first, none);
    pieces_lie_behind(whole, behind, behind, second, none);
    assert(whole.subrange(behind, whole.len() as int) =~= second);
    assert(comma_pieces(whole, 0, 0, 0) =~= seq![trim(first), trim(second)]);
}

/// A type that modifies a base with a modifier.
pub open spec fn modified(name: Seq<char>, base: Seq<char>, modifier: Seq<char>) -> Seq<char> {
    name + seq!['<'] + base + seq![','] + modifier + seq!['>']
}

/// Peeling takes apart what modifying put together: of a base that is modified it gives what the
/// base gives, with the modifier before the base's own. The type may be named with its module.
pub proof fn peeling_undoes_modifying(name: Seq<char>, base: Seq<char>, modifier: Seq<char>)
    requires
        name == "ModifiedContent"@ || exists|module: Seq<char>|
            #[trigger] (module + ".ModifiedContent"@) == name,
        !name.contains('<'),
        matched(base),
        holds_no_comma(base, seq![]),
        matched(modifier),
        holds_no_comma(modifier, seq![]),
    ensures
        peeled(modified(name, base, modifier)).0 == peeled(trim(base)).0,
        peeled(modified(name, base, modifier)).1 == seq![trim(modifier)] + peeled(trim(base)).1,
{
    let text = modified(name, base, modifier);
    let inner = base + seq![','] + modifier;
    let none = Seq::<char>::empty();
    let open = name.len() as int;
    let close = text.len() - 1;
    reveal_strlit("ModifiedContent");
    reveal_strlit(".ModifiedContent");
    assert("ModifiedContent"@.len() == 15);
    assert(".ModifiedContent"@.len() == 16);
    index_of_bounds(text, '<');
    assert(text[open] == '<');
    assert(index_of(text, '<') == open) by {
        let at = index_of(text, '<');
        if at < open {
            assert(text[at] == name[at]);
            assert(name.contains('<'));
        }
        first_index(text, '<', open);
    }
    // What closes the first bracket is the last character.
    assert(text.subrange(open + 1, open + 1 + base.len()) =~= base);
    let outer = none.push('<');
    assert(outer + none =~= outer);
    close_lies_behind(text, open + 1, base, outer, none);
    let comma = open + 1 + base.len();
    assert(text[comma] == ',');
    assert(text.subrange(comma + 1, comma + 1 + modifier.len()) =~= modifier);
    close_lies_behind(text, comma + 1, modifier, outer, none);
    assert(text[close] == '>');
    assert(close == comma + 1 + modifier.len());
    assert(close_of(text, open, none) == Some(close));
    assert(text.take(open) =~= name);
    assert(text.subrange(open + 1, close) =~= inner);
    commas_separate(base, modifier);
    if name != "ModifiedContent"@ {
        crate::text::ending_is_standing_last(name, ".ModifiedContent"@);
    }
    assert(outer_generic(text) == Some((name, seq![trim(base), trim(modifier)])));
    crate::text::trim_takes_white_ends(base);
    crate::text::trim_takes_white_ends(modifier);
    crate::text::trim_keeps_bare(trim(base));
    crate::text::trim_keeps_bare(trim(modifier));
    assert(base_and_modifier(text) == Some((trim(base), trim(modifier))));
}

proof fn first_index(text: Seq<char>, c: char, at: int)
    requires
        0 <= at < text.len(),
        text[at] == c,
    ensures
        index_of(text, c) <= at,
    decreases at,
{
    if at > 0 && text[0] != c {
        assert(text.drop_first()[at - 1] == c);
        first_index(text.drop_first(), c, at - 1);
    }
}

/// A type that is no modification of anything is left as it is: one without angle brackets, and
/// one of another name.
pub proof fn other_types_stay(text: Seq<char>)
    requires
        !text.contains('<') || !ends_in(text.take(index_of(text, '<')), "ModifiedContent"@),
    ensures
        peeled(text) == (text, Seq::<Seq<char>>::empty()),
{
    index_of_bounds(text, '<');
    let name = text.take(index_of(text, '<'));
    reveal_strlit("ModifiedContent");
    reveal_strlit(".ModifiedContent");
    assert("ModifiedContent"@.len() == 15);
    assert(".ModifiedContent"@.len() == 16);
    assert(".ModifiedContent"@.skip(1) =~= "ModifiedContent"@);
    if index_of(text, '<') < text.len() {
        assert(text.contains('<'));
        if name == "ModifiedContent"@ {
            assert(name.subrange(0, 15) =~= "ModifiedContent"@);
        }
        if ends_in(name, ".ModifiedContent"@) {
            let at = name.len() - 15;
            assert forall|i: int| 0 <= i < 15 implies name.subrange(at, name.len() as int)[i]
                == "ModifiedContent"@[i] by {
                assert(name.subrange(at - 1, name.len() as int)[i + 1] == ".ModifiedContent"@[i
                    + 1]);
                assert(".ModifiedContent"@.skip(1)[i] == "ModifiedContent"@[i]);
            }
            assert(name.subrange(at, name.len() as int) =~= "ModifiedContent"@);
        }
    }
}

/// A text that is not too long is shown whole, and another by its beginning, with a mark that it
/// goes on.
pub proof fn capping_cuts_the_end(text: Seq<char>, max: int)
    requires
        0 <= max,
    ensures
        text.len() <= max ==> capped(text, max) == text,
        text.len() > max ==> capped(text, max).len() == max + 1 && capped(text, max).last() == '…'
            && forall|i: int| 0 <= i < max ==> #[trigger] capped(text, max)[i] == text[i],
{
}

/// A generic type: a name, and its arguments in angle brackets.
pub open spec fn generic(name: Seq<char>, inner: Seq<char>) -> Seq<char> {
    name + seq!['<'] + inner + seq!['>']
}

proof fn generic_closes(name: Seq<char>, inner: Seq<char>, behind: Seq<char>)
    requires
        !name.contains('<'),
        matched(inner),
    ensures
        index_of(generic(name, inner) + behind, '<') == name.len(),
        close_of(generic(name, inner) + behind, name.len() as int, seq![]) == Some(
            generic(name, inner).len() - 1,
        ),
{
    let text = generic(name, inner) + behind;
    let none = Seq::<char>::empty();
    let open = name.len() as int;
    index_of_bounds(text, '<');
    assert(text[open] == '<');
    assert(index_of(text, '<') == open) by {
        let at = index_of(text, '<');
        if at < open {
            assert(text[at] == name[at]);
            assert(name.contains('<'));
        }
        first_index(text, '<', open);
    }
    let outer = none.push('<');
    assert(outer + none =~= outer);
    assert(text.subrange(open + 1, open + 1 + inner.len()) =~= inner);
    close_lies_behind(text, open + 1, inner, outer, none);
    assert(text[open + 1 + inner.len()] == '>');
}

/// A type with anything behind its angle brackets is no modification, whatever its name.
pub proof fn types_with_more_behind_stay(name: Seq<char>, inner: Seq<char>, behind: Seq<char>)
    requires
        !name.contains('<'),
        matched(inner),
        behind.len() > 0,
    ensures
        peeled(generic(name, inner) + behind) == (
            generic(name, inner) + behind,
            Seq::<Seq<char>>::empty(),
        ),
{
    generic_closes(name, inner, behind);
}

proof fn open_brackets_go_on(front: Seq<char>, back: Seq<char>, open: Seq<char>)
    requires
        left_open(front, open) is Some,
    ensures
        left_open(front + back, open) == left_open(back, left_open(front, open)->0),
    decreases front.len(),
{
    if front.len() == 0 {
        assert(front + back =~= back);
    } else {
        assert((front + back).drop_first() =~= front.drop_first() + back);
        if opens(front[0]) {
            open_brackets_go_on(front.drop_first(), back, open.push(front[0]));
        } else if closes(front[0]) {
            open_brackets_go_on(front.drop_first(), back, open.drop_last());
        } else {
            open_brackets_go_on(front.drop_first(), back, open);
        }
    }
}

/// A type of one argument, and one of three, is no modification, whatever its name.
pub proof fn modifications_have_two_arguments(
    name: Seq<char>,
    first: Seq<char>,
    second: Seq<char>,
    third: Seq<char>,
)
    requires
        !name.contains('<'),
        matched(first),
        holds_no_comma(first, seq![]),
        matched(second),
        holds_no_comma(second, seq![]),
        matched(third),
        holds_no_comma(third, seq![]),
    ensures
        peeled(generic(name, first)) == (generic(name, first), Seq::<Seq<char>>::empty()),
        peeled(generic(name, first + seq![','] + second + seq![','] + third)).1.len() == 0,
{
    let none = Seq::<char>::empty();
    let one = generic(name, first);
    assert(one + none =~= one);
    generic_closes(name, first, none);
    commas_separate(first, second);
    let open = name.len() as int;
    assert(one.subrange(open + 1, one.len() - 1) =~= first);
    let whole = first + seq![','] + second + seq![','] + third;
    let comma = seq![','];
    open_brackets_go_on(first, comma, none);
    assert(comma.drop_first() =~= none);
    assert(left_open(comma, none) == Some(none)) by {
        reveal_with_fuel(left_open, 2);
    }
    open_brackets_go_on(first + comma, second, none);
    open_brackets_go_on(first + comma + second, comma, none);
    open_brackets_go_on(first + comma + second + comma, third, none);
    assert(matched(whole));
    let three = generic(name, whole);
    assert(three + none =~= three);
    generic_closes(name, whole, none);
    assert(three.subrange(open + 1, three.len() - 1) =~= whole);
    let a: int = first.len() + 1int;
    let b: int = a + second.len() + 1int;
    assert(whole.subrange(0, first.len() as int) =~= first);
    assert(whole.subrange(a, a + second.len()) =~= second);
    assert(whole.subrange(b, b + third.len()) =~= third);
    pieces_lie_behind(whole, 0, 0, first, none);
    pieces_lie_behind(whole, a, a, second, none);
    pieces_lie_behind(whole, b, b, third, none);
    assert(whole[first.len() as int] == ',');
    assert(whole[b - 1] == ',');
    assert(comma_pieces(whole, b, b, 0).len() == 1);
    assert(comma_pieces(whole, a, a, 0).len() == 2);
    assert(comma_pieces(whole, 0, 0, 0).len() == 3);
}

} // verus!
