//! What can be typed into a debugger's console: `remo`, a dotted name behind it, or a call of a
//! dotted name with at most one argument, a JSON object.
use crate::json::{no_entries, Json, JsonView};
use crate::json_text::{json_of_text, parse_json};
use crate::text::{
    chars_of, join, join_texts, matches_at, rest_after, skip_white, skip_white_back, slice_text,
    texts, trim, trim_end, trim_start, trimmed,
};
use vstd::prelude::*;

verus! {

/// Where reading an argument list stands: inside which quotation marks, whether the next
/// character is escaped, and inside how many brackets.
pub struct Scan {
    pub quote: Option<char>,
    pub escaped: bool,
    pub depth: int,
}

/// Where reading stands after one more character.
pub open spec fn scan_step(scan: Scan, c: char) -> Scan {
    match scan.quote {
        Some(quote) => if scan.escaped {
            Scan { escaped: false, ..scan }
        } else if c == '\\' {
            Scan { escaped: true, ..scan }
        } else if c == quote {
            Scan { quote: None, ..scan }
        } else {
            scan
        },
        None => if c == '"' || c == '\'' {
            Scan { quote: Some(c), ..scan }
        } else if c == '{' || c == '[' || c == '(' {
            Scan { depth: scan.depth + 1, ..scan }
        } else if c == '}' || c == ']' || c == ')' {
            Scan { depth: scan.depth - 1, ..scan }
        } else {
            scan
        },
    }
}

/// Where reading stands after the first `count` characters.
pub open spec fn scan(text: Seq<char>, count: int) -> Scan
    decreases count,
{
    if count <= 0 {
        Scan { quote: None, escaped: false, depth: 0 }
    } else {
        scan_step(scan(text, count - 1), text[count - 1])
    }
}

/// Whether every quotation mark and bracket is closed, and no bracket is closed before it is
/// opened.
pub open spec fn balanced(text: Seq<char>) -> bool {
    &&& forall|i: int| 0 <= i <= text.len() ==> (#[trigger] scan(text, i)).depth >= 0
    &&& scan(text, text.len() as int).depth == 0
    &&& scan(text, text.len() as int).quote is None
}

/// Whether a comma that separates arguments stands at an index: one inside no quotation marks and
/// no brackets.
pub open spec fn separates(text: Seq<char>, at: int) -> bool {
    text[at] == ',' && scan(text, at).quote is None && scan(text, at).depth == 0
}

/// The pieces between the separating commas from index `at` on, where the first piece starts at
/// `start`.
pub open spec fn pieces(text: Seq<char>, start: int, at: int) -> Seq<Seq<char>>
    decreases text.len() - at,
{
    if at >= text.len() {
        seq![text.subrange(start, text.len() as int)]
    } else if separates(text, at) {
        seq![text.subrange(start, at)] + pieces(text, at + 1, at + 1)
    } else {
        pieces(text, start, at + 1)
    }
}

/// The arguments of a call, from what stands between its brackets.
pub open spec fn arguments(text: Seq<char>) -> Option<Seq<Seq<char>>> {
    if trim(text).len() == 0 {
        Some(seq![])
    } else if balanced(text) {
        Some(pieces(text, 0, 0))
    } else {
        None
    }
}

/// Texts joined behind a first one.
proof fn join_behind(first: Seq<char>, rest: Seq<Seq<char>>, between: Seq<char>)
    requires
        rest.len() > 0,
    ensures
        join(seq![first] + rest, between) == first + between + join(rest, between),
    decreases rest.len(),
{
    let all = seq![first] + rest;
    if rest.len() == 1 {
        assert(all.drop_last() =~= seq![first]);
        assert(join(all.drop_last(), between) == first);
    } else {
        join_behind(first, rest.drop_last(), between);
        assert(all.drop_last() =~= seq![first] + rest.drop_last());
        assert(join(all, between) =~= first + between + join(rest, between));
    }
}

proof fn pieces_join(text: Seq<char>, start: int, at: int)
    requires
        0 <= start <= at <= text.len(),
    ensures
        pieces(text, start, at).len() > 0,
        join(pieces(text, start, at), seq![',']) == text.subrange(start, text.len() as int),
    decreases text.len() - at,
{
    if at < text.len() {
        if separates(text, at) {
            pieces_join(text, at + 1, at + 1);
            join_behind(text.subrange(start, at), pieces(text, at + 1, at + 1), seq![',']);
            assert(text.subrange(start, at) + seq![','] + text.subrange(at + 1, text.len() as int)
                =~= text.subrange(start, text.len() as int));
        } else {
            pieces_join(text, start, at + 1);
        }
    }
}

/// The arguments of a call, joined with commas, are what stood between its brackets.
pub proof fn arguments_join(text: Seq<char>)
    requires
        trim(text).len() > 0,
        balanced(text),
    ensures
        arguments(text) is Some,
        arguments(text)->0.len() > 0,
        join(arguments(text)->0, seq![',']) == text,
{
    pieces_join(text, 0, 0);
    assert(text.subrange(0, text.len() as int) =~= text);
}

/// Splits what stands between the brackets of a call into its arguments. A comma inside quotation
/// marks or inner brackets does not separate. What is not balanced has no arguments.
pub fn split_top_level_args(text: &str) -> (parts: Option<Vec<String>>)
    ensures
        parts is Some == arguments(text@) is Some,
        parts matches Some(list) ==> texts(list@) == arguments(text@)->0,
{
    let chars = chars_of(text);
    if trimmed(text).as_str().is_empty() {
        let none: Vec<String> = Vec::new();
        assert(texts(none@) =~= seq![]);
        return Some(none);
    }
    let mut parts: Vec<String> = Vec::new();
    let mut depth: usize = 0;
    let mut quote: Option<char> = None;
    let mut escaped = false;
    let mut start: usize = 0;
    let mut i: usize = 0;
    assert(texts(parts@) + pieces(text@, 0, 0) =~= pieces(text@, 0, 0));
    while i < chars.len()
        invariant
            chars@ == text@,
            start <= i <= chars.len(),
            depth <= i,
            quote == scan(text@, i as int).quote,
            depth == scan(text@, i as int).depth,
            escaped == scan(text@, i as int).escaped,
            forall|j: int| 0 <= j <= i ==> (#[trigger] scan(text@, j)).depth >= 0,
            texts(parts@) + pieces(text@, start as int, i as int) == pieces(text@, 0, 0),
            trim(text@).len() > 0,
        decreases chars.len() - i,
    {
        let c = chars[i];
        let ghost next = scan(text@, i + 1);
        assert(next == scan_step(scan(text@, i as int), c));
        match quote {
            Some(mark) => {
                if escaped {
                    escaped = false;
                } else if c == '\\' {
                    escaped = true;
                } else if c == mark {
                    quote = None;
                }
            },
            None => {
                if c == '"' || c == '\'' {
                    quote = Some(c);
                } else if c == '{' || c == '[' || c == '(' {
                    depth = depth + 1;
                } else if c == '}' || c == ']' || c == ')' {
                    if depth == 0 {
                        assert(next.depth < 0);
                        return None;
                    }
                    depth = depth - 1;
                } else if c == ',' && depth == 0 {
                    let ghost before = texts(parts@);
                    let piece = slice_text(&chars, start, i);
                    parts.push(piece);
                    assert(texts(parts@) =~= before.push(piece@));
                    assert(separates(text@, i as int));
                    assert(before.push(piece@) + pieces(text@, i + 1, i + 1) =~= before + (
                    seq![piece@] + pieces(text@, i + 1, i + 1)));
                    start = i + 1;
                }
            },
        }
        i = i + 1;
    }
    if quote.is_some() || depth != 0 {
        return None;
    }
    let ghost before = texts(parts@);
    let piece = slice_text(&chars, start, chars.len());
    parts.push(piece);
    assert(texts(parts@) =~= before + seq![piece@]);
    Some(parts)
}

/// Whether a character can stand in a name.
pub open spec fn names_char(c: char) -> bool {
    ('a' <= c <= 'z') || ('A' <= c <= 'Z') || ('0' <= c <= '9') || c == '_'
}

/// How many characters at the beginning of a text can stand in a name.
pub open spec fn name_len(text: Seq<char>) -> int
    decreases text.len(),
{
    if text.len() > 0 && names_char(text[0]) {
        1 + name_len(text.drop_first())
    } else {
        0
    }
}

proof fn name_len_bounds(text: Seq<char>)
    ensures
        0 <= name_len(text) <= text.len(),
    decreases text.len(),
{
    if text.len() > 0 && names_char(text[0]) {
        name_len_bounds(text.drop_first());
    }
}

proof fn trim_start_shortens(text: Seq<char>)
    ensures
        trim_start(text).len() <= text.len(),
    decreases text.len(),
{
    if text.len() > 0 && crate::text::is_white(text[0]) {
        trim_start_shortens(text.drop_first());
    }
}

/// The names of a dotted chain, and what follows the chain. White space may surround the dots. A
/// dot without a name behind it makes no chain.
pub open spec fn dotted(text: Seq<char>) -> Option<(Seq<Seq<char>>, Seq<char>)>
    decreases text.len(),
    when true
    via dotted_shortens
{
    let tail = trim_start(text);
    if tail.len() == 0 || tail[0] != '.' {
        Some((seq![], tail))
    } else {
        let named = trim_start(tail.drop_first());
        let len = name_len(named);
        if len == 0 {
            None
        } else {
            match dotted(named.skip(len)) {
                Some((names, rest)) => Some((seq![named.take(len)] + names, rest)),
                None => None,
            }
        }
    }
}

#[via_fn]
proof fn dotted_shortens(text: Seq<char>) {
    let tail = trim_start(text);
    trim_start_shortens(text);
    if tail.len() > 0 && tail[0] == '.' {
        trim_start_shortens(tail.drop_first());
        name_len_bounds(trim_start(tail.drop_first()));
    }
}

/// What stands between the brackets of a call that makes up the whole of a text, a semicolon at
/// its end aside.
pub open spec fn between_brackets(text: Seq<char>) -> Option<Seq<char>> {
    if text.len() == 0 || text[0] != '(' {
        None
    } else {
        let inner = text.drop_first();
        let closed = trim_end(
            if inner.len() > 0 && inner.last() == ';' {
                inner.drop_last()
            } else {
                inner
            },
        );
        if closed.len() == 0 || closed.last() != ')' {
            None
        } else {
            Some(closed.drop_last())
        }
    }
}

/// The shape of what was typed: a name to look at, or the call of a name with the text of its
/// argument, where it has one.
#[verifier::ext_equal]
pub enum ShapeView {
    Reference(Seq<char>),
    Call { name: Seq<char>, argument: Option<Seq<char>> },
}

/// The argument of a call with at most one argument; an argument of white space is none.
pub open spec fn single_argument(list: Seq<Seq<char>>) -> Option<Seq<char>> {
    if list.len() == 1 && trim(list[0]).len() > 0 {
        Some(trim(list[0]))
    } else {
        None
    }
}

/// The shape of a typed text, where it has one.
pub open spec fn shape(expression: Seq<char>) -> Option<ShapeView> {
    match rest_after(trim(expression), "remo"@) {
        None => None,
        Some(tail) => match dotted(tail) {
            None => None,
            Some((names, rest)) => {
                let name = join(names, "."@);
                if rest.len() == 0 {
                    Some(ShapeView::Reference(name))
                } else {
                    match between_brackets(rest) {
                        None => None,
                        Some(inner) => match arguments(inner) {
                            None => None,
                            Some(list) => if list.len() > 1 || name.len() == 0 {
                                None
                            } else {
                                Some(ShapeView::Call { name, argument: single_argument(list) })
                            },
                        },
                    }
                }
            },
        },
    }
}

/// The shape of a typed text.
#[derive(Debug, PartialEq, Eq)]
pub enum ConsoleShape {
    Reference(String),
    Call { name: String, argument: Option<String> },
}

impl View for ConsoleShape {
    type V = ShapeView;

    open spec fn view(&self) -> ShapeView {
        match self {
            ConsoleShape::Reference(name) => ShapeView::Reference(name@),
            ConsoleShape::Call { name, argument } => ShapeView::Call {
                name: name@,
                argument: match argument {
                    Some(text) => Some(text@),
                    None => None,
                },
            },
        }
    }
}

/// A typed text: a name to look at, or the call of a name with an argument.
#[derive(Debug, PartialEq)]
pub enum ConsoleExpr {
    Reference(String),
    Invoke { name: String, args: Json },
}

/// What a typed text says.
#[verifier::ext_equal]
pub enum ExprView {
    Reference(Seq<char>),
    Invoke { name: Seq<char>, args: JsonView },
}

impl View for ConsoleExpr {
    type V = ExprView;

    open spec fn view(&self) -> ExprView {
        match self {
            ConsoleExpr::Reference(name) => ExprView::Reference(name@),
            ConsoleExpr::Invoke { name, args } => ExprView::Invoke { name: name@, args: args@ },
        }
    }
}

/// The call of a name with the value that its argument was read as: it has to be an object. A call
/// without an argument has the empty object.
pub open spec fn call_with(name: Seq<char>, argument: Option<Option<JsonView>>) -> Option<
    ExprView,
> {
    match argument {
        None => Some(ExprView::Invoke { name, args: no_entries() }),
        Some(Some(JsonView::Object(entries))) => Some(
            ExprView::Invoke { name, args: JsonView::Object(entries) },
        ),
        Some(_) => None,
    }
}

/// What a typed text says, where it says anything.
pub open spec fn console_expr(expression: Seq<char>) -> Option<ExprView> {
    match shape(expression) {
        None => None,
        Some(ShapeView::Reference(name)) => Some(ExprView::Reference(name)),
        Some(ShapeView::Call { name, argument }) => call_with(
            name,
            match argument {
                Some(text) => Some(json_of_text(text)),
                None => None,
            },
        ),
    }
}

fn is_name_char(c: char) -> (yes: bool)
    ensures
        yes == names_char(c),
{
    ('a' <= c && c <= 'z') || ('A' <= c && c <= 'Z') || ('0' <= c && c <= '9') || c == '_'
}

/// How far a name that starts at `from` reaches.
fn name_end(chars: &Vec<char>, from: usize) -> (end: usize)
    requires
        from <= chars.len(),
    ensures
        from <= end <= chars.len(),
        end - from == name_len(chars@.skip(from as int)),
{
    let mut end: usize = from;
    while end < chars.len() && is_name_char(chars[end])
        invariant
            from <= end <= chars.len(),
            name_len(chars@.skip(from as int)) == end - from + name_len(chars@.skip(end as int)),
        decreases chars.len() - end,
    {
        assert(chars@.skip(end as int).drop_first() =~= chars@.skip(end + 1));
        end = end + 1;
    }
    end
}

/// The dotted chain, with the names that were read before it.
pub open spec fn chain_behind(names: Seq<Seq<char>>, text: Seq<char>) -> Option<
    (Seq<Seq<char>>, Seq<char>),
> {
    match dotted(text) {
        Some((more, rest)) => Some((names + more, rest)),
        None => None,
    }
}

/// Reads the dotted chain that starts at `from`: its names, and where it ends.
fn read_chain(chars: &Vec<char>, from: usize) -> (chain: Option<(Vec<String>, usize)>)
    requires
        from <= chars.len(),
    ensures
        chain is Some == dotted(chars@.skip(from as int)) is Some,
        chain matches Some((names, end)) ==> end <= chars.len() && dotted(chars@.skip(from as int))
            == Some((texts(names@), chars@.skip(end as int))),
{
    let mut names: Vec<String> = Vec::new();
    let mut cursor: usize = from;
    assert(texts(names@) =~= seq![]);
    proof {
        if let Some((more, rest)) = dotted(chars@.skip(from as int)) {
            assert(Seq::<Seq<char>>::empty() + more =~= more);
        }
    }
    loop
        invariant
            cursor <= chars.len(),
            from <= chars.len(),
            chain_behind(texts(names@), chars@.skip(cursor as int)) == dotted(
                chars@.skip(from as int),
            ),
        decreases chars.len() - cursor,
    {
        let ghost here = chars@.skip(cursor as int);
        let tail = skip_white(chars, cursor, chars.len());
        assert(chars@.subrange(cursor as int, chars@.len() as int) =~= here);
        assert(chars@.subrange(tail as int, chars@.len() as int) =~= chars@.skip(tail as int));
        assert(trim_start(here) == chars@.skip(tail as int));
        if tail == chars.len() || chars[tail] != '.' {
            assert(texts(names@) + Seq::<Seq<char>>::empty() =~= texts(names@));
            return Some((names, tail));
        }
        let named = skip_white(chars, tail + 1, chars.len());
        assert(chars@.skip(tail as int).drop_first() =~= chars@.skip(tail + 1));
        assert(chars@.subrange(tail + 1, chars@.len() as int) =~= chars@.skip(tail + 1));
        assert(chars@.subrange(named as int, chars@.len() as int) =~= chars@.skip(named as int));
        let end = name_end(chars, named);
        if end == named {
            return None;
        }
        let name = slice_text(chars, named, end);
        let ghost before = texts(names@);
        let ghost len = end - named;
        assert(chars@.skip(named as int).take(len) =~= name@);
        assert(chars@.skip(named as int).skip(len) =~= chars@.skip(end as int));
        names.push(name);
        assert(texts(names@) =~= before.push(name@));
        proof {
            if let Some((more, rest)) = dotted(chars@.skip(end as int)) {
                assert(before.push(name@) + more =~= before + (seq![name@] + more));
            }
        }
        cursor = end;
    }
}

/// What stands between the brackets of the call that the characters from `from` on are.
fn read_brackets(chars: &Vec<char>, from: usize) -> (inner: Option<String>)
    requires
        from <= chars.len(),
    ensures
        inner is Some == between_brackets(chars@.skip(from as int)) is Some,
        inner matches Some(text) ==> text@ == between_brackets(chars@.skip(from as int))->0,
{
    let ghost text = chars@.skip(from as int);
    if from == chars.len() || chars[from] != '(' {
        return None;
    }
    let start: usize = from + 1;
    assert(text.drop_first() =~= chars@.subrange(start as int, chars@.len() as int));
    let mut end: usize = chars.len();
    if end > start && chars[end - 1] == ';' {
        end = end - 1;
        assert(text.drop_first().drop_last() =~= chars@.subrange(start as int, end as int));
    }
    let closed = skip_white_back(chars, start, end);
    if closed == start || chars[closed - 1] != ')' {
        return None;
    }
    let inner = slice_text(chars, start, closed - 1);
    assert(inner@ =~= chars@.subrange(start as int, closed as int).drop_last());
    Some(inner)
}

/// Reads the shape of a typed text.
pub fn parse_shape(expression: &str) -> (result: Option<ConsoleShape>)
    ensures
        result is Some == shape(expression@) is Some,
        result matches Some(s) ==> s@ == shape(expression@)->0,
{
    let chars = chars_of(trimmed(expression).as_str());
    let keyword = chars_of("remo");
    if !matches_at(&chars, &keyword, 0) {
        return None;
    }
    let (names, end) = match read_chain(&chars, keyword.len()) {
        Some(chain) => chain,
        None => return None,
    };
    let name = join_texts(&names, ".");
    if end == chars.len() {
        return Some(ConsoleShape::Reference(name));
    }
    let inner = match read_brackets(&chars, end) {
        Some(inner) => inner,
        None => return None,
    };
    let list = match split_top_level_args(inner.as_str()) {
        Some(list) => list,
        None => return None,
    };
    if list.len() > 1 || name.as_str().is_empty() {
        return None;
    }
    let argument = if list.len() == 1 {
        let only = trimmed(list[0].as_str());
        assert(texts(list@)[0] == list@[0]@);
        if only.as_str().is_empty() {
            None
        } else {
            Some(only)
        }
    } else {
        None
    };
    Some(ConsoleShape::Call { name, argument })
}

/// The value that an argument was read as.
pub open spec fn read_as(argument: Option<Option<Json>>) -> Option<Option<JsonView>> {
    match argument {
        Some(Some(value)) => Some(Some(value@)),
        Some(None) => Some(None),
        None => None,
    }
}

/// Makes the call of a name, from what its argument was read as.
pub fn make_call(name: String, argument: Option<Option<Json>>) -> (call: Option<ConsoleExpr>)
    ensures
        call is Some == call_with(name@, read_as(argument)) is Some,
        call matches Some(c) ==> c@ == call_with(name@, read_as(argument))->0,
{
    match argument {
        None => Some(ConsoleExpr::Invoke { name, args: Json::empty() }),
        Some(Some(value)) => match value {
            Json::Object(entries) => Some(
                ConsoleExpr::Invoke { name, args: Json::Object(entries) },
            ),
            _ => None,
        },
        Some(None) => None,
    }
}

/// Reads a typed text.
pub fn parse_console_expr(expression: &str) -> (result: Option<ConsoleExpr>)
    ensures
        result is Some == console_expr(expression@) is Some,
        result matches Some(e) ==> e@ == console_expr(expression@)->0,
{
    match parse_shape(expression) {
        None => None,
        Some(ConsoleShape::Reference(name)) => Some(ConsoleExpr::Reference(name)),
        Some(ConsoleShape::Call { name, argument }) => {
            let value = match argument {
                Some(text) => Some(parse_json(text.as_str())),
                None => None,
            };
            make_call(name, value)
        },
    }
}

/// Whether a text is a name: at least one character, each a letter of either case or a digit of
/// ASCII, or an underscore.
pub open spec fn is_name(text: Seq<char>) -> bool {
    &&& text.len() > 0
    &&& forall|i: int|
        0 <= i < text.len() ==> {
            let n = #[trigger] text[i] as int;
            0x41 <= n <= 0x5a || 0x61 <= n <= 0x7a || 0x30 <= n <= 0x39 || n == 0x5f
        }
}

/// Whether all texts of a list are names.
pub open spec fn all_names(names: Seq<Seq<char>>) -> bool {
    forall|i: int| 0 <= i < names.len() ==> is_name(#[trigger] names[i])
}

/// Names, each behind a dot.
spec fn chain(names: Seq<Seq<char>>) -> Seq<char>
    decreases names.len(),
{
    if names.len() == 0 {
        seq![]
    } else {
        seq!['.'] + names[0] + chain(names.drop_first())
    }
}

proof fn chain_is_joined(names: Seq<Seq<char>>)
    requires
        names.len() > 0,
    ensures
        chain(names) == seq!['.'] + join(names, "."@),
    decreases names.len(),
{
    reveal_strlit(".");
    assert("."@ =~= seq!['.']);
    let rest = names.drop_first();
    if rest.len() == 0 {
        assert(chain(rest) =~= seq![]);
        assert(join(names, "."@) == names[0]);
        assert(chain(names) =~= seq!['.'] + join(names, "."@));
    } else {
        chain_is_joined(rest);
        assert(names =~= seq![names[0]] + rest);
        crate::text::join_is_in_turn(seq![names[0]], rest, "."@);
        assert(chain(names) =~= seq!['.'] + join(names, "."@));
    }
}

proof fn name_reaches(name: Seq<char>, rest: Seq<char>)
    requires
        forall|i: int| 0 <= i < name.len() ==> names_char(#[trigger] name[i]),
        rest.len() > 0 ==> !names_char(rest[0]),
    ensures
        name_len(name + rest) == name.len(),
    decreases name.len(),
{
    if name.len() > 0 {
        assert((name + rest).drop_first() =~= name.drop_first() + rest);
        name_reaches(name.drop_first(), rest);
    } else {
        assert(name + rest =~= rest);
    }
}

/// The chain of names is read as those names, up to what is neither a name, a dot nor white space.
proof fn chain_is_read(names: Seq<Seq<char>>, rest: Seq<char>)
    requires
        all_names(names),
        rest.len() > 0 ==> rest[0] != '.' && !names_char(rest[0]) && !crate::text::is_white(rest[0]),
    ensures
        dotted(chain(names) + rest) == Some((names, rest)),
    decreases names.len(),
{
    let text = chain(names) + rest;
    if names.len() == 0 {
        assert(text =~= rest);
        assert(trim_start(text) == text);
        assert(names =~= seq![]);
    } else {
        let name = names[0];
        let more = names.drop_first();
        assert(is_name(names[0]));
        assert forall|i: int| 0 <= i < more.len() implies is_name(#[trigger] more[i]) by {
            assert(more[i] == names[i + 1]);
        }
        assert forall|i: int| 0 <= i < name.len() implies names_char(#[trigger] name[i]) by {}
        chain_is_read(more, rest);
        let behind = chain(more) + rest;
        assert(text =~= seq!['.'] + (name + behind));
        assert(trim_start(text) == text);
        assert(text.drop_first() =~= name + behind);
        let named = name + behind;
        assert(named[0] == name[0]);
        assert(trim_start(named) == named);
        assert(behind.len() > 0 ==> !names_char(behind[0]));
        name_reaches(name, behind);
        assert(named.skip(name.len() as int) =~= behind);
        assert(named.take(name.len() as int) =~= name);
        assert(seq![name] + more =~= names);
    }
}

/// A typed text: `remo`, a dot and the names joined by dots, and something behind.
pub open spec fn typed_chain(names: Seq<Seq<char>>, behind: Seq<char>) -> Seq<char> {
    seq!['r', 'e', 'm', 'o', '.'] + join(names, seq!['.']) + behind
}

proof fn typed_chain_is_read(names: Seq<Seq<char>>, behind: Seq<char>)
    requires
        names.len() > 0,
        all_names(names),
        behind.len() > 0 ==> behind[0] != '.' && !names_char(behind[0]) && !crate::text::is_white(
            behind[0],
        ) && !crate::text::is_white(behind.last()),
    ensures
        rest_after(trim(typed_chain(names, behind)), "remo"@) == Some(chain(names) + behind),
        dotted(chain(names) + behind) == Some((names, behind)),
        join(names, "."@) == join(names, seq!['.']),
        join(names, seq!['.']).len() > 0,
{
    let text = typed_chain(names, behind);
    reveal_strlit(".");
    reveal_strlit("remo");
    assert("."@ =~= seq!['.']);
    assert("remo"@ =~= seq!['r', 'e', 'm', 'o']);
    chain_is_joined(names);
    assert(text =~= "remo"@ + (chain(names) + behind));
    assert(is_name(names[0]));
    assert(is_name(names[names.len() - 1]));
    joined_ends_in_its_last(names);
    let joined_names = join(names, seq!['.']);
    assert(!crate::text::is_white(text[0]));
    assert(!crate::text::is_white(text.last())) by {
        if behind.len() == 0 {
            assert(text.last() == joined_names.last());
        } else {
            assert(text.last() == behind.last());
        }
    }
    crate::text::trim_keeps_bare(text);
    crate::text::rest_is_what_follows(text, "remo"@, chain(names) + behind);
    chain_is_read(names, behind);
}

proof fn joined_ends_in_its_last(names: Seq<Seq<char>>)
    requires
        names.len() > 0,
        all_names(names),
    ensures
        join(names, seq!['.']).len() > 0,
        join(names, seq!['.']).last() == names.last().last(),
{
    assert(is_name(names[names.len() - 1]));
    if names.len() == 1 {
        assert(names.last() == names[0]);
    }
}

/// Names joined by dots behind `remo.` are a reference to them. Names hold letters of either case,
/// digits and underscores.
pub proof fn references_are_read(names: Seq<Seq<char>>)
    requires
        names.len() > 0,
        all_names(names),
    ensures
        console_expr(typed_chain(names, seq![])) == Some(
            ExprView::Reference(join(names, seq!['.'])),
        ),
{
    typed_chain_is_read(names, seq![]);
}

/// `remo` alone is a reference to everything.
pub proof fn remo_alone_is_read(text: Seq<char>)
    requires
        trim(text) == seq!['r', 'e', 'm', 'o'],
    ensures
        console_expr(text) == Some(ExprView::Reference(seq![])),
{
    reveal_strlit("remo");
    assert("remo"@ =~= seq!['r', 'e', 'm', 'o']);
    let none = Seq::<char>::empty();
    assert("remo"@ + none =~= trim(text));
    crate::text::rest_is_what_follows(trim(text), "remo"@, none);
    assert(dotted(none) == Some((Seq::<Seq<char>>::empty(), none)));
    assert(join(Seq::<Seq<char>>::empty(), "."@) =~= seq![]);
}

/// Names joined by dots behind `remo.`, with brackets behind them that hold nothing but white
/// space, are a call of them with the empty object, with or without a semicolon.
pub proof fn bare_calls_are_read(names: Seq<Seq<char>>, white: Seq<char>)
    requires
        names.len() > 0,
        all_names(names),
        trim(white).len() == 0,
    ensures
        console_expr(typed_chain(names, seq!['('] + white + seq![')'])) == Some(
            ExprView::Invoke { name: join(names, seq!['.']), args: no_entries() },
        ),
        console_expr(typed_chain(names, seq!['('] + white + seq![')', ';'])) == Some(
            ExprView::Invoke { name: join(names, seq!['.']), args: no_entries() },
        ),
{
    let plain = seq!['('] + white + seq![')'];
    let closed = seq!['('] + white + seq![')', ';'];
    typed_chain_is_read(names, plain);
    typed_chain_is_read(names, closed);
    brackets_are_read(white);
}

proof fn brackets_are_read(inner: Seq<char>)
    ensures
        between_brackets(seq!['('] + inner + seq![')']) == Some(inner),
        between_brackets(seq!['('] + inner + seq![')', ';']) == Some(inner),
{
    let closed = inner + seq![')'];
    assert(closed.drop_last() =~= inner);
    assert(trim_end(closed) == closed);
    assert((seq!['('] + inner + seq![')']).drop_first() =~= closed);
    let ended = inner + seq![')', ';'];
    assert((seq!['('] + inner + seq![')', ';']).drop_first() =~= ended);
    assert(ended.drop_last() =~= closed);
}

/// Whether a text is one argument: its quotation marks and brackets are closed, and it holds no
/// comma outside them.
pub open spec fn one_argument(text: Seq<char>) -> bool {
    &&& balanced(text)
    &&& forall|i: int| 0 <= i < text.len() ==> !#[trigger] separates(text, i)
}

proof fn one_argument_is_one_piece(text: Seq<char>, at: int)
    requires
        one_argument(text),
        0 <= at <= text.len(),
    ensures
        pieces(text, 0, at) == seq![text],
    decreases text.len() - at,
{
    if at < text.len() {
        assert(!separates(text, at));
        one_argument_is_one_piece(text, at + 1);
    } else {
        assert(text.subrange(0, text.len() as int) =~= text);
    }
}

/// A call with one argument that reads as a JSON object is a call with that object; with anything
/// else it is nothing.
pub proof fn calls_take_objects(names: Seq<Seq<char>>, argument: Seq<char>)
    requires
        names.len() > 0,
        all_names(names),
        one_argument(argument),
        trim(argument).len() > 0,
    ensures
        console_expr(typed_chain(names, seq!['('] + argument + seq![')'])) == (match json_of_text(
            trim(argument),
        ) {
            Some(JsonView::Object(entries)) => Some(
                ExprView::Invoke {
                    name: join(names, seq!['.']),
                    args: JsonView::Object(entries),
                },
            ),
            _ => None,
        }),
{
    typed_chain_is_read(names, seq!['('] + argument + seq![')']);
    brackets_are_read(argument);
    one_argument_is_one_piece(argument, 0);
    assert(arguments(argument) == Some(seq![argument]));
    assert(seq![argument][0] == argument);
}

/// Nothing but `remo` and what follows it is understood.
pub proof fn everything_begins_with_remo(text: Seq<char>)
    requires
        console_expr(text) is Some,
    ensures
        trim(text).len() >= 4,
        trim(text)[0] == 'r',
        trim(text)[1] == 'e',
        trim(text)[2] == 'm',
        trim(text)[3] == 'o',
{
    reveal_strlit("remo");
    assert("remo"@ =~= seq!['r', 'e', 'm', 'o']);
    let rest = rest_after(trim(text), "remo"@)->0;
    crate::text::rest_is_what_follows(trim(text), "remo"@, rest);
}

/// Scanning a part of a text goes on from where the scan stands before it.
proof fn scan_goes_on(whole: Seq<char>, from: int, part: Seq<char>, to: int)
    requires
        0 <= from,
        0 <= to <= part.len(),
        from + part.len() <= whole.len(),
        forall|i: int| 0 <= i < part.len() ==> #[trigger] part[i] == whole[from + i],
        scan(whole, from).quote is None,
        !scan(whole, from).escaped,
    ensures
        scan(whole, from + to).quote == scan(part, to).quote,
        scan(whole, from + to).escaped == scan(part, to).escaped,
        scan(whole, from + to).depth == scan(whole, from).depth + scan(part, to).depth,
    decreases to,
{
    if to > 0 {
        scan_goes_on(whole, from, part, to - 1);
        assert(part[to - 1] == whole[from + to - 1]);
    }
}

proof fn unquoted_is_unescaped(text: Seq<char>, count: int)
    ensures
        scan(text, count).quote is None ==> !scan(text, count).escaped,
    decreases count,
{
    if count > 0 {
        unquoted_is_unescaped(text, count - 1);
    }
}

/// What is balanced is one argument inside braces or square brackets, whatever commas it holds: a
/// comma inside an object or an array does not separate.
pub proof fn bracketed_text_is_one_argument(inner: Seq<char>, open: char, close: char)
    requires
        balanced(inner),
        open == '{' && close == '}' || open == '[' && close == ']',
    ensures
        one_argument(seq![open] + inner + seq![close]),
{
    let whole = seq![open] + inner + seq![close];
    let len = inner.len() as int;
    assert(scan(whole, 0).depth == 0);
    assert(scan(whole, 1) == Scan { quote: None, escaped: false, depth: 1 }) by {
        assert(scan(whole, 1) == scan_step(scan(whole, 0), whole[0]));
    }
    assert forall|i: int| 0 <= i < inner.len() implies #[trigger] inner[i] == whole[1 + i] by {}
    assert forall|i: int| 0 <= i <= whole.len() implies (#[trigger] scan(whole, i)).depth >= 0 && (1
        <= i <= len + 1 ==> scan(whole, i).depth >= 1) by {
        if 1 <= i <= len + 1 {
            scan_goes_on(whole, 1, inner, i - 1);
            assert(scan(inner, i - 1).depth >= 0);
        } else if i == len + 2 {
            scan_goes_on(whole, 1, inner, len);
            assert(scan(whole, i) == scan_step(scan(whole, i - 1), whole[i - 1]));
        }
    }
    scan_goes_on(whole, 1, inner, len);
    assert(scan(whole, len + 2) == scan_step(scan(whole, len + 1), whole[len + 1]));
    assert forall|i: int| 0 <= i < whole.len() implies !#[trigger] separates(whole, i) by {
        if i > 0 {
            assert(scan(whole, i).depth >= 1);
        }
    }
}

/// A text in quotation marks is one argument, whatever brackets and commas it holds.
pub proof fn quoted_text_is_one_argument(inner: Seq<char>, mark: char)
    requires
        mark == '"' || mark == '\'',
        forall|i: int| 0 <= i < inner.len() ==> #[trigger] inner[i] != mark && inner[i] != '\\',
    ensures
        one_argument(seq![mark] + inner + seq![mark]),
{
    let whole = seq![mark] + inner + seq![mark];
    let len = inner.len() as int;
    quoted_scan(whole, inner, mark, len);
    assert(scan(whole, len + 2) == scan_step(scan(whole, len + 1), whole[len + 1]));
    assert forall|i: int| 0 <= i <= whole.len() implies (#[trigger] scan(whole, i)).depth >= 0 by {
        if 1 <= i <= len + 1 {
            quoted_scan(whole, inner, mark, i - 1);
        }
    }
    assert forall|i: int| 0 <= i < whole.len() implies !#[trigger] separates(whole, i) by {
        if i > 0 {
            quoted_scan(whole, inner, mark, i - 1);
        }
    }
}

proof fn quoted_scan(whole: Seq<char>, inner: Seq<char>, mark: char, count: int)
    requires
        mark == '"' || mark == '\'',
        whole == seq![mark] + inner + seq![mark],
        forall|i: int| 0 <= i < inner.len() ==> #[trigger] inner[i] != mark && inner[i] != '\\',
        0 <= count <= inner.len(),
    ensures
        scan(whole, count + 1) == (Scan { quote: Some(mark), escaped: false, depth: 0 }),
    decreases count,
{
    assert(scan(whole, count + 1) == scan_step(scan(whole, count), whole[count]));
    if count > 0 {
        quoted_scan(whole, inner, mark, count - 1);
        assert(whole[count] == inner[count - 1]);
    } else {
        assert(scan(whole, 0) == Scan { quote: None, escaped: false, depth: 0 });
    }
}

/// A character behind a backslash inside quotation marks does not end them, so a mark can be
/// written there.
pub proof fn escaped_marks_do_not_close(text: Seq<char>, at: int)
    requires
        0 <= at,
        at + 2 <= text.len(),
        scan(text, at).quote is Some,
        !scan(text, at).escaped,
        text[at] == '\\',
    ensures
        scan(text, at + 2) == scan(text, at),
{
    assert(scan(text, at + 1) == scan_step(scan(text, at), text[at]));
    assert(scan(text, at + 2) == scan_step(scan(text, at + 1), text[at + 1]));
}

/// Two arguments with a comma between are two arguments, and a call with them is nothing.
pub proof fn two_arguments_are_refused(names: Seq<Seq<char>>, a: Seq<char>, b: Seq<char>)
    requires
        names.len() > 0,
        all_names(names),
        one_argument(a),
        one_argument(b),
    ensures
        arguments(a + seq![','] + b) == Some(seq![a, b]),
        console_expr(typed_chain(names, seq!['('] + a + seq![','] + b + seq![')'])) is None,
{
    let whole = a + seq![','] + b;
    let mid = a.len() as int;
    let behind = mid + 1;
    assert forall|i: int| 0 <= i < a.len() implies #[trigger] a[i] == whole[0 + i] by {}
    assert forall|i: int| 0 <= i < b.len() implies #[trigger] b[i] == whole[behind + i] by {}
    scan_goes_on(whole, 0, a, mid);
    assert(scan(whole, behind) == scan_step(scan(whole, mid), whole[mid]));
    unquoted_is_unescaped(whole, behind);
    scan_goes_on(whole, behind, b, b.len() as int);
    assert(balanced(whole)) by {
        assert forall|i: int| 0 <= i <= whole.len() implies (#[trigger] scan(whole, i)).depth
            >= 0 by {
            if i <= mid {
                scan_goes_on(whole, 0, a, i);
                assert(scan(a, i).depth >= 0);
            } else {
                scan_goes_on(whole, behind, b, i - behind);
                assert(scan(b, i - behind).depth >= 0);
            }
        }
    }
    assert(separates(whole, mid));
    pieces_reach(whole, a, b, 0);
    pieces_reach_last(whole, a, b, behind);
    assert(whole.subrange(0, mid) =~= a);
    assert(whole.subrange(behind, whole.len() as int) =~= b);
    assert(pieces(whole, 0, 0) =~= seq![a, b]);
    assert(trim(whole).len() > 0) by {
        let (lead, tail) = crate::text::trim_takes_white_ends(whole);
        if trim(whole).len() == 0 {
            assert(whole == lead + trim(whole) + tail);
            assert(whole[mid] == ',');
            if mid < lead.len() {
                assert(crate::text::is_white(lead[mid]));
            } else {
                assert(crate::text::is_white(tail[mid - lead.len()]));
            }
        }
    }
    let typed = seq!['('] + a + seq![','] + b + seq![')'];
    assert(typed =~= seq!['('] + whole + seq![')']);
    typed_chain_is_read(names, typed);
    brackets_are_read(whole);
}

proof fn pieces_reach(whole: Seq<char>, a: Seq<char>, b: Seq<char>, at: int)
    requires
        whole == a + seq![','] + b,
        one_argument(a),
        0 <= at <= a.len(),
    ensures
        pieces(whole, 0, at) == pieces(whole, 0, a.len() as int),
    decreases a.len() - at,
{
    if at < a.len() {
        assert forall|i: int| 0 <= i < a.len() implies #[trigger] a[i] == whole[0 + i] by {}
        scan_goes_on(whole, 0, a, at);
        assert(!separates(a, at));
        assert(a[at] == whole[at]);
        pieces_reach(whole, a, b, at + 1);
    }
}

proof fn pieces_reach_last(whole: Seq<char>, a: Seq<char>, b: Seq<char>, at: int)
    requires
        whole == a + seq![','] + b,
        one_argument(b),
        a.len() + 1int <= at <= whole.len(),
        scan(whole, a.len() + 1int).quote is None,
        !scan(whole, a.len() + 1int).escaped,
        scan(whole, a.len() + 1int).depth == 0,
    ensures
        pieces(whole, a.len() + 1int, at) == seq![whole.subrange(a.len() + 1int, whole.len() as int)],
    decreases whole.len() - at,
{
    if at < whole.len() {
        let behind: int = a.len() + 1int;
        assert forall|i: int| 0 <= i < b.len() implies #[trigger] b[i] == whole[behind + i] by {}
        scan_goes_on(whole, behind, b, at - behind);
        assert(!separates(b, at - behind));
        assert(b[at - behind] == whole[at]);
        pieces_reach_last(whole, a, b, at + 1);
    }
}

/// A name holds letters of either case, digits and underscores of ASCII, and nothing else.
pub proof fn names_hold_nothing_else(c: char)
    ensures
        names_char(c) <==> (0x41 <= c as int <= 0x5a || 0x61 <= c as int <= 0x7a || 0x30 <= c as int
            <= 0x39 || c as int == 0x5f),
{
}

proof fn leading_white_goes(white: Seq<char>, text: Seq<char>)
    requires
        crate::text::all_white(white),
        text.len() > 0 ==> !crate::text::is_white(text[0]),
    ensures
        trim_start(white + text) == text,
    decreases white.len(),
{
    if white.len() > 0 {
        assert(crate::text::is_white(white[0]));
        assert forall|i: int| 0 <= i < white.drop_first().len() implies crate::text::is_white(
            #[trigger] white.drop_first()[i],
        ) by {
            assert(white.drop_first()[i] == white[i + 1]);
        }
        assert((white + text).drop_first() =~= white.drop_first() + text);
        leading_white_goes(white.drop_first(), text);
    } else {
        assert(white + text =~= text);
    }
}

/// White space around a dot does not count.
pub proof fn white_around_dots_is_ignored(
    before: Seq<char>,
    between: Seq<char>,
    name: Seq<char>,
    behind: Seq<char>,
)
    requires
        crate::text::all_white(before),
        crate::text::all_white(between),
        is_name(name),
    ensures
        dotted(before + (seq!['.'] + (between + (name + behind)))) == dotted(
            seq!['.'] + (name + behind),
        ),
{
    let named = name + behind;
    assert(named[0] == name[0]);
    assert(!crate::text::is_white(named[0]));
    let spaced = seq!['.'] + (between + named);
    let tight = seq!['.'] + named;
    leading_white_goes(before, spaced);
    leading_white_goes(between, named);
    assert(spaced.drop_first() =~= between + named);
    assert(tight.drop_first() =~= named);
    assert(trim_start(tight) == tight);
    assert(trim_start(named) == named);
}

/// White space around a typed text does not count.
pub proof fn outer_white_is_ignored(text: Seq<char>)
    ensures
        console_expr(text) == console_expr(trim(text)),
{
    crate::text::trim_takes_white_ends(text);
    crate::text::trim_keeps_bare(trim(text));
}

/// `remo` itself cannot be called, whatever stands between the brackets.
pub proof fn remo_itself_is_not_called(inner: Seq<char>)
    ensures
        console_expr(seq!['r', 'e', 'm', 'o', '('] + inner + seq![')']) is None,
{
    let text = seq!['r', 'e', 'm', 'o', '('] + inner + seq![')'];
    let call = seq!['('] + inner + seq![')'];
    reveal_strlit("remo");
    assert("remo"@ =~= seq!['r', 'e', 'm', 'o']);
    assert(text =~= "remo"@ + call);
    crate::text::trim_keeps_bare(text);
    crate::text::rest_is_what_follows(text, "remo"@, call);
    assert(trim_start(call) == call);
    assert(dotted(call) == Some((Seq::<Seq<char>>::empty(), call)));
    assert(join(Seq::<Seq<char>>::empty(), "."@) =~= seq![]);
}

/// Behind the names nothing but a call is understood.
pub proof fn only_calls_follow_names(names: Seq<Seq<char>>, behind: Seq<char>)
    requires
        names.len() > 0,
        all_names(names),
        behind.len() > 0,
        behind[0] != '(',
        behind[0] != '.',
        !crate::text::is_white(behind[0]),
        !crate::text::is_white(behind.last()),
        !is_name(seq![behind[0]]),
    ensures
        console_expr(typed_chain(names, behind)) is None,
{
    if names_char(behind[0]) {
        assert(is_name(seq![behind[0]]));
    }
    typed_chain_is_read(names, behind);
}

/// A call whose brackets are not closed is not understood.
pub proof fn open_calls_are_refused(names: Seq<Seq<char>>, inner: Seq<char>)
    requires
        names.len() > 0,
        all_names(names),
        inner.len() > 0,
        !crate::text::is_white(inner.last()),
        inner.last() != ')',
        inner.last() != ';',
    ensures
        console_expr(typed_chain(names, seq!['('] + inner)) is None,
{
    let behind = seq!['('] + inner;
    typed_chain_is_read(names, behind);
    assert(behind.last() == inner.last());
    assert(behind.drop_first() =~= inner);
    assert(trim_end(inner) == inner);
}

proof fn dangling_dot_breaks(names: Seq<Seq<char>>)
    requires
        all_names(names),
    ensures
        dotted(chain(names) + seq!['.']) is None,
    decreases names.len(),
{
    let text = chain(names) + seq!['.'];
    if names.len() == 0 {
        assert(text =~= seq!['.']);
        assert(trim_start(text) == text);
        assert(text.drop_first() =~= seq![]);
        assert(trim_start(text.drop_first()) == text.drop_first());
    } else {
        let name = names[0];
        let more = names.drop_first();
        assert(is_name(names[0]));
        assert forall|i: int| 0 <= i < more.len() implies is_name(#[trigger] more[i]) by {
            assert(more[i] == names[i + 1]);
        }
        assert forall|i: int| 0 <= i < name.len() implies names_char(#[trigger] name[i]) by {}
        dangling_dot_breaks(more);
        let behind = chain(more) + seq!['.'];
        let named = name + behind;
        assert(text =~= seq!['.'] + named);
        assert(trim_start(text) == text);
        assert(text.drop_first() =~= named);
        assert(named[0] == name[0]);
        assert(trim_start(named) == named);
        assert(behind[0] == '.');
        name_reaches(name, behind);
        assert(named.skip(name.len() as int) =~= behind);
    }
}

/// A dot without a name behind it is not understood.
pub proof fn dangling_dots_are_refused(names: Seq<Seq<char>>)
    requires
        names.len() > 0,
        all_names(names),
    ensures
        console_expr(typed_chain(names, seq!['.'])) is None,
{
    let text = typed_chain(names, seq!['.']);
    reveal_strlit("remo");
    assert("remo"@ =~= seq!['r', 'e', 'm', 'o']);
    reveal_strlit(".");
    assert("."@ =~= seq!['.']);
    chain_is_joined(names);
    assert(text =~= "remo"@ + (chain(names) + seq!['.']));
    crate::text::trim_keeps_bare(text);
    crate::text::rest_is_what_follows(text, "remo"@, chain(names) + seq!['.']);
    dangling_dot_breaks(names);
}

} // verus!
