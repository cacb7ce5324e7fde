//! A snapshot of a view hierarchy.
//!
//! A length is held as what is read of it: how JSON writes it, how it is written without decimals,
//! and its whole part.
use crate::decimal::{decimal, decimal_reads_back, decimal_value, write_signed};
use crate::json::{Json, JsonView};
use crate::json_text::{json_of_text, parse_json};
use crate::text::joined;
use vstd::prelude::*;

verus! {

/// A length in points.
#[derive(Debug)]
pub struct Length {
    /// The length as JSON: a number, or null where it is not finite.
    pub json: Json,
    /// The length written without decimals.
    pub rounded: String,
    /// The length without its fraction.
    pub whole: i64,
}

/// A rectangle in the coordinates of the superview.
#[derive(Debug)]
pub struct Frame {
    pub x: Length,
    pub y: Length,
    pub width: Length,
    pub height: Length,
    /// `x` and `width` together, as JSON.
    pub right: Json,
    /// `y` and `height` together, as JSON.
    pub bottom: Json,
}

/// How opaque a view is.
#[derive(Debug)]
pub struct Opacity {
    /// The opacity written with two decimals.
    pub text: String,
    /// Whether it is below one.
    pub translucent: bool,
}

/// A view and its subviews.
#[derive(Debug)]
pub struct ViewNode {
    pub class_name: String,
    pub frame: Frame,
    pub is_hidden: bool,
    pub alpha: Opacity,
    pub tag: i64,
    pub accessibility_id: Option<String>,
    /// The modifiers of a SwiftUI view, apart from its own type; empty for every other view.
    pub modifiers: Vec<String>,
    /// Titles and values of what a SwiftUI view was made from; empty for every other view.
    pub style_rows: Vec<(String, String)>,
    pub children: Vec<ViewNode>,
}

/// What a length is.
#[verifier::ext_equal]
pub struct LengthView {
    pub json: JsonView,
    pub rounded: Seq<char>,
    pub whole: int,
}

/// What a rectangle is.
#[verifier::ext_equal]
pub struct FrameView {
    pub x: LengthView,
    pub y: LengthView,
    pub width: LengthView,
    pub height: LengthView,
    pub right: JsonView,
    pub bottom: JsonView,
}

/// What an opacity is.
#[verifier::ext_equal]
pub struct OpacityView {
    pub text: Seq<char>,
    pub translucent: bool,
}

/// What a view is.
#[verifier::ext_equal]
pub struct NodeView {
    pub class_name: Seq<char>,
    pub frame: FrameView,
    pub is_hidden: bool,
    pub alpha: OpacityView,
    pub tag: int,
    pub accessibility_id: Option<Seq<char>>,
    pub modifiers: Seq<Seq<char>>,
    pub style_rows: Seq<(Seq<char>, Seq<char>)>,
    pub children: Seq<NodeView>,
}

impl View for Length {
    type V = LengthView;

    open spec fn view(&self) -> LengthView {
        LengthView { json: self.json@, rounded: self.rounded@, whole: self.whole as int }
    }
}

impl View for Frame {
    type V = FrameView;

    open spec fn view(&self) -> FrameView {
        FrameView {
            x: self.x@,
            y: self.y@,
            width: self.width@,
            height: self.height@,
            right: self.right@,
            bottom: self.bottom@,
        }
    }
}

impl View for Opacity {
    type V = OpacityView;

    open spec fn view(&self) -> OpacityView {
        OpacityView { text: self.text@, translucent: self.translucent }
    }
}

/// A text that may be missing.
pub open spec fn optional_text(text: Option<String>) -> Option<Seq<char>> {
    match text {
        Some(t) => Some(t@),
        None => None,
    }
}

/// Rows of texts.
pub open spec fn row_texts(rows: Seq<(String, String)>) -> Seq<(Seq<char>, Seq<char>)> {
    Seq::new(rows.len(), |i: int| (rows[i].0@, rows[i].1@))
}

impl ViewNode {
    /// The mathematical view.
    pub open spec fn tree(self) -> NodeView
        decreases self,
    {
        NodeView {
            class_name: self.class_name@,
            frame: self.frame@,
            is_hidden: self.is_hidden,
            alpha: self.alpha@,
            tag: self.tag as int,
            accessibility_id: optional_text(self.accessibility_id),
            modifiers: crate::text::texts(self.modifiers@),
            style_rows: row_texts(self.style_rows@),
            children: Seq::new(
                self.children@.len(),
                |i: int|
                    if 0 <= i < self.children@.len() {
                        self.children@[i].tree()
                    } else {
                        arbitrary()
                    },
            ),
        }
    }
}

impl View for ViewNode {
    type V = NodeView;

    open spec fn view(&self) -> NodeView {
        self.tree()
    }
}

/// The views of a sequence.
pub open spec fn node_trees(nodes: Seq<ViewNode>) -> Seq<NodeView> {
    Seq::new(nodes.len(), |i: int| nodes[i]@)
}

/// The children of a view, over the views of its children.
pub broadcast proof fn children_tree(node: ViewNode)
    ensures
        (#[trigger] node.tree()).children == node_trees(node.children@),
{
    assert(node.tree().children =~= node_trees(node.children@));
}

impl Length {
    /// An equal length of its own.
    pub fn copy(&self) -> (length: Length)
        ensures
            length@ == self@,
    {
        Length { json: self.json.copy(), rounded: self.rounded.clone(), whole: self.whole }
    }
}

impl Frame {
    /// An equal rectangle of its own.
    pub fn copy(&self) -> (frame: Frame)
        ensures
            frame@ == self@,
    {
        Frame {
            x: self.x.copy(),
            y: self.y.copy(),
            width: self.width.copy(),
            height: self.height.copy(),
            right: self.right.copy(),
            bottom: self.bottom.copy(),
        }
    }
}

impl Opacity {
    /// An equal opacity of its own.
    pub fn copy(&self) -> (opacity: Opacity)
        ensures
            opacity@ == self@,
    {
        Opacity { text: self.text.clone(), translucent: self.translucent }
    }
}

/// The JSON of a length that is a whole number: the number with one decimal, a zero.
pub open spec fn whole_length_json(points: int) -> JsonView {
    match json_of_text(decimal(points) + ".0"@) {
        Some(number) => number,
        None => JsonView::Null,
    }
}

/// The length that is a whole number of points.
pub open spec fn whole_length_view(points: int) -> LengthView {
    LengthView { json: whole_length_json(points), rounded: decimal(points), whole: points }
}

/// The rectangle whose lengths are whole numbers of points.
pub open spec fn whole_frame_view(x: int, y: int, width: int, height: int) -> FrameView {
    FrameView {
        x: whole_length_view(x),
        y: whole_length_view(y),
        width: whole_length_view(width),
        height: whole_length_view(height),
        right: whole_length_json(x + width),
        bottom: whole_length_json(y + height),
    }
}

/// The greatest whole number below which every whole number has a binary fraction of its own.
pub const MAX_WHOLE_LENGTH: i64 = 9_007_199_254_740_992;

fn write_whole_length(points: i64) -> (json: Json)
    ensures
        json@ == whole_length_json(points as int),
{
    let text = joined(write_signed(points).as_str(), ".0");
    match parse_json(text.as_str()) {
        Some(number) => number,
        None => Json::Null,
    }
}

impl Length {
    /// The length that is a whole number of points.
    pub fn of_whole(points: i64) -> (length: Length)
        requires
            -MAX_WHOLE_LENGTH <= points <= MAX_WHOLE_LENGTH,
        ensures
            length@ == whole_length_view(points as int),
    {
        Length { json: write_whole_length(points), rounded: write_signed(points), whole: points }
    }
}

impl Frame {
    /// The rectangle whose lengths are whole numbers of points.
    pub fn of_whole(x: i64, y: i64, width: i64, height: i64) -> (frame: Frame)
        requires
            -MAX_WHOLE_LENGTH <= x <= MAX_WHOLE_LENGTH,
            -MAX_WHOLE_LENGTH <= y <= MAX_WHOLE_LENGTH,
            -MAX_WHOLE_LENGTH <= width <= MAX_WHOLE_LENGTH,
            -MAX_WHOLE_LENGTH <= height <= MAX_WHOLE_LENGTH,
            -MAX_WHOLE_LENGTH <= x + width <= MAX_WHOLE_LENGTH,
            -MAX_WHOLE_LENGTH <= y + height <= MAX_WHOLE_LENGTH,
        ensures
            frame@ == whole_frame_view(x as int, y as int, width as int, height as int),
    {
        Frame {
            x: Length::of_whole(x),
            y: Length::of_whole(y),
            width: Length::of_whole(width),
            height: Length::of_whole(height),
            right: write_whole_length(x + width),
            bottom: write_whole_length(y + height),
        }
    }
}

impl Opacity {
    /// Fully opaque.
    pub fn opaque() -> (opacity: Opacity)
        ensures
            opacity@ == opaque_view(),
    {
        Opacity { text: "1.00".to_owned(), translucent: false }
    }
}

/// Fully opaque.
pub open spec fn opaque_view() -> OpacityView {
    OpacityView { text: "1.00"@, translucent: false }
}

/// Equal texts of their own.
pub fn copy_texts(list: &Vec<String>) -> (copies: Vec<String>)
    ensures
        crate::text::texts(copies@) == crate::text::texts(list@),
{
    let mut copies: Vec<String> = Vec::new();
    let mut i: usize = 0;
    while i < list.len()
        invariant
            i <= list.len(),
            copies@.len() == i,
            forall|j: int| 0 <= j < i ==> (#[trigger] copies@[j])@ == list@[j]@,
        decreases list.len() - i,
    {
        copies.push(list[i].clone());
        i = i + 1;
    }
    assert(crate::text::texts(copies@) =~= crate::text::texts(list@));
    copies
}

/// Equal rows of their own.
pub fn copy_rows(rows: &Vec<(String, String)>) -> (copies: Vec<(String, String)>)
    ensures
        row_texts(copies@) == row_texts(rows@),
{
    let mut copies: Vec<(String, String)> = Vec::new();
    let mut i: usize = 0;
    while i < rows.len()
        invariant
            i <= rows.len(),
            copies@.len() == i,
            forall|j: int|
                0 <= j < i ==> (#[trigger] copies@[j]).0@ == rows@[j].0@ && copies@[j].1@
                    == rows@[j].1@,
        decreases rows.len() - i,
    {
        copies.push((rows[i].0.clone(), rows[i].1.clone()));
        i = i + 1;
    }
    assert(row_texts(copies@) =~= row_texts(rows@));
    copies
}

/// Appends a row to a list.
pub fn push_row(rows: &mut Vec<(String, String)>, title: String, value: String)
    ensures
        row_texts(final(rows)@) == row_texts(old(rows)@).push((title@, value@)),
{
    let ghost before = row_texts(rows@);
    rows.push((title, value));
    assert(row_texts(rows@) =~= before.push((title@, value@)));
}

impl ViewNode {
    /// An equal view of its own.
    pub fn copy(&self) -> (node: ViewNode)
        ensures
            node@ == self@,
        decreases self,
    {
        broadcast use children_tree;
        let mut children: Vec<ViewNode> = Vec::new();
        let mut i: usize = 0;
        while i < self.children.len()
            invariant
                i <= self.children.len(),
                children@.len() == i,
                forall|j: int| 0 <= j < i ==> (#[trigger] children@[j])@ == self.children@[j]@,
            decreases self.children.len() - i,
        {
            assert(decreases_to!(*self => self.children));
            assert(decreases_to!(self.children@ => self.children@[i as int]));
            children.push(self.children[i].copy());
            i = i + 1;
        }
        assert(node_trees(children@) =~= node_trees(self.children@));
        let accessibility_id = match &self.accessibility_id {
            Some(id) => Some(id.clone()),
            None => None,
        };
        ViewNode {
            class_name: self.class_name.clone(),
            frame: self.frame.copy(),
            is_hidden: self.is_hidden,
            alpha: self.alpha.copy(),
            tag: self.tag,
            accessibility_id,
            modifiers: copy_texts(&self.modifiers),
            style_rows: copy_rows(&self.style_rows),
            children,
        }
    }
}

/// A whole length is written as the number that it is, and a rectangle of whole lengths ends at the
/// sum of where it begins and how long it is.
pub proof fn whole_lengths_are_written(x: int, y: int, width: int, height: int)
    ensures
        ({
            let frame = whole_frame_view(x, y, width, height);
            &&& decimal_value(frame.x.rounded) == x && frame.x.whole == x
            &&& decimal_value(frame.y.rounded) == y && frame.y.whole == y
            &&& decimal_value(frame.width.rounded) == width && frame.width.whole == width
            &&& decimal_value(frame.height.rounded) == height && frame.height.whole == height
            &&& frame.right == whole_length_view(x + width).json
            &&& frame.bottom == whole_length_view(y + height).json
        }),
{
    decimal_reads_back(x);
    decimal_reads_back(y);
    decimal_reads_back(width);
    decimal_reads_back(height);
}

} // verus!
