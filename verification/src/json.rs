//! The arguments of a tool call, and how they are read.

use crate::gather::{gather, lemma_gather_step};
use crate::scalar::{Point, Scalar};
use crate::text;
use vstd::prelude::*;
use vstd::string::*;

verus! {

/// A JSON value.
#[derive(Debug)]
pub enum Json {
    Null,
    Bool(bool),
    Number(Scalar),
    Text(String),
    Array(Vec<Json>),
    Object(Vec<Member>),
}

/// A member of a JSON object.
#[derive(Debug)]
pub struct Member {
    pub name: String,
    pub value: Json,
}

/// The first member at or after `i` with a name.
pub open spec fn member_from(members: Seq<Member>, name: Seq<char>, i: int) -> Option<Json>
    decreases members.len() - i,
{
    if i < 0 || i >= members.len() {
        None
    } else if members[i].name@ == name {
        Some(members[i].value)
    } else {
        member_from(members, name, i + 1)
    }
}

/// A member of an object; nothing where there is none or the value is no object.
pub open spec fn member(value: Json, name: Seq<char>) -> Option<Json> {
    match value {
        Json::Object(members) => member_from(members@, name, 0),
        _ => None,
    }
}

pub open spec fn number_at(value: Json, name: Seq<char>) -> Option<Scalar> {
    match member(value, name) {
        Some(Json::Number(n)) => Some(n),
        _ => None,
    }
}

pub open spec fn text_at(value: Json, name: Seq<char>) -> Option<Seq<char>> {
    match member(value, name) {
        Some(Json::Text(t)) => Some(t@),
        _ => None,
    }
}

pub open spec fn array_at(value: Json, name: Seq<char>) -> Option<Seq<Json>> {
    match member(value, name) {
        Some(Json::Array(items)) => Some(items@),
        _ => None,
    }
}

impl Json {
    pub fn get(&self, name: &str) -> (r: Option<&Json>)
        ensures
            match r {
                Some(found) => member(*self, name@) == Some(*found),
                None => member(*self, name@) is None,
            },
    {
        match self {
            Json::Object(members) => {
                let mut i: usize = 0;
                while i < members.len()
                    invariant
                        i <= members@.len(),
                        *self matches Json::Object(all) && all == *members,
                        member(*self, name@) == member_from(members@, name@, i as int),
                    decreases members@.len() - i,
                {
                    if text::same(members[i].name.as_str(), name) {
                        return Some(&members[i].value);
                    }
                    i += 1;
                }
                None
            },
            _ => None,
        }
    }

    pub fn get_number(&self, name: &str) -> (r: Option<Scalar>)
        ensures
            r == number_at(*self, name@),
    {
        match self.get(name) {
            Some(Json::Number(n)) => Some(*n),
            _ => None,
        }
    }

    pub fn get_text(&self, name: &str) -> (r: Option<&str>)
        ensures
            r.deep_view() == text_at(*self, name@),
    {
        match self.get(name) {
            Some(Json::Text(t)) => Some(t.as_str()),
            _ => None,
        }
    }

    pub fn get_array(&self, name: &str) -> (r: Option<&Vec<Json>>)
        ensures
            match r {
                Some(items) => array_at(*self, name@) == Some(items@),
                None => array_at(*self, name@) is None,
            },
    {
        match self.get(name) {
            Some(Json::Array(items)) => Some(items),
            _ => None,
        }
    }
}

// Refusals.

/// Why the arguments of a call are refused.
#[derive(Debug)]
pub enum ToolError {
    /// An argument that must be a text is missing or is none.
    MissingText(String),
    /// An argument that must be a number is missing or is none.
    MissingNumber(String),
    Said(String),
}

#[verifier::ext_equal]
pub enum ToolErrorView {
    MissingText(Seq<char>),
    MissingNumber(Seq<char>),
    Said(Seq<char>),
}

impl DeepView for ToolError {
    type V = ToolErrorView;

    open spec fn deep_view(&self) -> ToolErrorView {
        match *self {
            ToolError::MissingText(name) => ToolErrorView::MissingText(name@),
            ToolError::MissingNumber(name) => ToolErrorView::MissingNumber(name@),
            ToolError::Said(message) => ToolErrorView::Said(message@),
        }
    }
}

/// What reading arguments comes to, as contracts speak of it.
pub type Read<V> = Result<V, ToolErrorView>;

pub open spec fn read_of<T: DeepView>(r: Result<T, ToolError>) -> Read<T::V> {
    match r {
        Ok(value) => Ok(value.deep_view()),
        Err(error) => Err(error.deep_view()),
    }
}

pub fn refuse(message: &str) -> (r: ToolError)
    ensures
        r.deep_view() == ToolErrorView::Said(message@),
{
    ToolError::Said(message.to_owned())
}

/// A text that must be there.
pub open spec fn required_text(args: Json, name: Seq<char>) -> Read<Seq<char>> {
    match text_at(args, name) {
        Some(t) => Ok(t),
        None => Err(ToolErrorView::MissingText(name)),
    }
}

pub fn require_str(args: &Json, name: &str) -> (r: Result<String, ToolError>)
    ensures
        read_of(r) == required_text(*args, name@),
{
    match args.get_text(name) {
        Some(t) => Ok(t.to_owned()),
        None => Err(ToolError::MissingText(name.to_owned())),
    }
}

/// A number that must be there.
pub open spec fn required_number(args: Json, name: Seq<char>) -> Read<Scalar> {
    match number_at(args, name) {
        Some(n) => Ok(n),
        None => Err(ToolErrorView::MissingNumber(name)),
    }
}

pub fn require_f64(args: &Json, name: &str) -> (r: Result<Scalar, ToolError>)
    ensures
        read_of(r) == required_number(*args, name@),
{
    match args.get_number(name) {
        Some(n) => Ok(n),
        None => Err(ToolError::MissingNumber(name.to_owned())),
    }
}

/// A number, or `otherwise` where there is none.
pub open spec fn number_or(args: Json, name: Seq<char>, otherwise: u64) -> Scalar {
    match number_at(args, name) {
        Some(n) => n,
        None => Scalar { bits: otherwise },
    }
}

pub fn optional_f64(args: &Json, name: &str, otherwise: u64) -> (r: Scalar)
    ensures
        r == number_or(*args, name@, otherwise),
{
    match args.get_number(name) {
        Some(n) => n,
        None => Scalar { bits: otherwise },
    }
}

/// A text, or `otherwise` where there is none.
pub open spec fn text_or(args: Json, name: Seq<char>, otherwise: Seq<char>) -> Seq<char> {
    match text_at(args, name) {
        Some(t) => t,
        None => otherwise,
    }
}

pub fn optional_str(args: &Json, name: &str, otherwise: &str) -> (r: String)
    ensures
        r@ == text_or(*args, name@, otherwise@),
{
    match args.get_text(name) {
        Some(t) => t.to_owned(),
        None => otherwise.to_owned(),
    }
}

pub fn optional_text(args: &Json, name: &str) -> (r: Option<String>)
    ensures
        r.deep_view() == text_at(*args, name@),
{
    match args.get_text(name) {
        Some(t) => Some(t.to_owned()),
        None => None,
    }
}

// Points.

pub open spec fn point_in(value: Json) -> Option<Point> {
    match (number_at(value, "x"@), number_at(value, "y"@)) {
        (Some(x), Some(y)) => Some(Point { x, y }),
        _ => None,
    }
}

pub fn read_point(value: &Json) -> (r: Option<Point>)
    ensures
        r == point_in(*value),
{
    match (value.get_number("x"), value.get_number("y")) {
        (Some(x), Some(y)) => Some(Point { x, y }),
        _ => None,
    }
}

pub open spec fn points_in(values: Seq<Json>) -> Seq<Point> {
    gather(
        values,
        |value: Json|
            match point_in(value) {
                Some(p) => seq![p],
                None => Seq::empty(),
            },
    )
}

/// The points of a proposed route: at least two, each with both coordinates.
pub open spec fn route_points(args: Json) -> Read<Seq<Point>> {
    match array_at(args, "points"@) {
        None => Err(ToolErrorView::Said("Missing 'points' array"@)),
        Some(values) => if exists|i: int|
            0 <= i < values.len() && point_in(#[trigger] values[i]) is None {
            Err(ToolErrorView::Said("Every point requires numeric x and y"@))
        } else if values.len() < 2 {
            Err(ToolErrorView::Said("At least two ordered points are required"@))
        } else {
            Ok(values.map_values(|value: Json| point_in(value)->Some_0))
        },
    }
}

/// Reads the points of a proposed route.
pub fn parse_points(args: &Json) -> (r: Result<Vec<Point>, ToolError>)
    ensures
        read_of(r) == route_points(*args),
{
    let values = match args.get_array("points") {
        None => {
            return Err(refuse("Missing 'points' array"));
        },
        Some(values) => values,
    };
    let mut points: Vec<Point> = Vec::new();
    let mut i: usize = 0;
    while i < values.len()
        invariant
            i <= values@.len(),
            array_at(*args, "points"@) == Some(values@),
            points@.len() == i,
            forall|j: int| 0 <= j < i ==> point_in(#[trigger] values@[j]) == Some(points@[j]),
        decreases values@.len() - i,
    {
        match read_point(&values[i]) {
            Some(p) => points.push(p),
            None => {
                assert(point_in(values@[i as int]) is None);
                return Err(refuse("Every point requires numeric x and y"));
            },
        }
        i += 1;
    }
    if points.len() < 2 {
        return Err(refuse("At least two ordered points are required"));
    }
    assert(points.deep_view() =~= values@.map_values(|value: Json| point_in(value)->Some_0));
    Ok(points)
}

/// The points among some values, those without coordinates left out.
pub fn collect_points(values: &Vec<Json>) -> (r: Vec<Point>)
    ensures
        r@ == points_in(values@),
{
    let ghost all = values@;
    let ghost pick = |value: Json|
        match point_in(value) {
            Some(p) => seq![p],
            None => Seq::empty(),
        };
    let mut out: Vec<Point> = Vec::new();
    let mut i: usize = 0;
    while i < values.len()
        invariant
            i <= values@.len(),
            all == values@,
            pick == (|value: Json|
                match point_in(value) {
                    Some(p) => seq![p],
                    None => Seq::empty(),
                }),
            out@ == gather(all.take(i as int), pick),
        decreases values@.len() - i,
    {
        proof {
            lemma_gather_step(all, pick, i as int);
        }
        if let Some(p) = read_point(&values[i]) {
            out.push(p);
        }
        i += 1;
    }
    assert(all.take(all.len() as int) == all);
    out
}

// Allowed pads.

/// A pad that a route may touch with an end.
#[derive(Debug)]
pub struct AllowedEndpointPad {
    pub reference: String,
    pub pad: String,
}

#[verifier::ext_equal]
pub struct AllowedPadView {
    pub reference: Seq<char>,
    pub pad: Seq<char>,
}

impl DeepView for AllowedEndpointPad {
    type V = AllowedPadView;

    open spec fn deep_view(&self) -> AllowedPadView {
        AllowedPadView { reference: self.reference@, pad: self.pad@ }
    }
}

pub open spec fn allowed_pad_in(value: Json) -> Option<AllowedPadView> {
    match (text_at(value, "reference"@), text_at(value, "pad"@)) {
        (Some(reference), Some(pad)) => if reference.len() == 0 || pad.len() == 0 {
            None
        } else {
            Some(AllowedPadView { reference, pad })
        },
        _ => None,
    }
}

fn read_allowed_pad(value: &Json) -> (r: Option<AllowedEndpointPad>)
    ensures
        r.deep_view() == allowed_pad_in(*value),
{
    match (value.get_text("reference"), value.get_text("pad")) {
        (Some(reference), Some(pad)) => if reference.is_empty() || pad.is_empty() {
            None
        } else {
            Some(AllowedEndpointPad { reference: reference.to_owned(), pad: pad.to_owned() })
        },
        _ => None,
    }
}

/// The pads that a route may touch: none where nothing is said.
pub open spec fn allowed_pads(args: Json) -> Read<Seq<AllowedPadView>> {
    match member(args, "allowed_endpoint_pads"@) {
        None => Ok(Seq::empty()),
        Some(Json::Array(values)) => if exists|i: int|
            0 <= i < values@.len() && allowed_pad_in(#[trigger] values@[i]) is None {
            Err(
                ToolErrorView::Said(
                    "Every allowed endpoint pad requires non-empty reference and pad strings"@,
                ),
            )
        } else {
            Ok(values@.map_values(|value: Json| allowed_pad_in(value)->Some_0))
        },
        Some(_) => Err(ToolErrorView::Said("allowed_endpoint_pads must be an array"@)),
    }
}

/// Reads the pads that a route may touch with an end.
pub fn parse_allowed_endpoint_pads(args: &Json) -> (r: Result<Vec<AllowedEndpointPad>, ToolError>)
    ensures
        read_of(r) == allowed_pads(*args),
{
    let values = match args.get("allowed_endpoint_pads") {
        None => {
            let none: Vec<AllowedEndpointPad> = Vec::new();
            assert(none.deep_view() == Seq::<AllowedPadView>::empty());
            return Ok(none);
        },
        Some(Json::Array(values)) => values,
        Some(_) => {
            return Err(refuse("allowed_endpoint_pads must be an array"));
        },
    };
    let mut out: Vec<AllowedEndpointPad> = Vec::new();
    let mut i: usize = 0;
    while i < values.len()
        invariant
            i <= values@.len(),
            member(*args, "allowed_endpoint_pads"@) == Some(Json::Array(*values)),
            out@.len() == i,
            forall|j: int|
                0 <= j < i ==> allowed_pad_in(#[trigger] values@[j]) == Some(out@[j].deep_view()),
        decreases values@.len() - i,
    {
        match read_allowed_pad(&values[i]) {
            Some(pad) => out.push(pad),
            None => {
                assert(allowed_pad_in(values@[i as int]) is None);
                return Err(
                    refuse(
                        "Every allowed endpoint pad requires non-empty reference and pad strings",
                    ),
                );
            },
        }
        i += 1;
    }
    assert(out.deep_view() =~= values@.map_values(|value: Json| allowed_pad_in(value)->Some_0));
    Ok(out)
}

// Regions.

/// A region of the board, in millimetres.
#[derive(Clone, Copy, Debug, PartialEq, Eq, Structural)]
pub struct Region {
    pub x_min: Scalar,
    pub y_min: Scalar,
    pub x_max: Scalar,
    pub y_max: Scalar,
}

impl DeepView for Region {
    type V = Region;

    open spec fn deep_view(&self) -> Region {
        *self
    }
}

/// A coordinate of a region, which must be a finite number.
pub open spec fn coordinate(region: Json, name: Seq<char>) -> Read<Scalar> {
    match number_at(region, name) {
        Some(n) => if n.finite() {
            Ok(n)
        } else {
            Err(ToolErrorView::Said("region."@ + name + " must be finite"@))
        },
        None => Err(ToolErrorView::Said("region."@ + name + " must be finite"@)),
    }
}

fn read_coordinate(region: &Json, name: &str) -> (r: Result<Scalar, ToolError>)
    ensures
        read_of(r) == coordinate(*region, name@),
{
    if let Some(n) = region.get_number(name) {
        if n.is_finite() {
            return Ok(n);
        }
    }
    let mut message = "region.".to_owned();
    message.append(name);
    message.append(" must be finite");
    Err(ToolError::Said(message))
}

/// The region asked for; none where nothing is said. Its least coordinates must be below its
/// greatest ones.
pub open spec fn region_in(args: Json) -> Read<Option<Region>> {
    match member(args, "region"@) {
        None => Ok(None),
        Some(region) => if !(region is Object) {
            Err(ToolErrorView::Said("region must be an object"@))
        } else {
            match (
                coordinate(region, "x_min"@),
                coordinate(region, "y_min"@),
                coordinate(region, "x_max"@),
                coordinate(region, "y_max"@),
            ) {
                (Err(e), _, _, _) => Err(e),
                (_, Err(e), _, _) => Err(e),
                (_, _, Err(e), _) => Err(e),
                (_, _, _, Err(e)) => Err(e),
                (Ok(x_min), Ok(y_min), Ok(x_max), Ok(y_max)) => if x_max.at_most(x_min)
                    || y_max.at_most(y_min) {
                    Err(
                        ToolErrorView::Said(
                            "region requires x_min < x_max and y_min < y_max"@,
                        ),
                    )
                } else {
                    Ok(Some(Region { x_min, y_min, x_max, y_max }))
                },
            }
        },
    }
}

/// Reads the region asked for.
pub fn parse_region(args: &Json) -> (r: Result<Option<Region>, ToolError>)
    ensures
        read_of(r) == region_in(*args),
{
    let region = match args.get("region") {
        None => {
            return Ok(None);
        },
        Some(region) => region,
    };
    match region {
        Json::Object(_) => {},
        _ => {
            return Err(refuse("region must be an object"));
        },
    }
    let x_min = match read_coordinate(region, "x_min") {
        Ok(n) => n,
        Err(e) => {
            return Err(e);
        },
    };
    let y_min = match read_coordinate(region, "y_min") {
        Ok(n) => n,
        Err(e) => {
            return Err(e);
        },
    };
    let x_max = match read_coordinate(region, "x_max") {
        Ok(n) => n,
        Err(e) => {
            return Err(e);
        },
    };
    let y_max = match read_coordinate(region, "y_max") {
        Ok(n) => n,
        Err(e) => {
            return Err(e);
        },
    };
    if x_max.le(x_min) || y_max.le(y_min) {
        return Err(refuse("region requires x_min < x_max and y_min < y_max"));
    }
    Ok(Some(Region { x_min, y_min, x_max, y_max }))
}

/// A region that is read has finite bounds, the least below the greatest.
pub proof fn a_region_is_proper(args: Json)
    ensures
        region_in(args) matches Ok(Some(region)) ==> {
            &&& region.x_min.finite() && region.y_min.finite()
            &&& region.x_max.finite() && region.y_max.finite()
            &&& region.x_min.below(region.x_max)
            &&& region.y_min.below(region.y_max)
        },
{
}

} // verus!
