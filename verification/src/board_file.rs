//! Edits to the text of a board file.
//!
//! Each edit puts one piece of text into the file and leaves the rest as it is. Numbers come
//! as the text that is to be written for them.

use crate::json::{ToolError, ToolErrorView};
use crate::text;
use crate::text::{
    all_digits, chars_of, count_from, decimal, digit, digits_value, find, has_at, rfind,
    signed_decimal,
};
use vstd::prelude::*;
use vstd::string::*;

verus! {

// Putting text in.

/// `content` with `piece` put in at `at`.
pub open spec fn with_piece(content: Seq<char>, at: int, piece: Seq<char>) -> Seq<char> {
    content.take(at) + piece + content.skip(at)
}

fn put_in(content: &str, total: usize, at: usize, piece: &str) -> (r: String)
    requires
        total == content@.len(),
        at <= total,
    ensures
        r@ == with_piece(content@, at as int, piece@),
{
    let mut out = content.substring_char(0, at).to_owned();
    out.append(piece);
    out.append(content.substring_char(at, total));
    assert(content@.subrange(0, at as int) == content@.take(at as int));
    assert(content@.subrange(at as int, total as int) == content@.skip(at as int));
    out
}

/// An edit loses nothing: what stood before and behind the place is still there.
pub proof fn an_edit_keeps_the_rest(content: Seq<char>, at: int, piece: Seq<char>)
    requires
        0 <= at <= content.len(),
    ensures
        with_piece(content, at, piece).take(at) == content.take(at),
        with_piece(content, at, piece).skip(at + piece.len()) == content.skip(at),
        with_piece(content, at, piece).subrange(at, at + piece.len()) == piece,
{
    let whole = with_piece(content, at, piece);
    assert(whole.take(at) =~= content.take(at));
    assert(whole.skip(at + piece.len()) =~= content.skip(at));
    assert(whole.subrange(at, at + piece.len()) =~= piece);
}

/// Where the file is closed: at its last parenthesis, or at its end where it has none.
pub open spec fn closing_place(content: Seq<char>) -> int {
    match rfind(content, ")"@) {
        Some(place) => place,
        None => content.len() as int,
    }
}

fn find_closing_place(chars: &Vec<char>) -> (r: usize)
    ensures
        r == closing_place(chars@),
        r <= chars@.len(),
{
    match text::find_last(chars, &chars_of(")")) {
        Some(place) => {
            proof {
                text::lemma_rfind_is_last(chars@, ")"@, chars@.len() - ")"@.len());
            }
            place
        },
        None => chars.len(),
    }
}

// Nets.

/// The entry of a net.
pub open spec fn net_entry_text(net_id: i32, net_name: Seq<char>) -> Seq<char> {
    "\n  (net "@ + signed_decimal(net_id as int) + " \""@ + net_name + "\")"@
}

/// A board file with a net added, and the number of that net.
#[derive(Debug)]
pub struct NetAdded {
    pub net_id: i32,
    pub content: String,
}

/// Adds a net, numbered by how many nets the file mentions so far.
pub fn add_net(content: &str, net_name: &str) -> (r: NetAdded)
    ensures
        r.net_id == count_from(content@, "(net "@, 0) as i32,
        r.content@ == with_piece(
            content@,
            closing_place(content@),
            net_entry_text(r.net_id, net_name@),
        ),
{
    proof {
        reveal_strlit("(net ");
    }
    let chars = chars_of(content);
    let total: usize = chars.len();
    let net_id: i32 = text::count_matches(&chars, &chars_of("(net ")) as i32;
    let mut piece = "\n  (net ".to_owned();
    let number = text::write_signed(net_id);
    piece.append(number.as_str());
    piece.append(" \"");
    piece.append(net_name);
    piece.append("\")");
    let place: usize = find_closing_place(&chars);
    NetAdded { net_id, content: put_in(content, total, place, piece.as_str()) }
}

/// What the end of a net's entry looks like.
pub open spec fn net_pattern(net_name: Seq<char>) -> Seq<char> {
    " \""@ + net_name + "\")"@
}

/// How many bytes a character takes in UTF-8.
pub open spec fn utf8_len(c: char) -> int {
    if (c as u32) < 0x80 {
        1
    } else if (c as u32) < 0x800 {
        2
    } else if (c as u32) < 0x1_0000 {
        3
    } else {
        4
    }
}

/// The position from which `bytes` bytes on from position `i` another one starts, where a
/// character starts there or the text ends.
pub open spec fn after_bytes(s: Seq<char>, i: int, bytes: int) -> Option<int>
    decreases s.len() - i,
{
    if bytes == 0 {
        Some(i)
    } else if bytes < 0 || i < 0 || i >= s.len() {
        None
    } else {
        after_bytes(s, i + 1, bytes - utf8_len(s[i]))
    }
}

/// Where the number of a net starts: behind the last `(net `, or, without one, five bytes
/// from the start.
pub open spec fn number_start(before: Seq<char>) -> Option<int> {
    match rfind(before, "(net "@) {
        Some(place) => Some(place + 5),
        None => after_bytes(before, 0, 5),
    }
}

/// The number that a text writes: decimal digits with at most one sign before them, for a
/// number that fits in `i32`.
pub open spec fn signed_value(s: Seq<char>) -> Option<i32> {
    if s.len() > 0 && s[0] == '-' {
        if all_digits(s.skip(1)) && digits_value(s.skip(1)) <= 0x8000_0000 {
            Some((-(digits_value(s.skip(1)) as int)) as i32)
        } else {
            None
        }
    } else {
        let digits = if s.len() > 0 && s[0] == '+' {
            s.skip(1)
        } else {
            s
        };
        if all_digits(digits) && digits_value(digits) <= 0x7fff_ffff {
            Some(digits_value(digits) as i32)
        } else {
            None
        }
    }
}

/// The number that is read for a net, given what stands before the end of its entry: the text
/// from the start of the number up to the first space, or all of it where there is no space.
pub open spec fn number_before(before: Seq<char>, start: int) -> i32 {
    let number = before.skip(start);
    let end = match find(number, " "@) {
        Some(place) => place,
        None => number.len() as int,
    };
    match signed_value(number.take(end)) {
        Some(value) => value,
        None => 0,
    }
}

/// The number of a net in a board file, 0 where it is not found.
pub open spec fn net_number(content: Seq<char>, net_name: Seq<char>) -> i32 {
    match find(content, net_pattern(net_name)) {
        None => 0,
        Some(place) => match number_start(content.take(place)) {
            None => 0,
            Some(start) => number_before(content.take(place), start),
        },
    }
}

/// Whether the text before a net's entry can be cut where its number starts.
pub open spec fn number_is_reachable(content: Seq<char>, net_name: Seq<char>) -> bool {
    find(content, net_pattern(net_name)) matches Some(place) ==> number_start(
        content.take(place),
    ) is Some
}

fn cut(chars: &Vec<char>, from: usize, to: usize) -> (r: Vec<char>)
    requires
        from <= to <= chars@.len(),
    ensures
        r@ == chars@.subrange(from as int, to as int),
{
    let mut out: Vec<char> = Vec::new();
    let mut i: usize = from;
    while i < to
        invariant
            from <= i <= to <= chars@.len(),
            out@ == chars@.subrange(from as int, i as int),
        decreases to - i,
    {
        out.push(chars[i]);
        assert(chars@.subrange(from as int, i + 1) == chars@.subrange(from as int, i as int).push(
            chars@[i as int],
        ));
        i += 1;
    }
    out
}

fn count_bytes(c: char) -> (r: i64)
    ensures
        r == utf8_len(c),
{
    let code: u32 = c as u32;
    if code < 0x80 {
        1
    } else if code < 0x800 {
        2
    } else if code < 0x1_0000 {
        3
    } else {
        4
    }
}

fn skip_bytes(chars: &Vec<char>, bytes: i64) -> (r: Option<usize>)
    requires
        bytes == 5,
    ensures
        match r {
            Some(place) => after_bytes(chars@, 0, bytes as int) == Some(place as int) && place
                <= chars@.len(),
            None => after_bytes(chars@, 0, bytes as int) is None,
        },
{
    let mut left: i64 = bytes;
    let mut i: usize = 0;
    while left > 0 && i < chars.len()
        invariant
            i <= chars@.len(),
            -4 <= left <= 5,
            bytes == 5,
            after_bytes(chars@, 0, bytes as int) == after_bytes(chars@, i as int, left as int),
        decreases chars@.len() - i,
    {
        left = left - count_bytes(chars[i]);
        i += 1;
    }
    if left == 0 {
        Some(i)
    } else {
        None
    }
}

fn read_signed(s: &Vec<char>) -> (r: Option<i32>)
    ensures
        r == signed_value(s@),
{
    let total: usize = s.len();
    if total > 0 && s[0] == '-' {
        assert(s@.subrange(1, total as int) == s@.skip(1));
        return match text::read_digits(s, 1, total, 0x8000_0000) {
            Some(value) => Some((0 - value as i64) as i32),
            None => None,
        };
    }
    let from: usize = if total > 0 && s[0] == '+' {
        1
    } else {
        0
    };
    assert(from == 1 ==> s@.subrange(1, total as int) == s@.skip(1));
    assert(s@.subrange(0, total as int) == s@);
    match text::read_digits(s, from, total, 0x7fff_ffff) {
        Some(value) => Some(value as i32),
        None => None,
    }
}

/// Whether the number of a net can be looked up, as `find_net_id` requires.
pub fn can_find_net_id(content: &str, net_name: &str) -> (r: bool)
    ensures
        r == number_is_reachable(content@, net_name@),
{
    let chars = chars_of(content);
    let mut pattern = " \"".to_owned();
    pattern.append(net_name);
    pattern.append("\")");
    match text::find_after(&chars, &chars_of(pattern.as_str()), 0) {
        None => true,
        Some(place) => {
            proof {
                text::lemma_find_is_first(content@, pattern@, 0);
                assert(content@.subrange(0, place as int) == content@.take(place as int));
            }
            let before = cut(&chars, 0, place);
            text::find_last(&before, &chars_of("(net ")).is_some() || skip_bytes(
                &before,
                5,
            ).is_some()
        },
    }
}

/// Looks up the number of a net.
pub fn find_net_id(content: &str, net_name: &str) -> (r: i32)
    requires
        number_is_reachable(content@, net_name@),
    ensures
        r == net_number(content@, net_name@),
{
    let chars = chars_of(content);
    let mut pattern = " \"".to_owned();
    pattern.append(net_name);
    pattern.append("\")");
    let place: usize = match text::find_after(&chars, &chars_of(pattern.as_str()), 0) {
        None => {
            return 0;
        },
        Some(place) => place,
    };
    proof {
        text::lemma_find_is_first(content@, pattern@, 0);
        reveal_strlit("(net ");
        assert(content@.subrange(0, place as int) == content@.take(place as int));
    }
    let before = cut(&chars, 0, place);
    let start: usize = match text::find_last(&before, &chars_of("(net ")) {
        Some(found) => {
            proof {
                text::lemma_rfind_is_last(before@, "(net "@, before@.len() - "(net "@.len());
            }
            found + 5
        },
        None => match skip_bytes(&before, 5) {
            Some(found) => found,
            None => {
                return 0;
            },
        },
    };
    let size: usize = before.len();
    let number = cut(&before, start, size);
    assert(number@ == before@.skip(start as int));
    let end: usize = match text::find_after(&number, &chars_of(" "), 0) {
        Some(found) => {
            proof {
                text::lemma_find_is_first(number@, " "@, 0);
            }
            found
        },
        None => number.len(),
    };
    let digits = cut(&number, 0, end);
    assert(digits@ == number@.take(end as int));
    match read_signed(&digits) {
        Some(value) => value,
        None => 0,
    }
}

// Zones.

/// The coordinates of a corner, as they are to be written.
#[derive(Debug)]
pub struct CornerText {
    pub x: String,
    pub y: String,
}

pub open spec fn corner_text(corner: CornerText) -> Seq<char> {
    "\n      (xy "@ + corner.x@ + " "@ + corner.y@ + ")"@
}

pub open spec fn corners_text(corners: Seq<CornerText>) -> Seq<char>
    decreases corners.len(),
{
    if corners.len() == 0 {
        Seq::empty()
    } else {
        corners_text(corners.drop_last()) + corner_text(corners.last())
    }
}

/// The entry of a copper zone.
pub open spec fn zone_text(
    net_id: i32,
    net_name: Seq<char>,
    layer: Seq<char>,
    uuid: Seq<char>,
    clearance: Seq<char>,
    min_width: Seq<char>,
    corners: Seq<CornerText>,
) -> Seq<char> {
    "\n  (zone (net "@ + signed_decimal(net_id as int) + ") (net_name \""@ + net_name
        + "\") (layer \""@ + layer + "\") (uuid \""@ + uuid
        + "\")\n    (hatch edge 0.508)\n    (connect_pads (clearance "@ + clearance
        + "))\n    (min_thickness "@ + min_width + ")\n    (fill yes)\n    (polygon (pts"@
        + corners_text(corners) + "\n    ))\n  )"@
}

/// Writes the entry of a copper zone.
pub fn format_zone(
    net_id: i32,
    net_name: &str,
    layer: &str,
    uuid: &str,
    clearance: &str,
    min_width: &str,
    corners: &Vec<CornerText>,
) -> (r: String)
    ensures
        r@ == zone_text(net_id, net_name@, layer@, uuid@, clearance@, min_width@, corners@),
{
    let mut points = String::new();
    let mut i: usize = 0;
    while i < corners.len()
        invariant
            i <= corners@.len(),
            points@ == corners_text(corners@.take(i as int)),
        decreases corners@.len() - i,
    {
        proof {
            assert(corners@.take(i + 1).drop_last() == corners@.take(i as int));
        }
        let ghost before = points@;
        points.append("\n      (xy ");
        points.append(corners[i].x.as_str());
        points.append(" ");
        points.append(corners[i].y.as_str());
        points.append(")");
        assert(points@ == before + corner_text(corners@[i as int]));
        i += 1;
    }
    assert(corners@.take(corners@.len() as int) == corners@);
    let mut out = "\n  (zone (net ".to_owned();
    let number = text::write_signed(net_id);
    out.append(number.as_str());
    out.append(") (net_name \"");
    out.append(net_name);
    out.append("\") (layer \"");
    out.append(layer);
    out.append("\") (uuid \"");
    out.append(uuid);
    out.append("\")\n    (hatch edge 0.508)\n    (connect_pads (clearance ");
    out.append(clearance);
    out.append("))\n    (min_thickness ");
    out.append(min_width);
    out.append(")\n    (fill yes)\n    (polygon (pts");
    out.append(points.as_str());
    out.append("\n    ))\n  )");
    out
}

/// Adds a copper zone, with the number that the file has for its net.
pub fn add_copper_pour(
    content: &str,
    net_name: &str,
    layer: &str,
    uuid: &str,
    clearance: &str,
    min_width: &str,
    corners: &Vec<CornerText>,
) -> (r: String)
    requires
        number_is_reachable(content@, net_name@),
    ensures
        r@ == with_piece(
            content@,
            closing_place(content@),
            zone_text(
                net_number(content@, net_name@),
                net_name@,
                layer@,
                uuid@,
                clearance@,
                min_width@,
                corners@,
            ),
        ),
{
    let net_id: i32 = find_net_id(content, net_name);
    let piece = format_zone(net_id, net_name, layer, uuid, clearance, min_width, corners);
    let chars = chars_of(content);
    let total: usize = chars.len();
    let place: usize = find_closing_place(&chars);
    put_in(content, total, place, piece.as_str())
}

// Net classes.

/// The entry of a net class.
pub open spec fn netclass_text(
    name: Seq<char>,
    clearance: Seq<char>,
    trace_width: Seq<char>,
    via_drill: Seq<char>,
    via_diameter: Seq<char>,
) -> Seq<char> {
    "\n      (netclass \""@ + name + "\"\n        (clearance "@ + clearance
        + ")\n        (trace_width "@ + trace_width + ")\n        (via_drill "@ + via_drill
        + ")\n        (via_diameter "@ + via_diameter + ")\n      )"@
}

/// Where a net class goes: before the end of the block of net classes, which is told by its
/// indentation; where that is not found, before the first parenthesis that closes, or before
/// the last character. Without such a block it goes where the file is closed.
pub open spec fn netclass_place(content: Seq<char>) -> int {
    match find(content, "(net_classes"@) {
        None => closing_place(content),
        Some(block) => match find(content.skip(block), "\n    )"@) {
            Some(end) => block + end,
            None => match find(content.skip(block), ")"@) {
                Some(end) => block + end,
                None => content.len() - 1,
            },
        },
    }
}

/// Whether that place is between two characters: it is reckoned in bytes, and the last
/// character may have several.
pub open spec fn netclass_place_is_sound(content: Seq<char>) -> bool {
    find(content, "(net_classes"@) matches Some(block) ==> find(
        content.skip(block),
        "\n    )"@,
    ) is Some || find(content.skip(block), ")"@) is Some || utf8_len(content.last()) == 1
}

fn find_in_rest(chars: &Vec<char>, from: usize, pattern: &str) -> (r: Option<usize>)
    requires
        from <= chars@.len(),
    ensures
        match r {
            Some(place) => find(chars@.skip(from as int), pattern@) == Some(place as int) && from
                + place <= chars@.len(),
            None => find(chars@.skip(from as int), pattern@) is None,
        },
{
    let total: usize = chars.len();
    let rest = cut(chars, from, total);
    assert(rest@ == chars@.skip(from as int));
    let found = text::find_after(&rest, &chars_of(pattern), 0);
    proof {
        text::lemma_find_is_first(rest@, pattern@, 0);
    }
    found
}

/// Whether a net class can be added, as `create_netclass` requires.
pub fn can_create_netclass(content: &str) -> (r: bool)
    ensures
        r == netclass_place_is_sound(content@),
{
    let chars = chars_of(content);
    let total: usize = chars.len();
    match text::find_after(&chars, &chars_of("(net_classes"), 0) {
        None => true,
        Some(block) => {
            proof {
                text::lemma_find_is_first(chars@, "(net_classes"@, 0);
                reveal_strlit("(net_classes");
            }
            find_in_rest(&chars, block, "\n    )").is_some() || find_in_rest(
                &chars,
                block,
                ")",
            ).is_some() || count_bytes(chars[total - 1]) == 1
        },
    }
}

/// Adds a net class.
pub fn create_netclass(
    content: &str,
    name: &str,
    clearance: &str,
    trace_width: &str,
    via_drill: &str,
    via_diameter: &str,
) -> (r: String)
    requires
        netclass_place_is_sound(content@),
    ensures
        r@ == with_piece(
            content@,
            netclass_place(content@),
            netclass_text(name@, clearance@, trace_width@, via_drill@, via_diameter@),
        ),
{
    let mut piece = "\n      (netclass \"".to_owned();
    piece.append(name);
    piece.append("\"\n        (clearance ");
    piece.append(clearance);
    piece.append(")\n        (trace_width ");
    piece.append(trace_width);
    piece.append(")\n        (via_drill ");
    piece.append(via_drill);
    piece.append(")\n        (via_diameter ");
    piece.append(via_diameter);
    piece.append(")\n      )");
    let chars = chars_of(content);
    let total: usize = chars.len();
    let place: usize = match text::find_after(&chars, &chars_of("(net_classes"), 0) {
        None => find_closing_place(&chars),
        Some(block) => {
            proof {
                text::lemma_find_is_first(chars@, "(net_classes"@, 0);
                reveal_strlit("(net_classes");
            }
            match find_in_rest(&chars, block, "\n    )") {
                Some(end) => block + end,
                None => match find_in_rest(&chars, block, ")") {
                    Some(end) => block + end,
                    None => total - 1,
                },
            }
        },
    };
    put_in(content, total, place, piece.as_str())
}

/// The start of a net class.
pub open spec fn netclass_pattern(netclass: Seq<char>) -> Seq<char> {
    "(netclass \""@ + netclass + "\""@
}

/// The parenthesis at or after `i` that closes what is open, `depth` being open before it.
pub open spec fn closing_from(s: Seq<char>, i: int, depth: int) -> Option<int>
    decreases s.len() - i,
{
    if i < 0 || i >= s.len() {
        None
    } else if s[i] == '(' {
        closing_from(s, i + 1, depth + 1)
    } else if s[i] == ')' {
        if depth == 1 {
            Some(i)
        } else {
            closing_from(s, i + 1, depth - 1)
        }
    } else {
        closing_from(s, i + 1, depth)
    }
}

/// Where a block ends that starts at `start`; at its start where it is never closed.
pub open spec fn block_end(s: Seq<char>, start: int) -> int {
    match closing_from(s, start, 0) {
        Some(end) => end,
        None => start,
    }
}

/// A net as a net class lists it.
pub open spec fn listed_net(net_name: Seq<char>) -> Seq<char> {
    "(net \""@ + net_name + "\")"@
}

pub open spec fn listed_net_line(net_name: Seq<char>) -> Seq<char> {
    "\n        (net \""@ + net_name + "\")"@
}

/// What comes of putting a net into a net class.
#[derive(Debug)]
pub enum Assignment {
    /// The class lists the net already, and the file stays as it is.
    AlreadyAssigned,
    /// The file with the net listed.
    Assigned(String),
}

#[verifier::ext_equal]
pub enum AssignmentView {
    AlreadyAssigned,
    Assigned(Seq<char>),
}

impl DeepView for Assignment {
    type V = AssignmentView;

    open spec fn deep_view(&self) -> AssignmentView {
        match *self {
            Assignment::AlreadyAssigned => AssignmentView::AlreadyAssigned,
            Assignment::Assigned(content) => AssignmentView::Assigned(content@),
        }
    }
}

pub open spec fn no_netclass_text(netclass: Seq<char>) -> Seq<char> {
    "Netclass '"@ + netclass + "' not found in board file"@
}

/// Whether a block lists a net.
pub open spec fn lists_net(content: Seq<char>, start: int, end: int, net_name: Seq<char>) -> bool {
    find(content.subrange(start, end), listed_net(net_name)) is Some
}

/// Puts a net into a net class.
pub open spec fn assigned(content: Seq<char>, net_name: Seq<char>, netclass: Seq<char>) -> Result<
    AssignmentView,
    ToolErrorView,
> {
    match find(content, netclass_pattern(netclass)) {
        None => Err(ToolErrorView::Said(no_netclass_text(netclass))),
        Some(start) => {
            let end = block_end(content, start);
            if lists_net(content, start, end, net_name) {
                Ok(AssignmentView::AlreadyAssigned)
            } else {
                Ok(AssignmentView::Assigned(with_piece(content, end, listed_net_line(net_name))))
            }
        },
    }
}

fn find_closing(chars: &Vec<char>, start: usize) -> (r: Option<usize>)
    requires
        start < chars@.len(),
        chars@[start as int] == '(',
    ensures
        match r {
            Some(end) => closing_from(chars@, start as int, 0) == Some(end as int) && start < end
                < chars@.len() && chars@[end as int] == ')',
            None => closing_from(chars@, start as int, 0) is None,
        },
{
    let total: usize = chars.len();
    let mut depth: usize = 1;
    let mut i: usize = start + 1;
    assert(closing_from(chars@, start as int, 0) == closing_from(chars@, start + 1, 1));
    while i < total
        invariant
            start < i <= total,
            total == chars@.len(),
            1 <= depth <= i,
            closing_from(chars@, start as int, 0) == closing_from(chars@, i as int, depth as int),
        decreases total - i,
    {
        let c = chars[i];
        if c == '(' {
            depth += 1;
        } else if c == ')' {
            if depth == 1 {
                return Some(i);
            }
            depth -= 1;
        }
        i += 1;
    }
    None
}

/// Puts a net into a net class, before the end of the class's block.
pub fn assign_net_to_class(content: &str, net_name: &str, netclass: &str) -> (r: Result<
    Assignment,
    ToolError,
>)
    ensures
        crate::json::read_of(r) == assigned(content@, net_name@, netclass@),
{
    let chars = chars_of(content);
    let total: usize = chars.len();
    let mut pattern = "(netclass \"".to_owned();
    pattern.append(netclass);
    pattern.append("\"");
    let start: usize = match text::find_after(&chars, &chars_of(pattern.as_str()), 0) {
        None => {
            let mut message = "Netclass '".to_owned();
            message.append(netclass);
            message.append("' not found in board file");
            return Err(ToolError::Said(message));
        },
        Some(start) => start,
    };
    proof {
        text::lemma_find_is_first(content@, pattern@, 0);
        reveal_strlit("(netclass \"");
        lemma_starts_with_parenthesis(content@, netclass@, start as int);
    }
    let end: usize = match find_closing(&chars, start) {
        Some(end) => end,
        None => start,
    };
    let block = cut(&chars, start, end);
    let mut listed = "(net \"".to_owned();
    listed.append(net_name);
    listed.append("\")");
    let there = text::find_after(&block, &chars_of(listed.as_str()), 0);
    if there.is_some() {
        return Ok(Assignment::AlreadyAssigned);
    }
    let mut piece = "\n        (net \"".to_owned();
    piece.append(net_name);
    piece.append("\")");
    Ok(Assignment::Assigned(put_in(content, total, end, piece.as_str())))
}

proof fn lemma_starts_with_parenthesis(content: Seq<char>, netclass: Seq<char>, start: int)
    requires
        has_at(content, netclass_pattern(netclass), start),
    ensures
        0 <= start < content.len(),
        content[start] == '(',
{
    reveal_strlit("(netclass \"");
    reveal_strlit("\"");
    let pattern = netclass_pattern(netclass);
    assert(content.subrange(start, start + pattern.len())[0] == pattern[0]);
}

// Assigning twice.

/// How deep the parentheses are behind a text that is entered at `depth`, where none of its
/// own closes the outermost one.
pub open spec fn depth_behind(s: Seq<char>, i: int, depth: int) -> Option<int>
    decreases s.len() - i,
{
    if i < 0 || i >= s.len() {
        Some(depth)
    } else if s[i] == '(' {
        depth_behind(s, i + 1, depth + 1)
    } else if s[i] == ')' {
        if depth == 1 {
            None
        } else {
            depth_behind(s, i + 1, depth - 1)
        }
    } else {
        depth_behind(s, i + 1, depth)
    }
}

/// Whether each parenthesis of a name is closed within it. A name without any is balanced.
pub open spec fn is_balanced(name: Seq<char>) -> bool {
    depth_behind(name, 0, 2) == Some(2int)
}

proof fn lemma_same_text(a: Seq<char>, b: Seq<char>, p: Seq<char>, n: int, j: int)
    requires
        0 <= j,
        j + p.len() <= n <= a.len(),
        n <= b.len(),
        a.take(n) == b.take(n),
    ensures
        has_at(a, p, j) == has_at(b, p, j),
{
    assert(a.subrange(j, j + p.len()) == a.take(n).subrange(j, j + p.len()));
    assert(b.subrange(j, j + p.len()) == b.take(n).subrange(j, j + p.len()));
}

/// A net that was put into a net class is found there when it is put in again. The block of
/// the class has to be closed behind its name, and still behind the new line after it was put
/// in; `a_balanced_name_keeps_the_block` says when that is so.
pub proof fn assigning_twice_changes_nothing(
    content: Seq<char>,
    net_name: Seq<char>,
    netclass: Seq<char>,
)
    requires
        find(content, netclass_pattern(netclass)) is Some,
        ({
            let start = find(content, netclass_pattern(netclass))->Some_0;
            let end = block_end(content, start);
            let line = listed_net_line(net_name);
            &&& start + netclass_pattern(netclass).len() <= end <= content.len()
            &&& end + line.len() <= block_end(with_piece(content, end, line), start)
                <= content.len() + line.len()
        }),
    ensures
        assigned(content, net_name, netclass) matches Ok(AssignmentView::Assigned(edited))
            ==> assigned(edited, net_name, netclass) == Ok::<AssignmentView, ToolErrorView>(
            AssignmentView::AlreadyAssigned,
        ),
{
    let pattern = netclass_pattern(netclass);
    let start = find(content, pattern)->Some_0;
    let end = block_end(content, start);
    let line = listed_net_line(net_name);
    let edited = with_piece(content, end, line);
    text::lemma_find_is_first(content, pattern, 0);
    text::lemma_find_is_first(edited, pattern, 0);
    an_edit_keeps_the_rest(content, end, line);
    assert(edited.take(end) == content.take(end));
    lemma_same_text(content, edited, pattern, end, start);
    assert forall|j: int| 0 <= j < start implies !has_at(edited, pattern, j) by {
        lemma_same_text(content, edited, pattern, end, j);
    }
    assert(find(edited, pattern) == Some(start));
    let new_end = block_end(edited, start);
    let block = edited.subrange(start, new_end);
    let listed = listed_net(net_name);
    reveal_strlit("(net \"");
    reveal_strlit("\n        (net \"");
    let at = end - start + (line.len() - listed.len());
    assert(line.len() == listed.len() + 9);
    assert(edited.subrange(end, end + line.len()) == line);
    assert(listed =~= line.skip(9));
    assert(block.subrange(at, at + listed.len()) =~= listed) by {
        assert forall|k: int| 0 <= k < listed.len() implies block.subrange(
            at,
            at + listed.len(),
        )[k] == listed[k] by {
            assert(edited.subrange(end, end + line.len())[k + 9] == line[k + 9]);
            assert(line.skip(9)[k] == line[k + 9]);
            assert(at + k == end - start + 9 + k);
            assert(block.subrange(at, at + listed.len())[k] == block[at + k]);
            assert(block[at + k] == edited[start + (at + k)]);
        }
    }
    assert(has_at(block, listed, at));
    text::lemma_find_is_first(block, listed, 0);
}

proof fn lemma_closing_is_ahead(s: Seq<char>, i: int, depth: int)
    ensures
        closing_from(s, i, depth) matches Some(e) ==> i <= e < s.len() && s[e] == ')',
    decreases s.len() - i,
{
    if i < 0 || i >= s.len() {
    } else if s[i] == '(' {
        lemma_closing_is_ahead(s, i + 1, depth + 1);
    } else if s[i] == ')' {
        if depth != 1 {
            lemma_closing_is_ahead(s, i + 1, depth - 1);
        }
    } else {
        lemma_closing_is_ahead(s, i + 1, depth);
    }
}

/// Up to `n` two texts agree: what is open there in the one is open in the other.
proof fn lemma_closing_agrees(a: Seq<char>, b: Seq<char>, i: int, n: int, depth: int)
    requires
        0 <= i <= n <= a.len(),
        n <= b.len(),
        forall|j: int| i <= j < n ==> a[j] == b[j],
        closing_from(a, i, depth) matches Some(e) && e == n,
    ensures
        closing_from(b, i, depth) == closing_from(b, n, 1),
    decreases n - i,
{
    if i < n {
        if a[i] == '(' {
            lemma_closing_agrees(a, b, i + 1, n, depth + 1);
        } else if a[i] == ')' {
            lemma_closing_agrees(a, b, i + 1, n, depth - 1);
        } else {
            lemma_closing_agrees(a, b, i + 1, n, depth);
        }
    } else {
        if a[i] == '(' {
            lemma_closing_is_ahead(a, i + 1, depth + 1);
        } else if a[i] == ')' {
            if depth != 1 {
                lemma_closing_is_ahead(a, i + 1, depth - 1);
            }
        } else {
            lemma_closing_is_ahead(a, i + 1, depth);
        }
    }
}

/// Behind a piece that does not close the outermost parenthesis the search goes on at the
/// depth it leaves.
proof fn lemma_closing_passes(s: Seq<char>, at: int, piece: Seq<char>, i: int, depth: int)
    requires
        0 <= at,
        0 <= i <= piece.len(),
        at + piece.len() <= s.len(),
        forall|j: int| 0 <= j < piece.len() ==> s[at + j] == #[trigger] piece[j],
        depth_behind(piece, i, depth) is Some,
    ensures
        closing_from(s, at + i, depth) == closing_from(
            s,
            at + piece.len(),
            depth_behind(piece, i, depth)->Some_0,
        ),
    decreases piece.len() - i,
{
    if i < piece.len() {
        assert(s[at + i] == piece[i]);
        if piece[i] == '(' {
            lemma_closing_passes(s, at, piece, i + 1, depth + 1);
        } else if piece[i] == ')' {
            lemma_closing_passes(s, at, piece, i + 1, depth - 1);
        } else {
            lemma_closing_passes(s, at, piece, i + 1, depth);
        }
    }
}

/// A net whose name is balanced leaves the block that it is put into closed, right behind
/// the new line.
pub proof fn a_balanced_name_keeps_the_block(content: Seq<char>, start: int, net_name: Seq<char>)
    requires
        0 <= start,
        closing_from(content, start, 0) is Some,
        is_balanced(net_name),
    ensures
        ({
            let end = block_end(content, start);
            let line = listed_net_line(net_name);
            closing_from(with_piece(content, end, line), start, 0) == Some(
                end + line.len(),
            )
        }),
{
    let end = block_end(content, start);
    let line = listed_net_line(net_name);
    let edited = with_piece(content, end, line);
    lemma_closing_is_ahead(content, start, 0);
    assert forall|j: int| start <= j < end implies content[j] == edited[j] by {}
    lemma_closing_agrees(content, edited, start, end, 0);
    reveal_strlit("\n        (net \"");
    reveal_strlit("\")");
    let head = "\n        (net \""@;
    let tail = "\")"@;
    assert(line == head + net_name + tail);
    assert forall|j: int| 0 <= j < head.len() implies edited[end + j] == #[trigger] head[j] by {
        assert(line[j] == head[j]);
    }
    reveal_with_fuel(depth_behind, 20);
    assert(depth_behind(head, 0, 1) == Some(2int));
    lemma_closing_passes(edited, end, head, 0, 1);
    let behind_head = end + head.len();
    assert forall|j: int| 0 <= j < net_name.len() implies edited[behind_head + j]
        == #[trigger] net_name[j] by {
        assert(line[head.len() + j] == net_name[j]);
    }
    lemma_closing_passes(edited, behind_head, net_name, 0, 2);
    let behind_name = behind_head + net_name.len();
    assert forall|j: int| 0 <= j < tail.len() implies edited[behind_name + j]
        == #[trigger] tail[j] by {
        assert(line[head.len() + net_name.len() + j] == tail[j]);
    }
    assert(depth_behind(tail, 0, 2) == Some(1int));
    lemma_closing_passes(edited, behind_name, tail, 0, 2);
    assert(edited[end + line.len()] == content[end]);
}

/// A net with a balanced name that was put into a net class is found there when it is put in
/// again, where the class has a block that is closed behind the class's name.
pub proof fn a_balanced_net_is_assigned_once(
    content: Seq<char>,
    net_name: Seq<char>,
    netclass: Seq<char>,
)
    requires
        find(content, netclass_pattern(netclass)) matches Some(start) && closing_from(
            content,
            start,
            0,
        ) matches Some(end) && start + netclass_pattern(netclass).len() <= end,
        is_balanced(net_name),
    ensures
        assigned(content, net_name, netclass) matches Ok(AssignmentView::Assigned(edited))
            ==> assigned(edited, net_name, netclass) == Ok::<AssignmentView, ToolErrorView>(
            AssignmentView::AlreadyAssigned,
        ),
{
    let start = find(content, netclass_pattern(netclass))->Some_0;
    text::lemma_find_is_first(content, netclass_pattern(netclass), 0);
    lemma_closing_is_ahead(content, start, 0);
    a_balanced_name_keeps_the_block(content, start, net_name);
    assigning_twice_changes_nothing(content, net_name, netclass);
}

/// A net class that was added is found again: a net can be put into it.
pub proof fn an_added_class_takes_nets(
    content: Seq<char>,
    name: Seq<char>,
    clearance: Seq<char>,
    trace_width: Seq<char>,
    via_drill: Seq<char>,
    via_diameter: Seq<char>,
    net_name: Seq<char>,
)
    ensures
        assigned(
            with_piece(
                content,
                netclass_place(content),
                netclass_text(name, clearance, trace_width, via_drill, via_diameter),
            ),
            net_name,
            name,
        ) is Ok,
{
    let at = netclass_place(content);
    let piece = netclass_text(name, clearance, trace_width, via_drill, via_diameter);
    let edited = with_piece(content, at, piece);
    let pattern = netclass_pattern(name);
    lemma_netclass_place(content);
    reveal_strlit("\n      (netclass \"");
    reveal_strlit("\"\n        (clearance ");
    reveal_strlit("(netclass \"");
    reveal_strlit("\"");
    an_edit_keeps_the_rest(content, at, piece);
    assert(piece.subrange(7, 7int + pattern.len()) =~= pattern);
    assert(edited.subrange(at + 7, at + 7 + pattern.len()) =~= edited.subrange(
        at,
        at + piece.len(),
    ).subrange(7, 7int + pattern.len()));
    assert(has_at(edited, pattern, at + 7));
    text::lemma_find_is_first(edited, pattern, 0);
}

proof fn lemma_netclass_place(content: Seq<char>)
    ensures
        0 <= netclass_place(content) <= content.len(),
{
    reveal_strlit("(net_classes");
    reveal_strlit(")");
    text::lemma_find_is_first(content, "(net_classes"@, 0);
    text::lemma_rfind_is_last(content, ")"@, content.len() - ")"@.len());
    if let Some(block) = find(content, "(net_classes"@) {
        text::lemma_find_is_first(content.skip(block), "\n    )"@, 0);
        text::lemma_find_is_first(content.skip(block), ")"@, 0);
    }
}

// Nets that were added.

/// A match that lies across a position has the match's character there.
proof fn lemma_match_covers(s: Seq<char>, p: Seq<char>, j: int, at: int)
    requires
        has_at(s, p, j),
        j <= at < j + p.len(),
    ensures
        s[at] == p[at - j],
{
    assert(s.subrange(j, j + p.len())[at - j] == p[at - j]);
}

/// Behind the first text of two the second one is counted alone.
proof fn lemma_count_behind(a: Seq<char>, b: Seq<char>, p: Seq<char>, j: int)
    requires
        0 <= j,
    ensures
        count_from(a + b, p, a.len() + j) == count_from(b, p, j),
    decreases b.len() + 1 - j,
{
    let whole = a + b;
    if p.len() > 0 && j + p.len() <= b.len() {
        assert(whole.subrange(a.len() + j, a.len() + j + p.len()) =~= b.subrange(j, j + p.len()));
        if has_at(b, p, j) {
            lemma_count_behind(a, b, p, j + p.len());
        } else {
            lemma_count_behind(a, b, p, j + 1);
        }
    }
}

/// Where no match lies across the border of two texts, each is counted alone.
proof fn lemma_count_splits(a: Seq<char>, b: Seq<char>, p: Seq<char>, i: int)
    requires
        0 <= i <= a.len(),
        p.len() > 0,
        forall|j: int|
            a.len() - p.len() < j < a.len() ==> !#[trigger] has_at(a + b, p, j),
    ensures
        count_from(a + b, p, i) == count_from(a, p, i) + count_from(b, p, 0),
    decreases a.len() - i,
{
    let whole = a + b;
    if i == a.len() {
        lemma_count_behind(a, b, p, 0);
    } else if i + p.len() <= a.len() {
        assert(whole.subrange(i, i + p.len()) =~= a.subrange(i, i + p.len()));
        if has_at(a, p, i) {
            lemma_count_splits(a, b, p, i + p.len());
        } else {
            lemma_count_splits(a, b, p, i + 1);
        }
    } else {
        assert(!has_at(whole, p, i));
        if i + p.len() <= whole.len() {
            lemma_count_splits(a, b, p, i + 1);
            assert(count_from(a, p, i + 1) == 0);
        }
    }
}

/// Where a character that no match has stands at the border of two texts, or one of them is
/// empty, each is counted alone.
proof fn lemma_count_parts(a: Seq<char>, b: Seq<char>, p: Seq<char>)
    requires
        p.len() > 0,
        ({
            ||| a.len() == 0
            ||| b.len() == 0
            ||| !p.contains(a.last())
            ||| !p.contains(b[0])
        }),
    ensures
        count_from(a + b, p, 0) == count_from(a, p, 0) + count_from(b, p, 0),
{
    let whole = a + b;
    assert forall|j: int| a.len() - p.len() < j < a.len() implies !#[trigger] has_at(
        whole,
        p,
        j,
    ) by {
        if has_at(whole, p, j) {
            if 0 <= j {
                lemma_match_covers(whole, p, j, a.len() - 1);
                lemma_match_covers(whole, p, j, a.len() as int);
                assert(p.contains(p[a.len() - 1 - j]));
                assert(p.contains(p[a.len() - j]));
                assert(whole[a.len() - 1] == a.last());
                assert(whole[a.len() as int] == b[0]);
            }
        }
    }
    lemma_count_splits(a, b, p, 0);
}

/// Without the first character of a match there is none.
proof fn lemma_no_count(s: Seq<char>, p: Seq<char>, i: int)
    requires
        0 <= i,
        p.len() > 0,
        forall|j: int| 0 <= j < s.len() ==> s[j] != p[0],
    ensures
        count_from(s, p, i) == 0,
    decreases s.len() + 1 - i,
{
    if i + p.len() <= s.len() {
        if has_at(s, p, i) {
            lemma_match_covers(s, p, i, i);
        }
        lemma_no_count(s, p, i + 1);
    }
}

/// Whether a name can stand between quotes as it is: it has no quote, no backslash and no
/// line break.
pub open spec fn is_plain_name(name: Seq<char>) -> bool {
    forall|j: int|
        0 <= j < name.len() ==> (#[trigger] name[j]) != '"' && name[j] != '\\' && name[j] != '\n'
}

pub open spec fn is_digit_or_sign(c: char) -> bool {
    c == '-' || ('0' as u32 <= c as u32 <= '9' as u32)
}

proof fn lemma_decimal_chars(n: nat)
    ensures
        forall|j: int| 0 <= j < decimal(n).len() ==> is_digit_or_sign(#[trigger] decimal(n)[j]),
        decimal(n).len() > 0,
    decreases n,
{
    let last = digit(n % 10);
    assert(last as nat == n % 10 + '0' as nat);
    if n >= 10 {
        lemma_decimal_chars(n / 10);
        assert(decimal(n) == decimal(n / 10).push(last));
    } else {
        assert(n % 10 == n);
        assert(decimal(n) == seq![last]);
    }
}

proof fn lemma_signed_decimal_chars(n: int)
    ensures
        forall|j: int|
            0 <= j < signed_decimal(n).len() ==> is_digit_or_sign(#[trigger] signed_decimal(n)[j]),
        signed_decimal(n).len() > 0,
{
    if n < 0 {
        lemma_decimal_chars((-n) as nat);
    } else {
        lemma_decimal_chars(n as nat);
    }
}

/// An entry mentions one net, and those that its name mentions.
proof fn lemma_entry_count(net_id: i32, net_name: Seq<char>)
    ensures
        count_from(net_entry_text(net_id, net_name), "(net "@, 0) == 1 + count_from(
            net_name,
            "(net "@,
            0,
        ),
{
    let p = "(net "@;
    reveal_strlit("(net ");
    reveal_strlit("\n  (net ");
    reveal_strlit(" \"");
    reveal_strlit("\")");
    let number = signed_decimal(net_id as int);
    lemma_signed_decimal_chars(net_id as int);
    let blank = seq!['\n', ' ', ' '];
    let quoted = number + " \""@;
    let tail = "\")"@;
    let rest = quoted + (net_name + tail);
    assert(net_entry_text(net_id, net_name) =~= blank + (p + rest));
    assert forall|j: int| 0 <= j < quoted.len() implies quoted[j] != p[0] by {
        if j < number.len() {
            assert(is_digit_or_sign(number[j]));
        }
    }
    lemma_no_count(blank, p, 0);
    lemma_no_count(quoted, p, 0);
    lemma_no_count(tail, p, 0);
    lemma_count_parts(net_name, tail, p);
    lemma_count_parts(quoted, net_name + tail, p);
    // A match starts with a parenthesis, and there is only the one at the start of `p`.
    assert forall|j: int| p.len() - p.len() < j < p.len() implies !#[trigger] has_at(
        p + rest,
        p,
        j,
    ) by {
        if has_at(p + rest, p, j) {
            lemma_match_covers(p + rest, p, j, j);
        }
    }
    lemma_count_splits(p, rest, p, 0);
    assert(p.subrange(0, p.len() as int) =~= p);
    assert(count_from(p, p, p.len() as int) == 0);
    assert forall|j: int| blank.len() - p.len() < j < blank.len() implies !#[trigger] has_at(
        blank + (p + rest),
        p,
        j,
    ) by {
        if has_at(blank + (p + rest), p, j) {
            lemma_match_covers(blank + (p + rest), p, j, j);
        }
    }
    lemma_count_splits(blank, p + rest, p, 0);
}

/// Nets are numbered in order: once a net is in the file, the next one gets the next number.
/// A name that mentions nets itself counts for as many more.
pub proof fn nets_are_numbered_in_order(content: Seq<char>, net_id: i32, net_name: Seq<char>)
    ensures
        count_from(
            with_piece(content, closing_place(content), net_entry_text(net_id, net_name)),
            "(net "@,
            0,
        ) == count_from(content, "(net "@, 0) + 1 + count_from(net_name, "(net "@, 0),
{
    let p = "(net "@;
    let at = closing_place(content);
    let piece = net_entry_text(net_id, net_name);
    let head = content.take(at);
    let rest = content.skip(at);
    lemma_entry_count(net_id, net_name);
    lemma_closing_place(content);
    reveal_strlit("(net ");
    assert(!p.contains(')'));
    assert(piece.len() > 0 && piece[0] == '\n' && piece.last() == ')') by {
        reveal_strlit("\n  (net ");
        reveal_strlit("\")");
    }
    assert(content =~= head + rest);
    lemma_count_parts(head, rest, p);
    assert(with_piece(content, at, piece) =~= head + (piece + rest));
    lemma_count_parts(head, piece + rest, p);
    lemma_count_parts(piece, rest, p);
}

proof fn lemma_closing_place(content: Seq<char>)
    ensures
        0 <= closing_place(content) <= content.len(),
        closing_place(content) < content.len() ==> content[closing_place(content)] == ')',
{
    reveal_strlit(")");
    text::lemma_rfind_is_last(content, ")"@, content.len() - ")"@.len());
    if let Some(place) = rfind(content, ")"@) {
        lemma_match_covers(content, ")"@, place, place);
    }
}

proof fn lemma_decimal_value(n: nat)
    ensures
        all_digits(decimal(n)),
        digits_value(decimal(n)) == n,
    decreases n,
{
    let last = digit(n % 10);
    assert(last as nat == n % 10 + '0' as nat);
    lemma_decimal_chars(n);
    if n >= 10 {
        lemma_decimal_value(n / 10);
        assert(decimal(n) == decimal(n / 10).push(last));
        assert(decimal(n).drop_last() == decimal(n / 10));
        assert(decimal(n).last() == last);
        assert(n / 10 * 10 + n % 10 == n);
    } else {
        assert(n % 10 == n);
        assert(decimal(n) == seq![last]);
        assert(decimal(n).drop_last() == Seq::<char>::empty());
        assert(decimal(n).last() == last);
        assert(digits_value(Seq::<char>::empty()) == 0);
    }
}

/// A number is read as it was written.
proof fn lemma_signed_value(n: i32)
    ensures
        signed_value(signed_decimal(n as int)) == Some(n),
{
    if n < 0 {
        lemma_decimal_value((-n) as nat);
        let written = signed_decimal(n as int);
        assert(written.skip(1) =~= decimal((-n) as nat));
    } else {
        lemma_decimal_value(n as nat);
        lemma_decimal_chars(n as nat);
        assert(is_digit_or_sign(decimal(n as nat)[0]));
    }
}

/// The parts of a net's entry: a line break, no quote up to the number's end, and the
/// parenthesis that opens it is the last one before its number.
proof fn lemma_entry_parts(net_id: i32, net_name: Seq<char>)
    ensures
        ({
            let piece = net_entry_text(net_id, net_name);
            let number = signed_decimal(net_id as int);
            let space = 8 + number.len();
            &&& piece.len() == space + net_pattern(net_name).len()
            &&& piece[0] == '\n'
            &&& piece.subrange(3, 8) == "(net "@
            &&& piece.subrange(8, space as int) == number
            &&& piece.skip(space as int) == net_pattern(net_name)
            &&& forall|j: int| 0 <= j <= space ==> #[trigger] piece[j] != '"'
            &&& forall|j: int| 3 < j < space ==> #[trigger] piece[j] != '('
        }),
{
    let piece = net_entry_text(net_id, net_name);
    let number = signed_decimal(net_id as int);
    let space = 8 + number.len();
    reveal_strlit("\n  (net ");
    reveal_strlit(" \"");
    reveal_strlit("\")");
    reveal_strlit("(net ");
    lemma_signed_decimal_chars(net_id as int);
    assert(piece.subrange(3, 8) =~= "(net "@);
    assert(piece.subrange(8, space as int) =~= number);
    assert(piece.skip(space as int) =~= net_pattern(net_name));
    assert forall|j: int| 0 <= j <= space implies #[trigger] piece[j] != '"' by {
        if 8 <= j < space {
            assert(piece[j] == number[j - 8]);
        }
    }
    assert forall|j: int| 3 < j < space implies #[trigger] piece[j] != '(' by {
        if 8 <= j {
            assert(piece[j] == number[j - 8]);
        }
    }
}

/// An entry put in at `at`, whose name is quoted behind `own`, brings no match of its pattern
/// before that.
proof fn lemma_no_earlier_entry(
    content: Seq<char>,
    edited: Seq<char>,
    piece: Seq<char>,
    pattern: Seq<char>,
    name: Seq<char>,
    at: int,
    own: int,
    j: int,
)
    requires
        0 <= at <= content.len(),
        at <= own,
        own - at + 1 < piece.len(),
        edited.len() == content.len() + piece.len(),
        edited.take(at) == content.take(at),
        forall|k: int| 0 <= k < piece.len() ==> edited[at + k] == #[trigger] piece[k],
        piece[0] == '\n',
        piece[own - at + 1] == '"',
        forall|k: int| 0 <= k <= own - at ==> #[trigger] piece[k] != '"',
        pattern.len() == name.len() + 4,
        pattern[1] == '"',
        pattern[name.len() + 2int] == '"',
        pattern[name.len() + 3int] == ')',
        forall|k: int| 2 <= k < name.len() + 2 ==> #[trigger] pattern[k] == name[k - 2],
        is_plain_name(name),
        !has_at(content, pattern, j),
        0 <= j < own,
    ensures
        !has_at(edited, pattern, j),
{
    if has_at(edited, pattern, j) {
        let second = j + name.len() + 2;
        assert(edited[at + 0] == piece[0]);
        if j + pattern.len() <= at {
            lemma_same_text(content, edited, pattern, at, j);
        } else if second < at {
            lemma_match_covers(edited, pattern, j, at);
        } else if second <= own {
            lemma_match_covers(edited, pattern, j, second);
            assert(edited[at + (second - at)] == piece[second - at]);
        } else if second > own + 1 {
            lemma_match_covers(edited, pattern, j, own + 1);
            assert(edited[at + (own - at + 1)] == piece[own - at + 1]);
            assert(pattern[own + 1 - j] == name[own + 1 - j - 2]);
        } else if j + 1 < at {
            lemma_match_covers(edited, pattern, j, at);
            assert(pattern[at - j] == name[at - j - 2]);
        } else {
            lemma_match_covers(edited, pattern, j, j + 1);
            assert(edited[at + (j + 1 - at)] == piece[j + 1 - at]);
        }
    }
}

proof fn lemma_pattern_parts(net_name: Seq<char>)
    ensures
        ({
            let pattern = net_pattern(net_name);
            &&& pattern.len() == net_name.len() + 4
            &&& pattern[1] == '"'
            &&& pattern[net_name.len() + 2int] == '"'
            &&& pattern[net_name.len() + 3int] == ')'
            &&& forall|k: int|
                2 <= k < net_name.len() + 2 ==> #[trigger] pattern[k] == net_name[k - 2]
        }),
{
    reveal_strlit(" \"");
    reveal_strlit("\")");
}

/// Such an entry is where its pattern is first found.
proof fn lemma_entry_is_first(
    content: Seq<char>,
    piece: Seq<char>,
    pattern: Seq<char>,
    name: Seq<char>,
    at: int,
    space: int,
)
    requires
        0 <= at <= content.len(),
        0 <= space,
        piece.len() == space + pattern.len(),
        piece.skip(space) == pattern,
        piece[0] == '\n',
        forall|k: int| 0 <= k <= space ==> #[trigger] piece[k] != '"',
        pattern.len() == name.len() + 4,
        pattern[1] == '"',
        pattern[name.len() + 2int] == '"',
        pattern[name.len() + 3int] == ')',
        forall|k: int| 2 <= k < name.len() + 2 ==> #[trigger] pattern[k] == name[k - 2],
        is_plain_name(name),
        forall|j: int| 0 <= j ==> !has_at(content, pattern, j),
    ensures
        find(with_piece(content, at, piece), pattern) == Some(at + space),
{
    let edited = with_piece(content, at, piece);
    let own = at + space;
    an_edit_keeps_the_rest(content, at, piece);
    assert(edited.subrange(own, own + pattern.len()) =~= pattern) by {
        assert(edited.subrange(at, at + piece.len()).skip(space) =~= edited.subrange(
            own,
            own + pattern.len(),
        ));
    }
    assert forall|k: int| 0 <= k < piece.len() implies edited[at + k] == #[trigger] piece[k] by {
        assert(edited.subrange(at, at + piece.len())[k] == edited[at + k]);
    }
    assert(piece.skip(space)[1] == piece[space + 1]);
    assert forall|j: int| 0 <= j < own implies !#[trigger] has_at(edited, pattern, j) by {
        lemma_no_earlier_entry(content, edited, piece, pattern, name, at, own, j);
    }
    assert(has_at(edited, pattern, own));
    text::lemma_find_is_first(edited, pattern, 0);
}

/// A net that was added is found under the number that it was given, where the file held no
/// entry that ends like its own.
pub proof fn an_added_net_is_found(content: Seq<char>, net_id: i32, net_name: Seq<char>)
    requires
        find(content, net_pattern(net_name)) is None,
        is_plain_name(net_name),
    ensures
        number_is_reachable(
            with_piece(content, closing_place(content), net_entry_text(net_id, net_name)),
            net_name,
        ),
        net_number(
            with_piece(content, closing_place(content), net_entry_text(net_id, net_name)),
            net_name,
        ) == net_id,
{
    let p = "(net "@;
    let at = closing_place(content);
    let piece = net_entry_text(net_id, net_name);
    let edited = with_piece(content, at, piece);
    let number = signed_decimal(net_id as int);
    let own = at + 8 + number.len();
    lemma_closing_place(content);
    lemma_entry_parts(net_id, net_name);
    lemma_pattern_parts(net_name);
    text::lemma_find_is_first(content, net_pattern(net_name), 0);
    lemma_entry_is_first(
        content,
        piece,
        net_pattern(net_name),
        net_name,
        at,
        8int + number.len(),
    );
    an_edit_keeps_the_rest(content, at, piece);
    reveal_strlit("(net ");
    let before = edited.take(own);
    assert forall|k: int| 0 <= k < own - at implies before[at + k] == #[trigger] piece[k] by {
        assert(edited.subrange(at, at + piece.len())[k] == edited[at + k]);
    }
    assert(before.subrange(at + 3, at + 8) =~= piece.subrange(3, 8));
    assert(has_at(before, p, at + 3));
    assert forall|j: int| at + 3 < j <= before.len() - p.len() implies !#[trigger] has_at(
        before,
        p,
        j,
    ) by {
        if has_at(before, p, j) {
            lemma_match_covers(before, p, j, j);
            assert(before[at + (j - at)] == piece[j - at]);
        }
    }
    text::lemma_rfind_is_last(before, p, before.len() - p.len());
    assert(rfind(before, p) == Some(at + 3));
    let text = before.skip(at + 8);
    assert(text =~= number) by {
        assert forall|k: int| 0 <= k < number.len() implies text[k] == number[k] by {
            assert(piece.subrange(8, 8 + number.len() as int)[k] == number[k]);
            assert(before[at + (8 + k)] == piece[8 + k]);
        }
    }
    reveal_strlit(" ");
    lemma_signed_decimal_chars(net_id as int);
    text::lemma_find_is_first(number, " "@, 0);
    assert forall|j: int| 0 <= j implies !#[trigger] has_at(number, " "@, j) by {
        if has_at(number, " "@, j) {
            lemma_match_covers(number, " "@, j, j);
            assert(is_digit_or_sign(number[j]));
        }
    }
    assert(number.take(number.len() as int) == number);
    lemma_signed_value(net_id);
}

} // verus!
