//! What stands in a board file after an edit, and what is read from it.

use crate::board_file::{
    after_bytes, assigned, closing_from, closing_place, corners_text, net_entry_text, net_number,
    netclass_place, netclass_text, number_is_reachable, signed_value, utf8_len, with_piece,
    zone_text, AssignmentView, CornerText,
};
use crate::json::ToolErrorView;
use crate::laws::numbers::a_text_is_found_at_its_first_and_last_place;
use crate::text::{all_digits, decimal, digits_value, find, has_at, rfind, signed_decimal};
use vstd::prelude::*;

verus! {

// Places.

/// A piece that is put in stands at its place, character by character, with all that was
/// there before it and behind it.
pub proof fn a_piece_stands_where_it_was_put(content: Seq<char>, at: int, piece: Seq<char>)
    requires
        0 <= at <= content.len(),
    ensures
        with_piece(content, at, piece).len() == content.len() + piece.len(),
        forall|j: int| 0 <= j < at ==> #[trigger] with_piece(content, at, piece)[j] == content[j],
        forall|j: int|
            0 <= j < piece.len() ==> with_piece(content, at, piece)[at + j] == #[trigger] piece[j],
        forall|j: int|
            at <= j < content.len() ==> with_piece(content, at, piece)[j + piece.len()]
                == #[trigger] content[j],
{
}

/// Whether a text stands at a place of another one.
pub open spec fn stands_at(s: Seq<char>, p: Seq<char>, place: int) -> bool {
    &&& 0 <= place <= s.len() - p.len()
    &&& forall|j: int| 0 <= j < p.len() ==> s[place + j] == #[trigger] p[j]
}

/// Whether a place is the first one at or after `from` where a text stands.
pub open spec fn first_stands_at(s: Seq<char>, p: Seq<char>, from: int, place: int) -> bool {
    &&& from <= place && stands_at(s, p, place)
    &&& forall|j: int| from <= j < place ==> !#[trigger] stands_at(s, p, j)
}

proof fn lemma_stands(s: Seq<char>, p: Seq<char>, i: int)
    ensures
        has_at(s, p, i) <==> stands_at(s, p, i),
{
    if has_at(s, p, i) {
        assert forall|j: int| 0 <= j < p.len() implies s[i + j] == #[trigger] p[j] by {
            assert(s.subrange(i, i + p.len())[j] == p[j]);
        }
    }
    if stands_at(s, p, i) {
        assert(s.subrange(i, i + p.len()) =~= p);
    }
}

pub(crate) proof fn lemma_found(s: Seq<char>, p: Seq<char>, from: int)
    requires
        0 <= from <= s.len(),
    ensures
        match find(s.skip(from), p) {
            Some(k) => first_stands_at(s, p, from, from + k),
            None => forall|j: int| from <= j ==> !#[trigger] stands_at(s, p, j),
        },
{
    let rest = s.skip(from);
    a_text_is_found_at_its_first_and_last_place(rest, p);
    assert forall|j: int| from <= j implies (stands_at(s, p, j) <==> has_at(
        rest,
        p,
        j - from,
    )) by {
        lemma_stands(rest, p, j - from);
        if stands_at(s, p, j) {
            assert(stands_at(rest, p, j - from));
        }
        if stands_at(rest, p, j - from) {
            assert forall|i: int| 0 <= i < p.len() implies s[j + i] == #[trigger] p[i] by {
                assert(rest[j - from + i] == p[i]);
            }
        }
    }
}

/// A file is closed at its last closing parenthesis; where it has none, at its end.
pub proof fn a_file_is_closed_at_its_last_parenthesis(content: Seq<char>)
    ensures
        content.contains(')') ==> 0 <= closing_place(content) < content.len()
            && content[closing_place(content)] == ')' && forall|j: int|
            closing_place(content) < j < content.len() ==> content[j] != ')',
        !content.contains(')') ==> closing_place(content) == content.len(),
{
    reveal_strlit(")");
    a_text_is_found_at_its_first_and_last_place(content, ")"@);
    assert forall|j: int| 0 <= j < content.len() && content[j] == ')' implies has_at(
        content,
        ")"@,
        j,
    ) by {
        lemma_stands(content, ")"@, j);
        assert(stands_at(content, ")"@, j));
    }
    if let Some(k) = rfind(content, ")"@) {
        lemma_stands(content, ")"@, k);
        assert(content[k + 0] == ")"@[0]);
        assert(content.contains(')'));
    } else {
        if content.contains(')') {
            let j = choose|j: int| 0 <= j < content.len() && content[j] == ')';
            assert(has_at(content, ")"@, j));
        }
    }
}

// Nets.

/// A net is written as its number and its name, in an entry of its own on a new line.
pub proof fn a_net_is_written_with_its_number_and_name(net_id: i32, net_name: Seq<char>)
    ensures
        net_id >= 0 ==> net_entry_text(net_id, net_name) == "\n  (net "@ + decimal(net_id as nat)
            + " \""@ + net_name + "\")"@,
        net_id < 0 ==> net_entry_text(net_id, net_name) == "\n  (net "@ + (seq!['-'] + decimal(
            (-net_id) as nat,
        )) + " \""@ + net_name + "\")"@,
{
    crate::laws::numbers::numbers_are_written_in_decimal(
        (if net_id >= 0 {
            net_id as int
        } else {
            -net_id
        }) as nat,
        0,
    );
}

/// A net that no entry names has number 0.
pub proof fn an_unnamed_net_has_no_number(content: Seq<char>, net_name: Seq<char>)
    requires
        forall|j: int| !#[trigger] stands_at(content, " \""@ + net_name + "\")"@, j),
    ensures
        net_number(content, net_name) == 0,
        number_is_reachable(content, net_name),
{
    let pattern = " \""@ + net_name + "\")"@;
    assert(content.skip(0) =~= content);
    lemma_found(content, pattern, 0);
}

/// A number is read from its digits, with a sign before them or without one, where it fits in
/// 32 bits; anything else is not read.
pub proof fn a_number_is_read_with_its_sign(digits: Seq<char>, s: Seq<char>)
    requires
        all_digits(digits),
    ensures
        digits_value(digits) <= 0x7fff_ffff ==> signed_value(digits) == Some(
            digits_value(digits) as i32,
        ) && signed_value(seq!['+'] + digits) == Some(digits_value(digits) as i32),
        digits_value(digits) <= 0x8000_0000 ==> signed_value(seq!['-'] + digits) == Some(
            (-(digits_value(digits) as int)) as i32,
        ),
        digits_value(digits) > 0x7fff_ffff ==> signed_value(digits) is None,
        digits_value(digits) > 0x8000_0000 ==> signed_value(seq!['-'] + digits) is None,
        !all_digits(s) && !(s.len() > 0 && (s[0] == '-' || s[0] == '+') && all_digits(s.skip(1)))
            ==> signed_value(s) is None,
{
    assert((seq!['+'] + digits).skip(1) =~= digits);
    assert((seq!['-'] + digits).skip(1) =~= digits);
    crate::laws::numbers::digits_are_read_in_decimal(digits, '0');
    assert(crate::laws::numbers::is_one_digit(digits[0]));
}

/// How many bytes a text takes in UTF-8.
pub open spec fn bytes_of(s: Seq<char>, i: int, k: int) -> int
    decreases k - i,
{
    if i >= k {
        0
    } else {
        (if (s[i] as u32) < 128 {
            1int
        } else if (s[i] as u32) < 2048 {
            2
        } else if (s[i] as u32) < 65536 {
            3
        } else {
            4
        }) + bytes_of(s, i + 1, k)
    }
}

proof fn lemma_bytes_are_positive(s: Seq<char>, i: int, k: int)
    ensures
        bytes_of(s, i, k) >= 0,
        i < k ==> bytes_of(s, i, k) >= 1,
    decreases k - i,
{
    if i < k {
        lemma_bytes_are_positive(s, i + 1, k);
    }
}

/// A position so many bytes on is one up to which the characters take just that many.
pub proof fn bytes_are_counted_by_character(s: Seq<char>, i: int, bytes: int, k: int)
    requires
        0 <= i <= s.len(),
        0 <= bytes,
    ensures
        after_bytes(s, i, bytes) == Some(k) <==> i <= k <= s.len() && bytes_of(s, i, k) == bytes,
    decreases s.len() - i,
{
    lemma_bytes_are_positive(s, i, k);
    if bytes > 0 && i < s.len() {
        let rest = bytes - utf8_len(s[i]);
        if rest >= 0 {
            bytes_are_counted_by_character(s, i + 1, rest, k);
        } else {
            lemma_bytes_are_positive(s, i + 1, k);
        }
        assert(bytes_of(s, i, i) == 0);
    }
}

/// Whether the number of a net starts at a place: right behind the last `(net ` before its
/// name, or five bytes into the file where there is none.
pub open spec fn number_starts_at(content: Seq<char>, name_at: int, start: int) -> bool {
    let before = content.take(name_at);
    ||| {
        &&& stands_at(before, "(net "@, start - 5)
        &&& forall|j: int| start - 5 < j ==> !#[trigger] stands_at(before, "(net "@, j)
    }
    ||| {
        &&& forall|j: int| !#[trigger] stands_at(before, "(net "@, j)
        &&& 0 <= start <= name_at && bytes_of(before, 0, start) == 5
    }
}

proof fn lemma_number_start(content: Seq<char>, name_at: int, start: int)
    requires
        0 <= name_at <= content.len(),
        number_starts_at(content, name_at, start),
    ensures
        crate::board_file::number_start(content.take(name_at)) == Some(start),
{
    reveal_strlit("(net ");
    let before = content.take(name_at);
    a_text_is_found_at_its_first_and_last_place(before, "(net "@);
    assert forall|j: int| #[trigger] has_at(before, "(net "@, j) == stands_at(
        before,
        "(net "@,
        j,
    ) by {
        lemma_stands(before, "(net "@, j);
    }
    if stands_at(before, "(net "@, start - 5) {
        assert(has_at(before, "(net "@, start - 5));
        let last = rfind(before, "(net "@)->Some_0;
        assert(stands_at(before, "(net "@, last));
    } else {
        bytes_are_counted_by_character(before, 0, 5, start);
        if let Some(last) = rfind(before, "(net "@) {
            assert(stands_at(before, "(net "@, last));
        }
    }
}

proof fn lemma_first_space(number: Seq<char>, end: int)
    requires
        0 <= end <= number.len(),
        forall|j: int| 0 <= j < end ==> number[j] != ' ',
        end == number.len() || number[end] == ' ',
    ensures
        match find(number, " "@) {
            Some(place) => place == end,
            None => end == number.len(),
        },
{
    reveal_strlit(" ");
    assert(number.skip(0) =~= number);
    lemma_found(number, " "@, 0);
    if end < number.len() {
        assert(stands_at(number, " "@, end));
    }
    if let Some(place) = find(number, " "@) {
        assert(stands_at(number, " "@, place));
        assert(number[place + 0] == " "@[0]);
    }
}

/// The number of a net is what stands from there up to the next space, or up to the name;
/// where that is no number it is 0.
pub proof fn a_net_has_the_number_before_its_name(
    content: Seq<char>,
    net_name: Seq<char>,
    name_at: int,
    start: int,
    end: int,
)
    requires
        first_stands_at(content, " \""@ + net_name + "\")"@, 0, name_at),
        number_starts_at(content, name_at, start),
        start <= end <= name_at,
        forall|j: int| start <= j < end ==> content[j] != ' ',
        end == name_at || content[end] == ' ',
    ensures
        number_is_reachable(content, net_name),
        net_number(content, net_name) == match signed_value(content.subrange(start, end)) {
            Some(value) => value,
            None => 0,
        },
{
    let pattern = " \""@ + net_name + "\")"@;
    assert(content.skip(0) =~= content);
    lemma_found(content, pattern, 0);
    assert(stands_at(content, pattern, name_at));
    let k = find(content, pattern)->Some_0;
    assert(find(content, pattern) is Some);
    assert(k == name_at) by {
        assert(first_stands_at(content, pattern, 0, k));
        assert(stands_at(content, pattern, k));
    }
    let before = content.take(name_at);
    lemma_number_start(content, name_at, start);
    lemma_first_space(before.skip(start), end - start);
    assert(before.skip(start).take(end - start) =~= content.subrange(start, end));
}

// Zones.

/// A copper zone is written with its net, layer and identifier, its clearance and least width,
/// and its corners in order, each on a line of its own.
pub proof fn a_zone_is_written_with_what_it_has(
    net_id: i32,
    net_name: Seq<char>,
    layer: Seq<char>,
    uuid: Seq<char>,
    clearance: Seq<char>,
    min_width: Seq<char>,
    corners: Seq<CornerText>,
    corner: CornerText,
)
    ensures
        zone_text(net_id, net_name, layer, uuid, clearance, min_width, corners)
            == "\n  (zone (net "@ + signed_decimal(net_id as int) + ") (net_name \""@ + net_name
            + "\") (layer \""@ + layer + "\") (uuid \""@ + uuid
            + "\")\n    (hatch edge 0.508)\n    (connect_pads (clearance "@ + clearance
            + "))\n    (min_thickness "@ + min_width + ")\n    (fill yes)\n    (polygon (pts"@
            + corners_text(corners) + "\n    ))\n  )"@,
        corners_text(Seq::<CornerText>::empty()).len() == 0,
        corners_text(corners.push(corner)) == corners_text(corners) + "\n      (xy "@ + corner.x@
            + " "@ + corner.y@ + ")"@,
{
    assert(corners.push(corner).drop_last() =~= corners);
    assert(corners_text(corners.push(corner)) =~= corners_text(corners) + "\n      (xy "@
        + corner.x@ + " "@ + corner.y@ + ")"@);
}

// Net classes.

/// A net class is written with its name, and with its clearance, width, drill and diameter,
/// each under its own word.
pub proof fn a_net_class_is_written_with_what_it_has(
    name: Seq<char>,
    clearance: Seq<char>,
    trace_width: Seq<char>,
    via_drill: Seq<char>,
    via_diameter: Seq<char>,
)
    ensures
        netclass_text(name, clearance, trace_width, via_drill, via_diameter)
            == "\n      (netclass \""@ + name + "\"\n        (clearance "@ + clearance
            + ")\n        (trace_width "@ + trace_width + ")\n        (via_drill "@ + via_drill
            + ")\n        (via_diameter "@ + via_diameter + ")\n      )"@,
{
}

/// A net class goes before the first line that closes the block of net classes; where there is
/// no such line, before the block's first closing parenthesis, or before the last character;
/// and where there is no block, where the file is closed.
pub proof fn a_net_class_goes_to_the_end_of_its_block(content: Seq<char>, block: int)
    ensures
        (forall|j: int| !#[trigger] stands_at(content, "(net_classes"@, j)) ==> netclass_place(
            content,
        ) == closing_place(content),
        first_stands_at(content, "(net_classes"@, 0, block) ==> {
            ||| first_stands_at(content, "\n    )"@, block, netclass_place(content))
            ||| {
                &&& forall|j: int| block <= j ==> !#[trigger] stands_at(content, "\n    )"@, j)
                &&& first_stands_at(content, ")"@, block, netclass_place(content))
            }
            ||| {
                &&& forall|j: int| block <= j ==> !#[trigger] stands_at(content, "\n    )"@, j)
                &&& forall|j: int| block <= j ==> !#[trigger] stands_at(content, ")"@, j)
                &&& netclass_place(content) == content.len() - 1
            }
        },
{
    assert(content.skip(0) =~= content);
    lemma_found(content, "(net_classes"@, 0);
    if first_stands_at(content, "(net_classes"@, 0, block) {
        let k = find(content, "(net_classes"@)->Some_0;
        assert(find(content, "(net_classes"@) is Some) by {
            assert(stands_at(content, "(net_classes"@, block));
        }
        assert(k == block) by {
            assert(first_stands_at(content, "(net_classes"@, 0, k));
            assert(stands_at(content, "(net_classes"@, k));
            assert(stands_at(content, "(net_classes"@, block));
        }
        lemma_found(content, "\n    )"@, block);
        lemma_found(content, ")"@, block);
    }
}

/// How many more parentheses are opened than closed from `i` up to `k`.
pub open spec fn balance(s: Seq<char>, i: int, k: int) -> int
    decreases k - i,
{
    if i >= k {
        0
    } else {
        (if s[i] == '(' {
            1int
        } else if s[i] == ')' {
            -1
        } else {
            0
        }) + balance(s, i + 1, k)
    }
}

/// What is open is closed by the first parenthesis that brings the balance back to nothing.
pub proof fn a_block_is_closed_where_its_parentheses_balance(
    s: Seq<char>,
    i: int,
    depth: int,
    end: int,
)
    requires
        0 <= i,
    ensures
        closing_from(s, i, depth) == Some(end) <==> {
            &&& i <= end < s.len() && s[end] == ')'
            &&& depth + balance(s, i, end) == 1
            &&& forall|j: int|
                i <= j < end && s[j] == ')' ==> depth + #[trigger] balance(s, i, j) != 1
        },
    decreases s.len() - i,
{
    if i < s.len() {
        let step: int = if s[i] == '(' {
            1
        } else if s[i] == ')' {
            -1
        } else {
            0
        };
        assert(balance(s, i, i) == 0);
        assert forall|j: int| i < j implies #[trigger] balance(s, i, j) == step + balance(
            s,
            i + 1,
            j,
        ) by {}
        if s[i] == ')' && depth == 1 {
            if i < end {
                assert(depth + balance(s, i, i) == 1);
            }
        } else {
            a_block_is_closed_where_its_parentheses_balance(s, i + 1, depth + step, end);
            assert forall|j: int| i < j implies depth + #[trigger] balance(s, i, j) == depth + step
                + #[trigger] balance(s, i + 1, j) by {}
            if closing_from(s, i, depth) == Some(end) {
                assert forall|j: int| i <= j < end && s[j] == ')' implies depth
                    + #[trigger] balance(s, i, j) != 1 by {
                    if i < j {
                        assert(depth + step + balance(s, i + 1, j) != 1);
                    }
                }
            }
            if i <= end < s.len() && s[end] == ')' && depth + balance(s, i, end) == 1 && (forall|
                j: int,
            |
                i <= j < end && s[j] == ')' ==> depth + #[trigger] balance(s, i, j) != 1) {
                assert(i != end);
                assert forall|j: int| i + 1 <= j < end && s[j] == ')' implies depth + step
                    + #[trigger] balance(s, i + 1, j) != 1 by {
                    assert(depth + balance(s, i, j) != 1);
                }
            }
        }
    }
}

/// A net is put into a net class just where the file has the class: right before the
/// parenthesis that closes the class, on a line of its own, unless the class lists it already.
pub proof fn a_net_is_put_before_the_end_of_its_class(
    content: Seq<char>,
    net_name: Seq<char>,
    netclass: Seq<char>,
    start: int,
    end: int,
)
    ensures
        (forall|j: int| !#[trigger] stands_at(content, "(netclass \""@ + netclass + "\""@, j))
            ==> assigned(content, net_name, netclass) == Err::<AssignmentView, ToolErrorView>(
            ToolErrorView::Said("Netclass '"@ + netclass + "' not found in board file"@),
        ),
        first_stands_at(content, "(netclass \""@ + netclass + "\""@, 0, start) && closing_from(
            content,
            start,
            0,
        ) == Some(end) ==> match assigned(content, net_name, netclass) {
            Ok(AssignmentView::AlreadyAssigned) => exists|j: int|
                start <= j && j + ("(net \""@ + net_name + "\")"@).len() <= end
                    && #[trigger] stands_at(content, "(net \""@ + net_name + "\")"@, j),
            Ok(AssignmentView::Assigned(edited)) => edited == content.take(end) + (
            "\n        (net \""@ + net_name + "\")"@) + content.skip(end) && forall|j: int|
                start <= j && j + ("(net \""@ + net_name + "\")"@).len() <= end
                    ==> !#[trigger] stands_at(content, "(net \""@ + net_name + "\")"@, j),
            Err(_) => false,
        },
{
    let pattern = "(netclass \""@ + netclass + "\""@;
    let listed = "(net \""@ + net_name + "\")"@;
    assert(content.skip(0) =~= content);
    lemma_found(content, pattern, 0);
    if first_stands_at(content, pattern, 0, start) && closing_from(content, start, 0) == Some(
        end,
    ) {
        let k = find(content, pattern)->Some_0;
        assert(stands_at(content, pattern, start));
        assert(find(content, pattern) is Some);
        assert(k == start) by {
            assert(first_stands_at(content, pattern, 0, k));
            assert(stands_at(content, pattern, k));
        }
        a_block_is_closed_where_its_parentheses_balance(content, start, 0, end);
        let block = content.subrange(start, end);
        assert(block.skip(0) =~= block);
        lemma_found(block, listed, 0);
        assert forall|j: int| start <= j && j + listed.len() <= end implies (stands_at(
            content,
            listed,
            j,
        ) <==> stands_at(block, listed, j - start)) by {
            if stands_at(content, listed, j) {
                assert forall|i: int| 0 <= i < listed.len() implies block[j - start + i]
                    == #[trigger] listed[i] by {
                    assert(content[j + i] == listed[i]);
                }
            }
            if stands_at(block, listed, j - start) {
                assert forall|i: int| 0 <= i < listed.len() implies content[j + i]
                    == #[trigger] listed[i] by {
                    assert(block[j - start + i] == listed[i]);
                }
            }
        }
        if let Some(p) = find(block, listed) {
            assert(stands_at(block, listed, p));
            assert(stands_at(content, listed, start + p));
        }
    }
}

} // verus!
