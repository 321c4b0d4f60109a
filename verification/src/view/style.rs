//! How the cursor and its line are styled.
use vstd::prelude::*;
use vstd::utf8::{
    decode_utf8, decode_utf8_split, encode_utf8, encode_utf8_decode_utf8,
    encode_utf8_valid_utf8, is_ascii_chars, is_ascii_chars_encode_utf8, is_char_boundary,
    is_char_boundary_iff_not_is_continuation_byte, is_char_boundary_start_end_of_seq,
    is_continuation_byte,
};
use crate::keymap::message::Mode;
use crate::model::buffer::{BufferLine, Color, Cursor, CursorPosition, StylePartial, ViewPort};

verus! {

/// The style of the line the cursor is on.
pub open spec fn cursor_line_style() -> StylePartial {
    StylePartial::Background(Color::DarkGray)
}

/// The style of the cell the cursor is on.
pub open spec fn cursor_style() -> StylePartial {
    StylePartial::Reversed
}

/// The number of characters of a line that the cursor can stand on when
/// `rest` characters of it lie at or after the viewport's first column: as
/// many as fit, and one even where there is none.
pub open spec fn line_length(vp: ViewPort, rest: int) -> int {
    if rest > vp.content_width {
        vp.content_width as int
    } else if rest == 0 {
        1
    } else {
        rest
    }
}

/// The column of the cursor within the content, for a cursor that is shown.
pub open spec fn cursor_column(vp: ViewPort, position: CursorPosition, rest: int) -> int {
    match position {
        CursorPosition::Absolute(i) => {
            let corrected = i - vp.horizontal_index;
            if corrected < line_length(vp, rest) {
                corrected
            } else {
                line_length(vp, rest) - 1
            }
        },
        _ => line_length(vp, rest) - vp.horizontal_index - 1,
    }
}

/// Whether the line with index `index` on screen is the one the cursor is on.
pub open spec fn on_cursor_line(vp: ViewPort, cursor: Option<Cursor>, index: usize) -> bool {
    cursor is Some && cursor.unwrap().vertical_index - vp.vertical_index == index
}

/// Whether the cursor itself is drawn: only in normal mode, and only if it
/// has a place in the line.
pub open spec fn cursor_shown(mode: Mode, cursor: Option<Cursor>) -> bool {
    mode == Mode::Normal && cursor is Some && cursor.unwrap().horizontial_index
        != CursorPosition::Hidden
}

/// The number of characters of `content` at or after its byte `byte`,
/// where the bytes of a text are its UTF-8 encoding.
pub open spec fn characters_from(content: Seq<char>, byte: int) -> int {
    let bytes = encode_utf8(content);
    decode_utf8(bytes.subrange(byte, bytes.len() as int)).len() as int
}

/// Whether a character of `content` begins at its byte `byte`, or the
/// content ends there.
pub open spec fn begins_character(content: Seq<char>, byte: int) -> bool {
    is_char_boundary(encode_utf8(content), byte)
}

/// On a line of one-byte characters a character begins at every byte, and
/// the characters at or after a byte are as many as the bytes.
pub proof fn lemma_characters_from_ascii(content: Seq<char>, byte: int)
    requires
        is_ascii_chars(content),
        0 <= byte <= content.len(),
    ensures
        begins_character(content, byte),
        characters_from(content, byte) == content.len() - byte,
{
    let bytes = encode_utf8(content);
    let head = content.take(byte);
    is_ascii_chars_encode_utf8(content);
    is_ascii_chars_encode_utf8(head);
    encode_utf8_valid_utf8(content);
    encode_utf8_decode_utf8(content);
    encode_utf8_decode_utf8(head);
    if byte < bytes.len() {
        let b = bytes[byte];
        assert(content[byte] as u8 == b);
        assert(b < 128);
        assert(!is_continuation_byte(b));
        is_char_boundary_iff_not_is_continuation_byte(bytes, byte);
    } else {
        is_char_boundary_start_end_of_seq(bytes);
    }
    assert(bytes.subrange(0, byte) =~= encode_utf8(head)) by {
        assert forall|i: int| 0 <= i < byte implies bytes[i] == encode_utf8(head)[i] by {
            assert(content[i] as u8 == bytes[i]);
            assert(head[i] as u8 == encode_utf8(head)[i]);
        }
    }
    decode_utf8_split(bytes, byte);
    let tail = decode_utf8(bytes.subrange(byte, bytes.len() as int));
    assert(content =~= head + tail);
    assert(content.len() == head.len() + tail.len());
}

/// The styles that the cursor gives to the line with index `index` on
/// screen, of which `rest` characters lie at or after the byte at which the
/// viewport begins: none unless the cursor is on that line; else the style
/// of the cursor line over the whole content, and, where the cursor is
/// shown, the style of the cursor on its cell.
pub open spec fn style_partials(
    vp: ViewPort,
    mode: Mode,
    cursor: Option<Cursor>,
    index: usize,
    rest: int,
) -> Seq<(usize, usize, StylePartial)> {
    if !on_cursor_line(vp, cursor, index) {
        Seq::empty()
    } else {
        let offset = vp.offset_width();
        let line = (offset as usize, (offset + vp.content_width) as usize, cursor_line_style());
        if !cursor_shown(mode, cursor) {
            seq![line]
        } else {
            let column = cursor_column(vp, cursor.unwrap().horizontial_index, rest);
            seq![line, ((offset + column) as usize, (offset + column + 1) as usize, cursor_style())]
        }
    }
}

/// What the computation of the styles needs so that no index runs out of
/// its range: the cursor is not above the viewport; on the cursor line, the
/// viewport begins at a byte of `content` at which a character begins, or
/// at its end, and the columns fit the machine; and where the cursor is
/// shown, it is not left of the viewport and its column is not negative.
pub open spec fn style_partials_defined(
    vp: ViewPort,
    mode: Mode,
    cursor: Option<Cursor>,
    index: usize,
    content: Seq<char>,
) -> bool {
    &&& cursor is Some ==> cursor.unwrap().vertical_index >= vp.vertical_index
    &&& on_cursor_line(vp, cursor, index) ==> {
        &&& begins_character(content, vp.horizontal_index as int)
        &&& vp.offset_width() + vp.content_width <= usize::MAX
    }
    &&& on_cursor_line(vp, cursor, index) && cursor_shown(mode, cursor) ==> {
        let rest = characters_from(content, vp.horizontal_index as int);
        let column = cursor_column(vp, cursor.unwrap().horizontial_index, rest);
        &&& cursor.unwrap().horizontial_index matches CursorPosition::Absolute(i) ==> i
            >= vp.horizontal_index
        &&& line_length(vp, rest) >= 1
        &&& column >= 0
        &&& vp.offset_width() + column + 1 <= usize::MAX
    }
}

/// The styles that the cursor gives to `line`, which is shown as the line
/// with index `index` of the viewport. The viewport begins at the byte
/// `vp.horizontal_index` of the line.
pub fn get_style_partials(
    vp: &ViewPort,
    mode: &Mode,
    cursor: &Option<Cursor>,
    index: &usize,
    line: &BufferLine,
) -> (spans: Vec<(usize, usize, StylePartial)>)
    requires
        style_partials_defined(*vp, *mode, *cursor, *index, line.content@),
    ensures
        spans@ == style_partials(
            *vp,
            *mode,
            *cursor,
            *index,
            characters_from(line.content@, vp.horizontal_index as int),
        ),
{
    match cursor {
        Some(cursor) => {
            if cursor.vertical_index - vp.vertical_index != *index {
                return Vec::new();
            }
            let offset = vp.get_offset_width();
            let width = offset + vp.content_width;
            let (_, shown) = line.content.as_str().split_at(vp.horizontal_index);
            proof {
                encode_utf8_decode_utf8(shown@);
                assert(shown@.len() == characters_from(
                    line.content@,
                    vp.horizontal_index as int,
                ));
            }
            let rest = shown.unicode_len();
            let line_length = if rest > vp.content_width {
                vp.content_width
            } else if rest == 0 {
                1
            } else {
                rest
            };
            let mut spans: Vec<(usize, usize, StylePartial)> = Vec::new();
            spans.push((offset, width, StylePartial::Background(Color::DarkGray)));
            if *mode != Mode::Normal {
                proof {
                    assert(spans@ =~= seq![(offset, width, cursor_line_style())]);
                }
                return spans;
            }
            let cursor_index = match cursor.horizontial_index {
                CursorPosition::Absolute(i) => {
                    let corrected_index = i - vp.horizontal_index;
                    if corrected_index < line_length {
                        corrected_index
                    } else {
                        line_length - 1
                    }
                },
                CursorPosition::End => line_length - vp.horizontal_index - 1,
                CursorPosition::Hidden => {
                    proof {
                        assert(spans@ =~= seq![(offset, width, cursor_line_style())]);
                    }
                    return spans;
                },
            };
            spans.push((offset + cursor_index, offset + cursor_index + 1, StylePartial::Reversed));
            proof {
                assert(spans@ =~= seq![
                    (offset, width, cursor_line_style()),
                    (
                        (offset + cursor_index) as usize,
                        (offset + cursor_index + 1) as usize,
                        cursor_style(),
                    ),
                ]);
            }
            spans
        },
        None => Vec::new(),
    }
}

} // verus!
