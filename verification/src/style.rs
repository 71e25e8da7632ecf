//! The style sheet that carries the strokes of the store to the parser of
//! the document.
//!
//! The sheet holds one rule for each solid stroke, in document order. A rule
//! selects a node by its id, written as a quoted string in which a quote and
//! a backslash are each preceded by a backslash, and sets its stroke to the
//! colour in hexadecimal notation, before whatever the document itself says.

use crate::color::hex_text;
use crate::scene::{solid_stroke_views, solid_strokes_of, SceneStore, SolidStroke, SolidStrokeView};
use vstd::prelude::*;
use vstd::string::*;

verus! {

/// A character as it stands inside a quoted string: a quote or a backslash
/// with a backslash before it, anything else alone.
pub open spec fn escaped_char(c: char) -> Seq<char> {
    if c == '\\' || c == '"' {
        seq!['\\', c]
    } else {
        seq![c]
    }
}

/// A text as it stands inside a quoted string.
pub open spec fn escaped(text: Seq<char>) -> Seq<char>
    decreases text.len(),
{
    if text.len() == 0 {
        Seq::empty()
    } else {
        escaped(text.drop_last()) + escaped_char(text.last())
    }
}

/// The rule for one stroke.
pub open spec fn stroke_rule_text(stroke: SolidStrokeView) -> Seq<char> {
    "[id=\""@ + escaped(stroke.id) + "\"]{stroke:"@ + hex_text(stroke.color) + " !important}\n"@
}

/// The rules for a list of strokes, one after the other.
pub open spec fn style_sheet_text(strokes: Seq<SolidStrokeView>) -> Seq<char>
    decreases strokes.len(),
{
    if strokes.len() == 0 {
        Seq::empty()
    } else {
        style_sheet_text(strokes.drop_last()) + stroke_rule_text(strokes.last())
    }
}

/// Writes a text as it stands inside a quoted string.
pub fn escape(text: &str) -> (r: String)
    ensures
        r@ == escaped(text@),
{
    let n = text.unicode_len();
    let mut out = String::new();
    let mut i: usize = 0;
    assert(text@.take(0) =~= Seq::<char>::empty());
    while i < n
        invariant
            0 <= i <= n,
            n == text@.len(),
            out@ == escaped(text@.take(i as int)),
        decreases n - i,
    {
        proof {
            let upto = text@.take(i + 1);
            assert(upto.drop_last() == text@.take(i as int));
            assert(upto.last() == text@[i as int]);
        }
        let c = text.get_char(i);
        if c == '\\' {
            proof {
                reveal_strlit("\\\\");
            }
            assert("\\\\"@ =~= seq!['\\', '\\']);
            out.append("\\\\");
        } else if c == '"' {
            proof {
                reveal_strlit("\\\"");
            }
            assert("\\\""@ =~= seq!['\\', '"']);
            out.append("\\\"");
        } else {
            let one = text.substring_char(i, i + 1);
            assert(one@ =~= seq![c]);
            out.append(one);
        }
        i = i + 1;
    }
    assert(text@.take(i as int) == text@);
    out
}

/// Writes the rule for one stroke.
pub fn stroke_rule(stroke: &SolidStroke) -> (r: String)
    ensures
        r@ == stroke_rule_text(stroke@),
{
    let mut out = String::from_str("[id=\"");
    out.append(escape(stroke.id.as_str()).as_str());
    out.append("\"]{stroke:");
    out.append(stroke.color.to_hex().as_str());
    out.append(" !important}\n");
    out
}

/// Writes the style sheet for the strokes that the store holds now.
pub fn style_sheet(store: &SceneStore) -> (r: String)
    ensures
        r@ == style_sheet_text(solid_strokes_of(store@)),
{
    let strokes = store.solid_strokes();
    let ghost listed = solid_stroke_views(strokes@);
    let mut out = String::new();
    let mut i: usize = 0;
    assert(listed.take(0) =~= Seq::<SolidStrokeView>::empty());
    while i < strokes.len()
        invariant
            0 <= i <= strokes.len(),
            listed == solid_stroke_views(strokes@),
            out@ == style_sheet_text(listed.take(i as int)),
        decreases strokes.len() - i,
    {
        proof {
            let upto = listed.take(i + 1);
            assert(upto.drop_last() == listed.take(i as int));
            assert(upto.last() == strokes@[i as int]@);
        }
        out.append(stroke_rule(&strokes[i]).as_str());
        i = i + 1;
    }
    assert(listed.take(i as int) == listed);
    out
}

} // verus!
