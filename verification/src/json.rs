//! Frames the renderer payload as JSON text.
//!
//! The external renderer reads its overrides from a JSON file holding named
//! parameter sets and a format-version tag. The library produces that text
//! itself, character for character: one member per parameter, every value a
//! string with quotes, backslashes and control characters escaped. The
//! surrounding binary only writes the finished text to disk.

use vstd::prelude::*;
use crate::swatch::CustomizerSettings;

verus! {

/// The character for one hexadecimal digit, lower case.
pub open spec fn spec_hex_char(d: int) -> char
    recommends
        0 <= d < 16,
{
    if d < 10 {
        (d + 48) as char
    } else {
        (d + 87) as char
    }
}

/// The JSON escape of one character: a backslash before quotes and
/// backslashes, a `\u00XX` escape for control characters, the character
/// itself otherwise.
pub open spec fn spec_escape_char(c: char) -> Seq<char> {
    if c == '"' {
        seq!['\\', '"']
    } else if c == '\\' {
        seq!['\\', '\\']
    } else if (c as int) < 32 {
        seq!['\\', 'u', '0', '0', spec_hex_char(c as int / 16), spec_hex_char(c as int % 16)]
    } else {
        seq![c]
    }
}

/// The JSON escape of a whole string value.
pub open spec fn spec_escape(s: Seq<char>) -> Seq<char>
    decreases s.len(),
{
    if s.len() == 0 {
        Seq::empty()
    } else {
        spec_escape(s.drop_last()) + spec_escape_char(s.last())
    }
}

/// One object member `"key":"value"`, the key written as given, the value
/// escaped.
pub open spec fn spec_member(key: Seq<char>, val: Seq<char>) -> Seq<char> {
    seq!['"'] + key + "\":\""@ + spec_escape(val) + seq!['"']
}

fn hex_char(d: u32) -> (c: char)
    requires
        d < 16,
    ensures
        c == spec_hex_char(d as int),
{
    match d {
        0 => '0',
        1 => '1',
        2 => '2',
        3 => '3',
        4 => '4',
        5 => '5',
        6 => '6',
        7 => '7',
        8 => '8',
        9 => '9',
        10 => 'a',
        11 => 'b',
        12 => 'c',
        13 => 'd',
        14 => 'e',
        _ => 'f',
    }
}

/// Appends the JSON escape of `s` to `out`.
fn escape_into(out: &mut String, s: &str)
    ensures
        final(out)@ == old(out)@ + spec_escape(s@),
{
    let n = s.unicode_len();
    let mut i: usize = 0;
    while i < n
        invariant
            i <= n,
            n == s@.len(),
            out@ == old(out)@ + spec_escape(s@.take(i as int)),
        decreases n - i,
    {
        let c = s.get_char(i);
        let ghost prev = out@;
        if c == '"' {
            out.push('\\');
            out.push('"');
        } else if c == '\\' {
            out.push('\\');
            out.push('\\');
        } else {
            let code = c as u32;
            if code < 32 {
                out.push('\\');
                out.push('u');
                out.push('0');
                out.push('0');
                out.push(hex_char(code / 16));
                out.push(hex_char(code % 16));
            } else {
                out.push(c);
            }
        }
        proof {
            let t = s@.take(i as int + 1);
            assert(t.drop_last() =~= s@.take(i as int));
            assert(t.last() == c);
            assert(out@ =~= prev + spec_escape_char(c));
        }
        i = i + 1;
    }
    proof {
        assert(s@.take(n as int) =~= s@);
    }
}

/// Appends one object member to `out`.
fn append_member(out: &mut String, key: &str, value: &str)
    ensures
        final(out)@ == old(out)@ + spec_member(key@, value@),
{
    let ghost at_start = out@;
    out.push('"');
    out.append(key);
    out.append("\":\"");
    escape_into(out, value);
    out.push('"');
    proof {
        assert(out@ =~= at_start + spec_member(key@, value@));
    }
}

/// The JSON text of the whole payload: the one parameter set under the fixed
/// name `Generator`, then the format-version tag.
pub open spec fn spec_settings_json(s: CustomizerSettings) -> Seq<char> {
    let g = s.generator;
    "{\"parameterSets\":{\"Generator\":{"@ + spec_member("$fn"@, g.fragments@) + ","@
        + spec_member("edge_tests"@, g.edge_tests@) + ","@
        + spec_member("font_recessed"@, g.font_recessed@) + ","@
        + spec_member("fontname"@, g.fontname@) + ","@
        + spec_member("h"@, g.h@) + ","@
        + spec_member("linesep"@, g.linesep@) + ","@
        + spec_member("r_hole"@, g.r_hole@) + ","@
        + spec_member("r_indent"@, g.r_indent@) + ","@
        + spec_member("round"@, g.round@) + ","@
        + spec_member("step_thickness_correction"@, g.step_thickness_correction@) + ","@
        + spec_member("steps_text"@, g.steps_text@) + ","@
        + spec_member("steps_text_format"@, g.steps_text_format@) + ","@
        + spec_member("steps_text_rotate"@, g.steps_text_rotate@) + ","@
        + spec_member("steps_textheight"@, g.steps_textheight@) + ","@
        + spec_member("steps_textsize"@, g.steps_textsize@) + ","@
        + spec_member("steps_thickness"@, g.steps_thickness@) + ","@
        + spec_member("tack_hole"@, g.tack_hole@) + ","@
        + spec_member("test_circles"@, g.test_circles@) + ","@
        + spec_member("text_type"@, g.text_type@) + ","@
        + spec_member("textsize_lower"@, g.textsize_lower@) + ","@
        + spec_member("textsize_upper"@, g.textsize_upper@) + ","@
        + spec_member("textstring1"@, g.textstring1@) + ","@
        + spec_member("textstring2"@, g.textstring2@) + ","@
        + spec_member("textstring3"@, g.textstring3@) + ","@
        + spec_member("texttop"@, g.texttop@) + ","@
        + spec_member("texttop_configurable"@, g.texttop_configurable@) + ","@
        + spec_member("th"@, g.th@) + ","@
        + spec_member("thole_d"@, g.thole_d@) + ","@
        + spec_member("thole_top_shiftright"@, g.thole_top_shiftright@) + ","@
        + spec_member("w"@, g.w@) + ","@
        + spec_member("wall"@, g.wall@) + "}},"@
        + spec_member("fileFormatVersion"@, s.file_format_version@) + "}"@
}

/// Serializes the payload to the JSON text the renderer reads.
pub fn settings_to_json(s: &CustomizerSettings) -> (t: String)
    ensures
        t@ == spec_settings_json(*s),
{
    let mut out = String::from_str("{\"parameterSets\":{\"Generator\":{");
    append_member(&mut out, "$fn", s.generator.fragments.as_str());
    out.append(",");
    append_member(&mut out, "edge_tests", s.generator.edge_tests.as_str());
    out.append(",");
    append_member(&mut out, "font_recessed", s.generator.font_recessed.as_str());
    out.append(",");
    append_member(&mut out, "fontname", s.generator.fontname.as_str());
    out.append(",");
    append_member(&mut out, "h", s.generator.h.as_str());
    out.append(",");
    append_member(&mut out, "linesep", s.generator.linesep.as_str());
    out.append(",");
    append_member(&mut out, "r_hole", s.generator.r_hole.as_str());
    out.append(",");
    append_member(&mut out, "r_indent", s.generator.r_indent.as_str());
    out.append(",");
    append_member(&mut out, "round", s.generator.round.as_str());
    out.append(",");
    append_member(&mut out, "step_thickness_correction", s.generator.step_thickness_correction.as_str());
    out.append(",");
    append_member(&mut out, "steps_text", s.generator.steps_text.as_str());
    out.append(",");
    append_member(&mut out, "steps_text_format", s.generator.steps_text_format.as_str());
    out.append(",");
    append_member(&mut out, "steps_text_rotate", s.generator.steps_text_rotate.as_str());
    out.append(",");
    append_member(&mut out, "steps_textheight", s.generator.steps_textheight.as_str());
    out.append(",");
    append_member(&mut out, "steps_textsize", s.generator.steps_textsize.as_str());
    out.append(",");
    append_member(&mut out, "steps_thickness", s.generator.steps_thickness.as_str());
    out.append(",");
    append_member(&mut out, "tack_hole", s.generator.tack_hole.as_str());
    out.append(",");
    append_member(&mut out, "test_circles", s.generator.test_circles.as_str());
    out.append(",");
    append_member(&mut out, "text_type", s.generator.text_type.as_str());
    out.append(",");
    append_member(&mut out, "textsize_lower", s.generator.textsize_lower.as_str());
    out.append(",");
    append_member(&mut out, "textsize_upper", s.generator.textsize_upper.as_str());
    out.append(",");
    append_member(&mut out, "textstring1", s.generator.textstring1.as_str());
    out.append(",");
    append_member(&mut out, "textstring2", s.generator.textstring2.as_str());
    out.append(",");
    append_member(&mut out, "textstring3", s.generator.textstring3.as_str());
    out.append(",");
    append_member(&mut out, "texttop", s.generator.texttop.as_str());
    out.append(",");
    append_member(&mut out, "texttop_configurable", s.generator.texttop_configurable.as_str());
    out.append(",");
    append_member(&mut out, "th", s.generator.th.as_str());
    out.append(",");
    append_member(&mut out, "thole_d", s.generator.thole_d.as_str());
    out.append(",");
    append_member(&mut out, "thole_top_shiftright", s.generator.thole_top_shiftright.as_str());
    out.append(",");
    append_member(&mut out, "w", s.generator.w.as_str());
    out.append(",");
    append_member(&mut out, "wall", s.generator.wall.as_str());
    out.append("}},");
    append_member(&mut out, "fileFormatVersion", s.file_format_version.as_str());
    out.append("}");
    out
}

} // verus!
