//! The swatch design: layout options, the renderer's parameter set, and the
//! builder that turns one inventory record into that set.
//!
//! The external renderer's customization format takes every value as a
//! string, numeric ones included, so the parameter set is a flat record of
//! strings, and the layout holds width and height as the decimal text the
//! renderer receives.

use vstd::prelude::*;
use crate::inventory::{InventoryRecord, RecordModel};
use crate::text::{i32_to_string, spec_dec};

verus! {

/// Which record field a text slot of the swatch shows.
#[derive(Clone, Copy, Debug, PartialEq, Eq, Structural)]
pub enum OutputField {
    Manufacturer,
    Color,
    Temperature,
    Material,
}

/// The design parameters supplied once at startup and shared by all renders.
pub struct SwatchLayout {
    /// Physical width, as its decimal text.
    pub width: String,
    /// Physical height, as its decimal text.
    pub height: String,
    /// The record field shown in the upper text slot.
    pub text_upper: OutputField,
    /// The record field shown in the lower-left text slot.
    pub text_lower_left: OutputField,
    /// The record field shown in the lower-right text slot.
    pub text_lower_right: OutputField,
    /// Text size of the upper slot, in millimetres.
    pub text_size_upper: i8,
    /// Text size of the lower slots, in millimetres.
    pub text_size_lower: i8,
}

/// One named parameter set of the renderer: a flat record of string values.
pub struct SwatchParams {
    pub fragments: String,
    pub edge_tests: String,
    pub font_recessed: String,
    pub fontname: String,
    pub h: String,
    pub linesep: String,
    pub r_hole: String,
    pub r_indent: String,
    pub round: String,
    pub step_thickness_correction: String,
    pub steps_text: String,
    pub steps_text_format: String,
    pub steps_text_rotate: String,
    pub steps_textheight: String,
    pub steps_textsize: String,
    pub steps_thickness: String,
    pub tack_hole: String,
    pub test_circles: String,
    pub text_type: String,
    pub textsize_lower: String,
    pub textsize_upper: String,
    pub textstring1: String,
    pub textstring2: String,
    pub textstring3: String,
    pub texttop: String,
    pub texttop_configurable: String,
    pub th: String,
    pub thole_d: String,
    pub thole_top_shiftright: String,
    pub w: String,
    pub wall: String,
}

/// The text one slot shows for a record: manufacturer, color and material
/// verbatim; temperature in the fixed label format.
pub open spec fn spec_text_field(r: RecordModel, f: OutputField) -> Seq<char> {
    match f {
        OutputField::Manufacturer => r.manufacturer,
        OutputField::Color => r.color,
        OutputField::Temperature => "0.2mm @ "@ + spec_dec(r.temperature) + "°C"@,
        OutputField::Material => r.material,
    }
}

/// Renders the record field selected for one text slot.
pub fn render_text_field(record: &InventoryRecord, field: OutputField) -> (s: String)
    ensures
        s@ == spec_text_field(record@, field),
{
    match field {
        OutputField::Manufacturer => record.manufacturer.clone(),
        OutputField::Color => record.color.clone(),
        OutputField::Material => record.material.clone(),
        OutputField::Temperature => {
            let mut s = String::from_str("0.2mm @ ");
            let digits = i32_to_string(record.temperature);
            s.append(digits.as_str());
            s.append("°C");
            s
        },
    }
}

/// The characters of `s` joined by single spaces: empty for empty input, the
/// character alone for a one-character input, no trailing space ever.
pub open spec fn spec_spell_out(s: Seq<char>) -> Seq<char>
    decreases s.len(),
{
    if s.len() == 0 {
        Seq::empty()
    } else if s.len() == 1 {
        seq![s[0]]
    } else {
        spec_spell_out(s.drop_last()) + seq![' ', s.last()]
    }
}

/// The shape of a spelled-out name: one space between every two characters
/// and none anywhere else, so the text never starts or ends with a separator.
pub proof fn lemma_spell_out_shape(s: Seq<char>)
    requires
        s.len() >= 1,
    ensures
        spec_spell_out(s).len() == 2 * s.len() - 1,
        forall|i: int| 0 <= i < s.len() ==> spec_spell_out(s)[2 * i] == #[trigger] s[i],
        forall|i: int| 0 <= i < s.len() - 1 ==> #[trigger] spec_spell_out(s)[2 * i + 1] == ' ',
    decreases s.len(),
{
    if s.len() > 1 {
        let init = s.drop_last();
        let whole = spec_spell_out(s);
        lemma_spell_out_shape(init);
        assert forall|i: int| 0 <= i < s.len() implies whole[2 * i] == #[trigger] s[i] by {
            if i < s.len() - 1 {
                assert(whole[2 * i] == spec_spell_out(init)[2 * i]);
                assert(init[i] == s[i]);
            } else {
                assert(2 * i == spec_spell_out(init).len() + 1);
            }
        }
        assert forall|i: int| 0 <= i < s.len() - 1 implies #[trigger] whole[2 * i + 1] == ' ' by {
            if i < s.len() - 2 {
                assert(whole[2 * i + 1] == spec_spell_out(init)[2 * i + 1]);
            } else {
                assert(2 * i + 1 == spec_spell_out(init).len());
            }
        }
    }
}

/// Spells a material name out character by character, for the embossed label.
pub fn spell_out(material: &str) -> (s: String)
    ensures
        s@ == spec_spell_out(material@),
{
    let n = material.unicode_len();
    let mut s = String::new();
    let mut i: usize = 0;
    while i < n
        invariant
            i <= n,
            n == material@.len(),
            s@ == spec_spell_out(material@.take(i as int)),
        decreases n - i,
    {
        let c = material.get_char(i);
        let ghost prev = s@;
        if i > 0 {
            s.push(' ');
        }
        s.push(c);
        proof {
            let t = material@.take(i as int + 1);
            assert(t.drop_last() =~= material@.take(i as int));
            assert(t.last() == c);
            if i == 0 {
                assert(s@ =~= seq![c]);
            } else {
                assert(s@ =~= prev + seq![' ', c]);
            }
        }
        i = i + 1;
    }
    proof {
        assert(material@.take(n as int) =~= material@);
    }
    s
}

/// Builds the parameter set for one record: the three text slots, the
/// spelled-out material, width, height and the two text sizes are set from
/// the record and layout; every other baseline field passes through
/// unchanged. The result is an independent document; the shared baseline is
/// never touched.
pub fn build(record: &InventoryRecord, layout: &SwatchLayout, baseline: &SwatchParams) -> (p:
    SwatchParams)
    ensures
        p.textstring1@ == spec_text_field(record@, layout.text_upper),
        p.textstring2@ == spec_text_field(record@, layout.text_lower_left),
        p.textstring3@ == spec_text_field(record@, layout.text_lower_right),
        p.texttop_configurable@ == spec_spell_out(record@.material),
        p.textsize_upper@ == spec_dec(layout.text_size_upper as int),
        p.textsize_lower@ == spec_dec(layout.text_size_lower as int),
        p.w == layout.width,
        p.h == layout.height,
        p.fragments == baseline.fragments,
        p.edge_tests == baseline.edge_tests,
        p.font_recessed == baseline.font_recessed,
        p.fontname == baseline.fontname,
        p.linesep == baseline.linesep,
        p.r_hole == baseline.r_hole,
        p.r_indent == baseline.r_indent,
        p.round == baseline.round,
        p.step_thickness_correction == baseline.step_thickness_correction,
        p.steps_text == baseline.steps_text,
        p.steps_text_format == baseline.steps_text_format,
        p.steps_text_rotate == baseline.steps_text_rotate,
        p.steps_textheight == baseline.steps_textheight,
        p.steps_textsize == baseline.steps_textsize,
        p.steps_thickness == baseline.steps_thickness,
        p.tack_hole == baseline.tack_hole,
        p.test_circles == baseline.test_circles,
        p.text_type == baseline.text_type,
        p.texttop == baseline.texttop,
        p.th == baseline.th,
        p.thole_d == baseline.thole_d,
        p.thole_top_shiftright == baseline.thole_top_shiftright,
        p.wall == baseline.wall,
{
    SwatchParams {
        textstring1: render_text_field(record, layout.text_upper),
        textstring2: render_text_field(record, layout.text_lower_left),
        textstring3: render_text_field(record, layout.text_lower_right),
        texttop_configurable: spell_out(record.material.as_str()),
        textsize_lower: i32_to_string(layout.text_size_lower as i32),
        textsize_upper: i32_to_string(layout.text_size_upper as i32),
        w: layout.width.clone(),
        h: layout.height.clone(),
        fragments: baseline.fragments.clone(),
        edge_tests: baseline.edge_tests.clone(),
        font_recessed: baseline.font_recessed.clone(),
        fontname: baseline.fontname.clone(),
        linesep: baseline.linesep.clone(),
        r_hole: baseline.r_hole.clone(),
        r_indent: baseline.r_indent.clone(),
        round: baseline.round.clone(),
        step_thickness_correction: baseline.step_thickness_correction.clone(),
        steps_text: baseline.steps_text.clone(),
        steps_text_format: baseline.steps_text_format.clone(),
        steps_text_rotate: baseline.steps_text_rotate.clone(),
        steps_textheight: baseline.steps_textheight.clone(),
        steps_textsize: baseline.steps_textsize.clone(),
        steps_thickness: baseline.steps_thickness.clone(),
        tack_hole: baseline.tack_hole.clone(),
        test_circles: baseline.test_circles.clone(),
        text_type: baseline.text_type.clone(),
        texttop: baseline.texttop.clone(),
        th: baseline.th.clone(),
        thole_d: baseline.thole_d.clone(),
        thole_top_shiftright: baseline.thole_top_shiftright.clone(),
        wall: baseline.wall.clone(),
    }
}

/// The whole renderer payload: the one named parameter set, and the format
/// version tag of the renderer's customization format.
pub struct CustomizerSettings {
    pub generator: SwatchParams,
    pub file_format_version: String,
}

impl CustomizerSettings {
    /// Wraps one parameter set, with format version "1".
    pub fn new(generator: SwatchParams) -> (s: CustomizerSettings)
        ensures
            s.generator == generator,
            s.file_format_version@ == "1"@,
    {
        CustomizerSettings { generator: generator, file_format_version: String::from_str("1") }
    }
}

} // verus!
