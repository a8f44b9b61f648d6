use swatchgen::inventory::InventoryRecord;
use swatchgen::json::settings_to_json;
use swatchgen::swatch::{
    build, render_text_field, spell_out, CustomizerSettings, OutputField, SwatchLayout,
    SwatchParams,
};

fn sample_record() -> InventoryRecord {
    InventoryRecord {
        manufacturer: String::from("Prusament"),
        color: String::from("Galaxy Black"),
        material: String::from("PETG"),
        temperature: 230,
    }
}

fn sample_layout() -> SwatchLayout {
    SwatchLayout {
        width: String::from("80"),
        height: String::from("32"),
        text_upper: OutputField::Temperature,
        text_lower_left: OutputField::Manufacturer,
        text_lower_right: OutputField::Color,
        text_size_upper: 4,
        text_size_lower: 5,
    }
}

fn numbered_baseline() -> SwatchParams {
    SwatchParams {
        fragments: String::from("b01"),
        edge_tests: String::from("b02"),
        font_recessed: String::from("b03"),
        fontname: String::from("b04"),
        h: String::from("b05"),
        linesep: String::from("b06"),
        r_hole: String::from("b07"),
        r_indent: String::from("b08"),
        round: String::from("b09"),
        step_thickness_correction: String::from("b10"),
        steps_text: String::from("b11"),
        steps_text_format: String::from("b12"),
        steps_text_rotate: String::from("b13"),
        steps_textheight: String::from("b14"),
        steps_textsize: String::from("b15"),
        steps_thickness: String::from("b16"),
        tack_hole: String::from("b17"),
        test_circles: String::from("b18"),
        text_type: String::from("b19"),
        textsize_lower: String::from("b20"),
        textsize_upper: String::from("b21"),
        textstring1: String::from("b22"),
        textstring2: String::from("b23"),
        textstring3: String::from("b24"),
        texttop: String::from("b25"),
        texttop_configurable: String::from("b26"),
        th: String::from("b27"),
        thole_d: String::from("b28"),
        thole_top_shiftright: String::from("b29"),
        w: String::from("b30"),
        wall: String::from("b31"),
    }
}

#[test]
fn text_slots_format_each_field() {
    let r = sample_record();
    assert_eq!(render_text_field(&r, OutputField::Manufacturer), "Prusament");
    assert_eq!(render_text_field(&r, OutputField::Color), "Galaxy Black");
    assert_eq!(render_text_field(&r, OutputField::Material), "PETG");
    assert_eq!(render_text_field(&r, OutputField::Temperature), "0.2mm @ 230°C");
}

#[test]
fn temperature_slot_handles_negative_values() {
    let mut r = sample_record();
    r.temperature = -10;
    assert_eq!(render_text_field(&r, OutputField::Temperature), "0.2mm @ -10°C");
}

#[test]
fn material_is_spelled_out() {
    assert_eq!(spell_out("PLA"), "P L A");
    assert_eq!(spell_out("X"), "X");
    assert_eq!(spell_out(""), "");
    assert_eq!(spell_out("PETG"), "P E T G");
}

#[test]
fn build_overrides_exactly_the_varying_fields() {
    let p = build(&sample_record(), &sample_layout(), &numbered_baseline());
    assert_eq!(p.textstring1, "0.2mm @ 230°C");
    assert_eq!(p.textstring2, "Prusament");
    assert_eq!(p.textstring3, "Galaxy Black");
    assert_eq!(p.texttop_configurable, "P E T G");
    assert_eq!(p.textsize_upper, "4");
    assert_eq!(p.textsize_lower, "5");
    assert_eq!(p.w, "80");
    assert_eq!(p.h, "32");
}

#[test]
fn build_passes_every_other_baseline_field_through() {
    let b = numbered_baseline();
    let p = build(&sample_record(), &sample_layout(), &b);
    assert_eq!(p.fragments, b.fragments);
    assert_eq!(p.edge_tests, b.edge_tests);
    assert_eq!(p.font_recessed, b.font_recessed);
    assert_eq!(p.fontname, b.fontname);
    assert_eq!(p.linesep, b.linesep);
    assert_eq!(p.r_hole, b.r_hole);
    assert_eq!(p.r_indent, b.r_indent);
    assert_eq!(p.round, b.round);
    assert_eq!(p.step_thickness_correction, b.step_thickness_correction);
    assert_eq!(p.steps_text, b.steps_text);
    assert_eq!(p.steps_text_format, b.steps_text_format);
    assert_eq!(p.steps_text_rotate, b.steps_text_rotate);
    assert_eq!(p.steps_textheight, b.steps_textheight);
    assert_eq!(p.steps_textsize, b.steps_textsize);
    assert_eq!(p.steps_thickness, b.steps_thickness);
    assert_eq!(p.tack_hole, b.tack_hole);
    assert_eq!(p.test_circles, b.test_circles);
    assert_eq!(p.text_type, b.text_type);
    assert_eq!(p.texttop, b.texttop);
    assert_eq!(p.th, b.th);
    assert_eq!(p.thole_d, b.thole_d);
    assert_eq!(p.thole_top_shiftright, b.thole_top_shiftright);
    assert_eq!(p.wall, b.wall);
}

#[test]
fn builds_are_independent_documents() {
    let b = numbered_baseline();
    let p1 = build(&sample_record(), &sample_layout(), &b);
    let mut p2 = build(&sample_record(), &sample_layout(), &b);
    p2.textstring1 = String::from("changed");
    assert_eq!(p1.textstring1, "0.2mm @ 230°C");
    assert_eq!(b.textstring1, "b22");
}

#[test]
fn settings_json_is_framed_exactly() {
    let p = build(&sample_record(), &sample_layout(), &numbered_baseline());
    let s = CustomizerSettings::new(p);
    let text = settings_to_json(&s);
    let mut expected = String::new();
    expected.push_str("{\"parameterSets\":{\"Generator\":{");
    expected.push_str("\"$fn\":\"b01\",");
    expected.push_str("\"edge_tests\":\"b02\",");
    expected.push_str("\"font_recessed\":\"b03\",");
    expected.push_str("\"fontname\":\"b04\",");
    expected.push_str("\"h\":\"32\",");
    expected.push_str("\"linesep\":\"b06\",");
    expected.push_str("\"r_hole\":\"b07\",");
    expected.push_str("\"r_indent\":\"b08\",");
    expected.push_str("\"round\":\"b09\",");
    expected.push_str("\"step_thickness_correction\":\"b10\",");
    expected.push_str("\"steps_text\":\"b11\",");
    expected.push_str("\"steps_text_format\":\"b12\",");
    expected.push_str("\"steps_text_rotate\":\"b13\",");
    expected.push_str("\"steps_textheight\":\"b14\",");
    expected.push_str("\"steps_textsize\":\"b15\",");
    expected.push_str("\"steps_thickness\":\"b16\",");
    expected.push_str("\"tack_hole\":\"b17\",");
    expected.push_str("\"test_circles\":\"b18\",");
    expected.push_str("\"text_type\":\"b19\",");
    expected.push_str("\"textsize_lower\":\"5\",");
    expected.push_str("\"textsize_upper\":\"4\",");
    expected.push_str("\"textstring1\":\"0.2mm @ 230°C\",");
    expected.push_str("\"textstring2\":\"Prusament\",");
    expected.push_str("\"textstring3\":\"Galaxy Black\",");
    expected.push_str("\"texttop\":\"b25\",");
    expected.push_str("\"texttop_configurable\":\"P E T G\",");
    expected.push_str("\"th\":\"b27\",");
    expected.push_str("\"thole_d\":\"b28\",");
    expected.push_str("\"thole_top_shiftright\":\"b29\",");
    expected.push_str("\"w\":\"80\",");
    expected.push_str("\"wall\":\"b31\"");
    expected.push_str("}},\"fileFormatVersion\":\"1\"}");
    assert_eq!(text, expected);
}

#[test]
fn settings_json_is_valid_json_for_serde() {
    let p = build(&sample_record(), &sample_layout(), &numbered_baseline());
    let s = CustomizerSettings::new(p);
    let text = settings_to_json(&s);
    let parsed: serde_json::Value = serde_json::from_str(&text).unwrap();
    assert_eq!(parsed["fileFormatVersion"], "1");
    assert_eq!(parsed["parameterSets"]["Generator"]["textstring2"], "Prusament");
    assert_eq!(parsed["parameterSets"]["Generator"]["$fn"], "b01");
}

#[test]
fn json_escapes_quotes_backslashes_and_controls() {
    let mut b = numbered_baseline();
    b.fontname = String::from("a\"b\\c\nd");
    let s = CustomizerSettings::new(build(&sample_record(), &sample_layout(), &b));
    let text = settings_to_json(&s);
    assert!(text.contains("\"fontname\":\"a\\\"b\\\\c\\u000ad\""));
    let parsed: serde_json::Value = serde_json::from_str(&text).unwrap();
    assert_eq!(parsed["parameterSets"]["Generator"]["fontname"], "a\"b\\c\nd");
}
