use swatchgen::batch::{
    create_dir_plan, output_dir, output_path, plan_batch, render_result, renderer_args,
    swatch_file_name, DirAction, OutputFormat, PathState, RenderCause, RenderOutcome,
};
use swatchgen::inventory::InventoryRecord;
use swatchgen::scan::{is_dir_or_printable, is_printable_file, swatch_names, FsEntry};

fn record(manufacturer: &str, color: &str, material: &str, temperature: i32) -> InventoryRecord {
    InventoryRecord {
        manufacturer: String::from(manufacturer),
        color: String::from(color),
        material: String::from(material),
        temperature,
    }
}

#[test]
fn printable_extensions_are_recognised() {
    assert!(is_printable_file("a.stl"));
    assert!(is_printable_file("b.obj"));
    assert!(is_printable_file("c.step"));
    assert!(is_printable_file("d.3mf"));
    assert!(is_printable_file("A.STL"));
    assert!(is_printable_file("model.Step"));
    assert!(!is_printable_file("e.txt"));
    assert!(!is_printable_file("noext"));
    assert!(!is_printable_file(".stl"));
    assert!(!is_printable_file("a."));
    assert!(!is_printable_file(""));
}

#[test]
fn directories_always_pass_the_walk_filter() {
    assert!(is_dir_or_printable(true, "anything"));
    assert!(is_dir_or_printable(false, "x.stl"));
    assert!(!is_dir_or_printable(false, "x.gcode"));
}

#[test]
fn swatch_names_keeps_printable_files_only() {
    let entries = vec![
        FsEntry { name: String::from("PETG"), is_dir: true },
        FsEntry { name: String::from("a.stl"), is_dir: false },
        FsEntry { name: String::from("notes.txt"), is_dir: false },
        FsEntry { name: String::from("b.3MF"), is_dir: false },
        FsEntry { name: String::from("c.stl"), is_dir: true },
    ];
    let names = swatch_names(&entries);
    assert_eq!(names, vec!["a.stl", "b.3MF"]);
}

#[test]
fn file_name_uses_identity_and_extension() {
    let r = record("Prusament", "Galaxy Black", "PETG", 230);
    assert_eq!(
        swatch_file_name(&r, OutputFormat::Stl),
        "Prusament - PETG - Galaxy Black.stl"
    );
    assert_eq!(
        swatch_file_name(&r, OutputFormat::ThreeMf),
        "Prusament - PETG - Galaxy Black.3mf"
    );
}

#[test]
fn output_path_is_root_material_manufacturer_name() {
    let r = record("Prusament", "Galaxy Black", "PETG", 230);
    assert_eq!(output_dir("out", &r), "out/PETG/Prusament");
    assert_eq!(
        output_path("out", &r, OutputFormat::Stl),
        "out/PETG/Prusament/Prusament - PETG - Galaxy Black.stl"
    );
}

#[test]
fn existing_output_excludes_the_record() {
    let records = vec![
        record("Prusament", "Galaxy Black", "PETG", 230),
        record("Polymaker", "White", "PLA", 215),
    ];
    let existing = vec![String::from("Prusament - PETG - Galaxy Black.stl")];
    let pending = plan_batch(records, &existing, OutputFormat::Stl, false);
    assert_eq!(pending.len(), 1);
    assert_eq!(pending[0].manufacturer, "Polymaker");
}

#[test]
fn dedup_matches_the_whole_file_name() {
    let records = vec![record("Prusament", "Galaxy Black", "PETG", 230)];
    let existing = vec![String::from("Prusament - PETG - Galaxy Black.3mf")];
    let pending = plan_batch(records, &existing, OutputFormat::Stl, false);
    assert_eq!(pending.len(), 1);
}

#[test]
fn force_renders_everything_again() {
    let records = vec![record("Prusament", "Galaxy Black", "PETG", 230)];
    let existing = vec![String::from("Prusament - PETG - Galaxy Black.stl")];
    let pending = plan_batch(records, &existing, OutputFormat::Stl, true);
    assert_eq!(pending.len(), 1);
}

#[test]
fn second_run_renders_nothing() {
    let records = vec![
        record("Prusament", "Galaxy Black", "PETG", 230),
        record("Polymaker", "White", "PLA", 215),
    ];
    let mut existing: Vec<String> = Vec::new();
    let first: Vec<InventoryRecord> = plan_batch(records, &existing, OutputFormat::Stl, false);
    assert_eq!(first.len(), 2);
    for r in &first {
        existing.push(swatch_file_name(r, OutputFormat::Stl));
    }
    let records_again = vec![
        record("Prusament", "Galaxy Black", "PETG", 230),
        record("Polymaker", "White", "PLA", 215),
    ];
    let second = plan_batch(records_again, &existing, OutputFormat::Stl, false);
    assert_eq!(second.len(), 0);
}

#[test]
fn renderer_args_select_format_set_and_model() {
    let args = renderer_args("out/a.stl", "work/settings.json", "work/swatch.scad");
    assert_eq!(
        args,
        vec!["-o", "out/a.stl", "-p", "work/settings.json", "-P", "Generator", "work/swatch.scad"]
    );
}

#[test]
fn outputs_anywhere_in_the_tree_are_skipped() {
    let inventory = "manufacturer,color,material,temperature\n\
                     Prusament,Galaxy Black,PETG,230\n\
                     Polymaker,White,PLA,215\n";
    let records = swatchgen::inventory::parse_inventory(inventory);
    assert_eq!(records.len(), 2);
    let entries = vec![
        FsEntry { name: String::from("PETG"), is_dir: true },
        FsEntry { name: String::from("Prusament"), is_dir: true },
        FsEntry { name: String::from("Prusament - PETG - Galaxy Black.stl"), is_dir: false },
        FsEntry { name: String::from("README.md"), is_dir: false },
    ];
    let existing = swatch_names(&entries);
    let pending = plan_batch(records, &existing, OutputFormat::Stl, false);
    assert_eq!(pending.len(), 1);
    assert_eq!(pending[0].manufacturer, "Polymaker");
}

#[test]
fn zero_exit_is_success() {
    let r = record("Acme", "Red", "PLA", 200);
    assert!(render_result(&r, RenderOutcome::Exited { code: 0 }).is_ok());
}

#[test]
fn nonzero_exit_carries_the_identity() {
    let r = record("Prusament", "Galaxy Black", "PETG", 230);
    let e = render_result(&r, RenderOutcome::Exited { code: 1 }).unwrap_err();
    assert_eq!(e.identity, "Prusament - PETG - Galaxy Black");
    assert_eq!(e.cause, RenderCause::NonzeroExit { code: 1 });
}

#[test]
fn spawn_failure_carries_the_identity() {
    let r = record("Acme", "Red", "PLA", 200);
    let e = render_result(&r, RenderOutcome::SpawnFailed).unwrap_err();
    assert_eq!(e.identity, "Acme - PLA - Red");
    assert_eq!(e.cause, RenderCause::SpawnFailed);
}

#[test]
fn termination_without_status_carries_the_identity() {
    let r = record("Acme", "Red", "PLA", 200);
    let e = render_result(&r, RenderOutcome::Signaled).unwrap_err();
    assert_eq!(e.identity, "Acme - PLA - Red");
    assert_eq!(e.cause, RenderCause::Signaled);
}

#[test]
fn decimal_text_is_exact() {
    assert_eq!(swatchgen::text::u32_to_string(0), "0");
    assert_eq!(swatchgen::text::u32_to_string(7), "7");
    assert_eq!(swatchgen::text::u32_to_string(230), "230");
    assert_eq!(swatchgen::text::u32_to_string(4294967295), "4294967295");
    assert_eq!(swatchgen::text::i32_to_string(-1), "-1");
    assert_eq!(swatchgen::text::i32_to_string(2147483647), "2147483647");
    assert_eq!(swatchgen::text::i32_to_string(-2147483648), "-2147483648");
    assert_eq!(swatchgen::text::i32_to_string(0), "0");
}

#[test]
fn dir_plan_distinguishes_the_three_states() {
    assert_eq!(
        create_dir_plan("out", PathState::Directory).unwrap(),
        DirAction::UseExisting
    );
    assert_eq!(
        create_dir_plan("out", PathState::Missing).unwrap(),
        DirAction::CreateAll
    );
    let e = create_dir_plan("out/file", PathState::NotADirectory).unwrap_err();
    assert_eq!(e.path, "out/file");
}
