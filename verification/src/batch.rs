//! The batch orchestrator's decisions: output naming and placement, the
//! reconciliation of the inventory against already-produced outputs, the
//! renderer's argument list, and the judgement of each invocation's outcome.
//!
//! The surrounding binary walks directories, spawns the renderer and reports
//! progress; every decision it acts on is computed and verified here.

use vstd::prelude::*;
use crate::inventory::{record_views, spec_identity, InventoryRecord, RecordModel};
use crate::text::{contains_str, str_views};

verus! {

/// The model file format a batch produces.
#[derive(Clone, Copy, Debug, PartialEq, Eq, Structural)]
pub enum OutputFormat {
    Stl,
    ThreeMf,
}

/// The file extension a format writes.
pub open spec fn spec_extension_text(f: OutputFormat) -> Seq<char> {
    match f {
        OutputFormat::Stl => "stl"@,
        OutputFormat::ThreeMf => "3mf"@,
    }
}

impl OutputFormat {
    /// The extension written after the canonical identity.
    pub fn extension(&self) -> (r: &'static str)
        ensures
            r@ == spec_extension_text(*self),
    {
        match self {
            OutputFormat::Stl => "stl",
            OutputFormat::ThreeMf => "3mf",
        }
    }
}

/// The output file name of a record: its canonical identity, a dot, and the
/// format's extension.
pub open spec fn spec_file_name(r: RecordModel, f: OutputFormat) -> Seq<char> {
    spec_identity(r) + "."@ + spec_extension_text(f)
}

/// The file name a record's model is written under.
pub fn swatch_file_name(record: &InventoryRecord, format: OutputFormat) -> (s: String)
    ensures
        s@ == spec_file_name(record@, format),
{
    let mut s = record.canonical_identity();
    s.append(".");
    s.append(format.extension());
    s
}

/// The directory a record's model lands in: the output root, then material,
/// then manufacturer.
pub open spec fn spec_output_dir(root: Seq<char>, r: RecordModel) -> Seq<char> {
    root + "/"@ + r.material + "/"@ + r.manufacturer
}

/// The directory a record's model lands in.
pub fn output_dir(root: &str, record: &InventoryRecord) -> (s: String)
    ensures
        s@ == spec_output_dir(root@, record@),
{
    let mut s = String::from_str(root);
    s.append("/");
    s.append(record.material.as_str());
    s.append("/");
    s.append(record.manufacturer.as_str());
    s
}

/// The full destination path of a record's model.
pub open spec fn spec_output_path(root: Seq<char>, r: RecordModel, f: OutputFormat) -> Seq<char> {
    spec_output_dir(root, r) + "/"@ + spec_file_name(r, f)
}

/// The full destination path of a record's model.
pub fn output_path(root: &str, record: &InventoryRecord, format: OutputFormat) -> (s: String)
    ensures
        s@ == spec_output_path(root@, record@, format),
{
    let mut s = output_dir(root, record);
    s.append("/");
    let name = swatch_file_name(record, format);
    s.append(name.as_str());
    s
}

/// The records still to render: those whose output file name stands nowhere
/// among the existing names, in inventory order.
pub open spec fn spec_pending(
    records: Seq<RecordModel>,
    existing: Seq<Seq<char>>,
    f: OutputFormat,
) -> Seq<RecordModel>
    decreases records.len(),
{
    if records.len() == 0 {
        Seq::empty()
    } else {
        let init = spec_pending(records.drop_last(), existing, f);
        if existing.contains(spec_file_name(records.last(), f)) {
            init
        } else {
            init.push(records.last())
        }
    }
}

/// Filters the inventory down to the records still to render. With `force`
/// the existing outputs are ignored and everything is rendered anew.
pub fn plan_batch(
    records: Vec<InventoryRecord>,
    existing: &Vec<String>,
    format: OutputFormat,
    force: bool,
) -> (pending: Vec<InventoryRecord>)
    ensures
        force ==> record_views(pending@) == record_views(records@),
        !force ==> record_views(pending@) == spec_pending(
            record_views(records@),
            str_views(existing@),
            format,
        ),
{
    if force {
        return records;
    }
    let ghost rv = record_views(records@);
    let ghost ev = str_views(existing@);
    let mut pending: Vec<InventoryRecord> = Vec::new();
    let mut i: usize = 0;
    while i < records.len()
        invariant
            i <= records@.len(),
            rv == record_views(records@),
            ev == str_views(existing@),
            record_views(pending@) == spec_pending(rv.take(i as int), ev, format),
        decreases records@.len() - i,
    {
        proof {
            let t = rv.take(i as int + 1);
            assert(t.drop_last() =~= rv.take(i as int));
            assert(t.last() == rv[i as int]);
        }
        let name = swatch_file_name(&records[i], format);
        if !contains_str(existing, name.as_str()) {
            let ghost prev = record_views(pending@);
            pending.push(records[i].duplicate());
            proof {
                assert(record_views(pending@) =~= prev.push(rv[i as int]));
            }
        }
        i = i + 1;
    }
    proof {
        assert(rv.take(records@.len() as int) =~= rv);
    }
    pending
}

/// No pending record's output file name stands among the existing names.
pub proof fn lemma_pending_excludes_existing(
    records: Seq<RecordModel>,
    existing: Seq<Seq<char>>,
    f: OutputFormat,
)
    ensures
        forall|k: int|
            0 <= k < spec_pending(records, existing, f).len() ==> !existing.contains(
                spec_file_name(#[trigger] spec_pending(records, existing, f)[k], f),
            ),
    decreases records.len(),
{
    if records.len() > 0 {
        lemma_pending_excludes_existing(records.drop_last(), existing, f);
        let pending = spec_pending(records, existing, f);
        let pending_init = spec_pending(records.drop_last(), existing, f);
        assert forall|k: int| 0 <= k < pending.len() implies !existing.contains(
            spec_file_name(#[trigger] pending[k], f),
        ) by {
            if k < pending_init.len() {
                assert(pending[k] == pending_init[k]);
            } else {
                assert(pending[k] == records.last());
            }
        }
    }
}

/// A record of the inventory is pending exactly when its output file name is
/// absent from the existing names: present names exclude it, absent names
/// keep it.
pub proof fn lemma_dedup(
    records: Seq<RecordModel>,
    existing: Seq<Seq<char>>,
    f: OutputFormat,
    r: RecordModel,
)
    requires
        records.contains(r),
    ensures
        existing.contains(spec_file_name(r, f)) ==> !spec_pending(records, existing, f).contains(
            r,
        ),
        !existing.contains(spec_file_name(r, f)) ==> spec_pending(records, existing, f).contains(
            r,
        ),
    decreases records.len(),
{
    let pending = spec_pending(records, existing, f);
    let init = records.drop_last();
    let pending_init = spec_pending(init, existing, f);
    if existing.contains(spec_file_name(r, f)) {
        lemma_pending_excludes_existing(records, existing, f);
        if pending.contains(r) {
            let k = choose|k: int| 0 <= k < pending.len() && pending[k] == r;
            assert(!existing.contains(spec_file_name(pending[k], f)));
        }
    } else {
        if records.last() == r {
            assert(pending.last() == r);
        } else {
            assert(init.contains(r)) by {
                let k = choose|k: int| 0 <= k < records.len() && records[k] == r;
                assert(init[k] == r);
            }
            lemma_dedup(init, existing, f, r);
            let k = choose|k: int| 0 <= k < pending_init.len() && pending_init[k] == r;
            assert(pending[k] == r);
        }
    }
}

/// Running the batch again changes nothing: when the names found after a run
/// keep everything found before it and every output of the run's pending set,
/// the next run's pending set is empty.
pub proof fn lemma_idempotence(
    records: Seq<RecordModel>,
    existing: Seq<Seq<char>>,
    after: Seq<Seq<char>>,
    f: OutputFormat,
)
    requires
        forall|n: Seq<char>| existing.contains(n) ==> after.contains(n),
        forall|k: int|
            0 <= k < spec_pending(records, existing, f).len() ==> after.contains(
                spec_file_name(#[trigger] spec_pending(records, existing, f)[k], f),
            ),
    ensures
        spec_pending(records, after, f).len() == 0,
    decreases records.len(),
{
    if records.len() > 0 {
        let init = records.drop_last();
        let last = records.last();
        let pending = spec_pending(records, existing, f);
        let pending_init = spec_pending(init, existing, f);
        assert forall|k: int| 0 <= k < pending_init.len() implies after.contains(
            spec_file_name(#[trigger] pending_init[k], f),
        ) by {
            assert(pending[k] == pending_init[k]);
        }
        lemma_idempotence(init, existing, after, f);
        if existing.contains(spec_file_name(last, f)) {
            assert(after.contains(spec_file_name(last, f)));
        } else {
            assert(pending.last() == last);
            assert(after.contains(spec_file_name(last, f)));
        }
    }
}

/// Running the batch twice renders nothing the second time. When a directory
/// walk after the first run still yields every name it yielded before the run
/// and a regular file for every record the run rendered, the pending set
/// computed from that walk is empty.
pub proof fn lemma_batch_idempotent(
    records: Seq<RecordModel>,
    existing: Seq<Seq<char>>,
    entries_after: Seq<crate::scan::EntryModel>,
    f: OutputFormat,
)
    requires
        forall|n: Seq<char>|
            existing.contains(n) ==> crate::scan::spec_swatch_names(entries_after).contains(n),
        forall|k: int|
            0 <= k < spec_pending(records, existing, f).len() ==> exists|i: int|
                0 <= i < entries_after.len() && !entries_after[i].is_dir
                    && entries_after[i].name == spec_file_name(
                    #[trigger] spec_pending(records, existing, f)[k],
                    f,
                ),
    ensures
        spec_pending(records, crate::scan::spec_swatch_names(entries_after), f).len() == 0,
{
    let after = crate::scan::spec_swatch_names(entries_after);
    let pending = spec_pending(records, existing, f);
    assert forall|k: int| 0 <= k < pending.len() implies after.contains(
        spec_file_name(#[trigger] pending[k], f),
    ) by {
        let i = choose|i: int|
            0 <= i < entries_after.len() && !entries_after[i].is_dir && entries_after[i].name
                == spec_file_name(pending[k], f);
        lemma_output_name_printable(pending[k], f);
        crate::scan::lemma_scan_finds(entries_after, i);
    }
    lemma_idempotence(records, existing, after, f);
}

/// Every file name the batch writes is one the scanner recognises: its
/// extension is printable, so a later scan of the output root catches it and
/// the idempotence of the batch rests on nothing outside the library.
pub proof fn lemma_output_name_printable(r: RecordModel, f: OutputFormat)
    ensures
        crate::scan::spec_is_printable(spec_file_name(r, f)),
{
    reveal_strlit(" - ");
    reveal_strlit(".");
    reveal_strlit("stl");
    reveal_strlit("3mf");
    let name = spec_file_name(r, f);
    let id = spec_identity(r);
    let ext = spec_extension_text(f);
    let low = crate::scan::spec_lower(name);
    let p = id.len() as int;
    assert(ext.len() == 3);
    assert(name.len() == p + 4);
    assert(name[p] == '.');
    assert(low[p] == '.');
    assert(p > 0);
    match f {
        OutputFormat::Stl => {
            assert(name[p + 1] == 's' && name[p + 2] == 't' && name[p + 3] == 'l');
            assert(low[p + 1] == 's' && low[p + 2] == 't' && low[p + 3] == 'l');
        },
        OutputFormat::ThreeMf => {
            assert(name[p + 1] == '3' && name[p + 2] == 'm' && name[p + 3] == 'f');
            assert(low[p + 1] == '3' && low[p + 2] == 'm' && low[p + 3] == 'f');
        },
    }
    let l1 = low.drop_last();
    let l2 = l1.drop_last();
    let l3 = l2.drop_last();
    assert(low.last() == low[p + 3] && low.last() != '.');
    assert(l1.last() == low[p + 2] && l1.last() != '.');
    assert(l2.last() == low[p + 1] && l2.last() != '.');
    assert(l3.last() == low[p] && l3.last() == '.');
    assert(crate::scan::spec_last_dot(low) == crate::scan::spec_last_dot(l1));
    assert(crate::scan::spec_last_dot(l1) == crate::scan::spec_last_dot(l2));
    assert(crate::scan::spec_last_dot(l2) == crate::scan::spec_last_dot(l3));
    assert(l3.len() == p + 1);
    assert(crate::scan::spec_last_dot(l3) == p);
    assert(crate::scan::spec_last_dot(low) == p);
    assert(low.skip(p + 1) =~= ext);
}

/// How one renderer invocation ended, as the binary observed it.
#[derive(Clone, Copy, Debug, PartialEq, Eq, Structural)]
pub enum RenderOutcome {
    /// The renderer could not be started at all.
    SpawnFailed,
    /// The renderer exited with this status code.
    Exited { code: i32 },
    /// The renderer was terminated without an exit status.
    Signaled,
}

/// Why one record's render failed.
#[derive(Clone, Copy, Debug, PartialEq, Eq, Structural)]
pub enum RenderCause {
    SpawnFailed,
    NonzeroExit { code: i32 },
    Signaled,
}

/// The failure of one record's render, carrying the record's identity for
/// diagnosis.
#[derive(Debug)]
pub struct RenderError {
    pub identity: String,
    pub cause: RenderCause,
}

/// The failure cause an outcome maps to.
pub open spec fn spec_cause(outcome: RenderOutcome) -> RenderCause {
    match outcome {
        RenderOutcome::SpawnFailed => RenderCause::SpawnFailed,
        RenderOutcome::Exited { code } => RenderCause::NonzeroExit { code },
        RenderOutcome::Signaled => RenderCause::Signaled,
    }
}

/// Judges one invocation: exit status zero is success; every other outcome is
/// a failure carrying the record's canonical identity and the cause.
pub fn render_result(record: &InventoryRecord, outcome: RenderOutcome) -> (r: Result<
    (),
    RenderError,
>)
    ensures
        r is Ok <==> outcome == (RenderOutcome::Exited { code: 0i32 }),
        r is Err ==> r->Err_0.identity@ == spec_identity(record@) && r->Err_0.cause == spec_cause(
            outcome,
        ),
{
    match outcome {
        RenderOutcome::Exited { code } => {
            if code == 0 {
                Ok(())
            } else {
                Err(
                    RenderError {
                        identity: record.canonical_identity(),
                        cause: RenderCause::NonzeroExit { code },
                    },
                )
            }
        },
        RenderOutcome::SpawnFailed => Err(
            RenderError {
                identity: record.canonical_identity(),
                cause: RenderCause::SpawnFailed,
            },
        ),
        RenderOutcome::Signaled => Err(
            RenderError { identity: record.canonical_identity(), cause: RenderCause::Signaled },
        ),
    }
}

/// The renderer's argument list: output path, parameter file, the fixed set
/// name `Generator`, and the model description file.
pub fn renderer_args(output_path: &str, params_path: &str, model_path: &str) -> (args: Vec<
    String,
>)
    ensures
        str_views(args@) == seq![
            "-o"@,
            output_path@,
            "-p"@,
            params_path@,
            "-P"@,
            "Generator"@,
            model_path@,
        ],
{
    let mut args: Vec<String> = Vec::new();
    args.push(String::from_str("-o"));
    args.push(String::from_str(output_path));
    args.push(String::from_str("-p"));
    args.push(String::from_str(params_path));
    args.push(String::from_str("-P"));
    args.push(String::from_str("Generator"));
    args.push(String::from_str(model_path));
    proof {
        assert(str_views(args@) =~= seq![
            "-o"@,
            output_path@,
            "-p"@,
            params_path@,
            "-P"@,
            "Generator"@,
            model_path@,
        ]);
    }
    args
}

/// What the orchestrator found at a path it must use as a directory.
#[derive(Clone, Copy, Debug, PartialEq, Eq, Structural)]
pub enum PathState {
    Directory,
    NotADirectory,
    Missing,
}

/// The filesystem action that makes the output directory usable.
#[derive(Clone, Copy, Debug, PartialEq, Eq, Structural)]
pub enum DirAction {
    UseExisting,
    CreateAll,
}

/// A path that cannot serve as a directory.
#[derive(Debug)]
pub struct PathError {
    pub path: String,
}

/// Decides how to make a directory usable: an existing directory is used as
/// it is, a missing path is created with its parents, and a path that exists
/// as something else is refused.
pub fn create_dir_plan(path: &str, state: PathState) -> (r: Result<DirAction, PathError>)
    ensures
        match r {
            Ok(a) => match state {
                PathState::Directory => a == DirAction::UseExisting,
                PathState::Missing => a == DirAction::CreateAll,
                PathState::NotADirectory => false,
            },
            Err(e) => state == PathState::NotADirectory && e.path@ == path@,
        },
{
    match state {
        PathState::Directory => Ok(DirAction::UseExisting),
        PathState::Missing => Ok(DirAction::CreateAll),
        PathState::NotADirectory => Err(PathError { path: String::from_str(path) }),
    }
}

} // verus!
