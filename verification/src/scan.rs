//! The existing-output scanner's decisions: which file names count as
//! already-materialized printable models.
//!
//! The surrounding binary walks the output root and hands every entry's name
//! and kind to this module; the judgement of what counts is verified here.

use vstd::prelude::*;
use crate::text::{str_eq, str_views};

verus! {

/// ASCII lower case of one character; anything but A-Z stands as itself.
pub open spec fn spec_lower_char(c: char) -> char {
    if 65 <= c as int <= 90 {
        (c as int + 32) as char
    } else {
        c
    }
}

/// ASCII lower case of a whole name.
pub open spec fn spec_lower(s: Seq<char>) -> Seq<char> {
    s.map_values(|c: char| spec_lower_char(c))
}

/// The position of the last '.' in `s`, or -1 if it has none.
pub open spec fn spec_last_dot(s: Seq<char>) -> int
    decreases s.len(),
{
    if s.len() == 0 {
        -1
    } else if s.last() == '.' {
        s.len() - 1
    } else {
        spec_last_dot(s.drop_last())
    }
}

/// The extension of a bare file name: what follows the last '.', unless the
/// name has no '.' or only a leading one.
pub open spec fn spec_extension(s: Seq<char>) -> Option<Seq<char>> {
    let p = spec_last_dot(s);
    if p <= 0 {
        None
    } else {
        Some(s.skip(p + 1))
    }
}

/// Whether a bare file name, lowered to ASCII lower case, carries one of the
/// printable-model extensions.
pub open spec fn spec_is_printable(name: Seq<char>) -> bool {
    match spec_extension(spec_lower(name)) {
        Some(e) => e == "step"@ || e == "3mf"@ || e == "stl"@ || e == "obj"@,
        None => false,
    }
}

fn lower_char(c: char) -> (r: char)
    ensures
        r == spec_lower_char(c),
{
    match c {
        'A' => 'a',
        'B' => 'b',
        'C' => 'c',
        'D' => 'd',
        'E' => 'e',
        'F' => 'f',
        'G' => 'g',
        'H' => 'h',
        'I' => 'i',
        'J' => 'j',
        'K' => 'k',
        'L' => 'l',
        'M' => 'm',
        'N' => 'n',
        'O' => 'o',
        'P' => 'p',
        'Q' => 'q',
        'R' => 'r',
        'S' => 's',
        'T' => 't',
        'U' => 'u',
        'V' => 'v',
        'W' => 'w',
        'X' => 'x',
        'Y' => 'y',
        'Z' => 'z',
        _ => c,
    }
}

/// Whether the file name, taken as a bare name and compared without regard to
/// ASCII case, carries one of the printable-model extensions.
pub fn is_printable_file(file: &str) -> (r: bool)
    ensures
        r == spec_is_printable(file@),
{
    let n = file.unicode_len();
    let mut lowered = String::new();
    let mut i: usize = 0;
    while i < n
        invariant
            i <= n,
            n == file@.len(),
            lowered@ == spec_lower(file@.take(i as int)),
        decreases n - i,
    {
        let c = file.get_char(i);
        lowered.push(lower_char(c));
        proof {
            assert(lowered@ =~= spec_lower(file@.take(i as int + 1)));
        }
        i = i + 1;
    }
    proof {
        assert(file@.take(n as int) =~= file@);
    }
    let mut last_dot: Option<usize> = None;
    let mut j: usize = 0;
    while j < n
        invariant
            j <= n,
            n == lowered@.len(),
            lowered@ == spec_lower(file@),
            match last_dot {
                Some(k) => k as int == spec_last_dot(lowered@.take(j as int)) && k < j,
                None => spec_last_dot(lowered@.take(j as int)) == -1,
            },
        decreases n - j,
    {
        let c = lowered.as_str().get_char(j);
        proof {
            let t = lowered@.take(j as int + 1);
            assert(t.drop_last() =~= lowered@.take(j as int));
            assert(t.last() == c);
        }
        if c == '.' {
            last_dot = Some(j);
        }
        j = j + 1;
    }
    proof {
        assert(lowered@.take(n as int) =~= lowered@);
    }
    match last_dot {
        None => false,
        Some(p) => {
            if p == 0 {
                false
            } else {
                let ext = lowered.as_str().substring_char(p + 1, n);
                proof {
                    assert(ext@ =~= spec_lower(file@).skip(p as int + 1));
                }
                str_eq(ext, "step") || str_eq(ext, "3mf") || str_eq(ext, "stl") || str_eq(
                    ext,
                    "obj",
                )
            }
        },
    }
}

/// Whether a directory walk should keep an entry: directories always, since
/// they are traversed; files only when their name counts as printable.
pub fn is_dir_or_printable(is_dir: bool, name: &str) -> (r: bool)
    ensures
        r == (is_dir || spec_is_printable(name@)),
{
    if is_dir {
        true
    } else {
        is_printable_file(name)
    }
}

/// Spec-level model of one entry a directory walk yields.
pub struct EntryModel {
    pub name: Seq<char>,
    pub is_dir: bool,
}

/// One entry of a directory walk: the entry's bare file name and whether it
/// is a directory.
pub struct FsEntry {
    pub name: String,
    pub is_dir: bool,
}

impl View for FsEntry {
    type V = EntryModel;

    open spec fn view(&self) -> EntryModel {
        EntryModel { name: self.name@, is_dir: self.is_dir }
    }
}

/// The views of a sequence of walk entries.
pub open spec fn entry_views(v: Seq<FsEntry>) -> Seq<EntryModel> {
    v.map_values(|e: FsEntry| e@)
}

/// The names of the already-materialized swatch models among the walk's
/// entries, in walk order: every regular file with a printable extension.
pub open spec fn spec_swatch_names(entries: Seq<EntryModel>) -> Seq<Seq<char>>
    decreases entries.len(),
{
    if entries.len() == 0 {
        Seq::empty()
    } else {
        let init = spec_swatch_names(entries.drop_last());
        let e = entries.last();
        if !e.is_dir && spec_is_printable(e.name) {
            init.push(e.name)
        } else {
            init
        }
    }
}

/// The scan misses nothing: every regular file among the walk's entries whose
/// name counts as printable appears among the collected names.
pub proof fn lemma_scan_finds(entries: Seq<EntryModel>, i: int)
    requires
        0 <= i < entries.len(),
        !entries[i].is_dir,
        spec_is_printable(entries[i].name),
    ensures
        spec_swatch_names(entries).contains(entries[i].name),
    decreases entries.len(),
{
    let names = spec_swatch_names(entries);
    let init = spec_swatch_names(entries.drop_last());
    if i == entries.len() - 1 {
        assert(names.last() == entries[i].name);
    } else {
        assert(entries.drop_last()[i] == entries[i]);
        lemma_scan_finds(entries.drop_last(), i);
        let k = choose|k: int| 0 <= k < init.len() && init[k] == entries[i].name;
        assert(names[k] == entries[i].name);
    }
}

/// Collects the names of the already-materialized swatch models from the
/// entries of a directory walk.
pub fn swatch_names(entries: &Vec<FsEntry>) -> (names: Vec<String>)
    ensures
        str_views(names@) == spec_swatch_names(entry_views(entries@)),
{
    let ghost ev = entry_views(entries@);
    let mut names: Vec<String> = Vec::new();
    let mut i: usize = 0;
    while i < entries.len()
        invariant
            i <= entries@.len(),
            ev == entry_views(entries@),
            str_views(names@) == spec_swatch_names(ev.take(i as int)),
        decreases entries@.len() - i,
    {
        proof {
            let t = ev.take(i as int + 1);
            assert(t.drop_last() =~= ev.take(i as int));
            assert(t.last() == ev[i as int]);
        }
        let e = &entries[i];
        if !e.is_dir && is_printable_file(e.name.as_str()) {
            let ghost prev = str_views(names@);
            names.push(e.name.clone());
            proof {
                assert(str_views(names@) =~= prev.push(ev[i as int].name));
            }
        }
        i = i + 1;
    }
    proof {
        assert(ev.take(entries@.len() as int) =~= ev);
    }
    names
}

} // verus!
