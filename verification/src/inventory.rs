//! The inventory: typed records, their canonical identity, and the verified
//! reader for the delimited inventory text.
//!
//! The reader takes the file's whole contents as one string; the surrounding
//! binary does the file I/O. A header row names the columns `manufacturer`,
//! `color`, `material` and `temperature`; every later row is parsed on its
//! own, and a row of the wrong shape (wrong field count, temperature that is
//! no signed integer) is dropped rather than aborting the read.

use vstd::prelude::*;
use crate::text::str_views;

verus! {

/// Spec-level model of one inventory row.
pub struct RecordModel {
    pub manufacturer: Seq<char>,
    pub color: Seq<char>,
    pub material: Seq<char>,
    pub temperature: int,
}

/// One row of the inventory table: a filament to produce a swatch for.
pub struct InventoryRecord {
    pub manufacturer: String,
    pub color: String,
    pub material: String,
    pub temperature: i32,
}

impl View for InventoryRecord {
    type V = RecordModel;

    open spec fn view(&self) -> RecordModel {
        RecordModel {
            manufacturer: self.manufacturer@,
            color: self.color@,
            material: self.material@,
            temperature: self.temperature as int,
        }
    }
}

/// The views of a sequence of records.
pub open spec fn record_views(v: Seq<InventoryRecord>) -> Seq<RecordModel> {
    v.map_values(|r: InventoryRecord| r@)
}

/// The canonical identity of a record: manufacturer, material and color
/// joined by a fixed separator. Temperature takes no part in it.
pub open spec fn spec_identity(r: RecordModel) -> Seq<char> {
    r.manufacturer + " - "@ + r.material + " - "@ + r.color
}

impl InventoryRecord {
    /// The deduplication and display key of this record.
    pub fn canonical_identity(&self) -> (s: String)
        ensures
            s@ == spec_identity(self@),
    {
        let mut s = self.manufacturer.clone();
        s.append(" - ");
        s.append(self.material.as_str());
        s.append(" - ");
        s.append(self.color.as_str());
        s
    }

    /// An independent copy of this record.
    pub fn duplicate(&self) -> (r: InventoryRecord)
        ensures
            r == *self,
    {
        InventoryRecord {
            manufacturer: self.manufacturer.clone(),
            color: self.color.clone(),
            material: self.material.clone(),
            temperature: self.temperature,
        }
    }
}

/// Records that agree on manufacturer, material and color have the same
/// canonical identity, whatever their temperatures.
pub proof fn lemma_identity_determinism(a: RecordModel, b: RecordModel)
    requires
        a.manufacturer == b.manufacturer,
        a.material == b.material,
        a.color == b.color,
    ensures
        spec_identity(a) == spec_identity(b),
{
}

/// The chunks of `s` between occurrences of `sep`; always at least one chunk,
/// and empty chunks are kept.
pub open spec fn spec_split(s: Seq<char>, sep: char) -> Seq<Seq<char>>
    decreases s.len(),
{
    if s.len() == 0 {
        seq![Seq::<char>::empty()]
    } else {
        let init = spec_split(s.drop_last(), sep);
        if s.last() == sep {
            init.push(Seq::<char>::empty())
        } else {
            init.update(init.len() - 1, init.last().push(s.last()))
        }
    }
}

/// A split never yields an empty sequence of chunks.
pub proof fn lemma_split_nonempty(s: Seq<char>, sep: char)
    ensures
        spec_split(s, sep).len() >= 1,
    decreases s.len(),
{
    if s.len() > 0 {
        lemma_split_nonempty(s.drop_last(), sep);
    }
}

/// Splits `s` at every occurrence of `sep`, keeping empty chunks.
pub fn split(s: &str, sep: char) -> (parts: Vec<String>)
    ensures
        str_views(parts@) == spec_split(s@, sep),
{
    let n = s.unicode_len();
    let mut parts: Vec<String> = Vec::new();
    let mut cur = String::new();
    let mut i: usize = 0;
    while i < n
        invariant
            i <= n,
            n == s@.len(),
            str_views(parts@).push(cur@) == spec_split(s@.take(i as int), sep),
        decreases n - i,
    {
        let c = s.get_char(i);
        let ghost prev = s@.take(i as int);
        let ghost prev_split = spec_split(prev, sep);
        let ghost front = str_views(parts@);
        let ghost cur0 = cur@;
        if c == sep {
            parts.push(cur);
            cur = String::new();
            proof {
                assert(str_views(parts@) =~= front.push(cur0));
            }
        } else {
            cur.push(c);
        }
        i = i + 1;
        proof {
            let t = s@.take(i as int);
            assert(t.drop_last() =~= prev);
            assert(t.last() == c);
            lemma_split_nonempty(prev, sep);
            if c == sep {
                assert(str_views(parts@).push(cur@) =~= prev_split.push(Seq::<char>::empty()));
            } else {
                assert(prev_split.last() == cur0);
                assert(str_views(parts@).push(cur@) =~= prev_split.update(
                    prev_split.len() - 1,
                    cur0.push(c),
                ));
            }
        }
    }
    proof {
        assert(s@.take(n as int) =~= s@);
    }
    parts.push(cur);
    parts
}

/// The line without one trailing carriage return, if it has one.
pub open spec fn spec_strip_cr(s: Seq<char>) -> Seq<char> {
    if s.len() > 0 && s.last() == '\r' {
        s.drop_last()
    } else {
        s
    }
}

/// Drops one trailing carriage return from the line, if present.
pub fn strip_cr(line: &str) -> (r: String)
    ensures
        r@ == spec_strip_cr(line@),
{
    let n = line.unicode_len();
    if n > 0 && line.get_char(n - 1) == '\r' {
        let kept = line.substring_char(0, n - 1);
        proof {
            assert(line@.subrange(0, n as int - 1) =~= line@.drop_last());
        }
        String::from_str(kept)
    } else {
        String::from_str(line)
    }
}

/// Whether `c` is a decimal digit.
pub open spec fn spec_is_digit(c: char) -> bool {
    48 <= c as int <= 57
}

/// The value of one decimal digit character.
pub open spec fn spec_digit_val(c: char) -> int {
    c as int - 48
}

/// Whether every character of `s` is a decimal digit.
pub open spec fn spec_all_digits(s: Seq<char>) -> bool {
    forall|i: int| 0 <= i < s.len() ==> spec_is_digit(#[trigger] s[i])
}

/// The value of a digit string, most significant digit first.
pub open spec fn spec_digits_val(s: Seq<char>) -> int
    decreases s.len(),
{
    if s.len() == 0 {
        0
    } else {
        spec_digits_val(s.drop_last()) * 10 + spec_digit_val(s.last())
    }
}

/// The digits of an optionally signed integer string.
pub open spec fn spec_unsigned_part(s: Seq<char>) -> Seq<char> {
    if s.len() > 0 && (s[0] == '-' || s[0] == '+') {
        s.drop_first()
    } else {
        s
    }
}

/// Whether the integer string carries a minus sign.
pub open spec fn spec_is_neg(s: Seq<char>) -> bool {
    s.len() > 0 && s[0] == '-'
}

/// The signed integer a string denotes: an optional sign, then one or more
/// decimal digits, nothing else, and a value within the type's range.
pub open spec fn spec_parse_i32(s: Seq<char>) -> Option<i32> {
    let digits = spec_unsigned_part(s);
    if digits.len() == 0 || !spec_all_digits(digits) {
        None
    } else {
        let v = if spec_is_neg(s) {
            -spec_digits_val(digits)
        } else {
            spec_digits_val(digits)
        };
        if i32::MIN <= v <= i32::MAX {
            Some(v as i32)
        } else {
            None
        }
    }
}

/// A digit string's value is nonnegative.
pub proof fn lemma_digits_val_nonneg(s: Seq<char>)
    requires
        spec_all_digits(s),
    ensures
        spec_digits_val(s) >= 0,
    decreases s.len(),
{
    if s.len() > 0 {
        assert(spec_all_digits(s.drop_last()));
        lemma_digits_val_nonneg(s.drop_last());
    }
}

/// A digit string's value is at least the value of any of its prefixes.
pub proof fn lemma_digits_val_mono(s: Seq<char>, j: int)
    requires
        spec_all_digits(s),
        0 <= j <= s.len(),
    ensures
        spec_digits_val(s) >= spec_digits_val(s.take(j)),
    decreases s.len(),
{
    if j == s.len() {
        assert(s.take(j) =~= s);
    } else {
        let init = s.drop_last();
        assert(spec_all_digits(init));
        assert(s.take(j) =~= init.take(j));
        lemma_digits_val_mono(init, j);
        lemma_digits_val_nonneg(init);
    }
}

fn char_digit(c: char) -> (r: Option<u32>)
    ensures
        r is Some <==> spec_is_digit(c),
        r is Some ==> r->0 == spec_digit_val(c),
{
    match c {
        '0' => Some(0),
        '1' => Some(1),
        '2' => Some(2),
        '3' => Some(3),
        '4' => Some(4),
        '5' => Some(5),
        '6' => Some(6),
        '7' => Some(7),
        '8' => Some(8),
        '9' => Some(9),
        _ => None,
    }
}

/// Parses an optionally signed decimal integer; `None` on any other shape or
/// on a value outside the type's range.
pub fn parse_i32(s: &str) -> (r: Option<i32>)
    ensures
        r == spec_parse_i32(s@),
{
    let n = s.unicode_len();
    let ghost digits = spec_unsigned_part(s@);
    let mut start: usize = 0;
    let mut neg = false;
    if n > 0 {
        let c0 = s.get_char(0);
        if c0 == '-' {
            neg = true;
            start = 1;
        } else if c0 == '+' {
            start = 1;
        }
    }
    proof {
        assert(digits =~= s@.subrange(start as int, n as int));
    }
    if start >= n {
        return None;
    }
    let mut acc: u64 = 0;
    let mut j = start;
    while j < n
        invariant
            start <= j <= n,
            n == s@.len(),
            start == 0 || start == 1,
            digits == spec_unsigned_part(s@),
            neg == spec_is_neg(s@),
            digits == s@.subrange(start as int, n as int),
            acc == spec_digits_val(s@.subrange(start as int, j as int)),
            acc <= 2147483648,
            spec_all_digits(s@.subrange(start as int, j as int)),
        decreases n - j,
    {
        let c = s.get_char(j);
        let ghost prefix = s@.subrange(start as int, j as int);
        match char_digit(c) {
            None => {
                proof {
                    assert(digits[j - start] == c);
                    assert(!spec_all_digits(digits));
                }
                return None;
            },
            Some(d) => {
                acc = acc * 10 + d as u64;
                proof {
                    let next = s@.subrange(start as int, j as int + 1);
                    assert(next.drop_last() =~= prefix);
                    assert(next.last() == c);
                }
                j = j + 1;
                if acc > 2147483648 {
                    proof {
                        let done = s@.subrange(start as int, j as int);
                        if spec_all_digits(digits) {
                            assert(done =~= digits.take(j - start));
                            lemma_digits_val_mono(digits, j - start);
                        }
                    }
                    return None;
                }
            },
        }
    }
    proof {
        assert(s@.subrange(start as int, n as int) =~= digits);
    }
    if neg {
        Some((-(acc as i64)) as i32)
    } else {
        if acc > 2147483647 {
            None
        } else {
            Some(acc as i32)
        }
    }
}

/// `name` stands at position `k` of `fields`, and nowhere earlier.
pub open spec fn spec_found_at(fields: Seq<Seq<char>>, name: Seq<char>, k: int) -> bool {
    &&& 0 <= k < fields.len()
    &&& fields[k] == name
    &&& forall|j: int| 0 <= j < k ==> fields[j] != name
}

/// Whether `name` occurs in `fields` at all.
pub open spec fn spec_has_col(fields: Seq<Seq<char>>, name: Seq<char>) -> bool {
    exists|k: int| spec_found_at(fields, name, k)
}

/// The position of the first occurrence of `name` in `fields`.
pub open spec fn spec_col(fields: Seq<Seq<char>>, name: Seq<char>) -> int {
    choose|k: int| spec_found_at(fields, name, k)
}

/// A first occurrence is unique.
pub proof fn lemma_found_at_unique(fields: Seq<Seq<char>>, name: Seq<char>, k1: int, k2: int)
    requires
        spec_found_at(fields, name, k1),
        spec_found_at(fields, name, k2),
    ensures
        k1 == k2,
{
    if k1 < k2 {
        assert(fields[k1] == name);
    }
    if k2 < k1 {
        assert(fields[k2] == name);
    }
}

/// Finds the first column of `header` whose name is exactly `name`.
pub fn find_column(header: &Vec<String>, name: &str) -> (r: Option<usize>)
    ensures
        match r {
            Some(k) => spec_found_at(str_views(header@), name@, k as int),
            None => !spec_has_col(str_views(header@), name@),
        },
{
    let ghost fields = str_views(header@);
    let mut i: usize = 0;
    while i < header.len()
        invariant
            i <= header@.len(),
            fields == str_views(header@),
            forall|j: int| 0 <= j < i ==> fields[j] != name@,
        decreases header@.len() - i,
    {
        if crate::text::str_eq(header[i].as_str(), name) {
            return Some(i);
        }
        i = i + 1;
    }
    proof {
        assert forall|k: int| !spec_found_at(fields, name@, k) by {
            if 0 <= k < fields.len() {
                assert(fields[k] != name@);
            }
        }
    }
    None
}

/// The record one data row yields, if the row has exactly the header's field
/// count and its temperature field is a signed integer.
pub open spec fn spec_row_record(
    fields: Seq<Seq<char>>,
    ncols: int,
    cm: int,
    cc: int,
    cmat: int,
    ct: int,
) -> Option<RecordModel> {
    if fields.len() != ncols {
        None
    } else {
        match spec_parse_i32(fields[ct]) {
            None => None,
            Some(t) => Some(
                RecordModel {
                    manufacturer: fields[cm],
                    color: fields[cc],
                    material: fields[cmat],
                    temperature: t as int,
                },
            ),
        }
    }
}

/// The records of the data rows, in source order: each row is stripped of a
/// trailing carriage return and split at commas; empty rows and rows of the
/// wrong shape are dropped.
pub open spec fn spec_rows(
    rows: Seq<Seq<char>>,
    ncols: int,
    cm: int,
    cc: int,
    cmat: int,
    ct: int,
) -> Seq<RecordModel>
    decreases rows.len(),
{
    if rows.len() == 0 {
        Seq::empty()
    } else {
        let init = spec_rows(rows.drop_last(), ncols, cm, cc, cmat, ct);
        let row = spec_strip_cr(rows.last());
        if row.len() == 0 {
            init
        } else {
            match spec_row_record(spec_split(row, ','), ncols, cm, cc, cmat, ct) {
                None => init,
                Some(r) => init.push(r),
            }
        }
    }
}

/// The records the whole inventory text yields. The first line is the header;
/// if it lacks one of the four column names, no records are yielded.
pub open spec fn spec_inventory(s: Seq<char>) -> Seq<RecordModel> {
    let lines = spec_split(s, '\n');
    let header = spec_split(spec_strip_cr(lines[0]), ',');
    if spec_has_col(header, "manufacturer"@) && spec_has_col(header, "color"@) && spec_has_col(
        header,
        "material"@,
    ) && spec_has_col(header, "temperature"@) {
        spec_rows(
            lines.drop_first(),
            header.len() as int,
            spec_col(header, "manufacturer"@),
            spec_col(header, "color"@),
            spec_col(header, "material"@),
            spec_col(header, "temperature"@),
        )
    } else {
        Seq::empty()
    }
}

/// Reads the inventory from the file's whole contents. A row of the wrong
/// shape is dropped rather than aborting the read; a header that lacks one of
/// the four column names yields no records.
pub fn parse_inventory(contents: &str) -> (records: Vec<InventoryRecord>)
    ensures
        record_views(records@) == spec_inventory(contents@),
{
    let lines = split(contents, '\n');
    let ghost lv = str_views(lines@);
    proof {
        lemma_split_nonempty(contents@, '\n');
    }
    let header_line = strip_cr(lines[0].as_str());
    let header = split(header_line.as_str(), ',');
    let ghost hv = str_views(header@);
    let cm_opt = find_column(&header, "manufacturer");
    let cc_opt = find_column(&header, "color");
    let cmat_opt = find_column(&header, "material");
    let ct_opt = find_column(&header, "temperature");
    let (cm, cc, cmat, ct) = match (cm_opt, cc_opt, cmat_opt, ct_opt) {
        (Some(a), Some(b), Some(c), Some(d)) => (a, b, c, d),
        _ => {
            return Vec::new();
        },
    };
    proof {
        lemma_found_at_unique(hv, "manufacturer"@, cm as int, spec_col(hv, "manufacturer"@));
        lemma_found_at_unique(hv, "color"@, cc as int, spec_col(hv, "color"@));
        lemma_found_at_unique(hv, "material"@, cmat as int, spec_col(hv, "material"@));
        lemma_found_at_unique(hv, "temperature"@, ct as int, spec_col(hv, "temperature"@));
    }
    let ncols = header.len();
    let mut out: Vec<InventoryRecord> = Vec::new();
    let mut i: usize = 1;
    while i < lines.len()
        invariant
            1 <= i <= lines@.len(),
            lv == str_views(lines@),
            hv.len() == ncols,
            cm < ncols && cc < ncols && cmat < ncols && ct < ncols,
            record_views(out@) == spec_rows(
                lv.subrange(1, i as int),
                ncols as int,
                cm as int,
                cc as int,
                cmat as int,
                ct as int,
            ),
        decreases lines@.len() - i,
    {
        let ghost done = lv.subrange(1, i as int);
        let row = strip_cr(lines[i].as_str());
        proof {
            let next = lv.subrange(1, i as int + 1);
            assert(next.drop_last() =~= done);
            assert(next.last() == lv[i as int]);
        }
        if !(row.as_str().unicode_len() == 0) {
            let fields = split(row.as_str(), ',');
            let ghost fv = str_views(fields@);
            if fields.len() == ncols {
                match parse_i32(fields[ct].as_str()) {
                    Some(t) => {
                        let rec = InventoryRecord {
                            manufacturer: fields[cm].clone(),
                            color: fields[cc].clone(),
                            material: fields[cmat].clone(),
                            temperature: t,
                        };
                        let ghost old_out = out@;
                        out.push(rec);
                        proof {
                            assert(record_views(out@) =~= record_views(old_out).push(rec@));
                            assert(spec_row_record(
                                fv,
                                ncols as int,
                                cm as int,
                                cc as int,
                                cmat as int,
                                ct as int,
                            ) == Some(rec@));
                        }
                    },
                    None => {},
                }
            }
        }
        i = i + 1;
    }
    proof {
        assert(lv.subrange(1, lines@.len() as int) =~= lv.drop_first());
        let lines0 = spec_split(contents@, '\n');
        assert(lv == lines0);
        assert(hv == spec_split(spec_strip_cr(lines0[0]), ','));
        assert(record_views(out@) == spec_inventory(contents@));
    }
    out
}

} // verus!
