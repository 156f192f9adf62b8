use crate::errors::HWIDError;
use crate::text::{
    contains_seq, contains_text, first_value, split_seq, split_text, trim_of, trim_text, views,
};
use vstd::prelude::*;
use vstd::string::StrSliceExecFns;
use vstd::string::StringExecFns;

verus! {

/// A line of the drive table, trimmed, when it is the row of the first physical drive.
pub open spec fn drive_row(line: Seq<char>) -> Option<Seq<char>> {
    if contains_seq(trim_of(line), "PHYSICALDRIVE0"@) {
        Some(trim_of(line))
    } else {
        None
    }
}

/// `drive_row` as a value.
pub open spec fn drive_row_reader() -> spec_fn(Seq<char>) -> Option<Seq<char>> {
    |l: Seq<char>| drive_row(l)
}

/// The fields of a row that are neither empty nor the device id, in order.
pub open spec fn kept_fields(fields: Seq<Seq<char>>) -> Seq<Seq<char>>
    decreases fields.len(),
{
    if fields.len() == 0 {
        Seq::empty()
    } else {
        let prev = kept_fields(fields.drop_last());
        let t = fields.last();
        if t.len() > 0 && !contains_seq(t, "PHYSICALDRIVE0"@) {
            prev.push(t)
        } else {
            prev
        }
    }
}

/// The serial number in the drive table (`wmic diskdrive get deviceId,serialnumber`):
/// the row of the first physical drive, among the lines separated by line feeds, split
/// at spaces, must hold exactly one field besides the device id.
///
/// Fails with `FieldNotFound` when no row names the first physical drive, and with
/// `ParseFailure` when that row holds no serial number or more than one field.
pub fn parse_wmic_disk_serial(output: &str) -> (r: Result<String, HWIDError>)
    ensures
        match first_value(split_seq(output@, '\n'), drive_row_reader(), 0) {
            None => r is Err && r->Err_0.kind_spec() == "FieldNotFound"@,
            Some(row) => {
                let k = kept_fields(split_seq(row, ' '));
                if k.len() == 1 {
                    r is Ok && r->Ok_0@ == k[0]
                } else {
                    r is Err && r->Err_0.kind_spec() == "ParseFailure"@
                }
            },
        },
{
    let lines = split_text(output, '\n');
    let ghost ls = split_seq(output@, '\n');
    let mut i: usize = 0;
    let mut row: Option<String> = None;
    while i < lines.len() && row.is_none()
        invariant
            views(lines@) == ls,
            ls == split_seq(output@, '\n'),
            i <= lines.len(),
            row is None ==> first_value(ls, drive_row_reader(), 0) == first_value(
                ls,
                drive_row_reader(),
                i as int,
            ),
            row matches Some(x) ==> first_value(ls, drive_row_reader(), 0) == Some(x@),
        decreases lines.len() - i + (if row is None { 1int } else { 0int }),
    {
        let line = lines[i].as_str();
        assert(ls[i as int] == line@);
        assert(drive_row_reader()(line@) == drive_row(line@));
        let trimmed = trim_text(line);
        if contains_text(trimmed.as_str(), "PHYSICALDRIVE0") {
            assert(first_value(ls, drive_row_reader(), i as int) == Some(trimmed@));
            row = Some(trimmed);
        } else {
            i = i + 1;
        }
    }
    assert(row is None ==> first_value(ls, drive_row_reader(), i as int) is None);
    match row {
        None => Err(HWIDError::new("FieldNotFound", "fail to find PHYSICALDRIVE0")),
        Some(row) => {
            let fields = split_text(row.as_str(), ' ');
            let ghost fs = views(fields@);
            let mut kept: Vec<String> = Vec::new();
            let mut j: usize = 0;
            assert(fs.take(0) =~= Seq::<Seq<char>>::empty());
            assert(views(kept@) =~= Seq::<Seq<char>>::empty());
            while j < fields.len()
                invariant
                    fs == views(fields@),
                    j <= fields.len(),
                    views(kept@) == kept_fields(fs.take(j as int)),
                decreases fields.len() - j,
            {
                let f = fields[j].as_str();
                assert(fs.take(j + 1).drop_last() =~= fs.take(j as int));
                assert(fs.take(j + 1).last() == f@);
                if f.unicode_len() > 0 && !contains_text(f, "PHYSICALDRIVE0") {
                    let ghost before = kept@;
                    kept.push(String::from_str(f));
                    assert(views(kept@) =~= views(before).push(f@));
                }
                j = j + 1;
            }
            assert(fs.take(fields.len() as int) =~= fs);
            if kept.len() != 1 {
                Err(HWIDError::new("ParseFailure", "the filtered fields are not exactly one"))
            } else {
                assert(views(kept@)[0] == kept@[0]@);
                Ok(kept.swap_remove(0))
            }
        },
    }
}

} // verus!
