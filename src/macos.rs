use crate::errors::HWIDError;
use crate::text::{
    contains_seq, contains_text, first_value, split_seq, split_text, strip_char, strip_seq,
    trim_of, trim_text, views,
};
use vstd::prelude::*;

verus! {

/// The platform UUID on a line of the platform expert's registry dump: the line names
/// `IOPlatformUUID` and has one `=`; the value is the text after it, trimmed and
/// unquoted.
pub open spec fn ioreg_line(line: Seq<char>) -> Option<Seq<char>> {
    let parts = split_seq(line, '=');
    if contains_seq(line, "IOPlatformUUID"@) && parts.len() == 2 {
        Some(strip_seq(trim_of(parts[1]), '"'))
    } else {
        None
    }
}

/// The MAC address on a line of the interface status: the line names `ether`, and the
/// address is its second space-separated field.
pub open spec fn ifconfig_line(line: Seq<char>) -> Option<Seq<char>> {
    let parts = split_seq(line, ' ');
    if contains_seq(line, "ether"@) && parts.len() >= 2 {
        Some(parts[1])
    } else {
        None
    }
}

/// The volume UUID on a line of the disk information: the line names `Volume UUID` and
/// has one `:`; the value is the text after it, trimmed.
pub open spec fn diskutil_line(line: Seq<char>) -> Option<Seq<char>> {
    let parts = split_seq(line, ':');
    if contains_seq(line, "Volume UUID"@) && parts.len() == 2 {
        Some(trim_of(parts[1]))
    } else {
        None
    }
}

/// `ioreg_line` as a value.
pub open spec fn ioreg_reader() -> spec_fn(Seq<char>) -> Option<Seq<char>> {
    |l: Seq<char>| ioreg_line(l)
}

/// `ifconfig_line` as a value.
pub open spec fn ifconfig_reader() -> spec_fn(Seq<char>) -> Option<Seq<char>> {
    |l: Seq<char>| ifconfig_line(l)
}

/// `diskutil_line` as a value.
pub open spec fn diskutil_reader() -> spec_fn(Seq<char>) -> Option<Seq<char>> {
    |l: Seq<char>| diskutil_line(l)
}

/// The system id in the platform expert's registry dump (`ioreg -d2 -c
/// IOPlatformExpertDevice`): the value of the first line, among the lines separated by
/// line feeds, that `ioreg_line` reads one from.
///
/// Fails with `FieldNotFound` when no line gives one.
pub fn parse_ioreg_uuid(output: &str) -> (r: Result<String, HWIDError>)
    ensures
        match first_value(split_seq(output@, '\n'), ioreg_reader(), 0) {
            Some(v) => r is Ok && r->Ok_0@ == v,
            None => r is Err && r->Err_0.kind_spec() == "FieldNotFound"@,
        },
{
    let lines = split_text(output, '\n');
    let ghost ls = split_seq(output@, '\n');
    let mut i: usize = 0;
    while i < lines.len()
        invariant
            views(lines@) == ls,
            i <= lines.len(),
            ls == split_seq(output@, '\n'),
            first_value(ls, ioreg_reader(), 0) == first_value(ls, ioreg_reader(), i as int),
        decreases lines.len() - i,
    {
        let line = lines[i].as_str();
        assert(ls[i as int] == line@);
        assert(ioreg_reader()(line@) == ioreg_line(line@));
        if contains_text(line, "IOPlatformUUID") {
            let parts = split_text(line, '=');
            if parts.len() == 2 {
                let value = trim_text(parts[1].as_str());
                assert(views(parts@)[1] == parts@[1]@);
                return Ok(strip_char(value.as_str(), '"'));
            }
        }
        i = i + 1;
    }
    Err(HWIDError::new("FieldNotFound", "Could not find IOPlatformUUID in the IORegistry"))
}

/// The MAC address in the status of the primary interface (`ifconfig en0 ether`): the
/// value of the first line that `ifconfig_line` reads one from.
///
/// Fails with `FieldNotFound` when no line gives one.
pub fn parse_ifconfig_mac(output: &str) -> (r: Result<String, HWIDError>)
    ensures
        match first_value(split_seq(output@, '\n'), ifconfig_reader(), 0) {
            Some(v) => r is Ok && r->Ok_0@ == v,
            None => r is Err && r->Err_0.kind_spec() == "FieldNotFound"@,
        },
{
    let lines = split_text(output, '\n');
    let ghost ls = split_seq(output@, '\n');
    let mut i: usize = 0;
    while i < lines.len()
        invariant
            views(lines@) == ls,
            i <= lines.len(),
            ls == split_seq(output@, '\n'),
            first_value(ls, ifconfig_reader(), 0) == first_value(ls, ifconfig_reader(), i as int),
        decreases lines.len() - i,
    {
        let line = lines[i].as_str();
        assert(ls[i as int] == line@);
        assert(ifconfig_reader()(line@) == ifconfig_line(line@));
        if contains_text(line, "ether") {
            let mut parts = split_text(line, ' ');
            if parts.len() >= 2 {
                assert(views(parts@)[1] == parts@[1]@);
                return Ok(parts.swap_remove(1));
            }
        }
        i = i + 1;
    }
    Err(HWIDError::new("FieldNotFound", "Could not find MAC address"))
}

/// The UUID of the root volume in the disk information (`diskutil info /`): the value of
/// the first line that `diskutil_line` reads one from.
///
/// Fails with `FieldNotFound` when no line gives one.
pub fn parse_diskutil_uuid(output: &str) -> (r: Result<String, HWIDError>)
    ensures
        match first_value(split_seq(output@, '\n'), diskutil_reader(), 0) {
            Some(v) => r is Ok && r->Ok_0@ == v,
            None => r is Err && r->Err_0.kind_spec() == "FieldNotFound"@,
        },
{
    let lines = split_text(output, '\n');
    let ghost ls = split_seq(output@, '\n');
    let mut i: usize = 0;
    while i < lines.len()
        invariant
            views(lines@) == ls,
            i <= lines.len(),
            ls == split_seq(output@, '\n'),
            first_value(ls, diskutil_reader(), 0) == first_value(ls, diskutil_reader(), i as int),
        decreases lines.len() - i,
    {
        let line = lines[i].as_str();
        assert(ls[i as int] == line@);
        assert(diskutil_reader()(line@) == diskutil_line(line@));
        if contains_text(line, "Volume UUID") {
            let parts = split_text(line, ':');
            if parts.len() == 2 {
                assert(views(parts@)[1] == parts@[1]@);
                return Ok(trim_text(parts[1].as_str()));
            }
        }
        i = i + 1;
    }
    Err(HWIDError::new("FieldNotFound", "Could not find root disk's UUID"))
}

} // verus!
