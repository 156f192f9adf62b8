use crate::errors::HWIDError;
use crate::text::{
    contains_seq, contains_text, decimal, decimal_seq, trim_of, trim_text, views,
};
use vstd::prelude::*;
use vstd::string::StrSliceExecFns;
use vstd::string::StringExecFns;

verus! {

/// One block device of the listing, with the partitions under it.
pub struct Device {
    pub name: String,
    pub mountpoint: Option<String>,
    pub children: Option<Vec<Device>>,
    pub uuid: Option<String>,
}

/// The block-device listing: the top-level devices in listing order.
pub struct Output {
    pub blockdevices: Vec<Device>,
}

/// The mount point is the root of the file system.
pub open spec fn mounted_at_root(m: Option<String>) -> bool {
    m matches Some(p) && p@ == "/"@
}

/// The name marks removable SD/MMC media.
pub open spec fn is_mmc(name: Seq<char>) -> bool {
    contains_seq(name, "mmc"@)
}

/// Where sysfs keeps the hardware CID of the disk of partition `name`: the name without
/// its last two characters names the disk.
pub open spec fn cid_path_of(name: Seq<char>) -> Seq<char> {
    "/sys/block/"@ + name.subrange(0, name.len() - 2) + "/device/cid"@
}

/// The partitions directly under `d`, in listing order.
pub open spec fn children_of(d: Device) -> Seq<Device> {
    match d.children {
        Some(c) => c@,
        None => Seq::empty(),
    }
}

/// The first of `ds`, from index `j` on, that is mounted at the root.
pub open spec fn first_root_in(ds: Seq<Device>, j: int) -> Option<Device>
    decreases ds.len() - j,
{
    if j < 0 || j >= ds.len() {
        None
    } else if mounted_at_root(ds[j].mountpoint) {
        Some(ds[j])
    } else {
        first_root_in(ds, j + 1)
    }
}

/// The device mounted at the root that the search finds first: the top-level devices
/// are visited in listing order from index `i` on, each one before its direct children.
pub open spec fn first_root(devs: Seq<Device>, i: int) -> Option<Device>
    decreases devs.len() - i,
{
    if i < 0 || i >= devs.len() {
        None
    } else if mounted_at_root(devs[i].mountpoint) {
        Some(devs[i])
    } else {
        match first_root_in(children_of(devs[i]), 0) {
            Some(c) => Some(c),
            None => first_root(devs, i + 1),
        }
    }
}

/// The identifier of the root device `d`, with `cid` the text read from its CID file:
/// the trimmed CID when `d` is an MMC device and that CID has 32 characters, else the
/// device's UUID, if it has one.
pub open spec fn root_id(d: Device, cid: Seq<char>) -> Option<Seq<char>> {
    if is_mmc(d.name@) && trim_of(cid).len() == 32 {
        Some(trim_of(cid))
    } else if d.uuid is Some {
        Some(d.uuid->Some_0@)
    } else {
        None
    }
}

/// The CID file to read for the root device `d`: only an MMC device has one.
pub open spec fn cid_request(d: Device) -> Option<Seq<char>> {
    if is_mmc(d.name@) {
        Some(cid_path_of(d.name@))
    } else {
        None
    }
}

fn is_root_mount(m: &Option<String>) -> (r: bool)
    ensures
        r == mounted_at_root(*m),
{
    match m {
        Some(p) => crate::text::same_text(p.as_str(), "/"),
        None => false,
    }
}

fn first_root_child<'a>(children: &'a Vec<Device>) -> (r: Option<&'a Device>)
    ensures
        match first_root_in(children@, 0) {
            Some(d) => r is Some && *r->Some_0 == d,
            None => r is None,
        },
{
    let mut j: usize = 0;
    while j < children.len()
        invariant
            j <= children.len(),
            first_root_in(children@, 0) == first_root_in(children@, j as int),
        decreases children.len() - j,
    {
        if is_root_mount(&children[j].mountpoint) {
            return Some(&children[j]);
        }
        j = j + 1;
    }
    None
}

impl Output {
    /// The device mounted at the root that the search finds first: each top-level
    /// device in listing order, then its direct children.
    pub fn find_root(&self) -> (r: Option<&Device>)
        ensures
            match first_root(self.blockdevices@, 0) {
                Some(d) => r is Some && *r->Some_0 == d,
                None => r is None,
            },
    {
        let mut i: usize = 0;
        while i < self.blockdevices.len()
            invariant
                i <= self.blockdevices.len(),
                first_root(self.blockdevices@, 0) == first_root(self.blockdevices@, i as int),
            decreases self.blockdevices.len() - i,
        {
            let d = &self.blockdevices[i];
            if is_root_mount(&d.mountpoint) {
                return Some(d);
            }
            match &d.children {
                Some(children) => {
                    match first_root_child(children) {
                        Some(c) => {
                            return Some(c);
                        },
                        None => {},
                    }
                },
                None => {},
            }
            i = i + 1;
        }
        None
    }

    /// The CID file to read: the one of the root device found by `find_root`, when that
    /// is an MMC device.
    pub fn cid_path(&self) -> (r: Option<String>)
        ensures
            match first_root(self.blockdevices@, 0) {
                Some(d) => match cid_request(d) {
                    Some(p) => r is Some && r->Some_0@ == p,
                    None => r is None,
                },
                None => r is None,
            },
    {
        match self.find_root() {
            None => None,
            Some(d) => {
                if contains_text(d.name.as_str(), "mmc") {
                    let n = d.name.as_str().unicode_len();
                    proof {
                        reveal_strlit("mmc");
                    }
                    let disk = d.name.as_str().substring_char(0, n - 2);
                    Some(String::from_str("/sys/block/").concat(disk).concat("/device/cid"))
                } else {
                    None
                }
            },
        }
    }

    /// The identifier of the root disk. The first device mounted at `/` (each top-level
    /// device in listing order, then its direct children) decides, and the search stops
    /// there: its hardware CID when it is an MMC device whose CID, trimmed, has 32
    /// characters, else its UUID. `cid` is the text read from the file that `cid_path`
    /// names (empty when there is none or it could not be read).
    ///
    /// Fails with `FieldNotFound` when no device is mounted at `/`, or when the first one
    /// gives no identifier.
    pub fn get_root(&self, cid: &str) -> (r: Result<String, HWIDError>)
        ensures
            match first_root(self.blockdevices@, 0) {
                Some(d) => match root_id(d, cid@) {
                    Some(u) => r is Ok && r->Ok_0@ == u,
                    None => r is Err && r->Err_0.kind_spec() == "FieldNotFound"@,
                },
                None => r is Err && r->Err_0.kind_spec() == "FieldNotFound"@,
            },
    {
        match self.find_root() {
            None => Err(HWIDError::new("FieldNotFound", "Could not find root disk's UUID")),
            Some(d) => {
                if contains_text(d.name.as_str(), "mmc") {
                    let c = trim_text(cid);
                    if c.as_str().unicode_len() == 32 {
                        return Ok(c);
                    }
                }
                match &d.uuid {
                    Some(u) => Ok(u.clone()),
                    None => Err(
                        HWIDError::new("FieldNotFound", "The root-mounted device has no UUID"),
                    ),
                }
            },
        }
    }
}

/// Interface names tried for the MAC address, in priority order: on-board index, PCI
/// slot, the first ten PCI locations of wired and of wireless adapters, classic `eth0`,
/// then `wlan0`.
pub open spec fn interface_candidates() -> Seq<Seq<char>> {
    seq!["eno0"@, "ens0"@] + Seq::new(10, |x: int| "enp"@ + decimal_seq(x as nat) + "s0"@)
        + Seq::new(10, |x: int| "wlp"@ + decimal_seq(x as nat) + "s0"@) + seq![
        "eth0"@,
        "wlan0"@,
    ]
}

/// The files that may hold the system id, in the order they are tried.
pub open spec fn machine_id_files() -> Seq<Seq<char>> {
    seq!["/var/lib/dbus/machine-id"@, "/etc/machine-id"@]
}

/// Where sysfs keeps the MAC address of interface `iface`.
pub open spec fn mac_path_of(iface: Seq<char>) -> Seq<char> {
    "/sys/class/net/"@ + iface + "/address"@
}

/// `read` gave `out` when asked for a text that reads `name`.
pub open spec fn read_gave<F: Fn(&str) -> Result<String, HWIDError>>(
    read: F,
    name: Seq<char>,
    out: Result<String, HWIDError>,
) -> bool {
    exists|s: &str| s@ == name && #[trigger] read.ensures((s,), out)
}

/// `read` gave `out` when asked for a text that reads `path`.
pub open spec fn lookup_gave<F: Fn(&str) -> Option<Result<String, HWIDError>>>(
    read: F,
    path: Seq<char>,
    out: Option<Result<String, HWIDError>>,
) -> bool {
    exists|s: &str| s@ == path && #[trigger] read.ensures((s,), out)
}

/// `tried` is what `read` gave for the leading names of `names`, asked in order, every
/// one of them but the last a failure.
pub open spec fn read_in_order<F: Fn(&str) -> Result<String, HWIDError>>(
    read: F,
    names: Seq<Seq<char>>,
    tried: Seq<Result<String, HWIDError>>,
) -> bool {
    &&& tried.len() <= names.len()
    &&& forall|j: int| 0 <= j < tried.len() ==> read_gave(read, names[j], #[trigger] tried[j])
    &&& forall|j: int| 0 <= j < tried.len() - 1 ==> (#[trigger] tried[j]) is Err
}

/// `tried` is what `read` gave for the leading paths of `paths`, asked in order, every
/// one of them but the last absent.
pub open spec fn looked_up_in_order<F: Fn(&str) -> Option<Result<String, HWIDError>>>(
    read: F,
    paths: Seq<Seq<char>>,
    tried: Seq<Option<Result<String, HWIDError>>>,
) -> bool {
    &&& tried.len() <= paths.len()
    &&& forall|j: int| 0 <= j < tried.len() ==> lookup_gave(read, paths[j], #[trigger] tried[j])
    &&& forall|j: int| 0 <= j < tried.len() - 1 ==> (#[trigger] tried[j]) is None
}

/// The interface names tried for the MAC address, in priority order.
pub fn mac_interface_candidates() -> (r: Vec<String>)
    ensures
        views(r@) == interface_candidates(),
{
    let mut r: Vec<String> = Vec::new();
    r.push(String::from_str("eno0"));
    r.push(String::from_str("ens0"));
    let mut x: usize = 0;
    while x < 10
        invariant
            x <= 10,
            views(r@) == seq!["eno0"@, "ens0"@] + Seq::new(
                x as nat,
                |k: int| "enp"@ + decimal_seq(k as nat) + "s0"@,
            ),
        decreases 10 - x,
    {
        let name = String::from_str("enp").concat(decimal(x).as_str()).concat("s0");
        let ghost before = r@;
        r.push(name);
        assert(views(r@) =~= views(before).push(name@));
        assert(views(r@) =~= seq!["eno0"@, "ens0"@] + Seq::new(
            (x + 1) as nat,
            |k: int| "enp"@ + decimal_seq(k as nat) + "s0"@,
        ));
        x = x + 1;
    }
    let ghost wired = views(r@);
    let mut x: usize = 0;
    assert(wired + Seq::new(0, |k: int| "wlp"@ + decimal_seq(k as nat) + "s0"@) =~= wired);
    while x < 10
        invariant
            x <= 10,
            views(r@) == wired + Seq::new(x as nat, |k: int| "wlp"@ + decimal_seq(k as nat) + "s0"@),
        decreases 10 - x,
    {
        let name = String::from_str("wlp").concat(decimal(x).as_str()).concat("s0");
        let ghost before = r@;
        r.push(name);
        assert(views(r@) =~= views(before).push(name@));
        assert(views(r@) =~= wired + Seq::new(
            (x + 1) as nat,
            |k: int| "wlp"@ + decimal_seq(k as nat) + "s0"@,
        ));
        x = x + 1;
    }
    r.push(String::from_str("eth0"));
    r.push(String::from_str("wlan0"));
    assert(views(r@) =~= interface_candidates());
    r
}

/// The sysfs file that holds the MAC address of interface `iface`.
pub fn mac_address_path(iface: &str) -> (r: String)
    ensures
        r@ == mac_path_of(iface@),
{
    String::from_str("/sys/class/net/").concat(iface).concat("/address")
}

/// The MAC address: `read_address(name)` gives the address of an interface. The
/// candidates are asked in priority order and the first address read wins; when none
/// can be read, the interface that `default_interface` names (trimmed) is asked.
pub fn get_mac_address<F, G>(read_address: F, default_interface: G) -> (r: Result<
    String,
    HWIDError,
>) where F: Fn(&str) -> Result<String, HWIDError>, G: Fn() -> Result<String, HWIDError>,

    requires
        forall|s: &str| #[trigger] read_address.requires((s,)),
        default_interface.requires(()),
    ensures
        exists|tried: Seq<Result<String, HWIDError>>|
            #[trigger] read_in_order(read_address, interface_candidates(), tried) && if tried.len()
                > 0 && tried.last() is Ok {
                r == tried.last()
            } else {
                tried.len() == interface_candidates().len() && exists|d: Result<String, HWIDError>|
                    #[trigger] default_interface.ensures((), d) && match d {
                        Err(e) => r == Err::<String, HWIDError>(e),
                        Ok(n) => read_gave(read_address, trim_of(n@), r),
                    }
            },
{
    let names = mac_interface_candidates();
    let ghost mut tried: Seq<Result<String, HWIDError>> = Seq::empty();
    let mut i: usize = 0;
    while i < names.len()
        invariant
            i <= names.len(),
            views(names@) == interface_candidates(),
            tried.len() == i,
            read_in_order(read_address, interface_candidates(), tried),
            forall|j: int| 0 <= j < i ==> (#[trigger] tried[j]) is Err,
            forall|s: &str| #[trigger] read_address.requires((s,)),
        decreases names.len() - i,
    {
        let name = names[i].as_str();
        let result = read_address(name);
        proof {
            let prev = tried;
            tried = tried.push(result);
            assert(views(names@)[i as int] == names@[i as int]@);
            assert forall|j: int| 0 <= j < tried.len() implies read_gave(
                read_address,
                interface_candidates()[j],
                #[trigger] tried[j],
            ) by {
                if j < i {
                    assert(tried[j] == prev[j]);
                } else {
                    assert(name@ == interface_candidates()[j] && read_address.ensures(
                        (name,),
                        tried[j],
                    ));
                }
            }
        }
        if result.is_ok() {
            assert(tried.last() == result);
            assert(read_in_order(read_address, interface_candidates(), tried));
            return result;
        }
        i = i + 1;
    }
    assert(read_in_order(read_address, interface_candidates(), tried));
    let d = default_interface();
    assert(default_interface.ensures((), d));
    match d {
        Err(e) => Err(e),
        Ok(n) => {
            let iface = trim_text(n.as_str());
            let name = iface.as_str();
            let r = read_address(name);
            assert(name@ == trim_of(n@) && read_address.ensures((name,), r));
            r
        },
    }
}

/// The system id: `read_if_exists(path)` gives the contents of the file at `path`, or
/// nothing when there is no such file. The first file of `machine_id_files` that exists
/// decides: its contents, trimmed, or the failure to read it.
///
/// Fails with `FileNotFound` when neither file exists.
pub fn get_hwid<F>(read_if_exists: F) -> (r: Result<String, HWIDError>) where
    F: Fn(&str) -> Option<Result<String, HWIDError>>,

    requires
        forall|s: &str| #[trigger] read_if_exists.requires((s,)),
    ensures
        exists|tried: Seq<Option<Result<String, HWIDError>>>|
            #[trigger] looked_up_in_order(read_if_exists, machine_id_files(), tried) && if tried.len()
                > 0 && tried.last() is Some {
                match tried.last()->Some_0 {
                    Ok(c) => r is Ok && r->Ok_0@ == trim_of(c@),
                    Err(e) => r == Err::<String, HWIDError>(e),
                }
            } else {
                tried.len() == machine_id_files().len() && r is Err && r->Err_0.kind_spec()
                    == "FileNotFound"@
            },
{
    let ghost mut tried: Seq<Option<Result<String, HWIDError>>> = Seq::empty();
    let dbus_path = "/var/lib/dbus/machine-id";
    let first = read_if_exists(dbus_path);
    proof {
        tried = tried.push(first);
        assert(dbus_path@ == machine_id_files()[0]);
        assert(read_if_exists.ensures((dbus_path,), tried[0]));
        assert(lookup_gave(read_if_exists, machine_id_files()[0], tried[0]));
        assert(looked_up_in_order(read_if_exists, machine_id_files(), tried));
    }
    match first {
        Some(Ok(c)) => {
            return Ok(trim_text(c.as_str()));
        },
        Some(Err(e)) => {
            return Err(e);
        },
        None => {},
    }
    let etc_path = "/etc/machine-id";
    let second = read_if_exists(etc_path);
    proof {
        let prev = tried;
        tried = tried.push(second);
        assert(etc_path@ == machine_id_files()[1]);
        assert(read_if_exists.ensures((etc_path,), tried[1]));
        assert(lookup_gave(read_if_exists, machine_id_files()[1], tried[1]));
        assert(tried[0] == prev[0]);
        assert(looked_up_in_order(read_if_exists, machine_id_files(), tried));
    }
    match second {
        Some(Ok(c)) => Ok(trim_text(c.as_str())),
        Some(Err(e)) => Err(e),
        None => Err(
            HWIDError::new("FileNotFound", "Could not find the files containing the System ID"),
        ),
    }
}

} // verus!
