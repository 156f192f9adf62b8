use crate::component::HWIDComponent;
use crate::errors::HWIDError;
use crate::text::{decimal, decimal_seq, is_lower_hex, lemma_trim_unchanged, trim_of, trim_text};
use sysinfo::{CpuExt, System, SystemExt};
use uuid::Uuid;
use vstd::prelude::*;
use vstd::string::StrSliceExecFns;

verus! {

/// Relies on sysinfo's `SystemExt::physical_core_count`: the number of physical cores,
/// when the machine reports it.
#[verifier::external_body]
fn physical_core_count() -> (r: Option<usize>) {
    System::new_all().physical_core_count()
}

/// Relies on sysinfo's `SystemExt::long_os_version`: the long name of the OS, when known.
#[verifier::external_body]
fn long_os_version() -> (r: Option<String>) {
    System::new_all().long_os_version()
}

/// Relies on sysinfo's `SystemExt::host_name`: the host name, when known.
#[verifier::external_body]
fn host_name() -> (r: Option<String>) {
    System::new_all().host_name()
}

/// Relies on sysinfo's `CpuExt::vendor_id` of `SystemExt::global_cpu_info`: the vendor
/// id string of the CPU.
#[verifier::external_body]
fn cpu_vendor_id() -> (r: String) {
    System::new_all().global_cpu_info().vendor_id().to_string()
}

/// Relies on `whoami::username`: the name of the user that owns the process.
#[verifier::external_body]
fn user_name() -> (r: String) {
    whoami::username()
}

/// Relies on uuid's `Uuid::new_v4` and its `Display`, which writes the lowercase
/// hyphenated form: a random 128-bit identifier as 32 lowercase hex digits grouped
/// 8-4-4-4-12 with hyphens.
#[verifier::external_body]
fn random_uuid_text() -> (r: String)
    ensures
        hyphenated_shape(r@),
{
    Uuid::new_v4().to_string()
}

/// The canonical text of a UUID: 36 characters, lowercase hex digits grouped 8-4-4-4-12
/// with hyphens at positions 8, 13, 18 and 23.
pub open spec fn hyphenated_shape(s: Seq<char>) -> bool {
    &&& s.len() == 36
    &&& forall|i: int|
        0 <= i < 36 ==> if i == 8 || i == 13 || i == 18 || i == 23 {
            s[i] == '-'
        } else {
            is_lower_hex(#[trigger] s[i])
        }
}

/// A token in canonical form reads back unchanged: the token store hands back the
/// trimmed contents of a non-empty file, and trimming leaves such a token as it is. So a
/// token written to a fresh file is returned unchanged by every later call.
pub proof fn lemma_fresh_token_reads_back(t: Seq<char>)
    requires
        hyphenated_shape(t),
    ensures
        t.len() > 0,
        trim_of(t) == t,
{
    assert(is_lower_hex(t[0]));
    assert(is_lower_hex(t[35]));
    assert(t.last() == t[35]);
    lemma_trim_unchanged(t);
}

/// The core count assumed when the machine does not report one.
pub open spec fn default_cores() -> nat {
    2
}

/// The components whose value needs a platform probe (files, commands, registry)
/// rather than a system-information query.
pub open spec fn needs_platform_probe(c: HWIDComponent) -> bool {
    match c {
        HWIDComponent::SystemID => true,
        HWIDComponent::MacAddress => true,
        HWIDComponent::DriveSerial => true,
        HWIDComponent::FileToken(_) => true,
        _ => false,
    }
}

/// The fragment for a core count: its decimal form, or that of 2 when it is unknown.
pub fn cores_text(count: Option<usize>) -> (r: String)
    ensures
        r@ == decimal_seq(
            match count {
                Some(n) => n as nat,
                None => default_cores(),
            },
        ),
{
    match count {
        Some(n) => decimal(n),
        None => decimal(2),
    }
}

/// The value of a soft system-information signal, or a `FieldNotFound` failure with
/// `message` when the machine does not report it.
pub fn reported_or(value: Option<String>, message: &str) -> (r: Result<String, HWIDError>)
    ensures
        match value {
            Some(v) => r is Ok && r->Ok_0@ == v@,
            None => r is Err && r->Err_0.kind_spec() == "FieldNotFound"@ && r->Err_0.message_spec()
                == message@,
        },
{
    match value {
        Some(v) => Ok(v),
        None => Err(HWIDError::new("FieldNotFound", message)),
    }
}

impl HWIDComponent {
    /// The value of a component that a system-information query gives: the physical
    /// core count (2 when unknown), the long OS name, the user name, the host name, or
    /// the CPU vendor id. `None` for the components that need a platform probe.
    pub fn resolve_system_info(&self) -> (r: Option<Result<String, HWIDError>>)
        ensures
            r is None <==> needs_platform_probe(*self),
            *self == HWIDComponent::CPUCores ==> r is Some && r->Some_0 is Ok && exists|n: nat|
                r->Some_0->Ok_0@ == decimal_seq(n),
            *self == HWIDComponent::Username ==> r is Some && r->Some_0 is Ok,
            *self == HWIDComponent::CPUID ==> r is Some && r->Some_0 is Ok,
            *self == HWIDComponent::OSName ==> r is Some && (r->Some_0 is Err
                ==> r->Some_0->Err_0.kind_spec() == "FieldNotFound"@),
            *self == HWIDComponent::MachineName ==> r is Some && (r->Some_0 is Err
                ==> r->Some_0->Err_0.kind_spec() == "FieldNotFound"@),
    {
        match self {
            HWIDComponent::CPUCores => Some(Ok(cores_text(physical_core_count()))),
            HWIDComponent::OSName => Some(reported_or(long_os_version(), "Could not retrieve OS Name")),
            HWIDComponent::Username => Some(Ok(user_name())),
            HWIDComponent::MachineName => Some(reported_or(host_name(), "Could not retrieve Host Name")),
            HWIDComponent::CPUID => Some(Ok(cpu_vendor_id())),
            _ => None,
        }
    }
}

/// What the token store keeps in a file holding `contents`: nothing when the file is
/// empty (a fresh token must be made and written), else the trimmed contents.
pub fn stored_token(contents: &str) -> (r: Option<String>)
    ensures
        contents@.len() == 0 ==> r is None,
        contents@.len() > 0 ==> r is Some && r->Some_0@ == trim_of(contents@),
{
    if contents.unicode_len() == 0 {
        None
    } else {
        Some(trim_text(contents))
    }
}

/// A fresh token: a random 128-bit identifier in its 36-character hyphenated form.
pub fn new_token() -> (r: String)
    ensures
        hyphenated_shape(r@),
{
    random_uuid_text()
}

} // verus!
