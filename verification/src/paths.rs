use vstd::prelude::*;
use vstd::string::{StrSliceExecFns, StringExecFns};

use crate::constants::{ACTIVATE_CLSID_STRING, FRAME_BROKER_CLSID_STRING, FRAME_BROKER_NAME, FRIENDLY_NAME};

verus! {

pub open spec fn is_separator(c: char) -> bool {
    c == '\\' || c == '/'
}

/// `base` already ends where a name can follow: it is empty, ends in a
/// separator, or is a bare drive such as `C:`.
pub open spec fn needs_no_separator(base: Seq<char>) -> bool {
    ||| base.len() == 0
    ||| is_separator(base.last())
    ||| (base.len() == 2 && base[1] == ':')
}

/// A relative `name` appended to the Windows path `base`.
pub open spec fn spec_join(base: Seq<char>, name: Seq<char>) -> Seq<char> {
    if needs_no_separator(base) { base + name } else { base + seq!['\\'] + name }
}

/// Appends the relative path `name` to the Windows path `base`, with a
/// backslash between them where `base` does not already end in one.
pub fn join_path(base: &str, name: &str) -> (p: String)
    ensures
        p@ == spec_join(base@, name@),
{
    let n = base.unicode_len();
    let no_sep = if n == 0 {
        true
    } else {
        let last = base.get_char(n - 1);
        last == '\\' || last == '/' || (n == 2 && base.get_char(1) == ':')
    };
    let mut p = String::from_str(base);
    if !no_sep {
        let sep = "\\";
        proof { reveal_strlit("\\"); }
        p.append(sep);
    }
    p.append(name);
    assert(p@ =~= spec_join(base@, name@));
    p
}

/// The UTF-16 code units of one character: itself below `U+10000`, a
/// surrogate pair above.
pub open spec fn utf16_units(c: char) -> Seq<u16> {
    let v = c as u32 as int;
    if v < 0x10000 {
        seq![v as u16]
    } else {
        seq![(0xD800 + (v - 0x10000) / 0x400) as u16, (0xDC00 + (v - 0x10000) % 0x400) as u16]
    }
}

/// The UTF-16 encoding of a character sequence.
pub open spec fn utf16_of(s: Seq<char>) -> Seq<u16>
    decreases s.len(),
{
    if s.len() == 0 {
        seq![]
    } else {
        utf16_of(s.drop_last()) + utf16_units(s.last())
    }
}

/// `value` in UTF-16 with a terminating zero, as Windows APIs take text.
pub fn wide_null(value: &str) -> (w: Vec<u16>)
    ensures
        w@ == utf16_of(value@).push(0u16),
{
    let n = value.unicode_len();
    let mut w: Vec<u16> = Vec::new();
    let mut i: usize = 0;
    while i < n
        invariant
            n == value@.len(),
            i <= n,
            w@ == utf16_of(value@.subrange(0, i as int)),
        decreases n - i,
    {
        let c = value.get_char(i);
        let v = c as u32;
        if v < 0x10000 {
            w.push(v as u16);
        } else {
            let rest = v - 0x10000;
            w.push((0xD800 + rest / 0x400) as u16);
            w.push((0xDC00 + rest % 0x400) as u16);
        }
        proof {
            let next = value@.subrange(0, i + 1);
            assert(next.drop_last() =~= value@.subrange(0, i as int));
            assert(next.last() == c);
        }
        i = i + 1;
    }
    assert(value@.subrange(0, n as int) =~= value@);
    w.push(0u16);
    w
}

/// The folder the feed's backing files live in: `Documents\vcam-windows-rs`
/// under the public profile folder, `C:\Users\Public` when none is set.
pub fn feed_shared_root_path(public_folder: Option<&str>) -> (p: String)
    ensures
        p@ == spec_join(
            spec_join(match public_folder { Some(f) => f@, None => "C:\\Users\\Public"@ }, "Documents"@),
            "vcam-windows-rs"@,
        ),
{
    let public = match public_folder {
        Some(f) => f,
        None => "C:\\Users\\Public",
    };
    let documents = join_path(public, "Documents");
    join_path(documents.as_str(), "vcam-windows-rs")
}

/// The control file of the feed in the folder `root`.
pub fn feed_control_file_path(root: &str) -> (p: String)
    ensures
        p@ == spec_join(root@, "RustVcamFeedControl-"@ + ACTIVATE_CLSID_STRING@ + ".bin"@),
{
    let mut name = String::from_str("RustVcamFeedControl-");
    name.append(ACTIVATE_CLSID_STRING);
    name.append(".bin");
    join_path(root, name.as_str())
}

/// The slot-ring file of the feed in the folder `root`.
pub fn feed_data_file_path(root: &str) -> (p: String)
    ensures
        p@ == spec_join(root@, "RustVcamFeedData-"@ + ACTIVATE_CLSID_STRING@ + ".bin"@),
{
    let mut name = String::from_str("RustVcamFeedData-");
    name.append(ACTIVATE_CLSID_STRING);
    name.append(".bin");
    join_path(root, name.as_str())
}

/// The machine-wide name of the mutex that guards the feed's control file.
pub fn feed_mutex_name() -> (n: String)
    ensures
        n@ == "Global\\RustVcamFeedMutex-"@ + ACTIVATE_CLSID_STRING@,
{
    let mut name = String::from_str("Global\\RustVcamFeedMutex-");
    name.append(ACTIVATE_CLSID_STRING);
    name
}

/// Where a COM class is registered under a registry root.
#[derive(Clone, Copy, Debug, PartialEq, Eq, Structural)]
pub enum RegistryScope {
    CurrentUser,
    LocalMachine,
}

/// One string value to write to the registry.
pub struct RegistryValue {
    /// Key path under the root.
    pub path: String,
    /// Value name; `None` is the key's default value.
    pub name: Option<String>,
    pub value: String,
}

pub open spec fn spec_clsid_path(clsid: Seq<char>) -> Seq<char> {
    "Software\\Classes\\CLSID\\"@ + clsid
}

pub open spec fn spec_inproc_path(clsid: Seq<char>) -> Seq<char> {
    spec_clsid_path(clsid) + "\\InprocServer32"@
}

/// The key of COM class `clsid`.
pub fn clsid_registry_path(clsid: &str) -> (p: String)
    ensures
        p@ == spec_clsid_path(clsid@),
{
    let mut p = String::from_str("Software\\Classes\\CLSID\\");
    p.append(clsid);
    p
}

/// The values that register an in-process COM class: its display name,
/// the module that serves it, and the threading model `Both`.
pub fn clsid_registration(clsid: &str, display_name: &str, server_module: &str) -> (v: Vec<RegistryValue>)
    ensures
        v@.len() == 3,
        v@[0].path@ == spec_clsid_path(clsid@) && v@[0].name is None && v@[0].value@ == display_name@,
        v@[1].path@ == spec_inproc_path(clsid@) && v@[1].name is None && v@[1].value@ == server_module@,
        v@[2].path@ == spec_inproc_path(clsid@) && v@[2].value@ == "Both"@,
        v@[2].name matches Some(n) && n@ == "ThreadingModel"@,
{
    let clsid_path = clsid_registry_path(clsid);
    let mut inproc_path = clsid_registry_path(clsid);
    inproc_path.append("\\InprocServer32");
    let inproc_path2 = inproc_path.clone();
    let mut v: Vec<RegistryValue> = Vec::new();
    v.push(RegistryValue { path: clsid_path, name: None, value: String::from_str(display_name) });
    v.push(RegistryValue { path: inproc_path, name: None, value: String::from_str(server_module) });
    v.push(RegistryValue {
        path: inproc_path2,
        name: Some(String::from_str("ThreadingModel")),
        value: String::from_str("Both"),
    });
    v
}

/// Everything the server registers: the camera activation class, then the
/// frame broker class, both served by `server_module`.
pub fn server_registration(server_module: &str) -> (v: Vec<RegistryValue>)
    ensures
        v@.len() == 6,
        v@[0].path@ == spec_clsid_path(ACTIVATE_CLSID_STRING@) && v@[0].value@ == FRIENDLY_NAME@,
        v@[1].path@ == spec_inproc_path(ACTIVATE_CLSID_STRING@) && v@[1].value@ == server_module@,
        v@[2].path@ == spec_inproc_path(ACTIVATE_CLSID_STRING@) && v@[2].value@ == "Both"@,
        v@[3].path@ == spec_clsid_path(FRAME_BROKER_CLSID_STRING@) && v@[3].value@ == FRAME_BROKER_NAME@,
        v@[4].path@ == spec_inproc_path(FRAME_BROKER_CLSID_STRING@) && v@[4].value@ == server_module@,
        v@[5].path@ == spec_inproc_path(FRAME_BROKER_CLSID_STRING@) && v@[5].value@ == "Both"@,
        v@[0].name is None && v@[1].name is None && v@[3].name is None && v@[4].name is None,
        v@[2].name matches Some(n) && n@ == "ThreadingModel"@,
        v@[5].name matches Some(n) && n@ == "ThreadingModel"@,
{
    let mut v = clsid_registration(ACTIVATE_CLSID_STRING, FRIENDLY_NAME, server_module);
    let mut broker = clsid_registration(FRAME_BROKER_CLSID_STRING, FRAME_BROKER_NAME, server_module);
    v.append(&mut broker);
    v
}

/// The keys the server removes: the activation class, then the broker.
pub fn server_unregistration() -> (v: Vec<String>)
    ensures
        v@.len() == 2,
        v@[0]@ == spec_clsid_path(ACTIVATE_CLSID_STRING@),
        v@[1]@ == spec_clsid_path(FRAME_BROKER_CLSID_STRING@),
{
    let mut v: Vec<String> = Vec::new();
    v.push(clsid_registry_path(ACTIVATE_CLSID_STRING));
    v.push(clsid_registry_path(FRAME_BROKER_CLSID_STRING));
    v
}

} // verus!
