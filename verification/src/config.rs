//! The fixed values that the library and its callers agree on.

use vstd::prelude::*;

verus! {

/// Where a kernel that was built with BTF exposes it.
pub const VMLINUX_BTF_PATH: &'static str = "/sys/kernel/btf/vmlinux";

/// The directory under which the archive stores every BTF file.
pub const ARCHIVE_ROOT: &'static str = "./btfhub-archive";

/// The name template of the temporary file that receives the matching entry.
pub const TEMP_FILE_TEMPLATE: &'static str = "/tmp/eunomia.btf.XXXXXX";

} // verus!
