//! The library's error type.  Every failure a verified function can report is
//! one of these variants; the contracts of the reporting functions say
//! exactly on which inputs each variant comes.

use vstd::prelude::*;

verus! {

#[derive(Debug, Clone, PartialEq, Eq)]
pub enum Error {
    BadCidr(String),
    BadProgramFilename(String),
    BadUrl(String),
    CreateExistingVM(String),
    CloudInitImageDoesNotExists(String),
    DiskDoesNotExists { disk_path: String, vm_name: String },
    DownloadImage(String),
    EmptyVMsList,
    GetWrongEmbeddedFile(String),
    ImageDoesNotExists(String),
    PullHtmlImage,
    PullUnknownTypeImage,
    PullUsupportedTypeImage(String),
    RemoveRunningVM(String),
    RewriteExistsPath(String),
    RsyncFrom(String, String),
    RsyncTo(String, String),
    StartRunningVM(String),
    SshFailed(String),
    SshPrivateKeyDoesNotExists(String),
    SshPublicKeyDoesNotExists(String),
    StartVmFailed(String),
    StoreRunningVM(String),
    TapNetworkTapUnset,
    UnknownImage(String),
    VMHasNoPid(String),
    VMHasNoSsh(String),
}

} // verus!
