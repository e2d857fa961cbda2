//! In-core NFS server (NFSv2 + NFSv3) over UDP: the version-agnostic backend
//! (the `fileid` to path map, path containment, synthetic unix attributes) and
//! the XDR / Sun RPC wire layer that both protocol versions share.

pub mod accept;
pub mod backing;
pub mod paths;
pub mod rpc;
pub mod table;
pub mod xdr;

pub use self::backing::{
    file_perm, read_reached_eof, systime, Attr, FileKind, HostMeta, NfsBacking, ROOT_ID, S_IFDIR,
    S_IFLNK, S_IFREG,
};
pub use self::paths::{valid_component, within};
pub use self::rpc::{parse_call, reply, RpcCall};
pub use self::xdr::{Cur, CurView, Xdr};
