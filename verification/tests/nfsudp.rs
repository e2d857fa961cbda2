use iris::nfsudp::accept;
use iris::nfsudp::{
    file_perm, parse_call, read_reached_eof, reply, systime, valid_component, within, Cur,
    FileKind, HostMeta, NfsBacking, RpcCall, Xdr, ROOT_ID, S_IFDIR, S_IFLNK, S_IFREG,
};

// ── wire layer ──────────────────────────────────────────────────────────────

#[test]
fn xdr_roundtrip() {
    let mut x = Xdr::new();
    x.u32(0xdead_beef);
    x.u64(0x0102_0304_0506_0708);
    x.opaque(b"abc"); // 4 (len) + 3 + 1 pad = 8
    let bytes = x.into_bytes();
    assert_eq!(bytes.len(), 4 + 8 + 8);
    let mut c = Cur::new(&bytes);
    assert_eq!(c.u32(), Some(0xdead_beef));
    assert_eq!(c.u64(), Some(0x0102_0304_0506_0708));
    assert_eq!(c.opaque(), Some(&b"abc"[..]));
    assert_eq!(c.u32(), None); // exhausted
}

#[test]
fn parse_rpc_call_skips_auth() {
    let mut x = Xdr::new();
    x.u32(0x1122_3344); // xid
    x.u32(0); // CALL
    x.u32(2); // rpcvers
    x.u32(100003); // NFS program
    x.u32(3); // v3
    x.u32(1); // GETATTR
    x.u32(0);
    x.u32(0); // cred: AUTH_NULL, len 0
    x.u32(0);
    x.u32(0); // verf: AUTH_NULL, len 0
    x.u32(0xCAFE_BABE); // one arg word
    let msg = x.into_bytes();
    let (call, mut args) = parse_call(&msg).unwrap();
    assert_eq!(call, RpcCall { xid: 0x1122_3344, prog: 100003, vers: 3, proc_num: 1 });
    assert_eq!(args.u32(), Some(0xCAFE_BABE), "cursor lands on the args");
}

#[test]
fn parse_rejects_non_call_and_bad_version() {
    let mut reply = Xdr::new();
    reply.u32(1);
    reply.u32(1); // xid, REPLY (not CALL)
    assert!(parse_call(&reply.into_bytes()).is_none());

    let mut badver = Xdr::new();
    badver.u32(1);
    badver.u32(0);
    badver.u32(3); // CALL but rpcvers=3
    assert!(parse_call(&badver.into_bytes()).is_none());
}

#[test]
fn reply_header_bytes() {
    let bytes = reply(0x1122_3344, accept::SUCCESS).into_bytes();
    let mut c = Cur::new(&bytes);
    assert_eq!(c.u32(), Some(0x1122_3344)); // xid
    assert_eq!(c.u32(), Some(1)); // REPLY
    assert_eq!(c.u32(), Some(0)); // MSG_ACCEPTED
    assert_eq!(c.u32(), Some(0)); // verf flavor AUTH_NULL
    assert_eq!(c.u32(), Some(0)); // verf len
    assert_eq!(c.u32(), Some(0)); // accept_stat SUCCESS
}

#[test]
fn xdr_encodes_big_endian_words() {
    let mut x = Xdr::new();
    assert!(x.is_empty());
    x.u32(0x0102_0304);
    x.i32(-2);
    x.bool(true);
    x.bool(false);
    assert_eq!(x.len(), 16);
    assert_eq!(
        x.into_bytes(),
        vec![1, 2, 3, 4, 0xff, 0xff, 0xff, 0xfe, 0, 0, 0, 1, 0, 0, 0, 0]
    );
}

#[test]
fn xdr_pads_to_four_bytes() {
    let mut x = Xdr::new();
    x.fixed(b"abcde");
    assert_eq!(x.len(), 8);
    x.opaque(b"");
    assert_eq!(x.len(), 12);
    x.opaque(b"wxyz");
    assert_eq!(x.len(), 20);
    assert_eq!(
        x.into_bytes(),
        vec![b'a', b'b', b'c', b'd', b'e', 0, 0, 0, 0, 0, 0, 0, 0, 0, 0, 4, b'w', b'x', b'y', b'z']
    );
}

#[test]
fn cursor_reads_signed_and_skips() {
    let bytes = [0xff, 0xff, 0xff, 0xfe, 9, 9, 0, 0, 0, 0, 0, 7];
    let mut c = Cur::new(&bytes);
    assert_eq!(c.i32(), Some(-2));
    assert_eq!(c.skip(4), Some(()));
    assert_eq!(c.remaining(), &[0, 0, 0, 7][..]);
    assert_eq!(c.skip(5), None);
    assert_eq!(c.u32(), Some(7));
    assert_eq!(c.remaining(), &[][..] as &[u8]);
}

#[test]
fn cursor_tolerates_missing_trailing_pad() {
    // length 3, three bytes, and no pad byte at the end of the datagram
    let bytes = [0, 0, 0, 3, b'a', b'b', b'c'];
    let mut c = Cur::new(&bytes);
    assert_eq!(c.opaque(), Some(&b"abc"[..]));
    assert_eq!(c.remaining().len(), 0);
    assert_eq!(c.u32(), None);
}

#[test]
fn cursor_rejects_short_opaque() {
    // claims 8 bytes but only 2 follow
    let bytes = [0, 0, 0, 8, 1, 2];
    let mut c = Cur::new(&bytes);
    assert_eq!(c.opaque(), None);
    // the length word was consumed
    assert_eq!(c.remaining(), &[1, 2][..]);
    let mut d = Cur::new(&bytes);
    assert_eq!(d.fixed(7), None);
    assert_eq!(d.remaining().len(), 6);
    assert_eq!(d.u64(), None);
}

#[test]
fn parse_call_with_credentials_and_truncation() {
    let mut x = Xdr::new();
    x.u32(7);
    x.u32(0);
    x.u32(2);
    x.u32(100005);
    x.u32(1);
    x.u32(0);
    x.u32(1); // AUTH_UNIX
    x.opaque(b"credential-bytes!");
    x.u32(0);
    x.opaque(b"");
    let msg = x.into_bytes();
    let (call, args) = parse_call(&msg).unwrap();
    assert_eq!(call, RpcCall { xid: 7, prog: 100005, vers: 1, proc_num: 0 });
    assert_eq!(args.remaining().len(), 0);
    // cutting the verifier short fails the parse
    assert!(parse_call(&msg[..msg.len() - 2]).is_none());
    assert!(parse_call(&[]).is_none());
}

#[test]
fn reply_carries_accept_status() {
    let bytes = reply(9, accept::GARBAGE_ARGS).into_bytes();
    assert_eq!(bytes.len(), 24);
    assert_eq!(&bytes[20..], &[0, 0, 0, 4]);
    assert!(parse_call(&bytes).is_none());
    assert_eq!(accept::PROG_UNAVAIL, 1);
    assert_eq!(accept::PROG_MISMATCH, 2);
    assert_eq!(accept::PROC_UNAVAIL, 3);
    assert_eq!(accept::SYSTEM_ERR, 5);
}

// ── names and paths ─────────────────────────────────────────────────────────

#[test]
fn rejects_traversal_components() {
    assert!(valid_component(b"..").is_none());
    assert!(valid_component(b".").is_none());
    assert!(valid_component(b"").is_none());
    assert!(valid_component(b"a/b").is_none());
    assert!(valid_component(b"a\\b").is_none());
    assert!(valid_component(b"ok.txt").is_some());

    // lookup must refuse to escape the export root, even if the host says
    // the object is there.
    let mut b = NfsBacking::new(b"/export".to_vec());
    assert!(b.lookup(ROOT_ID, b"..", true).is_none());
    assert!(b.lookup(ROOT_ID, b"../etc", true).is_none());
}

#[test]
fn valid_component_rejects_nul_and_keeps_bytes() {
    assert!(valid_component(b"a\0b").is_none());
    assert_eq!(valid_component(b"...").unwrap(), b"...".to_vec());
    assert_eq!(valid_component(&[0xff, 0xfe]).unwrap(), vec![0xff, 0xfe]);
}

#[test]
fn within_compares_components() {
    assert!(within(b"/export", b"/export/a/b"));
    assert!(within(b"/export", b"/export"));
    assert!(within(b"/export/", b"/export//a"));
    assert!(within(b"/export", b"/export/./a"));
    assert!(!within(b"/export", b"/exportx/a"));
    assert!(!within(b"/export/a", b"/export"));
    assert!(!within(b"/export", b"export/a"));
    assert!(within(b"", b"anything"));
    assert!(within(b"./a", b"./a/b"));
    assert!(!within(b"a", b"./a"));
    // containment is lexical: `..` is a component like any other
    assert!(within(b"/export", b"/export/../etc"));
}

// ── backing store ───────────────────────────────────────────────────────────

#[test]
fn root_id_resolves_to_root() {
    let b = NfsBacking::new(b"/srv/share".to_vec());
    let root = b.abs_of(ROOT_ID).unwrap();
    assert!(within(b"/srv/share", &root));
    assert!(within(&root, b"/srv/share"));
    assert!(b.abs_of(2).is_none());
    assert!(b.abs_of(0).is_none());
}

#[test]
fn lookup_interns_stable_ids() {
    let mut b = NfsBacking::new(b"/srv".to_vec());
    assert_eq!(b.child_path(ROOT_ID, b"hello.txt").unwrap(), b"/srv/hello.txt".to_vec());
    let fid = b.lookup(ROOT_ID, b"hello.txt", true).unwrap();
    assert_eq!(fid, 2);
    assert_eq!(b.lookup(ROOT_ID, b"hello.txt", true).unwrap(), fid, "stable id");
    assert_eq!(b.abs_of(fid).unwrap(), b"/srv/hello.txt".to_vec());
    let did = b.lookup(ROOT_ID, b"sub", true).unwrap();
    assert_eq!(did, 3);
    assert!(b.lookup(ROOT_ID, b"nope", false).is_none());
    assert!(b.lookup(99, b"x", true).is_none());
    let nested = b.lookup(did, b"inner", true).unwrap();
    assert_eq!(b.abs_of(nested).unwrap(), b"/srv/sub/inner".to_vec());
    assert_eq!(b.rel_of(nested).unwrap(), &vec![b"sub".to_vec(), b"inner".to_vec()]);
}

#[test]
fn root_with_trailing_slash_joins_once() {
    let mut b = NfsBacking::new(b"/srv/".to_vec());
    let fid = b.create(ROOT_ID, b"f.bin", true).unwrap();
    assert_eq!(b.abs_of(fid).unwrap(), b"/srv/f.bin".to_vec());
    assert!(b.create(ROOT_ID, b"g.bin", false).is_none());
}

#[test]
fn mkdir_remove_rename() {
    let mut b = NfsBacking::new(b"/srv".to_vec());
    let d = b.mkdir(ROOT_ID, b"dir", true).unwrap();
    let f = b.create(d, b"x", true).unwrap();
    assert_eq!(b.abs_of(f).unwrap(), b"/srv/dir/x".to_vec());
    assert_eq!(b.child_path(ROOT_ID, b"y").unwrap(), b"/srv/y".to_vec());
    assert!(b.rename(d, b"x", ROOT_ID, b"y", true));
    // the handle follows the file
    assert_eq!(b.abs_of(f).unwrap(), b"/srv/y".to_vec());
    assert_eq!(b.lookup(ROOT_ID, b"y", true).unwrap(), f);
    assert!(b.remove(ROOT_ID, b"y", true));
    assert!(b.abs_of(f).is_none());
    assert!(b.rmdir(ROOT_ID, b"dir", true));
    assert!(b.abs_of(d).is_none());
    // a failed host operation changes nothing
    let e = b.mkdir(ROOT_ID, b"e", true).unwrap();
    assert!(!b.rmdir(ROOT_ID, b"e", false));
    assert!(b.abs_of(e).is_some());
    assert!(!b.rename(ROOT_ID, b"e", ROOT_ID, b"..", true));
    assert!(!b.remove(ROOT_ID, b"", true));
    // removing a name that was never looked up still succeeds
    assert!(b.remove(ROOT_ID, b"never-seen", true));
}

#[test]
fn readdir_skips_unsafe_names() {
    let mut b = NfsBacking::new(b"/srv".to_vec());
    let existing = b.lookup(ROOT_ID, b"b", true).unwrap();
    let names = vec![b"a".to_vec(), b"..".to_vec(), b"b".to_vec(), b"c/d".to_vec(), b"d".to_vec()];
    let out = b.readdir(ROOT_ID, &names).unwrap();
    let listed: Vec<(Vec<u8>, u64)> = out;
    assert_eq!(
        listed,
        vec![(b"a".to_vec(), 3), (b"b".to_vec(), existing), (b"d".to_vec(), 4)]
    );
    assert!(b.readdir(42, &names).is_none());
}

#[test]
fn attributes_are_synthesised() {
    let b = NfsBacking::new(b"/srv".to_vec());
    let dir = HostMeta {
        is_dir: true,
        is_symlink: false,
        is_file: false,
        unix_mode: Some(0o700),
        len: 4096,
        accessed: Some((5_000_000_000, 7)),
        modified: None,
    };
    let a = b.attr_from(ROOT_ID, &dir);
    assert_eq!(a.kind, FileKind::Dir);
    assert_eq!(a.mode, S_IFDIR | 0o755);
    assert_eq!(a.mode & 0o170000, S_IFDIR);
    assert_eq!(a.nlink, 2);
    assert_eq!((a.uid, a.gid), (0, 0));
    assert_eq!(a.fileid, ROOT_ID);
    assert_eq!(a.size, 4096);
    assert_eq!(a.atime, ((5_000_000_000u64 % (1u64 << 32)) as u32, 7));
    assert_eq!(a.mtime, (0, 0));
    assert_eq!(a.ctime, (0, 0));

    let exe = HostMeta { is_dir: false, is_file: true, unix_mode: Some(0o750), len: 8, ..dir };
    let f = b.attr_from(7, &exe);
    assert_eq!(f.kind, FileKind::Reg);
    assert_eq!(f.mode, S_IFREG | 0o755);
    assert_eq!(f.nlink, 1);
    assert_eq!(f.size, 8);

    let plain = HostMeta { unix_mode: Some(0o640), modified: Some((12, 34)), ..exe };
    let p = b.attr_from(8, &plain);
    assert_eq!(p.mode, S_IFREG | 0o644);
    assert_eq!(p.mtime, (12, 34));
    assert_eq!(p.ctime, (12, 34));

    let link = HostMeta { is_file: false, is_symlink: true, ..plain };
    assert_eq!(b.attr_from(9, &link).mode, S_IFLNK | 0o777);
    assert_eq!(b.attr_from(9, &link).kind, FileKind::Lnk);

    let fifo = HostMeta { is_symlink: false, ..link };
    let o = b.attr_from(10, &fifo);
    assert_eq!(o.kind, FileKind::Other);
    assert_eq!(o.mode, S_IFREG | 0o644);
}

#[test]
fn file_perm_and_times() {
    let base = HostMeta {
        is_dir: false,
        is_symlink: false,
        is_file: true,
        unix_mode: None,
        len: 0,
        accessed: None,
        modified: None,
    };
    assert_eq!(file_perm(&base), 0o644);
    assert_eq!(file_perm(&HostMeta { unix_mode: Some(0o001), ..base }), 0o755);
    assert_eq!(file_perm(&HostMeta { unix_mode: Some(0o666), ..base }), 0o644);
    assert_eq!(systime(None), (0, 0));
    assert_eq!(systime(Some((1_700_000_000, 999))), (1_700_000_000, 999));
    assert_eq!(systime(Some(((1u64 << 32) + 5, 1))), (5, 1));
}

#[test]
fn read_eof_detection() {
    assert!(!read_reached_eof(2, 3, 8));
    assert!(read_reached_eof(5, 3, 8));
    assert!(read_reached_eof(100, 0, 8));
    assert!(read_reached_eof(u64::MAX, 10, u64::MAX));
}

#[test]
fn is_dir_and_attr_need_a_known_id() {
    let b = NfsBacking::new(b"/srv".to_vec());
    assert!(b.is_dir(ROOT_ID, true));
    assert!(!b.is_dir(ROOT_ID, false));
    assert!(!b.is_dir(99, true));

    let md = HostMeta {
        is_dir: false,
        is_symlink: false,
        is_file: true,
        unix_mode: Some(0o644),
        len: 3,
        accessed: None,
        modified: Some((1, 2)),
    };
    let a = b.attr(ROOT_ID, Some(md)).expect("root is known");
    assert_eq!(a, b.attr_from(ROOT_ID, &md));
    assert_eq!(a.fileid, ROOT_ID);
    assert_eq!(a.size, 3);
    assert!(b.attr(ROOT_ID, None).is_none());
    assert!(b.attr(99, Some(md)).is_none());
}

#[test]
fn readdir_ids_match_lookup() {
    let mut b = NfsBacking::new(b"/export".to_vec());
    let names = vec![b"x".to_vec(), b"..".to_vec(), b"y".to_vec()];
    let listed = b.readdir(ROOT_ID, &names).expect("root is known");
    assert_eq!(listed.len(), 2);
    for (name, id) in &listed {
        assert_eq!(b.lookup(ROOT_ID, name, true), Some(*id));
    }
    // listing again hands out the same ids
    assert_eq!(b.readdir(ROOT_ID, &names), Some(listed));
}

fn dir_meta() -> HostMeta {
    HostMeta {
        is_dir: true,
        is_symlink: false,
        is_file: false,
        unix_mode: Some(0o755),
        len: 4096,
        accessed: None,
        modified: None,
    }
}

fn file_meta(len: u64) -> HostMeta {
    HostMeta { is_dir: false, is_file: true, unix_mode: Some(0o644), len, ..dir_meta() }
}

#[test]
fn root_is_a_dir_with_id_1() {
    let b = NfsBacking::new(b"/tmp/export".to_vec());
    // the same path, component by component
    let root = b.abs_of(ROOT_ID).unwrap();
    assert!(within(&root, b"/tmp/export") && within(b"/tmp/export", &root));
    assert!(b.is_dir(ROOT_ID, true));
    let a = b.attr(ROOT_ID, Some(dir_meta())).unwrap();
    assert_eq!(a.kind, FileKind::Dir);
    assert_eq!(a.fileid, ROOT_ID);
    assert_eq!(a.uid, 0);
}

#[test]
fn lookup_intern_and_attrs() {
    let mut b = NfsBacking::new(b"/tmp/export".to_vec());
    let fid = b.lookup(ROOT_ID, b"hello.txt", true).unwrap();
    assert_eq!(b.lookup(ROOT_ID, b"hello.txt", true).unwrap(), fid, "stable id");
    let a = b.attr(fid, Some(file_meta(8))).unwrap();
    assert_eq!(a.kind, FileKind::Reg);
    assert_eq!(a.size, 8);
    assert_eq!(a.mode & 0o170000, S_IFREG);

    let did = b.lookup(ROOT_ID, b"sub", true).unwrap();
    assert!(b.is_dir(did, true));
    assert!(b.lookup(ROOT_ID, b"nope", false).is_none());
}

#[test]
fn read_write_roundtrip() {
    let mut b = NfsBacking::new(b"/tmp/export".to_vec());
    let fid = b.create(ROOT_ID, b"f.bin", true).unwrap();
    assert_eq!(b.abs_of(fid).unwrap(), b"/tmp/export/f.bin".to_vec());
    // after writing "abcdefgh" the host reports 8 bytes
    let attr = b.attr(fid, Some(file_meta(8))).unwrap();
    assert_eq!(attr.size, 8);
    // reading 3 bytes at 2 stops short of the end; 3 bytes at 5 reach it
    assert!(!read_reached_eof(2, 3, 8));
    assert!(read_reached_eof(5, 3, 8));
}

#[test]
fn readdir_lists_children() {
    let mut b = NfsBacking::new(b"/tmp/export".to_vec());
    let names = vec![b"d".to_vec(), b"a".to_vec(), b"b".to_vec()];
    let mut listed: Vec<Vec<u8>> =
        b.readdir(ROOT_ID, &names).unwrap().into_iter().map(|(n, _)| n).collect();
    listed.sort();
    assert_eq!(listed, vec![b"a".to_vec(), b"b".to_vec(), b"d".to_vec()]);
}

#[test]
fn removed_ids_are_not_reused() {
    let mut b = NfsBacking::new(b"/srv".to_vec());
    let a = b.create(ROOT_ID, b"a", true).unwrap();
    assert_eq!(b.next_id(), a + 1);
    assert!(b.remove(ROOT_ID, b"a", true));
    assert_eq!(b.next_id(), a + 1);
    let again = b.create(ROOT_ID, b"a", true).unwrap();
    assert!(again > a);
}

#[test]
fn skip_auth_failure_positions() {
    // flavor, then a body length of 10 with only 4 body bytes present
    let bytes = [0, 0, 0, 1, 0, 0, 0, 10, 1, 2, 3, 4];
    let mut c = Cur::new(&bytes);
    assert_eq!(c.skip_auth(), None);
    assert_eq!(c.remaining(), &[1, 2, 3, 4]);
    // too short for even the flavor word: the cursor stays put
    let short = [0, 0, 1];
    let mut d = Cur::new(&short);
    assert_eq!(d.skip_auth(), None);
    assert_eq!(d.remaining(), &[0, 0, 1]);
}
