//! Sun RPC (RFC 1057) call headers and accepted-reply headers.

use vstd::prelude::*;

use super::xdr::{
    be32, dec_auth, dec_u32, enc_opaque, lemma_opaque_at, lemma_u32_at, law_u32_roundtrip, Cur,
    CurView, Xdr,
};

verus! {

pub const MSG_CALL: u32 = 0;

pub const MSG_REPLY: u32 = 1;

pub const RPC_VERSION: u32 = 2;

pub const REPLY_ACCEPTED: u32 = 0;

pub const AUTH_NULL: u32 = 0;

/// A parsed RPC CALL header. Credentials are skipped — every host is allowed.
#[derive(Debug, Clone, Copy, PartialEq, Eq)]
pub struct RpcCall {
    pub xid: u32,
    pub prog: u32,
    pub vers: u32,
    pub proc_num: u32,
}

/// What parsing a CALL header from `bytes` yields: the header and the cursor
/// left at the procedure arguments, or nothing if it isn't an RPC v2 CALL.
pub open spec fn spec_parse_call(bytes: Seq<u8>) -> Option<(RpcCall, CurView)> {
    let c0 = CurView { bytes, pos: 0 };
    match dec_u32(c0) {
        None => None,
        Some((xid, c1)) => match dec_u32(c1) {
            None => None,
            Some((mtype, c2)) => if mtype != MSG_CALL {
                None
            } else {
                match dec_u32(c2) {
                    None => None,
                    Some((rpcvers, c3)) => if rpcvers != RPC_VERSION {
                        None
                    } else {
                        match dec_u32(c3) {
                            None => None,
                            Some((prog, c4)) => match dec_u32(c4) {
                                None => None,
                                Some((vers, c5)) => match dec_u32(c5) {
                                    None => None,
                                    Some((proc_num, c6)) => match dec_auth(c6) {
                                        None => None,
                                        Some(c7) => match dec_auth(c7) {
                                            None => None,
                                            Some(c8) => Some(
                                                (RpcCall { xid, prog, vers, proc_num }, c8),
                                            ),
                                        },
                                    },
                                },
                            },
                        }
                    },
                }
            },
        },
    }
}

/// Parse the RPC CALL header from one UDP datagram, returning the header and a
/// cursor positioned at the procedure arguments. `None` if it isn't a v2 CALL.
pub fn parse_call(msg: &[u8]) -> (r: Option<(RpcCall, Cur<'_>)>)
    ensures
        spec_parse_call(msg@) == (match r {
            Some((call, c)) => Some((call, c@)),
            None => None::<(RpcCall, CurView)>,
        }),
{
    let mut c = Cur::new(msg);
    let xid = match c.u32() {
        Some(v) => v,
        None => return None,
    };
    match c.u32() {
        Some(v) => {
            if v != MSG_CALL {
                return None;
            }
        },
        None => return None,
    }
    match c.u32() {
        Some(v) => {
            if v != RPC_VERSION {
                return None;
            }
        },
        None => return None,
    }
    let prog = match c.u32() {
        Some(v) => v,
        None => return None,
    };
    let vers = match c.u32() {
        Some(v) => v,
        None => return None,
    };
    let proc_num = match c.u32() {
        Some(v) => v,
        None => return None,
    };
    match c.skip_auth() {
        Some(_) => {},
        None => return None,
    }
    match c.skip_auth() {
        Some(_) => {},
        None => return None,
    }
    Some((RpcCall { xid, prog, vers, proc_num }, c))
}

/// The header bytes of an accepted reply with an AUTH_NULL verifier.
pub open spec fn reply_header(xid: u32, accept_stat: u32) -> Seq<u8> {
    be32(xid) + be32(MSG_REPLY) + be32(REPLY_ACCEPTED) + be32(AUTH_NULL) + be32(0) + be32(
        accept_stat,
    )
}

/// Begin an accepted RPC reply (AUTH_NULL verifier), ready for the caller to
/// append the procedure result. `accept_stat` is one of
/// [`accept`](super::accept).
pub fn reply(xid: u32, accept_stat: u32) -> (x: Xdr)
    ensures
        x@ == reply_header(xid, accept_stat),
{
    let mut x = Xdr::new();
    x.u32(xid);
    x.u32(MSG_REPLY);
    x.u32(REPLY_ACCEPTED);
    x.u32(AUTH_NULL);  // verifier flavor
    x.u32(0);  // verifier body length
    x.u32(accept_stat);
    x
}

// ── laws ────────────────────────────────────────────────────────────────────

/// The bytes of an RPC v2 CALL header with the given credential and verifier.
pub open spec fn call_header(
    call: RpcCall,
    cred_flavor: u32,
    cred: Seq<u8>,
    verf_flavor: u32,
    verf: Seq<u8>,
) -> Seq<u8> {
    be32(call.xid) + be32(MSG_CALL) + be32(RPC_VERSION) + be32(call.prog) + be32(call.vers)
        + be32(call.proc_num) + be32(cred_flavor) + enc_opaque(cred) + be32(verf_flavor)
        + enc_opaque(verf)
}

/// Parsing a well-formed CALL gives back its header, whatever credential and
/// verifier it carries, and leaves the cursor exactly on the arguments.
#[verifier::rlimit(100)]
pub proof fn law_parse_call_roundtrip(
    call: RpcCall,
    cred_flavor: u32,
    cred: Seq<u8>,
    verf_flavor: u32,
    verf: Seq<u8>,
    args: Seq<u8>,
)
    requires
        cred.len() <= u32::MAX,
        verf.len() <= u32::MAX,
    ensures
        ({
            let h = call_header(call, cred_flavor, cred, verf_flavor, verf);
            spec_parse_call(h + args) == Some(
                (call, CurView { bytes: h + args, pos: h.len() as int }),
            )
        }),
{
    let h = call_header(call, cred_flavor, cred, verf_flavor, verf);
    let bytes = h + args;
    let l1 = enc_opaque(cred).len() as int;
    let l2 = enc_opaque(verf).len() as int;
    let cv = |p: int| CurView { bytes, pos: p };
    assert(h.len() == 32 + l1 + l2);
    assert(dec_u32(cv(0)) == Some((call.xid, cv(4)))) by {
        assert(bytes.subrange(0, 4) =~= be32(call.xid));
        lemma_u32_at(bytes, 0, call.xid);
    }
    assert(dec_u32(cv(4)) == Some((MSG_CALL, cv(8)))) by {
        assert(bytes.subrange(4, 8) =~= be32(MSG_CALL));
        lemma_u32_at(bytes, 4, MSG_CALL);
    }
    assert(dec_u32(cv(8)) == Some((RPC_VERSION, cv(12)))) by {
        assert(bytes.subrange(8, 12) =~= be32(RPC_VERSION));
        lemma_u32_at(bytes, 8, RPC_VERSION);
    }
    assert(dec_u32(cv(12)) == Some((call.prog, cv(16)))) by {
        assert(bytes.subrange(12, 16) =~= be32(call.prog));
        lemma_u32_at(bytes, 12, call.prog);
    }
    assert(dec_u32(cv(16)) == Some((call.vers, cv(20)))) by {
        assert(bytes.subrange(16, 20) =~= be32(call.vers));
        lemma_u32_at(bytes, 16, call.vers);
    }
    assert(dec_u32(cv(20)) == Some((call.proc_num, cv(24)))) by {
        assert(bytes.subrange(20, 24) =~= be32(call.proc_num));
        lemma_u32_at(bytes, 20, call.proc_num);
    }
    assert(dec_auth(cv(24)) == Some(cv(28 + l1))) by {
        assert(bytes.subrange(24, 28) =~= be32(cred_flavor));
        lemma_u32_at(bytes, 24, cred_flavor);
        assert(bytes.subrange(28, 28 + l1) =~= enc_opaque(cred));
        lemma_opaque_at(bytes, 28, cred);
    }
    assert(dec_auth(cv(28 + l1)) == Some(cv(32 + l1 + l2))) by {
        assert(bytes.subrange(28 + l1, 32 + l1) =~= be32(verf_flavor));
        lemma_u32_at(bytes, 28 + l1, verf_flavor);
        assert(bytes.subrange(32 + l1, 32 + l1 + l2) =~= enc_opaque(verf));
        lemma_opaque_at(bytes, 32 + l1, verf);
    }
}

/// Every reply is an accepted reply, whatever its status: its six words read
/// back as the xid, REPLY (1), MSG_ACCEPTED (0), an AUTH_NULL verifier
/// (flavor 0, length 0) and the status, and nothing follows.
pub proof fn law_reply_is_accepted(xid: u32, accept_stat: u32)
    ensures
        ({
            let h = reply_header(xid, accept_stat);
            &&& h.len() == 24
            &&& dec_u32(CurView { bytes: h, pos: 0 }) == Some((xid, CurView { bytes: h, pos: 4 }))
            &&& dec_u32(CurView { bytes: h, pos: 4 }) == Some((1u32, CurView { bytes: h, pos: 8 }))
            &&& dec_u32(CurView { bytes: h, pos: 8 }) == Some((0u32, CurView { bytes: h, pos: 12 }))
            &&& dec_u32(CurView { bytes: h, pos: 12 }) == Some(
                (0u32, CurView { bytes: h, pos: 16 }),
            )
            &&& dec_u32(CurView { bytes: h, pos: 16 }) == Some(
                (0u32, CurView { bytes: h, pos: 20 }),
            )
            &&& dec_u32(CurView { bytes: h, pos: 20 }) == Some(
                (accept_stat, CurView { bytes: h, pos: 24 }),
            )
        }),
{
    let h = reply_header(xid, accept_stat);
    assert(h.subrange(0, 4) =~= be32(xid));
    lemma_u32_at(h, 0, xid);
    assert(h.subrange(4, 8) =~= be32(1u32));
    lemma_u32_at(h, 4, 1u32);
    assert(h.subrange(8, 12) =~= be32(0u32));
    lemma_u32_at(h, 8, 0u32);
    assert(h.subrange(12, 16) =~= be32(0u32));
    lemma_u32_at(h, 12, 0u32);
    assert(h.subrange(16, 20) =~= be32(0u32));
    lemma_u32_at(h, 16, 0u32);
    assert(h.subrange(20, 24) =~= be32(accept_stat));
    lemma_u32_at(h, 20, accept_stat);
}

/// A reply is never taken for a call.
pub proof fn law_reply_is_not_a_call(xid: u32, accept_stat: u32, rest: Seq<u8>)
    ensures
        spec_parse_call(reply_header(xid, accept_stat) + rest) is None,
{
    let bytes = reply_header(xid, accept_stat) + rest;
    let e = Seq::<u8>::empty();
    assert(bytes =~= e + be32(xid) + (be32(MSG_REPLY) + be32(REPLY_ACCEPTED) + be32(AUTH_NULL)
        + be32(0) + be32(accept_stat) + rest));
    law_u32_roundtrip(e, xid, be32(MSG_REPLY) + be32(REPLY_ACCEPTED) + be32(AUTH_NULL) + be32(0)
        + be32(accept_stat) + rest);
    assert(bytes =~= be32(xid) + be32(MSG_REPLY) + (be32(REPLY_ACCEPTED) + be32(AUTH_NULL)
        + be32(0) + be32(accept_stat) + rest));
    law_u32_roundtrip(be32(xid), MSG_REPLY, be32(REPLY_ACCEPTED) + be32(AUTH_NULL) + be32(0)
        + be32(accept_stat) + rest);
}

} // verus!
