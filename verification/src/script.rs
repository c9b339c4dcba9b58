use vstd::prelude::*;

use crate::bytes::extend_bytes;

verus! {

pub const OP_FALSE: u8 = 0x00;

pub const OP_IF: u8 = 0x63;

pub const OP_ENDIF: u8 = 0x68;

pub const OP_RETURN: u8 = 0x6a;

pub const OP_CHECKSIG: u8 = 0xac;

pub const OP_PUSHDATA1: u8 = 0x4c;

pub const OP_PUSHDATA2: u8 = 0x4d;

/// The script encoding of one data push: a length prefix in the smallest of
/// the three short forms, then the raw bytes.
pub open spec fn push_encoding(data: Seq<u8>) -> Seq<u8>
    recommends
        data.len() < 0x10000,
{
    if data.len() < 0x4c {
        seq![data.len() as u8] + data
    } else if data.len() < 0x100 {
        seq![OP_PUSHDATA1, data.len() as u8] + data
    } else {
        seq![OP_PUSHDATA2, (data.len() % 0x100) as u8, (data.len() / 0x100) as u8] + data
    }
}

/// Appends one data push to a script under construction.
pub fn push_slice(out: &mut Vec<u8>, data: &Vec<u8>)
    requires
        data@.len() < 0x10000,
    ensures
        final(out)@ == old(out)@ + push_encoding(data@),
{
    let n = data.len();
    if n < 0x4c {
        out.push(n as u8);
    } else if n < 0x100 {
        out.push(OP_PUSHDATA1);
        out.push(n as u8);
    } else {
        out.push(OP_PUSHDATA2);
        out.push((n % 0x100) as u8);
        out.push((n / 0x100) as u8);
    }
    extend_bytes(out, data);
    proof {
        assert(out@ =~= old(out)@ + push_encoding(data@));
    }
}

/// Appends one opcode to a script under construction.
pub fn push_opcode(out: &mut Vec<u8>, op: u8)
    ensures
        final(out)@ == old(out)@ + seq![op],
{
    out.push(op);
    proof {
        assert(out@ =~= old(out)@ + seq![op]);
    }
}

/// The scriptSig that authorizes a pay-to-pubkey-hash input: a push of the
/// DER signature (with its trailing sighash-type byte) and a push of the
/// public key.
pub open spec fn sig_script(sig_with_type: Seq<u8>, pubkey: Seq<u8>) -> Seq<u8> {
    push_encoding(sig_with_type) + push_encoding(pubkey)
}

pub fn p2pkh_sig_script(sig_with_type: &Vec<u8>, pubkey: &Vec<u8>) -> (r: Vec<u8>)
    requires
        sig_with_type@.len() < 0x10000,
        pubkey@.len() < 0x10000,
    ensures
        r@ == sig_script(sig_with_type@, pubkey@),
{
    let mut r: Vec<u8> = Vec::new();
    push_slice(&mut r, sig_with_type);
    push_slice(&mut r, pubkey);
    proof {
        assert(r@ =~= sig_script(sig_with_type@, pubkey@));
    }
    r
}

/// Whether a script is an OP_RETURN (data-carrier) output script.
pub open spec fn is_op_return(spk: Seq<u8>) -> bool {
    spk.len() > 0 && spk[0] == OP_RETURN
}

pub fn is_op_return_exec(spk: &Vec<u8>) -> (r: bool)
    ensures
        r == is_op_return(spk@),
{
    spk.len() > 0 && spk[0] == OP_RETURN
}

} // verus!
