use vstd::prelude::*;

use crate::bytes::{clone_bytes, extend_bytes, extend_range};
use crate::types::Account;

verus! {

/// A derived (or master) threshold key: SEC1-compressed public key bytes and
/// the BIP32 chain code that derivation threads through.
pub struct EcdsaPublicKey {
    pub public_key: Vec<u8>,
    pub chain_code: Vec<u8>,
}

/// One DER integer component of a signature: the 32 raw bytes, with one zero
/// byte prepended when the high bit is set, so the encoded integer stays
/// non-negative.
pub open spec fn der_component(b: Seq<u8>) -> Seq<u8>
    recommends
        b.len() == 32,
{
    if b[0] >= 0x80 {
        seq![0u8] + b
    } else {
        b
    }
}

/// DER encoding of a 64-byte fixed-width (r, s) signature.
pub open spec fn der_of(sig: Seq<u8>) -> Seq<u8>
    recommends
        sig.len() == 64,
{
    let r = der_component(sig.take(32));
    let s = der_component(sig.skip(32));
    seq![0x30u8, (4 + r.len() + s.len()) as u8, 0x02u8, r.len() as u8] + r + seq![
        0x02u8,
        s.len() as u8,
    ] + s
}

/// Converts a 64-byte fixed-width (r, s) ECDSA signature into the DER form
/// that legacy script signatures require.
pub fn sec1_to_der(sec1_signature: Vec<u8>) -> (r: Vec<u8>)
    requires
        sec1_signature@.len() == 64,
    ensures
        r@ == der_of(sec1_signature@),
{
    let sig = sec1_signature;
    let r_len: u8 = if sig[0] >= 0x80 {
        33
    } else {
        32
    };
    let s_len: u8 = if sig[32] >= 0x80 {
        33
    } else {
        32
    };
    let mut out: Vec<u8> = Vec::new();
    out.push(0x30);
    out.push(4 + r_len + s_len);
    out.push(0x02);
    out.push(r_len);
    if sig[0] >= 0x80 {
        out.push(0x00);
    }
    extend_range(&mut out, &sig, 0, 32);
    out.push(0x02);
    out.push(s_len);
    if sig[32] >= 0x80 {
        out.push(0x00);
    }
    extend_range(&mut out, &sig, 32, 64);
    proof {
        assert(sig@.take(32) =~= sig@.subrange(0, 32));
        assert(sig@.skip(32) =~= sig@.subrange(32, 64));
        assert(sig@.take(32)[0] == sig@[0]);
        assert(sig@.skip(32)[0] == sig@[32]);
        assert(out@ =~= der_of(sig@));
    }
    out
}

/// A component whose top byte has the high bit set gains a leading zero byte
/// (and only then), so the DER integers are never read as negative.
pub proof fn lemma_der_padding(sig: Seq<u8>)
    requires
        sig.len() == 64,
    ensures
        sig[0] >= 0x80 ==> der_of(sig)[3] == 33 && der_of(sig)[4] == 0 && der_of(sig)[5] == sig[0],
        sig[0] < 0x80 ==> der_of(sig)[3] == 32 && der_of(sig)[4] == sig[0],
        sig[32] >= 0x80 ==> {
            let rl = der_component(sig.take(32)).len() as int;
            der_of(sig)[5 + rl] == 33 && der_of(sig)[6 + rl] == 0 && der_of(sig)[7 + rl] == sig[32]
        },
        sig[32] < 0x80 ==> {
            let rl = der_component(sig.take(32)).len() as int;
            der_of(sig)[5 + rl] == 32 && der_of(sig)[6 + rl] == sig[32]
        },
        der_of(sig).len() == 6 + der_component(sig.take(32)).len() + der_component(
            sig.skip(32),
        ).len(),
{
    assert(sig.take(32)[0] == sig[0]);
    assert(sig.skip(32)[0] == sig[32]);
}

pub uninterp spec fn sha256_of(data: Seq<u8>) -> Seq<u8>;

pub uninterp spec fn ripemd160_of(data: Seq<u8>) -> Seq<u8>;

pub uninterp spec fn sha3_256_of(data: Seq<u8>) -> Seq<u8>;

pub uninterp spec fn base58_of(data: Seq<u8>) -> Seq<char>;

/// Whether a byte string is a valid SEC1 public-key encoding, the one
/// condition under which derivation can parse its parent key.
pub uninterp spec fn valid_sec1_point(pk: Seq<u8>) -> bool;

pub uninterp spec fn derived_public_key_of(pk: Seq<u8>, cc: Seq<u8>, path: Seq<Seq<u8>>) -> Seq<
    u8,
>;

pub uninterp spec fn derived_chain_code_of(pk: Seq<u8>, cc: Seq<u8>, path: Seq<Seq<u8>>) -> Seq<
    u8,
>;

/// Relies on sha2::Sha256: a 32-byte digest that depends on the input alone.
#[verifier::external_body]
pub fn sha256(data: &Vec<u8>) -> (r: Vec<u8>)
    ensures
        r@ == sha256_of(data@),
        r@.len() == 32,
{
    let mut hasher = <sha2::Sha256 as sha2::Digest>::new();
    sha2::Digest::update(&mut hasher, data.as_slice());
    sha2::Digest::finalize(hasher).to_vec()
}

/// Relies on ripemd::Ripemd160: a 20-byte digest that depends on the input alone.
#[verifier::external_body]
pub fn ripemd160(data: &Vec<u8>) -> (r: Vec<u8>)
    ensures
        r@ == ripemd160_of(data@),
        r@.len() == 20,
{
    let mut hasher = <ripemd::Ripemd160 as ripemd::digest::Digest>::new();
    ripemd::digest::Digest::update(&mut hasher, data.as_slice());
    ripemd::digest::Digest::finalize(hasher).to_vec()
}

/// Relies on tiny_keccak::Sha3 (v256): a 32-byte digest that depends on the
/// input alone.
#[verifier::external_body]
pub fn sha3_256(data: &Vec<u8>) -> (r: Vec<u8>)
    ensures
        r@ == sha3_256_of(data@),
        r@.len() == 32,
{
    let mut hash = [0u8; 32];
    let mut hasher = tiny_keccak::Sha3::v256();
    tiny_keccak::Hasher::update(&mut hasher, data.as_slice());
    tiny_keccak::Hasher::finalize(hasher, &mut hash);
    hash.to_vec()
}

/// Relies on bs58::encode: the base58 text depends on the bytes alone.
#[verifier::external_body]
pub fn base58_encode(data: &Vec<u8>) -> (r: String)
    ensures
        r@ == base58_of(data@),
{
    bs58::encode(data.as_slice()).into_string()
}

/// Relies on ic_secp256k1::PublicKey::derive_subkey_with_chain_code:
/// non-hardened hierarchical derivation whose child key (SEC1-compressed,
/// 33 bytes) and chain code (32 bytes) depend only on the parent key, the
/// parent chain code and the path. Returns nothing when the parent key is not
/// a valid SEC1 point or the chain code is not 32 bytes long.
#[verifier::external_body]
pub fn derive_public_key(ecdsa_public_key: &EcdsaPublicKey, path: &Vec<Vec<u8>>) -> (r: Option<
    EcdsaPublicKey,
>)
    ensures
        (r is Some) == (valid_sec1_point(ecdsa_public_key.public_key@)
            && ecdsa_public_key.chain_code@.len() == 32),
        r matches Some(k) ==> {
            &&& k.public_key@ == derived_public_key_of(
                ecdsa_public_key.public_key@,
                ecdsa_public_key.chain_code@,
                path.deep_view(),
            )
            &&& k.chain_code@ == derived_chain_code_of(
                ecdsa_public_key.public_key@,
                ecdsa_public_key.chain_code@,
                path.deep_view(),
            )
            &&& k.public_key@.len() == 33
            &&& k.chain_code@.len() == 32
        },
{
    let indexes = path.iter().map(|x| ic_secp256k1::DerivationIndex(x.clone())).collect();
    let parsed = ic_secp256k1::DerivationPath::new(indexes);
    let pk = match ic_secp256k1::PublicKey::deserialize_sec1(&ecdsa_public_key.public_key) {
        Ok(k) => k,
        Err(_) => return None,
    };
    let chain_code: [u8; 32] = match ecdsa_public_key.chain_code.clone().try_into() {
        Ok(c) => c,
        Err(_) => return None,
    };
    let (dpk, dcc) = pk.derive_subkey_with_chain_code(&parsed, &chain_code);
    Some(EcdsaPublicKey { public_key: dpk.serialize_sec1(true), chain_code: dcc.to_vec() })
}

/// The sub-identity an account pays from: its own, or 32 zero bytes.
pub open spec fn effective_subaccount(a: Account) -> Seq<u8> {
    match a.subaccount {
        Some(s) => s@,
        None => Seq::new(32, |i: int| 0u8),
    }
}

/// The fixed derivation path of an owner account: a constant tag, the owner
/// bytes, and the effective sub-identity. Deterministic and stateless, so the
/// same account always signs with the same key.
pub open spec fn derivation_path_of(a: Account) -> Seq<Seq<u8>> {
    seq![seq![1u8], a.owner@, effective_subaccount(a)]
}

pub fn account_to_derivation_path(account: &Account) -> (r: Vec<Vec<u8>>)
    ensures
        r.deep_view() == derivation_path_of(*account),
{
    let mut r: Vec<Vec<u8>> = Vec::new();
    let mut tag: Vec<u8> = Vec::new();
    tag.push(1u8);
    proof {
        assert(tag@ =~= seq![1u8]);
    }
    r.push(tag);
    r.push(clone_bytes(&account.owner));
    match &account.subaccount {
        Some(s) => {
            r.push(clone_bytes(s));
        },
        None => {
            let zeros: Vec<u8> = vec![0u8; 32];
            proof {
                assert(zeros@ =~= Seq::new(32, |i: int| 0u8));
            }
            r.push(zeros);
        },
    }
    proof {
        assert(r.deep_view() =~~= derivation_path_of(*account));
    }
    r
}

/// The derivation path used when only a wallet's textual address identifies
/// the key: a constant tag and the address bytes.
pub open spec fn wallet_path_of(wallet: Seq<u8>) -> Seq<Seq<u8>> {
    seq![seq![1u8], wallet]
}

pub fn bitcoin_address_to_derivation_path(wallet: &Vec<u8>) -> (r: Vec<Vec<u8>>)
    ensures
        r.deep_view() == wallet_path_of(wallet@),
{
    let mut r: Vec<Vec<u8>> = Vec::new();
    let mut tag: Vec<u8> = Vec::new();
    tag.push(1u8);
    proof {
        assert(tag@ =~= seq![1u8]);
    }
    r.push(tag);
    r.push(clone_bytes(wallet));
    proof {
        assert(r.deep_view() =~~= wallet_path_of(wallet@));
    }
    r
}

/// The deterministic sub-identity assigned to a principal: its SHA3-256 digest.
pub fn principal_to_subaccount(principal: &Vec<u8>) -> (r: Vec<u8>)
    ensures
        r@ == sha3_256_of(principal@),
        r@.len() == 32,
{
    sha3_256(principal)
}

/// The raw base58check payload of a pay-to-pubkey-hash address: a network
/// prefix byte, the 20-byte key hash, and the first four bytes of the double
/// SHA-256 checksum of both.
pub open spec fn p2pkh_payload(prefix: u8, pubkey: Seq<u8>) -> Seq<u8> {
    let keyhash = ripemd160_of(sha256_of(pubkey));
    let raw = seq![prefix] + keyhash;
    raw + sha256_of(sha256_of(raw)).take(4)
}

/// The legacy receiving address of an owner account: base58check of the
/// hashed key derived for that account from the service's master key.
/// Mainnet uses prefix 0x00; test networks use 0x6f. Returns nothing exactly
/// when the master key bytes cannot be parsed for derivation.
pub fn account_to_p2pkh_address(mainnet: bool, master: &EcdsaPublicKey, account: &Account) -> (r:
    Option<String>)
    ensures
        (r is Some) == (valid_sec1_point(master.public_key@) && master.chain_code@.len() == 32),
        r matches Some(s) ==> {
            let prefix: u8 = if mainnet {
                0x00
            } else {
                0x6f
            };
            let derived = derived_public_key_of(
                master.public_key@,
                master.chain_code@,
                derivation_path_of(*account),
            );
            s@ == base58_of(p2pkh_payload(prefix, derived))
        },
{
    let prefix: u8 = if mainnet {
        0x00
    } else {
        0x6f
    };
    let path = account_to_derivation_path(account);
    let derived = match derive_public_key(master, &path) {
        None => {
            return None;
        },
        Some(k) => k,
    };
    let keyhash = ripemd160(&sha256(&derived.public_key));
    let mut raw: Vec<u8> = Vec::new();
    raw.push(prefix);
    extend_bytes(&mut raw, &keyhash);
    proof {
        assert(raw@ =~= seq![prefix] + ripemd160_of(sha256_of(derived.public_key@)));
    }
    let checksum = sha256(&sha256(&raw));
    let ghost raw0 = raw@;
    extend_range(&mut raw, &checksum, 0, 4);
    proof {
        assert(checksum@.subrange(0, 4) =~= checksum@.take(4));
        assert(raw@ =~= p2pkh_payload(
            prefix,
            derived_public_key_of(
                master.public_key@,
                master.chain_code@,
                derivation_path_of(*account),
            ),
        ));
    }
    Some(base58_encode(&raw))
}

/// The 16 little-endian bytes of an agent id, as hashed into its
/// sub-identity.
pub open spec fn id_le_bytes(id: u128) -> Seq<u8> {
    crate::runestone::le_bytes(id as nat, 16)
}

/// The deterministic sub-identity allocated to an agent: the SHA3-256 digest
/// of the service identity followed by the agent id's little-endian bytes.
pub fn generate_subaccount_for_agent(service_id: &Vec<u8>, id: u128) -> (r: Vec<u8>)
    ensures
        r@ == sha3_256_of(service_id@ + id_le_bytes(id)),
        r@.len() == 32,
{
    let mut data = clone_bytes(service_id);
    let ghost base = data@;
    let mut rest: u128 = id;
    let mut i: usize = 0;
    proof {
        vstd::arithmetic::power::lemma_pow0(256);
        assert(crate::runestone::le_bytes(id as nat, 0) =~= Seq::<u8>::empty());
        assert(data@ =~= base + crate::runestone::le_bytes(id as nat, 0));
    }
    while i < 16
        invariant
            i <= 16,
            base == service_id@,
            data@ == base + crate::runestone::le_bytes(id as nat, i as nat),
            rest as int == id as int / vstd::arithmetic::power::pow(256, i as nat),
        decreases 16 - i,
    {
        proof {
            crate::runestone::lemma_le_bytes_push(id as nat, (i + 1) as nat);
            vstd::arithmetic::power::lemma_pow_positive(256, i as nat);
            assert(rest as int / 256 == id as int / vstd::arithmetic::power::pow(
                256,
                (i + 1) as nat,
            )) by {
                assert(vstd::arithmetic::power::pow(256, (i + 1) as nat) == 256
                    * vstd::arithmetic::power::pow(256, i as nat)) by {
                    vstd::arithmetic::power::lemma_pow_adds(256, i as nat, 1);
                    vstd::arithmetic::power::lemma_pow1(256);
                }
                vstd::arithmetic::div_mod::lemma_div_denominator(
                    id as int,
                    vstd::arithmetic::power::pow(256, i as nat) as int,
                    256,
                );
            }
        }
        data.push((rest % 256) as u8);
        rest = rest / 256;
        i += 1;
        proof {
            assert(data@ =~= base + crate::runestone::le_bytes(id as nat, i as nat));
        }
    }
    sha3_256(&data)
}

/// Fixed-size placeholder for a 64-byte Schnorr signature, used only to give
/// a transaction its final size before the real signature exists.
pub fn mock_schnorr_signature() -> (r: Vec<u8>)
    ensures
        r@ == Seq::new(64, |i: int| 0u8),
{
    let r: Vec<u8> = vec![0u8; 64];
    proof {
        assert(r@ =~= Seq::new(64, |i: int| 0u8));
    }
    r
}

} // verus!
