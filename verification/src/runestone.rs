use vstd::prelude::*;

use ordinals::Artifact as OrdArtifact;
use ordinals::Edict as OrdEdict;
use ordinals::Etching as OrdEtching;
use ordinals::Runestone as OrdRunestone;
use ordinals::Terms as OrdTerms;

use crate::transaction::{Transaction, TxOutV, tx_txids_wf};
use crate::types::RuneId;

verus! {

/// Largest data-carrier output script a standard transaction may hold.
pub const MAX_STANDARD_OP_RETURN_SIZE: usize = 83;

/// Highest divisibility an etching may declare.
pub const MAX_DIVISIBILITY: u8 = 38;

/// Rune values at or above this are reserved for automatic allocation and
/// cannot be etched by name.
pub const RUNE_RESERVED: u128 = 6402364363415443603228541259936211926;

/// One transfer directive: move `amount` of the rune `(block, tx)` to the
/// output at index `output`.
#[derive(PartialEq, Eq, Structural, Clone, Copy)]
pub struct Edict {
    pub block: u64,
    pub tx: u32,
    pub amount: u128,
    pub output: u32,
}

/// Mint terms of an etching (never set by this library, but kept so that a
/// deciphered directive is compared faithfully).
#[derive(PartialEq, Eq, Structural, Clone, Copy)]
pub struct TermsData {
    pub amount: Option<u128>,
    pub cap: Option<u128>,
    pub height_start: Option<u64>,
    pub height_end: Option<u64>,
    pub offset_start: Option<u64>,
    pub offset_end: Option<u64>,
}

/// The rune-creation directive embedded in a reveal transaction.
#[derive(PartialEq, Eq, Structural, Clone, Copy)]
pub struct EtchingData {
    pub divisibility: Option<u8>,
    pub premine: Option<u128>,
    pub rune: Option<u128>,
    pub spacers: Option<u32>,
    pub symbol: Option<char>,
    pub terms: Option<TermsData>,
    pub turbo: bool,
}

/// A full runestone: transfer edicts, an optional etching, an optional mint
/// reference, and an optional pointer to the default output.
pub struct RunestoneData {
    pub edicts: Vec<Edict>,
    pub etching: Option<EtchingData>,
    pub mint: Option<RuneId>,
    pub pointer: Option<u32>,
}

#[verifier::ext_equal]
pub struct RunestoneV {
    pub edicts: Seq<Edict>,
    pub etching: Option<EtchingData>,
    pub mint: Option<RuneId>,
    pub pointer: Option<u32>,
}

impl View for RunestoneData {
    type V = RunestoneV;

    open spec fn view(&self) -> RunestoneV {
        RunestoneV {
            edicts: self.edicts@,
            etching: self.etching,
            mint: self.mint,
            pointer: self.pointer,
        }
    }
}

/// What a data-carrier script deciphers to: a well-formed runestone, or a
/// cenotaph (a malformed directive that burns the runes it touches).
pub enum Artifact {
    Runestone(RunestoneData),
    Cenotaph,
}

#[verifier::ext_equal]
pub enum ArtifactV {
    Runestone(RunestoneV),
    Cenotaph,
}

impl View for Artifact {
    type V = ArtifactV;

    open spec fn view(&self) -> ArtifactV {
        match self {
            Artifact::Runestone(r) => ArtifactV::Runestone(r@),
            Artifact::Cenotaph => ArtifactV::Cenotaph,
        }
    }
}

/// The data-carrier script that encodes a runestone.
pub uninterp spec fn runestone_payload(r: RunestoneV) -> Seq<u8>;

/// What the runes protocol reads out of a transaction's outputs.
pub uninterp spec fn deciphered_runestone(outputs: Seq<TxOutV>) -> Option<ArtifactV>;

#[verifier::external_type_specification]
#[verifier::external_body]
pub struct ExOrdArtifact(OrdArtifact);

#[verifier::external_type_specification]
#[verifier::external_body]
pub struct ExOrdEdict(OrdEdict);

#[verifier::external_type_specification]
#[verifier::external_body]
pub struct ExOrdEtching(OrdEtching);

#[verifier::external_type_specification]
#[verifier::external_body]
pub struct ExOrdTerms(OrdTerms);

#[verifier::external_type_specification]
#[verifier::external_body]
pub struct ExOrdRunestone(OrdRunestone);

/// Converts one transfer directive into the protocol library's form.
#[verifier::external_body]
fn chain_edict(e: &Edict) -> OrdEdict {
    OrdEdict {
        id: ordinals::RuneId { block: e.block, tx: e.tx },
        amount: e.amount,
        output: e.output,
    }
}

/// Converts the mint terms into the protocol library's form.
#[verifier::external_body]
fn chain_terms(t: &TermsData) -> OrdTerms {
    OrdTerms {
        amount: t.amount,
        cap: t.cap,
        height: (t.height_start, t.height_end),
        offset: (t.offset_start, t.offset_end),
    }
}

/// Converts the etching directive into the protocol library's form.
#[verifier::external_body]
fn chain_etching(e: &EtchingData) -> OrdEtching {
    OrdEtching {
        divisibility: e.divisibility,
        premine: e.premine,
        rune: e.rune.map(ordinals::Rune),
        spacers: e.spacers,
        symbol: e.symbol,
        terms: e.terms.as_ref().map(chain_terms),
        turbo: e.turbo,
    }
}

/// Converts the runestone into the protocol library's form.
#[verifier::external_body]
fn chain_runestone(r: &RunestoneData) -> OrdRunestone {
    OrdRunestone {
        edicts: r.edicts.iter().map(chain_edict).collect(),
        etching: r.etching.as_ref().map(chain_etching),
        mint: r.mint.map(|m| ordinals::RuneId { block: m.block, tx: m.tx }),
        pointer: r.pointer,
    }
}

/// Converts one of the protocol library's edicts back into plain values.
#[verifier::external_body]
fn from_chain_edict(e: &OrdEdict) -> Edict {
    Edict { block: e.id.block, tx: e.id.tx, amount: e.amount, output: e.output }
}

/// Converts the protocol library's mint terms back into plain values.
#[verifier::external_body]
fn from_chain_terms(t: &OrdTerms) -> TermsData {
    TermsData {
        amount: t.amount,
        cap: t.cap,
        height_start: t.height.0,
        height_end: t.height.1,
        offset_start: t.offset.0,
        offset_end: t.offset.1,
    }
}

/// Converts the protocol library's etching back into plain values.
#[verifier::external_body]
fn from_chain_etching(e: &OrdEtching) -> EtchingData {
    EtchingData {
        divisibility: e.divisibility,
        premine: e.premine,
        rune: e.rune.map(|x| x.0),
        spacers: e.spacers,
        symbol: e.symbol,
        terms: e.terms.as_ref().map(from_chain_terms),
        turbo: e.turbo,
    }
}

/// Converts a deciphered artifact back into plain values, variant for
/// variant.
#[verifier::external_body]
fn from_chain_artifact(a: OrdArtifact) -> Artifact {
    match a {
        OrdArtifact::Cenotaph(_) => Artifact::Cenotaph,
        OrdArtifact::Runestone(r) => Artifact::Runestone(RunestoneData {
            edicts: r.edicts.iter().map(from_chain_edict).collect(),
            etching: r.etching.as_ref().map(from_chain_etching),
            mint: r.mint.map(|m| RuneId { block: m.block, tx: m.tx }),
            pointer: r.pointer,
        }),
    }
}

/// Relies on ordinals::Runestone::encipher: the directive's data-carrier
/// script depends on the directive alone, and always begins with OP_RETURN
/// followed by the protocol's marker push.
#[verifier::external_body]
pub fn encipher_runestone(r: &RunestoneData) -> (s: Vec<u8>)
    ensures
        s@ == runestone_payload(r@),
        s@.len() > 0,
        s@[0] == 0x6au8,
{
    chain_runestone(r).encipher().into_bytes()
}

/// Relies on ordinals::Runestone::decipher: what it reads depends only on the
/// transaction's outputs (it scans them for the protocol's data-carrier
/// script, and bounds pointers and edicts by the output count).
#[verifier::external_body]
pub fn decipher_runestone(t: &Transaction) -> (r: Option<Artifact>)
    requires
        tx_txids_wf(t@),
    ensures
        match r {
            Some(a) => deciphered_runestone(t@.output) == Some(a@),
            None => deciphered_runestone(t@.output) is None,
        },
{
    ordinals::Runestone::decipher(&crate::transaction::to_chain(t)).map(
        from_chain_artifact,
    )
}

/// A parsed spaced rune name: the rune's numeric value and the spacer bits.
#[derive(PartialEq, Eq, Structural, Clone, Copy)]
pub struct SpacedRune {
    pub rune: u128,
    pub spacers: u32,
}

/// What parsing a spaced rune name yields: the numeric rune value and spacer
/// bits, or nothing when the name is malformed (a bad character, a misplaced
/// spacer, or a value out of range).
pub uninterp spec fn spaced_rune_of(name: Seq<char>) -> Option<(u128, u32)>;

pub open spec fn is_spacer_char(c: char) -> bool {
    c == '.' || c == '\u{2022}'
}

pub open spec fn is_name_letter(c: char) -> bool {
    ('A' as u32) <= (c as u32) && (c as u32) <= ('Z' as u32)
}

/// How many name letters the string holds.
pub open spec fn letter_count(s: Seq<char>) -> int
    decreases s.len(),
{
    if s.len() == 0 {
        0
    } else {
        letter_count(s.drop_last()) + if is_name_letter(s.last()) {
            1int
        } else {
            0int
        }
    }
}

/// Every spacer in the name follows at most 32 letters: the range in which
/// the protocol parser's spacer bit fits its 32-bit field.
pub open spec fn no_deep_spacer(s: Seq<char>) -> bool {
    forall|i: int|
        0 <= i < s.len() && is_spacer_char(#[trigger] s[i]) ==> letter_count(s.take(i)) <= 32
}

/// Checks that every spacer follows at most 32 letters.
pub fn spacers_in_range(name: &str) -> (r: bool)
    ensures
        r == no_deep_spacer(name@),
{
    broadcast use vstd::string::axiom_spec_iter, vstd::string::next_postcondition;

    let mut it = name.chars();
    // Saturates just past the last shiftable position: only whether the count
    // exceeds 32 matters.
    let mut letters: usize = 0;
    let ghost mut i: int = 0;
    proof {
        assert(name@.skip(0) =~= name@);
        assert(name@.take(0) =~= Seq::<char>::empty());
    }
    loop
        invariant
            0 <= i <= name@.len(),
            vstd::std_specs::iter::IteratorSpec::remaining(&it) == name@.skip(i),
            letters as int == (if letter_count(name@.take(i)) > 33 {
                33int
            } else {
                letter_count(name@.take(i))
            }),
            letters <= 33,
            forall|j: int|
                0 <= j < i && is_spacer_char(#[trigger] name@[j]) ==> letter_count(name@.take(j))
                    <= 32,
        decreases name@.len() - i,
    {
        let c = match it.next() {
            None => {
                proof {
                    assert(name@.take(name@.len() as int) =~= name@);
                }
                return true;
            },
            Some(c) => c,
        };
        proof {
            assert(name@.skip(i)[0] == name@[i]);
            assert(name@.skip(i).drop_first() =~= name@.skip(i + 1));
            assert(name@.take(i + 1).drop_last() =~= name@.take(i));
            assert(name@.take(i + 1).last() == name@[i]);
        }
        if c == '.' || c == '\u{2022}' {
            if letters > 32 {
                return false;
            }
        }
        if ('A' as u32) <= (c as u32) && (c as u32) <= ('Z' as u32) && letters < 33 {
            letters = letters + 1;
        }
        proof {
            i = i + 1;
        }
    }
}

/// Relies on ordinals::SpacedRune::from_str: the parse depends on the
/// characters alone. The parser shifts a spacer bit by the number of letters
/// seen so far, so names in which a spacer follows more than 32 letters are
/// excluded: on those the shift leaves its 32-bit field.
#[verifier::external_body]
pub fn parse_spaced_rune(name: &String) -> (r: Option<SpacedRune>)
    requires
        no_deep_spacer(name@),
    ensures
        match r {
            Some(sr) => spaced_rune_of(name@) == Some((sr.rune, sr.spacers)),
            None => spaced_rune_of(name@) is None,
        },
{
    match name.as_str().parse::<ordinals::SpacedRune>() {
        Ok(sr) => Some(SpacedRune { rune: sr.rune.0, spacers: sr.spacers }),
        Err(_) => None,
    }
}

/// Whether a rune value lies in the reserved range that cannot be etched by
/// name.
pub fn rune_is_reserved(rune: u128) -> (r: bool)
    ensures
        r == (rune >= RUNE_RESERVED),
{
    rune >= RUNE_RESERVED
}

/// The little-endian bytes of a value, lowest first, over `n` bytes.
pub open spec fn le_bytes(v: nat, n: nat) -> Seq<u8>
    decreases n,
{
    if n == 0 {
        Seq::empty()
    } else {
        seq![(v % 256) as u8] + le_bytes(v / 256, (n - 1) as nat)
    }
}

pub open spec fn trim_trailing_zeros(s: Seq<u8>) -> Seq<u8>
    decreases s.len(),
{
    if s.len() == 0 {
        s
    } else if s.last() == 0 {
        trim_trailing_zeros(s.drop_last())
    } else {
        s
    }
}

/// The commitment a reveal script must carry for a rune: its little-endian
/// bytes with trailing zero bytes removed.
pub open spec fn rune_commitment(v: u128) -> Seq<u8> {
    trim_trailing_zeros(le_bytes(v as nat, 16))
}

pub proof fn lemma_le_bytes_push(v: nat, n: nat)
    requires
        n > 0,
    ensures
        le_bytes(v, n) == le_bytes(v, (n - 1) as nat).push(
            ((v as int / vstd::arithmetic::power::pow(256, (n - 1) as nat)) % 256) as u8,
        ),
    decreases n,
{
    vstd::arithmetic::power::lemma_pow_positive(256, (n - 1) as nat);
    if n == 1 {
        assert(vstd::arithmetic::power::pow(256, 0) == 1) by {
            vstd::arithmetic::power::lemma_pow0(256);
        }
        assert(le_bytes(v / 256, 0) =~= Seq::<u8>::empty());
        assert(le_bytes(v, 0) =~= Seq::<u8>::empty());
        assert(le_bytes(v, 1) =~= le_bytes(v, 0).push((v % 256) as u8));
    } else {
        lemma_le_bytes_push(v / 256, (n - 1) as nat);
        assert(vstd::arithmetic::power::pow(256, (n - 1) as nat) == 256
            * vstd::arithmetic::power::pow(256, (n - 2) as nat)) by {
            vstd::arithmetic::power::lemma_pow_adds(256, (n - 2) as nat, 1);
            vstd::arithmetic::power::lemma_pow1(256);
        }
        assert((v as int / 256) / vstd::arithmetic::power::pow(256, (n - 2) as nat) == v as int
            / vstd::arithmetic::power::pow(256, (n - 1) as nat)) by {
            vstd::arithmetic::div_mod::lemma_div_denominator(
                v as int,
                256,
                vstd::arithmetic::power::pow(256, (n - 2) as nat) as int,
            );
        }
        assert(le_bytes(v, n) =~= le_bytes(v, (n - 1) as nat).push(
            ((v as int / vstd::arithmetic::power::pow(256, (n - 1) as nat)) % 256) as u8,
        ));
    }
}

/// Computes the commitment of a rune value.
pub fn commitment_of_rune(v: u128) -> (r: Vec<u8>)
    ensures
        r@ == rune_commitment(v),
{
    let mut out: Vec<u8> = Vec::new();
    let mut rest: u128 = v;
    let mut i: usize = 0;
    proof {
        vstd::arithmetic::power::lemma_pow0(256);
    }
    while i < 16
        invariant
            i <= 16,
            out@.len() == i,
            out@ == le_bytes(v as nat, i as nat),
            rest as int == v as int / vstd::arithmetic::power::pow(256, i as nat),
        decreases 16 - i,
    {
        proof {
            lemma_le_bytes_push(v as nat, (i + 1) as nat);
            vstd::arithmetic::power::lemma_pow_positive(256, i as nat);
            assert(rest as int / 256 == v as int / vstd::arithmetic::power::pow(
                256,
                (i + 1) as nat,
            )) by {
                assert(vstd::arithmetic::power::pow(256, (i + 1) as nat) == 256
                    * vstd::arithmetic::power::pow(256, i as nat)) by {
                    vstd::arithmetic::power::lemma_pow_adds(256, i as nat, 1);
                    vstd::arithmetic::power::lemma_pow1(256);
                }
                vstd::arithmetic::div_mod::lemma_div_denominator(
                    v as int,
                    vstd::arithmetic::power::pow(256, i as nat) as int,
                    256,
                );
            }
        }
        out.push((rest % 256) as u8);
        rest = rest / 256;
        i += 1;
        proof {
            assert(out@ =~= le_bytes(v as nat, i as nat));
        }
    }
    while out.len() > 0 && out[out.len() - 1] == 0
        invariant
            trim_trailing_zeros(out@) == rune_commitment(v),
        decreases out@.len(),
    {
        let ghost before = out@;
        out.pop();
        proof {
            assert(out@ =~= before.drop_last());
        }
    }
    proof {
        assert(trim_trailing_zeros(out@) == out@);
    }
    out
}

/// Relies on char::from_u32 of std: a code point converts exactly when it is
/// not a surrogate and not beyond the highest code point, and converts to
/// itself.
#[verifier::external_body]
pub fn char_from_u32(codepoint: u32) -> (r: Option<char>)
    ensures
        (r is Some) == (codepoint < 0xD800 || (0xE000 <= codepoint && codepoint <= 0x10FFFF)),
        r matches Some(c) ==> c as u32 == codepoint,
{
    char::from_u32(codepoint)
}

/// Why an etching request was rejected.
#[derive(Debug)]
pub enum EtchValidationError {
    /// The name is not a well-formed spaced rune name.
    InvalidName,
    /// The name parses, but its rune value is in the reserved range.
    Reserved { rune: u128 },
    /// The requested divisibility exceeds the protocol maximum.
    DivisibilityTooHigh { divisibility: u8 },
    /// Scaling the supply by the divisibility does not fit in 128 bits.
    SupplyOverflow,
    /// The scaled supply is zero.
    ZeroSupply,
    /// The symbol code point is not a valid character.
    InvalidSymbol { codepoint: u32 },
}

/// Ten to the `d`, for scaling a supply by a divisibility.
pub open spec fn pow10(d: nat) -> nat {
    vstd::arithmetic::power::pow(10, d) as nat
}

fn pow10_exec(d: u8) -> (r: Option<u128>)
    ensures
        match r {
            Some(v) => v as nat == pow10(d as nat),
            None => pow10(d as nat) > u128::MAX,
        },
{
    let mut acc: u128 = 1;
    let mut i: u8 = 0;
    proof {
        vstd::arithmetic::power::lemma_pow0(10);
    }
    while i < d
        invariant
            i <= d,
            acc as nat == pow10(i as nat),
        decreases d - i,
    {
        proof {
            assert(pow10((i + 1) as nat) == 10 * pow10(i as nat)) by {
                vstd::arithmetic::power::lemma_pow_adds(10, i as nat, 1);
                vstd::arithmetic::power::lemma_pow1(10);
                vstd::arithmetic::power::lemma_pow_positive(10, i as nat);
            }
        }
        acc = match acc.checked_mul(10) {
            Some(v) => v,
            None => {
                proof {
                    vstd::arithmetic::power::lemma_pow_increases(10, (i + 1) as nat, d as nat);
                    vstd::arithmetic::power::lemma_pow_positive(10, d as nat);
                    vstd::arithmetic::power::lemma_pow_positive(10, (i + 1) as nat);
                }
                return None;
            },
        };
        i += 1;
    }
    Some(acc)
}

/// Checks an etching request: the name must parse to an unreserved rune, the
/// divisibility must not exceed the protocol maximum, and the supply scaled
/// by the divisibility must be a non-zero 128-bit value. Returns the parsed
/// name, the scaled supply, and the symbol character.
pub fn validate_etching(runename: &String, symbol: Option<u32>, divisibility: u8, total_supply: u128)
    -> (r: Result<(SpacedRune, u128, Option<char>), EtchValidationError>)
    ensures
        match r {
            Ok((sr, total, sym)) => {
                &&& spaced_rune_of(runename@) == Some((sr.rune, sr.spacers))
                &&& sr.rune < RUNE_RESERVED
                &&& divisibility <= MAX_DIVISIBILITY
                &&& total as nat == total_supply as nat * pow10(divisibility as nat)
                &&& total > 0
                &&& match (symbol, sym) {
                    (None, None) => true,
                    (Some(cp), Some(c)) => c as u32 == cp,
                    _ => false,
                }
            },
            Err(e) => match e {
                EtchValidationError::InvalidName => spaced_rune_of(runename@) is None
                    || !no_deep_spacer(runename@),
                EtchValidationError::Reserved { rune } => rune >= RUNE_RESERVED && (
                spaced_rune_of(runename@) matches Some(p) && p.0 == rune),
                EtchValidationError::DivisibilityTooHigh { divisibility: d } => d == divisibility
                    && d > MAX_DIVISIBILITY,
                EtchValidationError::SupplyOverflow => total_supply as nat * pow10(
                    divisibility as nat,
                ) > u128::MAX,
                EtchValidationError::ZeroSupply => total_supply == 0,
                EtchValidationError::InvalidSymbol { codepoint } => symbol == Some(codepoint)
                    && !(codepoint < 0xD800 || (0xE000 <= codepoint && codepoint <= 0x10FFFF)),
            },
        },
{
    if !spacers_in_range(runename.as_str()) {
        return Err(EtchValidationError::InvalidName);
    }
    let sr = match parse_spaced_rune(runename) {
        None => {
            return Err(EtchValidationError::InvalidName);
        },
        Some(sr) => sr,
    };
    if rune_is_reserved(sr.rune) {
        return Err(EtchValidationError::Reserved { rune: sr.rune });
    }
    if divisibility > MAX_DIVISIBILITY {
        return Err(EtchValidationError::DivisibilityTooHigh { divisibility });
    }
    if total_supply == 0 {
        return Err(EtchValidationError::ZeroSupply);
    }
    let scale = match pow10_exec(divisibility) {
        None => {
            proof {
                vstd::arithmetic::mul::lemma_mul_increases(
                    total_supply as int,
                    pow10(divisibility as nat) as int,
                );
            }
            return Err(EtchValidationError::SupplyOverflow);
        },
        Some(v) => v,
    };
    let total = match total_supply.checked_mul(scale) {
        None => {
            return Err(EtchValidationError::SupplyOverflow);
        },
        Some(t) => t,
    };
    if total == 0 {
        proof {
            vstd::arithmetic::power::lemma_pow_positive(10, divisibility as nat);
            vstd::arithmetic::mul::lemma_mul_nonzero(
                total_supply as int,
                pow10(divisibility as nat) as int,
            );
        }
        return Err(EtchValidationError::ZeroSupply);
    }
    let sym = match symbol {
        None => None,
        Some(cp) => match char_from_u32(cp) {
            None => {
                return Err(EtchValidationError::InvalidSymbol { codepoint: cp });
            },
            Some(c) => Some(c),
        },
    };
    Ok((sr, total, sym))
}

} // verus!
verus! {

pub proof fn lemma_le_bytes_len(v: nat, n: nat)
    ensures
        le_bytes(v, n).len() == n,
    decreases n,
{
    if n > 0 {
        lemma_le_bytes_len(v / 256, (n - 1) as nat);
    }
}

pub proof fn lemma_trim_len(s: Seq<u8>)
    ensures
        trim_trailing_zeros(s).len() <= s.len(),
    decreases s.len(),
{
    if s.len() > 0 && s.last() == 0 {
        lemma_trim_len(s.drop_last());
    }
}

/// Field-by-field comparison of two runestones.
pub fn runestone_eq(a: &RunestoneData, b: &RunestoneData) -> (r: bool)
    ensures
        r == (a@ =~~= b@),
{
    if a.edicts.len() != b.edicts.len() {
        proof {
            assert(a@.edicts.len() != b@.edicts.len());
        }
        return false;
    }
    let mut i: usize = 0;
    while i < a.edicts.len()
        invariant
            a@.edicts.len() == b@.edicts.len(),
            i <= a@.edicts.len(),
            forall|k: int| 0 <= k < i ==> a@.edicts[k] == b@.edicts[k],
        decreases a@.edicts.len() - i,
    {
        if !(a.edicts[i] == b.edicts[i]) {
            return false;
        }
        i += 1;
    }
    proof {
        assert(a@.edicts =~= b@.edicts);
    }
    let etching_eq = match (&a.etching, &b.etching) {
        (None, None) => true,
        (Some(x), Some(y)) => *x == *y,
        _ => false,
    };
    if !etching_eq {
        return false;
    }
    let mint_eq = match (&a.mint, &b.mint) {
        (None, None) => true,
        (Some(x), Some(y)) => x.block == y.block && x.tx == y.tx,
        _ => false,
    };
    if !mint_eq {
        return false;
    }
    let pointer_eq = match (&a.pointer, &b.pointer) {
        (None, None) => true,
        (Some(x), Some(y)) => *x == *y,
        _ => false,
    };
    if !pointer_eq {
        return false;
    }
    proof {
        assert(a@ =~~= b@);
    }
    true
}

} // verus!
