use vstd::prelude::*;

use crate::types::RuneId;

verus! {

/// Byte-for-byte copy of a byte vector.
pub fn clone_bytes(v: &Vec<u8>) -> (r: Vec<u8>)
    ensures
        r@ == v@,
{
    let mut r: Vec<u8> = Vec::new();
    let mut i: usize = 0;
    while i < v.len()
        invariant
            i <= v@.len(),
            r@ == v@.take(i as int),
        decreases v@.len() - i,
    {
        r.push(v[i]);
        proof {
            assert(v@.take(i + 1).drop_last() =~= v@.take(i as int));
            assert(r@ =~= v@.take(i + 1));
        }
        i += 1;
    }
    proof {
        assert(v@.take(v@.len() as int) =~= v@);
    }
    r
}

/// Appends all of `src` to `out`.
pub fn extend_bytes(out: &mut Vec<u8>, src: &Vec<u8>)
    ensures
        final(out)@ == old(out)@ + src@,
{
    extend_range(out, src, 0, src.len());
    proof {
        assert(src@.subrange(0, src@.len() as int) =~= src@);
    }
}

/// Appends `src[from..to]` to `out`.
pub fn extend_range(out: &mut Vec<u8>, src: &Vec<u8>, from: usize, to: usize)
    requires
        from <= to <= src@.len(),
    ensures
        final(out)@ == old(out)@ + src@.subrange(from as int, to as int),
{
    let ghost base = out@;
    let mut i: usize = from;
    while i < to
        invariant
            from <= i <= to <= src@.len(),
            out@ == base + src@.subrange(from as int, i as int),
        decreases to - i,
    {
        out.push(src[i]);
        proof {
            assert(out@ =~= base + src@.subrange(from as int, i + 1));
        }
        i += 1;
    }
}

/// Copies a 32-byte transaction id out of a raw slice.
pub fn slice_to_txid(slice: &[u8]) -> (r: Vec<u8>)
    requires
        slice@.len() == 32,
    ensures
        r@ == slice@,
{
    let mut r: Vec<u8> = Vec::new();
    let mut i: usize = 0;
    while i < slice.len()
        invariant
            slice@.len() == 32,
            i <= 32,
            r@ == slice@.take(i as int),
        decreases 32 - i,
    {
        r.push(slice[i]);
        proof {
            assert(slice@.take(i + 1).drop_last() =~= slice@.take(i as int));
            assert(r@ =~= slice@.take(i + 1));
        }
        i += 1;
    }
    proof {
        assert(slice@.take(32) =~= slice@);
    }
    r
}

/// The ASCII code of a nibble's lower-case hex digit.
pub open spec fn hex_digit(n: u8) -> u8
    recommends
        n < 16,
{
    if n < 10 {
        (48 + n) as u8
    } else {
        (87 + n) as u8
    }
}

/// Lower-case hex of the byte-reversed id, as ASCII codes — the conventional
/// display order for transaction ids.
pub open spec fn txid_hex_ascii(txid: Seq<u8>) -> Seq<u8>
    decreases txid.len(),
{
    if txid.len() == 0 {
        Seq::empty()
    } else {
        seq![hex_digit(txid.last() / 16), hex_digit(txid.last() % 16)] + txid_hex_ascii(
            txid.drop_last(),
        )
    }
}

pub open spec fn ascii_chars(s: Seq<u8>) -> Seq<char> {
    Seq::new(s.len(), |i: int| s[i] as char)
}

pub proof fn lemma_txid_hex_ascii_props(txid: Seq<u8>)
    ensures
        txid_hex_ascii(txid).len() == 2 * txid.len(),
        forall|i: int| 0 <= i < 2 * txid.len() ==> #[trigger] txid_hex_ascii(txid)[i] < 128,
    decreases txid.len(),
{
    if txid.len() > 0 {
        lemma_txid_hex_ascii_props(txid.drop_last());
    }
}

fn hex_digit_exec(n: u8) -> (r: u8)
    requires
        n < 16,
    ensures
        r == hex_digit(n),
{
    if n < 10 {
        48 + n
    } else {
        87 + n
    }
}

/// ASCII hex of the byte-reversed transaction id.
pub fn txid_hex_bytes(txid: &Vec<u8>) -> (r: Vec<u8>)
    ensures
        r@ == txid_hex_ascii(txid@),
{
    let mut r: Vec<u8> = Vec::new();
    let mut left: usize = txid.len();
    proof {
        assert(txid_hex_ascii_partial(txid@, txid@.len() as int) =~= Seq::<u8>::empty());
    }
    while left > 0
        invariant
            left <= txid@.len(),
            r@ == txid_hex_ascii_partial(txid@, left as int),
        decreases left,
    {
        let b = txid[left - 1];
        proof {
            lemma_txid_hex_partial_step(txid@, left as int);
        }
        r.push(hex_digit_exec(b / 16));
        r.push(hex_digit_exec(b % 16));
        proof {
            assert(r@ =~= txid_hex_ascii_partial(txid@, left - 1));
        }
        left -= 1;
    }
    proof {
        lemma_txid_hex_ascii_props(txid@);
        assert(txid_hex_ascii_partial(txid@, 0) =~= txid_hex_ascii(txid@));
    }
    r
}

/// Hex of the suffix of `txid` from `left` to the end, already emitted when
/// the loop has `left` bytes still to process.
pub open spec fn txid_hex_ascii_partial(txid: Seq<u8>, left: int) -> Seq<u8> {
    txid_hex_ascii(txid).take(2 * (txid.len() - left))
}

proof fn lemma_txid_hex_partial_step(txid: Seq<u8>, left: int)
    requires
        1 <= left <= txid.len(),
    ensures
        txid_hex_ascii_partial(txid, left - 1) == txid_hex_ascii_partial(txid, left) + seq![
            hex_digit(txid[left - 1] / 16),
            hex_digit(txid[left - 1] % 16),
        ],
    decreases txid.len(),
{
    lemma_txid_hex_ascii_props(txid);
    lemma_txid_hex_decompose(txid, left - 1);
    let k = txid.len() - left;
    assert(txid_hex_ascii(txid)[2 * k] == hex_digit(txid[txid.len() - 1 - k] / 16));
    assert(txid_hex_ascii(txid)[2 * k + 1] == hex_digit(txid[txid.len() - 1 - k] % 16));
    assert(txid[txid.len() - 1 - k] == txid[left - 1]);
    assert(txid_hex_ascii_partial(txid, left - 1) =~= txid_hex_ascii_partial(txid, left) + seq![
        hex_digit(txid[left - 1] / 16),
        hex_digit(txid[left - 1] % 16),
    ]);
}

/// The first `2 * (len - left)` hex characters come from the bytes after
/// position `left`, highest first.
proof fn lemma_txid_hex_decompose(txid: Seq<u8>, left: int)
    requires
        0 <= left <= txid.len(),
    ensures
        forall|k: int|
            0 <= k < txid.len() - left ==> {
                &&& #[trigger] txid_hex_ascii(txid)[2 * k] == hex_digit(
                    txid[txid.len() - 1 - k] / 16,
                )
                &&& txid_hex_ascii(txid)[2 * k + 1] == hex_digit(txid[txid.len() - 1 - k] % 16)
            },
    decreases txid.len(),
{
    lemma_txid_hex_ascii_props(txid);
    if txid.len() > 0 && left < txid.len() {
        lemma_txid_hex_decompose(txid.drop_last(), left);
        lemma_txid_hex_ascii_props(txid.drop_last());
        assert forall|k: int| 0 <= k < txid.len() - left implies {
            &&& #[trigger] txid_hex_ascii(txid)[2 * k] == hex_digit(txid[txid.len() - 1 - k] / 16)
            &&& txid_hex_ascii(txid)[2 * k + 1] == hex_digit(txid[txid.len() - 1 - k] % 16)
        } by {
            if k == 0 {
                assert(txid_hex_ascii(txid)[0] == hex_digit(txid.last() / 16));
                assert(txid_hex_ascii(txid)[1] == hex_digit(txid.last() % 16));
            } else {
                let rest = txid_hex_ascii(txid.drop_last());
                assert(txid_hex_ascii(txid)[2 * k] == rest[2 * (k - 1)]);
                assert(txid_hex_ascii(txid)[2 * k + 1] == rest[2 * (k - 1) + 1]);
                assert(txid.drop_last()[txid.drop_last().len() - 1 - (k - 1)] == txid[txid.len()
                    - 1 - k]);
            }
        }
    }
}

/// The decimal digits of a value, highest first, as ASCII codes.
pub open spec fn dec_digits(v: nat) -> Seq<u8>
    decreases v,
{
    if v < 10 {
        seq![(48 + v) as u8]
    } else {
        dec_digits(v / 10).push((48 + v % 10) as u8)
    }
}

pub proof fn lemma_dec_digits_ascii(v: nat)
    ensures
        forall|i: int| 0 <= i < dec_digits(v).len() ==> 48 <= #[trigger] dec_digits(v)[i] < 58,
    decreases v,
{
    if v >= 10 {
        lemma_dec_digits_ascii(v / 10);
        assert(forall|i: int|
            0 <= i < dec_digits(v / 10).len() ==> dec_digits(v)[i] == dec_digits(v / 10)[i]);
    }
}

/// Appends a value's decimal digits.
pub fn push_dec(out: &mut Vec<u8>, v: u64)
    ensures
        final(out)@ == old(out)@ + dec_digits(v as nat),
    decreases v,
{
    if v < 10 {
        out.push(48 + (v as u8));
        proof {
            assert(out@ =~= old(out)@ + dec_digits(v as nat));
        }
    } else {
        push_dec(out, v / 10);
        out.push(48 + ((v % 10) as u8));
        proof {
            assert(out@ =~= old(out)@ + dec_digits(v as nat));
        }
    }
}

/// The textual form of an asset id: the etching block's decimal number, a
/// colon, and the transaction index's decimal number.
pub open spec fn runeid_text(r: RuneId) -> Seq<char> {
    ascii_chars(dec_digits(r.block as nat) + seq![58u8] + dec_digits(r.tx as nat))
}

impl RuneId {
    /// Writes the id in its textual form.
    pub fn to_text(&self) -> (r: String)
        ensures
            r@ == runeid_text(*self),
    {
        let mut bytes: Vec<u8> = Vec::new();
        push_dec(&mut bytes, self.block);
        bytes.push(58);
        let ghost mid = bytes@;
        push_dec(&mut bytes, self.tx as u64);
        proof {
            lemma_dec_digits_ascii(self.block as nat);
            lemma_dec_digits_ascii(self.tx as nat);
            assert(bytes@ =~= dec_digits(self.block as nat) + seq![58u8] + dec_digits(
                self.tx as nat,
            ));
        }
        ascii_to_string(&bytes)
    }
}

/// Relies on std's String::from_utf8: bytes below 128 decode to exactly those
/// ASCII characters.
#[verifier::external_body]
pub fn ascii_to_string(bytes: &Vec<u8>) -> (r: String)
    requires
        forall|i: int| 0 <= i < bytes@.len() ==> bytes@[i] < 128,
    ensures
        r@ == ascii_chars(bytes@),
{
    String::from_utf8(bytes.clone()).unwrap()
}

/// The conventional textual form of a transaction id: lower-case hex of the
/// bytes in reverse order.
pub fn txid_to_string(txid: &Vec<u8>) -> (r: String)
    ensures
        r@ == ascii_chars(txid_hex_ascii(txid@)),
{
    let hex = txid_hex_bytes(txid);
    proof {
        lemma_txid_hex_ascii_props(txid@);
    }
    ascii_to_string(&hex)
}

} // verus!
verus! {

pub open spec fn is_dec_digit(c: char) -> bool {
    ('0' as u32) <= (c as u32) && (c as u32) <= ('9' as u32)
}

/// A non-empty run of decimal digits.
pub open spec fn all_dec_digits(s: Seq<char>) -> bool {
    s.len() > 0 && forall|i: int| 0 <= i < s.len() ==> is_dec_digit(#[trigger] s[i])
}

/// The value of a digit run, highest digit first.
pub open spec fn dec_value(s: Seq<char>) -> int
    decreases s.len(),
{
    if s.len() == 0 {
        0
    } else {
        dec_value(s.drop_last()) * 10 + ((s.last() as u32) - ('0' as u32))
    }
}

/// The index of the first colon, or the length when there is none.
pub open spec fn first_colon(s: Seq<char>) -> int
    decreases s.len(),
{
    if s.len() == 0 {
        0
    } else if s[0] == ':' {
        0
    } else {
        1 + first_colon(s.drop_first())
    }
}

/// What the textual form of an asset id parses to: the text before the first
/// colon as the block number, the rest as the transaction index, provided
/// both are non-empty digit runs whose values fit their fields.
pub open spec fn runeid_of_text(s: Seq<char>) -> Option<RuneId> {
    let j = first_colon(s);
    if j >= s.len() {
        None
    } else {
        let b = s.take(j);
        let t = s.skip(j + 1);
        if all_dec_digits(b) && all_dec_digits(t) && dec_value(b) <= u64::MAX && dec_value(t)
            <= u32::MAX {
            Some(RuneId { block: dec_value(b) as u64, tx: dec_value(t) as u32 })
        } else {
            None
        }
    }
}

proof fn lemma_first_colon_bounds(s: Seq<char>)
    ensures
        0 <= first_colon(s) <= s.len(),
        first_colon(s) < s.len() ==> s[first_colon(s)] == ':',
        forall|k: int| 0 <= k < first_colon(s) ==> #[trigger] s[k] != ':',
    decreases s.len(),
{
    if s.len() > 0 && s[0] != ':' {
        lemma_first_colon_bounds(s.drop_first());
        assert forall|k: int| 0 <= k < first_colon(s) implies #[trigger] s[k] != ':' by {
            if k > 0 {
                assert(s.drop_first()[k - 1] == s[k]);
                assert(s.drop_first()[k - 1] != ':');
            }
        }
    }
}

/// The first colon is exactly where a scan that saw no earlier colon finds one.
proof fn lemma_first_colon_at(s: Seq<char>, j: int)
    requires
        0 <= j < s.len(),
        s[j] == ':',
        forall|k: int| 0 <= k < j ==> #[trigger] s[k] != ':',
    ensures
        first_colon(s) == j,
    decreases j,
{
    if j == 0 {
    } else {
        assert(s[0] != ':');
        lemma_first_colon_at(s.drop_first(), j - 1);
        assert(forall|k: int| 0 <= k < s.drop_first().len() ==> s.drop_first()[k] == s[k + 1]);
    }
}

proof fn lemma_first_colon_none(s: Seq<char>)
    requires
        forall|k: int| 0 <= k < s.len() ==> #[trigger] s[k] != ':',
    ensures
        first_colon(s) == s.len(),
    decreases s.len(),
{
    if s.len() > 0 {
        lemma_first_colon_none(s.drop_first());
        assert(forall|k: int| 0 <= k < s.drop_first().len() ==> s.drop_first()[k] == s[k + 1]);
    }
}

/// A digit run is worth at least any of its prefixes.
proof fn lemma_dec_value_prefix(s: Seq<char>, i: int)
    requires
        0 <= i <= s.len(),
        forall|k: int| 0 <= k < s.len() ==> is_dec_digit(#[trigger] s[k]),
    ensures
        0 <= dec_value(s.take(i)) <= dec_value(s),
    decreases s.len(),
{
    if s.len() == 0 {
        assert(s.take(i) =~= s);
    } else if i == s.len() {
        assert(s.take(i) =~= s);
        lemma_dec_value_prefix(s.drop_last(), s.len() - 1);
        assert(s.drop_last().take(s.len() - 1) =~= s.drop_last());
        assert(is_dec_digit(s.last()));
    } else {
        assert(forall|k: int|
            0 <= k < s.drop_last().len() ==> is_dec_digit(#[trigger] s.drop_last()[k]));
        lemma_dec_value_prefix(s.drop_last(), i);
        assert(s.drop_last().take(i) =~= s.take(i));
        assert(is_dec_digit(s.last()));
        assert(dec_value(s) == dec_value(s.drop_last()) * 10 + ((s.last() as u32) - ('0' as u32)));
        assert(dec_value(s.drop_last()) * 10 >= dec_value(s.drop_last())) by {
            lemma_dec_value_nonneg(s.drop_last());
        }
    }
}

proof fn lemma_dec_value_nonneg(s: Seq<char>)
    requires
        forall|k: int| 0 <= k < s.len() ==> is_dec_digit(#[trigger] s[k]),
    ensures
        dec_value(s) >= 0,
    decreases s.len(),
{
    if s.len() > 0 {
        assert(forall|k: int|
            0 <= k < s.drop_last().len() ==> is_dec_digit(#[trigger] s.drop_last()[k]));
        lemma_dec_value_nonneg(s.drop_last());
        assert(is_dec_digit(s.last()));
    }
}

impl RuneId {
    /// Parses the textual form back: digits, a colon, digits.
    #[verifier::rlimit(100)]
    #[verifier::spinoff_prover]
    pub fn from_text(s: &str) -> (r: Option<RuneId>)
        ensures
            r == runeid_of_text(s@),
    {
        broadcast use vstd::string::axiom_spec_iter, vstd::string::next_postcondition;

        let mut it = s.chars();
        let ghost mut i: int = 0;
        let ghost mut colon: int = 0;
        let mut seen_colon = false;
        let mut block: u64 = 0;
        let mut block_digits = false;
        let mut tx: u32 = 0;
        let mut tx_digits = false;
        proof {
            assert(s@.skip(0) =~= s@);
            assert(s@.take(0) =~= Seq::<char>::empty());
        }
        loop
            invariant
                0 <= i <= s@.len(),
                vstd::std_specs::iter::IteratorSpec::remaining(&it) == s@.skip(i),
                !seen_colon ==> {
                    &&& forall|k: int| 0 <= k < i ==> #[trigger] s@[k] != ':'
                    &&& forall|k: int| 0 <= k < i ==> is_dec_digit(#[trigger] s@[k])
                    &&& block as int == dec_value(s@.take(i))
                    &&& block_digits == (i > 0)
                    &&& tx == 0
                    &&& !tx_digits
                },
                seen_colon ==> {
                    &&& 0 <= colon < i <= s@.len()
                    &&& s@[colon] == ':'
                    &&& forall|k: int| 0 <= k < colon ==> #[trigger] s@[k] != ':'
                    &&& forall|k: int| 0 <= k < colon ==> is_dec_digit(#[trigger] s@[k])
                    &&& block as int == dec_value(s@.take(colon))
                    &&& block_digits == (colon > 0)
                    &&& forall|k: int|
                        colon < k < i ==> is_dec_digit(#[trigger] s@[k])
                    &&& tx as int == dec_value(s@.skip(colon + 1).take(i - colon - 1))
                    &&& tx_digits == (i > colon + 1)
                },
            decreases s@.len() - i,
        {
            let c = match it.next() {
                None => {
                    proof {
                        assert(s@.skip(i).len() == 0);
                        assert(i == s@.len());
                    }
                    if !seen_colon {
                        proof {
                            lemma_first_colon_none(s@);
                        }
                        return None;
                    }
                    if !block_digits || !tx_digits {
                        proof {
                            lemma_first_colon_at(s@, colon);
                            if !block_digits {
                                assert(s@.take(colon).len() == 0);
                            } else {
                                assert(s@.skip(colon + 1).len() == 0);
                            }
                        }
                        return None;
                    }
                    proof {
                        lemma_first_colon_at(s@, colon);
                        let b = s@.take(colon);
                        let t = s@.skip(colon + 1);
                        assert(forall|k: int| 0 <= k < b.len() ==> is_dec_digit(#[trigger] b[k]));
                        assert(forall|k: int|
                            0 <= k < t.len() ==> is_dec_digit(#[trigger] t[k])) by {
                            assert(forall|k: int| 0 <= k < t.len() ==> t[k] == s@[colon + 1 + k]);
                        }
                        assert(t.take(i - colon - 1) =~= t);
                    }
                    return Some(RuneId { block, tx });
                },
                Some(c) => c,
            };
            proof {
                assert(s@.skip(i)[0] == s@[i]);
                assert(s@.skip(i).drop_first() =~= s@.skip(i + 1));
            }
            if !seen_colon {
                if c == ':' {
                    seen_colon = true;
                    proof {
                        colon = i;
                        assert(s@.skip(colon + 1).take(0) =~= Seq::<char>::empty());
                        assert(dec_value(Seq::<char>::empty()) == 0);
                        assert(s@.take(colon) =~= s@.take(i));
                    }
                } else if ('0' as u32) <= (c as u32) && (c as u32) <= ('9' as u32) {
                    let d = (c as u32) - ('0' as u32);
                    proof {
                        assert(s@.take(i + 1).drop_last() =~= s@.take(i));
                        assert(s@.take(i + 1).last() == s@[i]);
                    }
                    block = match block.checked_mul(10) {
                        Some(v) => match v.checked_add(d as u64) {
                            Some(v2) => v2,
                            None => {
                                proof {
                                    lemma_overflow_means_none(s@, i, block as int, d as int);
                                }
                                return None;
                            },
                        },
                        None => {
                            proof {
                                lemma_overflow_means_none(s@, i, block as int, d as int);
                            }
                            return None;
                        },
                    };
                    block_digits = true;
                    proof {
                        assert(block as int == dec_value(s@.take(i + 1)));
                    }
                } else {
                    proof {
                        lemma_bad_block_char_means_none(s@, i);
                    }
                    return None;
                }
            } else {
                if ('0' as u32) <= (c as u32) && (c as u32) <= ('9' as u32) {
                    let d = (c as u32) - ('0' as u32);
                    let ghost t = s@.skip(colon + 1);
                    proof {
                        assert(t[i - colon - 1] == s@[i]);
                        assert(t.take(i - colon).drop_last() =~= t.take(i - colon - 1));
                        assert(t.take(i - colon).last() == t[i - colon - 1]);
                    }
                    tx = match tx.checked_mul(10) {
                        Some(v) => match v.checked_add(d) {
                            Some(v2) => v2,
                            None => {
                                proof {
                                    lemma_tx_overflow_means_none(s@, colon, i, tx as int, d as int);
                                }
                                return None;
                            },
                        },
                        None => {
                            proof {
                                lemma_tx_overflow_means_none(s@, colon, i, tx as int, d as int);
                            }
                            return None;
                        },
                    };
                    tx_digits = true;
                    proof {
                        assert(tx as int == dec_value(s@.skip(colon + 1).take(i - colon)));
                    }
                } else {
                    proof {
                        lemma_bad_tx_char_means_none(s@, colon, i);
                    }
                    return None;
                }
            }
            proof {
                i = i + 1;
            }
        }
    }
}

impl core::str::FromStr for RuneId {
    type Err = ();

    fn from_str(s: &str) -> Result<RuneId, ()> {
        match RuneId::from_text(s) {
            Some(r) => Ok(r),
            None => Err(()),
        }
    }
}

/// An overflowing block prefix means the text parses to nothing: either a
/// later character spoils the digit run anyway, or the full run is worth even
/// more than the overflowing prefix.
proof fn lemma_overflow_means_none(s: Seq<char>, i: int, acc: int, d: int)
    requires
        0 <= i < s.len(),
        forall|k: int| 0 <= k < i ==> #[trigger] s[k] != ':',
        forall|k: int| 0 <= k < i ==> is_dec_digit(#[trigger] s[k]),
        is_dec_digit(s[i]),
        s[i] != ':',
        acc == dec_value(s.take(i)),
        acc * 10 + d > u64::MAX,
        d == (s[i] as u32) - ('0' as u32),
    ensures
        runeid_of_text(s) is None,
{
    lemma_first_colon_bounds(s);
    let j = first_colon(s);
    if j < s.len() {
        let b = s.take(j);
        assert(i < j);
        if all_dec_digits(b) {
            assert(forall|k: int| 0 <= k < b.len() ==> is_dec_digit(#[trigger] b[k]));
            lemma_dec_value_prefix(b, i + 1);
            assert(b.take(i + 1) =~= s.take(i + 1));
            assert(s.take(i + 1).drop_last() =~= s.take(i));
            assert(s.take(i + 1).last() == s[i]);
            assert(dec_value(s.take(i + 1)) == acc * 10 + d);
            assert(dec_value(b) > u64::MAX);
        }
    }
}

/// A non-digit, non-colon character before the colon means the text parses to
/// nothing.
proof fn lemma_bad_block_char_means_none(s: Seq<char>, i: int)
    requires
        0 <= i < s.len(),
        forall|k: int| 0 <= k < i ==> #[trigger] s[k] != ':',
        !is_dec_digit(s[i]),
        s[i] != ':',
    ensures
        runeid_of_text(s) is None,
{
    lemma_first_colon_bounds(s);
    let j = first_colon(s);
    if j < s.len() {
        assert(i < j);
        assert(s.take(j)[i] == s[i]);
    }
}

/// A non-digit after the colon means the text parses to nothing.
proof fn lemma_bad_tx_char_means_none(s: Seq<char>, colon: int, i: int)
    requires
        0 <= colon < i < s.len(),
        s[colon] == ':',
        forall|k: int| 0 <= k < colon ==> #[trigger] s[k] != ':',
        !is_dec_digit(s[i]),
    ensures
        runeid_of_text(s) is None,
{
    lemma_first_colon_at(s, colon);
    let t = s.skip(colon + 1);
    assert(t[i - colon - 1] == s[i]);
}

/// An overflowing transaction-index prefix means the text parses to nothing.
proof fn lemma_tx_overflow_means_none(s: Seq<char>, colon: int, i: int, acc: int, d: int)
    requires
        0 <= colon < i < s.len(),
        s[colon] == ':',
        forall|k: int| 0 <= k < colon ==> #[trigger] s[k] != ':',
        forall|k: int| colon < k < i ==> is_dec_digit(#[trigger] s[k]),
        is_dec_digit(s[i]),
        acc == dec_value(s.skip(colon + 1).take(i - colon - 1)),
        acc * 10 + d > u32::MAX,
        d == (s[i] as u32) - ('0' as u32),
    ensures
        runeid_of_text(s) is None,
{
    lemma_first_colon_at(s, colon);
    let t = s.skip(colon + 1);
    if all_dec_digits(t) {
        assert(forall|k: int| 0 <= k < t.len() ==> is_dec_digit(#[trigger] t[k]));
        lemma_dec_value_prefix(t, i - colon);
        assert(t[i - colon - 1] == s[i]);
        assert(t.take(i - colon).drop_last() =~= t.take(i - colon - 1));
        assert(t.take(i - colon).last() == t[i - colon - 1]);
        assert(dec_value(t.take(i - colon)) == acc * 10 + d);
        assert(dec_value(t) > u32::MAX);
    }
}

} // verus!
