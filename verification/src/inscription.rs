use vstd::prelude::*;

use crate::runestone::rune_commitment;
use crate::script::{OP_ENDIF, OP_FALSE, OP_IF, push_encoding, push_opcode, push_slice};

verus! {

/// Largest single data push a script element may carry.
pub const MAX_SCRIPT_ELEMENT_SIZE: usize = 520;

pub const TAG_CONTENT_TYPE: u8 = 1;

pub const TAG_POINTER: u8 = 2;

pub const TAG_PARENT: u8 = 3;

pub const TAG_METADATA: u8 = 5;

pub const TAG_METAPROTOCOL: u8 = 7;

pub const TAG_CONTENT_ENCODING: u8 = 9;

pub const TAG_DELEGATE: u8 = 11;

pub const TAG_RUNE: u8 = 13;

/// The envelope carried by a reveal script: tagged fields between
/// OP_FALSE OP_IF "ord" ... OP_ENDIF, committing among other things to the
/// rune being etched.
pub struct Inscription {
    pub body: Option<Vec<u8>>,
    pub content_encoding: Option<Vec<u8>>,
    pub content_type: Option<Vec<u8>>,
    pub delegate: Option<Vec<u8>>,
    pub duplicate_field: bool,
    pub incomplete_field: bool,
    pub metadata: Option<Vec<u8>>,
    pub metaprotocol: Option<Vec<u8>>,
    pub parents: Vec<Vec<u8>>,
    pub pointer: Option<Vec<u8>>,
    pub rune: Option<Vec<u8>>,
    pub unrecognized_even_field: bool,
}

#[verifier::ext_equal]
pub struct InscriptionV {
    pub body: Option<Seq<u8>>,
    pub content_encoding: Option<Seq<u8>>,
    pub content_type: Option<Seq<u8>>,
    pub delegate: Option<Seq<u8>>,
    pub metadata: Option<Seq<u8>>,
    pub metaprotocol: Option<Seq<u8>>,
    pub parents: Seq<Seq<u8>>,
    pub pointer: Option<Seq<u8>>,
    pub rune: Option<Seq<u8>>,
}

pub open spec fn opt_view(v: Option<Vec<u8>>) -> Option<Seq<u8>> {
    match v {
        None => None,
        Some(b) => Some(b@),
    }
}

impl View for Inscription {
    type V = InscriptionV;

    open spec fn view(&self) -> InscriptionV {
        InscriptionV {
            body: opt_view(self.body),
            content_encoding: opt_view(self.content_encoding),
            content_type: opt_view(self.content_type),
            delegate: opt_view(self.delegate),
            metadata: opt_view(self.metadata),
            metaprotocol: opt_view(self.metaprotocol),
            parents: self.parents.deep_view(),
            pointer: opt_view(self.pointer),
            rune: opt_view(self.rune),
        }
    }
}

/// A field that is pushed once: its one-byte tag, then its whole value.
pub open spec fn tag_single(tag: u8, value: Option<Seq<u8>>) -> Seq<u8> {
    match value {
        None => Seq::empty(),
        Some(v) => push_encoding(seq![tag]) + push_encoding(v),
    }
}

/// A field that is pushed in bounded chunks, the tag repeated before each.
pub open spec fn tag_chunks(tag: u8, b: Seq<u8>) -> Seq<u8>
    decreases b.len(),
{
    if b.len() == 0 {
        Seq::empty()
    } else if b.len() <= 520 {
        push_encoding(seq![tag]) + push_encoding(b)
    } else {
        push_encoding(seq![tag]) + push_encoding(b.take(520)) + tag_chunks(tag, b.skip(520))
    }
}

pub open spec fn tag_chunked(tag: u8, value: Option<Seq<u8>>) -> Seq<u8> {
    match value {
        None => Seq::empty(),
        Some(v) => tag_chunks(tag, v),
    }
}

/// A field pushed once per element of an array.
pub open spec fn tag_array(tag: u8, values: Seq<Seq<u8>>) -> Seq<u8>
    decreases values.len(),
{
    if values.len() == 0 {
        Seq::empty()
    } else {
        push_encoding(seq![tag]) + push_encoding(values[0]) + tag_array(tag, values.drop_first())
    }
}

/// The body's untagged chunks.
pub open spec fn body_pushes(b: Seq<u8>) -> Seq<u8>
    decreases b.len(),
{
    if b.len() == 0 {
        Seq::empty()
    } else if b.len() <= 520 {
        push_encoding(b)
    } else {
        push_encoding(b.take(520)) + body_pushes(b.skip(520))
    }
}

/// The body part: the empty body-tag push, then the body's chunks.
pub open spec fn body_part(body: Option<Seq<u8>>) -> Seq<u8> {
    match body {
        None => Seq::empty(),
        Some(b) => push_encoding(Seq::empty()) + body_pushes(b),
    }
}

/// The full reveal-script envelope of an inscription.
pub open spec fn envelope(i: InscriptionV) -> Seq<u8> {
    seq![OP_FALSE, OP_IF] + push_encoding(seq![0x6fu8, 0x72u8, 0x64u8]) + tag_single(
        TAG_CONTENT_TYPE,
        i.content_type,
    ) + tag_single(TAG_CONTENT_ENCODING, i.content_encoding) + tag_single(
        TAG_METAPROTOCOL,
        i.metaprotocol,
    ) + tag_array(TAG_PARENT, i.parents) + tag_single(TAG_DELEGATE, i.delegate) + tag_single(
        TAG_POINTER,
        i.pointer,
    ) + tag_chunked(TAG_METADATA, i.metadata) + tag_single(TAG_RUNE, i.rune) + body_part(i.body)
        + seq![OP_ENDIF]
}

pub open spec fn opt_fits(v: Option<Seq<u8>>) -> bool {
    match v {
        None => true,
        Some(b) => b.len() < 0x10000,
    }
}

/// The fields of an inscription that are pushed whole must fit a single
/// script push.
pub open spec fn inscription_fits(i: InscriptionV) -> bool {
    &&& opt_fits(i.content_type)
    &&& opt_fits(i.content_encoding)
    &&& opt_fits(i.metaprotocol)
    &&& opt_fits(i.delegate)
    &&& opt_fits(i.pointer)
    &&& opt_fits(i.rune)
    &&& forall|k: int| 0 <= k < i.parents.len() ==> #[trigger] i.parents[k].len() < 0x10000
}

fn push_tag_single(out: &mut Vec<u8>, tag: u8, value: &Option<Vec<u8>>)
    requires
        opt_fits(opt_view(*value)),
    ensures
        final(out)@ == old(out)@ + tag_single(tag, opt_view(*value)),
{
    match value {
        None => {
            proof {
                assert(out@ =~= old(out)@ + tag_single(tag, opt_view(*value)));
            }
        },
        Some(v) => {
            let mut t: Vec<u8> = Vec::new();
            t.push(tag);
            proof {
                assert(t@ =~= seq![tag]);
            }
            push_slice(out, &t);
            push_slice(out, v);
            proof {
                assert(out@ =~= old(out)@ + tag_single(tag, opt_view(*value)));
            }
        },
    }
}

fn push_chunks(out: &mut Vec<u8>, tag: Option<u8>, v: &Vec<u8>)
    ensures
        final(out)@ == old(out)@ + (match tag {
            Some(t) => tag_chunks(t, v@),
            None => body_pushes(v@),
        }),
{
    let ghost target = match tag {
        Some(t) => tag_chunks(t, v@),
        None => body_pushes(v@),
    };
    let mut i: usize = 0;
    proof {
        assert(v@.skip(0) =~= v@);
    }
    while i < v.len()
        invariant
            i <= v@.len(),
            i % 520 == 0 || i == v@.len(),
            out@ + (match tag {
                Some(t) => tag_chunks(t, v@.skip(i as int)),
                None => body_pushes(v@.skip(i as int)),
            }) == old(out)@ + target,
            target == (match tag {
                Some(t) => tag_chunks(t, v@),
                None => body_pushes(v@),
            }),
        decreases v@.len() - i,
    {
        let end = if v.len() - i > 520 {
            i + 520
        } else {
            v.len()
        };
        let ghost rest = v@.skip(i as int);
        proof {
            assert(rest.len() == v@.len() - i);
            assert(rest.take(end - i) =~= v@.subrange(i as int, end as int));
            assert(rest.skip(end - i) =~= v@.skip(end as int));
            if rest.len() > 520 {
                assert(rest.take(520) =~= v@.subrange(i as int, end as int));
            } else {
                assert(rest =~= v@.subrange(i as int, end as int));
            }
        }
        let mut chunk: Vec<u8> = Vec::new();
        crate::bytes::extend_range(&mut chunk, v, i, end);
        match tag {
            Some(t) => {
                let mut tv: Vec<u8> = Vec::new();
                tv.push(t);
                proof {
                    assert(tv@ =~= seq![t]);
                }
                push_slice(out, &tv);
                push_slice(out, &chunk);
            },
            None => {
                push_slice(out, &chunk);
            },
        }
        i = end;
    }
    proof {
        assert(v@.skip(v@.len() as int) =~= Seq::<u8>::empty());
        assert(out@ =~= old(out)@ + target);
    }
}

impl Inscription {
    /// An inscription that carries a logo as its body and commits to a rune:
    /// only the body, content type and rune-commitment fields are set.
    pub fn new(body: Option<Vec<u8>>, content_type: Option<Vec<u8>>, rune: u128) -> (r:
        Inscription)
        ensures
            r@.body == opt_view(body),
            r@.content_type == opt_view(content_type),
            r@.rune == Some(rune_commitment(rune)),
            r@.content_encoding is None,
            r@.delegate is None,
            r@.metadata is None,
            r@.metaprotocol is None,
            r@.parents.len() == 0,
            r@.pointer is None,
    {
        let commitment = crate::runestone::commitment_of_rune(rune);
        let r = Inscription {
            body,
            content_encoding: None,
            content_type,
            delegate: None,
            duplicate_field: false,
            incomplete_field: false,
            metadata: None,
            metaprotocol: None,
            parents: Vec::new(),
            pointer: None,
            rune: Some(commitment),
            unrecognized_even_field: false,
        };
        proof {
            assert(r.parents.deep_view() =~~= Seq::<Seq<u8>>::empty());
        }
        r
    }

    /// Appends the envelope to a reveal script under construction:
    /// OP_FALSE OP_IF, the protocol marker, the tagged fields, the body in
    /// bounded chunks, OP_ENDIF.
    #[verifier::rlimit(60)]
    #[verifier::spinoff_prover]
    pub fn append_reveal_script_to_builder(&self, builder: Vec<u8>) -> (r: Vec<u8>)
        requires
            inscription_fits(self@),
        ensures
            r@ == builder@ + envelope(self@),
    {
        let mut out = builder;
        let ghost base = out@;
        push_opcode(&mut out, OP_FALSE);
        push_opcode(&mut out, OP_IF);
        let ghost e1 = seq![OP_FALSE, OP_IF];
        proof {
            assert(out@ =~= base + e1);
        }
        let mut marker: Vec<u8> = Vec::new();
        marker.push(0x6f);
        marker.push(0x72);
        marker.push(0x64);
        proof {
            assert(marker@ =~= seq![0x6fu8, 0x72u8, 0x64u8]);
        }
        push_slice(&mut out, &marker);
        let ghost e2 = e1 + push_encoding(seq![0x6fu8, 0x72u8, 0x64u8]);
        proof {
            assert(out@ =~= base + e2);
        }
        push_tag_single(&mut out, TAG_CONTENT_TYPE, &self.content_type);
        push_tag_single(&mut out, TAG_CONTENT_ENCODING, &self.content_encoding);
        push_tag_single(&mut out, TAG_METAPROTOCOL, &self.metaprotocol);
        let ghost e3 = e2 + tag_single(TAG_CONTENT_TYPE, self@.content_type) + tag_single(
            TAG_CONTENT_ENCODING,
            self@.content_encoding,
        ) + tag_single(TAG_METAPROTOCOL, self@.metaprotocol);
        proof {
            assert(out@ =~= base + e3);
        }
        let mut p: usize = 0;
        let ghost before_parents = out@;
        proof {
            assert(self@.parents.skip(0) =~= self@.parents);
        }
        while p < self.parents.len()
            invariant
                p <= self.parents@.len(),
                inscription_fits(self@),
                out@ + tag_array(TAG_PARENT, self@.parents.skip(p as int)) == before_parents
                    + tag_array(TAG_PARENT, self@.parents),
            decreases self.parents@.len() - p,
        {
            let mut tv: Vec<u8> = Vec::new();
            tv.push(TAG_PARENT);
            proof {
                assert(tv@ =~= seq![TAG_PARENT]);
                assert(self@.parents.skip(p as int)[0] == self@.parents[p as int]);
                assert(self@.parents.skip(p as int).drop_first() =~= self@.parents.skip(p + 1));
                assert(self.parents@[p as int]@ == self@.parents[p as int]);
            }
            push_slice(&mut out, &tv);
            push_slice(&mut out, &self.parents[p]);
            p += 1;
        }
        let ghost e4 = e3 + tag_array(TAG_PARENT, self@.parents);
        proof {
            assert(self@.parents.skip(self.parents@.len() as int) =~= Seq::<Seq<u8>>::empty());
            assert(out@ =~= base + e4);
        }
        push_tag_single(&mut out, TAG_DELEGATE, &self.delegate);
        push_tag_single(&mut out, TAG_POINTER, &self.pointer);
        let ghost e5 = e4 + tag_single(TAG_DELEGATE, self@.delegate) + tag_single(
            TAG_POINTER,
            self@.pointer,
        );
        proof {
            assert(out@ =~= base + e5);
        }
        match &self.metadata {
            None => {},
            Some(m) => {
                push_chunks(&mut out, Some(TAG_METADATA), m);
            },
        }
        push_tag_single(&mut out, TAG_RUNE, &self.rune);
        let ghost e6 = e5 + tag_chunked(TAG_METADATA, self@.metadata) + tag_single(
            TAG_RUNE,
            self@.rune,
        );
        proof {
            assert(out@ =~= base + e6);
        }
        match &self.body {
            None => {},
            Some(b) => {
                let empty_push: Vec<u8> = Vec::new();
                proof {
                    assert(empty_push@ =~= Seq::<u8>::empty());
                }
                push_slice(&mut out, &empty_push);
                push_chunks(&mut out, None, b);
            },
        }
        push_opcode(&mut out, OP_ENDIF);
        let ghost e7 = e6 + body_part(self@.body) + seq![OP_ENDIF];
        proof {
            assert(out@ =~= base + e7);
            assert(envelope(self@) =~= e7);
        }
        out
    }
}

} // verus!
