//! The bulk field codec.
//!
//! Every value is an opaque fixed-size blob. A sequence of blobs is stored
//! as the plain concatenation of its elements' bytes; a keyed sequence is
//! stored as the concatenation of entries, each entry being the 8-byte
//! little-endian key followed by the value's bytes. Decoding slices the
//! buffer back into `size`-byte slots; for keyed sequences the stored key
//! bytes are skipped and the entry's position becomes its key.
//!
//! A zero-length sequence is not special-cased: it stores to an empty buffer
//! and loads from one without error.
use vstd::prelude::*;

use crate::params::{blobs_sized, blobs_view, pairs_sized, pairs_view, Blob};
use crate::LoadError;
use vstd::bytes::{
    lemma_auto_spec_u64_to_from_le_bytes, spec_u64_to_le_bytes, u64_to_le_bytes,
};
use vstd::seq_lib::assert_seqs_equal;
use vstd::slice::{slice_subrange, slice_to_vec};

verus! {

/// The concatenation of a sequence of byte sequences, in order.
pub open spec fn cat_all(s: Seq<Seq<u8>>) -> Seq<u8>
    decreases s.len(),
{
    if s.len() == 0 {
        Seq::empty()
    } else {
        s[0] + cat_all(s.drop_first())
    }
}

/// One stored map entry: the 8-byte little-endian key, then the value's bytes.
pub open spec fn enc_pair(p: (u64, Seq<u8>)) -> Seq<u8> {
    spec_u64_to_le_bytes(p.0) + p.1
}

/// Each entry of a keyed sequence in its stored form.
pub open spec fn enc_pairs_seq(s: Seq<(u64, Seq<u8>)>) -> Seq<Seq<u8>> {
    Seq::new(s.len(), |i: int| enc_pair(s[i]))
}

/// The stored form of a keyed sequence: every entry's key and value bytes,
/// in order.
pub open spec fn enc_pairs(s: Seq<(u64, Seq<u8>)>) -> Seq<u8> {
    cat_all(enc_pairs_seq(s))
}

/// Width in bytes of one stored map entry holding a `size`-byte value.
pub open spec fn pair_slot(size: nat) -> int {
    8 + size as int
}

/// The `n` consecutive `size`-byte slots at the head of `data`.
pub open spec fn dec_blobs(data: Seq<u8>, n: nat, size: nat) -> Seq<Seq<u8>> {
    Seq::new(n, |i: int| data.subrange(i * size, i * size + size))
}

/// The `n` entries decoded from consecutive key+value slots of `data`: the
/// stored key bytes are ignored, and the entry's position becomes its key.
pub open spec fn dec_pairs(data: Seq<u8>, n: nat, size: nat) -> Seq<(u64, Seq<u8>)> {
    Seq::new(
        n,
        |i: int|
            (
                i as u64,
                data.subrange(
                    i * pair_slot(size) + 8,
                    i * pair_slot(size) + pair_slot(size),
                ),
            ),
    )
}

/// The entries of a keyed sequence with each key replaced by the entry's
/// position.
pub open spec fn rekeyed(s: Seq<(u64, Seq<u8>)>) -> Seq<(u64, Seq<u8>)> {
    Seq::new(s.len(), |i: int| (i as u64, s[i].1))
}

/// Concatenating `n` blobs of `size` bytes each yields `n * size` bytes.
pub proof fn lemma_cat_all_len(s: Seq<Seq<u8>>, size: nat)
    requires
        blobs_sized(s, size),
    ensures
        cat_all(s).len() == s.len() * size,
    decreases s.len(),
{
    if s.len() == 0 {
    } else {
        assert forall|i: int| 0 <= i < s.drop_first().len() implies (#[trigger] s.drop_first()[i]).len()
            == size by {
            assert(s.drop_first()[i] == s[i + 1]);
        }
        lemma_cat_all_len(s.drop_first(), size);
        assert(size + (s.len() - 1) * size == s.len() * size) by (nonlinear_arith)
            requires
                s.len() >= 1,
        ;
    }
}

/// The `i`-th `size`-byte slot of the concatenation is the `i`-th blob.
pub proof fn lemma_cat_all_index(s: Seq<Seq<u8>>, size: nat, i: int)
    requires
        blobs_sized(s, size),
        0 <= i < s.len(),
    ensures
        cat_all(s).subrange(i * size, i * size + size) == s[i],
    decreases s.len(),
{
    lemma_cat_all_len(s, size);
    assert((i + 1) * size <= s.len() * size && i * size + size == (i + 1) * size
        && 0 <= i * size) by (nonlinear_arith)
        requires
            0 <= i,
            i + 1 <= s.len(),
    ;
    if i == 0 {
        assert_seqs_equal!(cat_all(s).subrange(0, size as int) == s[0]);
    } else {
        let rest = s.drop_first();
        assert forall|j: int| 0 <= j < rest.len() implies (#[trigger] rest[j]).len() == size by {
            assert(rest[j] == s[j + 1]);
        }
        lemma_cat_all_index(rest, size, i - 1);
        lemma_cat_all_len(rest, size);
        assert((i - 1) * size == i * size - size && size <= i * size) by (nonlinear_arith)
            requires
                1 <= i,
        ;
        assert_seqs_equal!(cat_all(s).subrange(i * size, i * size + size) == s[i], k => {
            let sub = cat_all(rest).subrange((i - 1) * size, (i - 1) * size + size);
            assert(cat_all(s).index(i * size + k) == cat_all(rest).index(i * size + k - size));
            assert(sub.index(k) == cat_all(rest).index((i - 1) * size + k));
        });
    }
}

/// Concatenation distributes over appending one more blob.
pub proof fn lemma_cat_all_push(s: Seq<Seq<u8>>, x: Seq<u8>)
    ensures
        cat_all(s.push(x)) == cat_all(s) + x,
    decreases s.len(),
{
    if s.len() == 0 {
        assert(s.push(x)[0] == x);
        assert(s.push(x).drop_first() =~= Seq::<Seq<u8>>::empty());
        assert(cat_all(s.push(x)) == x + cat_all(Seq::<Seq<u8>>::empty()));
        assert(x + Seq::<u8>::empty() =~= x);
        assert(cat_all(s) + x =~= x);
    } else {
        assert(s.push(x)[0] == s[0]);
        assert(s.push(x).drop_first() =~= s.drop_first().push(x));
        lemma_cat_all_push(s.drop_first(), x);
        assert(s[0] + (cat_all(s.drop_first()) + x) =~= (s[0] + cat_all(s.drop_first())) + x);
    }
}

/// Concatenating one more prefix element appends that element's bytes.
pub proof fn lemma_cat_all_take_snoc(s: Seq<Seq<u8>>, i: int)
    requires
        0 <= i < s.len(),
    ensures
        cat_all(s.take(i + 1)) == cat_all(s.take(i)) + s[i],
{
    assert(s.take(i + 1) =~= s.take(i).push(s[i]));
    lemma_cat_all_push(s.take(i), s[i]);
}

/// Decoding a stored blob sequence yields exactly the blobs that were stored.
pub proof fn lemma_blobs_round_trip(s: Seq<Seq<u8>>, size: nat)
    requires
        blobs_sized(s, size),
    ensures
        dec_blobs(cat_all(s), s.len(), size) == s,
{
    lemma_cat_all_len(s, size);
    let d = dec_blobs(cat_all(s), s.len(), size);
    assert forall|i: int| 0 <= i < s.len() implies d[i] == s[i] by {
        lemma_cat_all_index(s, size, i);
    }
    assert(d =~= s);
}

/// Each stored entry of a keyed sequence is one `8 + size`-byte slot.
pub proof fn lemma_enc_pairs_sized(s: Seq<(u64, Seq<u8>)>, size: nat)
    requires
        pairs_sized(s, size),
    ensures
        blobs_sized(enc_pairs_seq(s), (8 + size) as nat),
{
    lemma_auto_spec_u64_to_from_le_bytes();
}

/// A stored keyed sequence of `n` entries takes `n * (8 + size)` bytes.
pub proof fn lemma_enc_pairs_len(s: Seq<(u64, Seq<u8>)>, size: nat)
    requires
        pairs_sized(s, size),
    ensures
        enc_pairs(s).len() == s.len() * pair_slot(size),
{
    lemma_enc_pairs_sized(s, size);
    lemma_cat_all_len(enc_pairs_seq(s), (8 + size) as nat);
}

/// Decoding a stored keyed sequence yields the stored values in order, each
/// keyed by its position; the keys that were written are not read back.
pub proof fn lemma_pairs_round_trip(s: Seq<(u64, Seq<u8>)>, size: nat)
    requires
        pairs_sized(s, size),
        s.len() <= u64::MAX,
    ensures
        dec_pairs(enc_pairs(s), s.len(), size) == rekeyed(s),
{
    let es = enc_pairs_seq(s);
    let slot = (8 + size) as nat;
    lemma_enc_pairs_sized(s, size);
    lemma_cat_all_len(es, slot);
    let data = cat_all(es);
    let d = dec_pairs(data, s.len(), size);
    assert forall|i: int| 0 <= i < s.len() implies d[i] == rekeyed(s)[i] by {
        lemma_cat_all_index(es, slot, i);
        lemma_auto_spec_u64_to_from_le_bytes();
        assert(es[i] == spec_u64_to_le_bytes(s[i].0) + s[i].1);
        assert(0 <= i * pair_slot(size) && i * pair_slot(size) + pair_slot(size) <= s.len()
            * pair_slot(size)) by (nonlinear_arith)
            requires
                0 <= i,
                i + 1 <= s.len(),
                size >= 0,
        ;
        assert(data.len() == s.len() * pair_slot(size));
        assert_seqs_equal!(
            data.subrange(i * pair_slot(size) + 8, i * pair_slot(size) + pair_slot(size))
                == s[i].1,
            k => {
                let whole = data.subrange(
                    i * pair_slot(size),
                    i * pair_slot(size) + pair_slot(size),
                );
                assert(whole.index(8 + k) == data.index(i * pair_slot(size) + 8 + k));
            }
        );
    }
    assert(d =~= rekeyed(s));
}

/// Copy `count` bytes of `data` starting at `start`.
pub(crate) fn copy_range(data: &Vec<u8>, start: usize, count: usize) -> (out: Vec<u8>)
    requires
        start + count <= data@.len(),
    ensures
        out@ == data@.subrange(start as int, start as int + count),
{
    let n: usize = data.len();
    assert(start + count <= n);
    slice_to_vec(slice_subrange(data.as_slice(), start, start + count))
}

/// Append a copy of `src`'s bytes to `out`.
pub(crate) fn append_bytes(out: &mut Vec<u8>, src: &Vec<u8>)
    ensures
        final(out)@ == old(out)@ + src@,
{
    let mut tmp = slice_to_vec(src.as_slice());
    out.append(&mut tmp);
}

/// Append the 8-byte little-endian encoding of `v` to `out`.
pub(crate) fn push_u64_le(out: &mut Vec<u8>, v: u64)
    ensures
        final(out)@ == old(out)@ + spec_u64_to_le_bytes(v),
{
    let mut b = u64_to_le_bytes(v);
    out.append(&mut b);
}

/// Store one fixed-size value: its exact bytes.
pub fn store_value(b: &Blob) -> (out: Vec<u8>)
    ensures
        out@ == b@,
{
    slice_to_vec(b.bytes.as_slice())
}

/// Load one fixed-size value from the head of a buffer; a buffer shorter
/// than the value is a short read, never a padded value.
pub fn load_value(data: &Vec<u8>, size: usize) -> (r: Result<Blob, LoadError>)
    ensures
        data@.len() < size ==> r == Err::<Blob, LoadError>(LoadError::ShortRead),
        data@.len() >= size ==> (r matches Ok(b) && b@ == data@.subrange(0, size as int)),
{
    if data.len() < size {
        return Err(LoadError::ShortRead);
    }
    Ok(Blob { bytes: copy_range(data, 0, size) })
}

/// Store a sequence of fixed-size values: the concatenation of their bytes,
/// in sequence order.
pub fn store_sequence(elems: &Vec<Blob>) -> (out: Vec<u8>)
    ensures
        out@ == cat_all(blobs_view(elems@)),
{
    let mut out: Vec<u8> = Vec::new();
    let mut i: usize = 0;
    proof {
        assert(blobs_view(elems@).take(0) =~= Seq::<Seq<u8>>::empty());
    }
    while i < elems.len()
        invariant
            i <= elems@.len(),
            out@ == cat_all(blobs_view(elems@).take(i as int)),
        decreases elems@.len() - i,
    {
        append_bytes(&mut out, &elems[i].bytes);
        proof {
            lemma_cat_all_take_snoc(blobs_view(elems@), i as int);
        }
        i = i + 1;
    }
    proof {
        assert(blobs_view(elems@).take(elems@.len() as int) =~= blobs_view(elems@));
    }
    out
}

/// Store a keyed sequence: for each entry, in order, the 8-byte little-endian
/// key and then the value's bytes.
pub fn store_pair_sequence(elems: &Vec<(u64, Blob)>) -> (out: Vec<u8>)
    ensures
        out@ == enc_pairs(pairs_view(elems@)),
{
    let mut out: Vec<u8> = Vec::new();
    let mut i: usize = 0;
    proof {
        assert(enc_pairs_seq(pairs_view(elems@)).take(0) =~= Seq::<Seq<u8>>::empty());
    }
    while i < elems.len()
        invariant
            i <= elems@.len(),
            out@ == cat_all(enc_pairs_seq(pairs_view(elems@)).take(i as int)),
        decreases elems@.len() - i,
    {
        let ghost prev = out@;
        push_u64_le(&mut out, elems[i].0);
        append_bytes(&mut out, &elems[i].1.bytes);
        proof {
            let t = enc_pairs_seq(pairs_view(elems@));
            lemma_cat_all_take_snoc(t, i as int);
            assert(t[i as int] == enc_pair(pairs_view(elems@)[i as int]));
            assert(out@ =~= prev + t[i as int]);
        }
        i = i + 1;
    }
    proof {
        assert(enc_pairs_seq(pairs_view(elems@)).take(elems@.len() as int) =~= enc_pairs_seq(
            pairs_view(elems@),
        ));
    }
    out
}

/// Load `n` fixed-size values from a buffer into fresh blobs; a buffer with
/// fewer than `n * size` bytes is a short read.
pub fn load_sequence(data: &Vec<u8>, n: usize, size: usize) -> (r: Result<Vec<Blob>, LoadError>)
    requires
        1 <= size,
    ensures
        data@.len() < n * size ==> r == Err::<Vec<Blob>, LoadError>(LoadError::ShortRead),
        data@.len() >= n * size ==> (r matches Ok(v) && blobs_view(v@) == dec_blobs(
            data@,
            n as nat,
            size as nat,
        )),
{
    let len: usize = data.len();
    let mut out: Vec<Blob> = Vec::new();
    let mut i: usize = 0;
    let mut off: usize = 0;
    proof {
        assert(blobs_view(out@) =~~= dec_blobs(data@, 0, size as nat));
    }
    while i < n
        invariant
            1 <= size,
            i <= n,
            off == i * size,
            off <= len,
            len == data@.len(),
            out@.len() == i,
            blobs_view(out@) == dec_blobs(data@, i as nat, size as nat),
        decreases n - i,
    {
        if len - off < size {
            proof {
                assert((i + 1) * size <= n * size && i * size + size == (i + 1) * size)
                    by (nonlinear_arith)
                    requires
                        0 <= i,
                        i + 1 <= n,
                ;
            }
            return Err(LoadError::ShortRead);
        }
        let ghost prev_out = out@;
        let b = copy_range(data, off, size);
        let ghost bb = b@;
        out.push(Blob { bytes: b });
        proof {
            let prev = dec_blobs(data@, i as nat, size as nat);
            let next = dec_blobs(data@, (i + 1) as nat, size as nat);
            assert(out@.len() == i + 1);
            assert forall|j: int| 0 <= j < i + 1 implies blobs_view(out@)[j] == next[j] by {
                if j < i {
                    assert(out@[j] == prev_out[j]);
                    assert(blobs_view(prev_out)[j] == prev[j]);
                } else {
                    assert(out@[j]@ == bb);
                    assert(off == j * size);
                }
                assert(blobs_view(out@)[j] == out@[j]@);
            }
            assert(blobs_view(out@) =~~= next);
        }
        off = off + size;
        i = i + 1;
        proof {
            assert(off == i * size) by (nonlinear_arith)
                requires
                    off == (i - 1) * size + size,
            ;
        }
    }
    Ok(out)
}

/// Load `n` keyed entries from a buffer: each entry's value bytes are copied,
/// its stored key is skipped, and its position becomes its key. A buffer with
/// fewer than `n * (8 + size)` bytes is a short read.
pub fn load_pair_sequence(data: &Vec<u8>, n: usize, size: usize) -> (r: Result<
    Vec<(u64, Blob)>,
    LoadError,
>)
    requires
        1 <= size,
        size + 8 <= usize::MAX,
    ensures
        data@.len() < n * pair_slot(size as nat) ==> r == Err::<Vec<(u64, Blob)>, LoadError>(
            LoadError::ShortRead,
        ),
        data@.len() >= n * pair_slot(size as nat) ==> (r matches Ok(v) && pairs_view(v@)
            == dec_pairs(data@, n as nat, size as nat)),
{
    let len: usize = data.len();
    let slot: usize = size + 8;
    let mut out: Vec<(u64, Blob)> = Vec::new();
    let mut i: usize = 0;
    let mut off: usize = 0;
    proof {
        assert(pairs_view(out@) =~~= dec_pairs(data@, 0, size as nat));
    }
    while i < n
        invariant
            1 <= size,
            slot == size + 8,
            i <= n,
            n <= u64::MAX,
            off == i * pair_slot(size as nat),
            off <= len,
            len == data@.len(),
            out@.len() == i,
            pairs_view(out@) == dec_pairs(data@, i as nat, size as nat),
        decreases n - i,
    {
        if len - off < slot {
            proof {
                assert((i + 1) * pair_slot(size as nat) <= n * pair_slot(size as nat) && i
                    * pair_slot(size as nat) + pair_slot(size as nat) == (i + 1) * pair_slot(
                    size as nat,
                )) by (nonlinear_arith)
                    requires
                        0 <= i,
                        i + 1 <= n,
                        size >= 1,
                ;
            }
            return Err(LoadError::ShortRead);
        }
        let ghost prev_out = out@;
        let b = copy_range(data, off + 8, size);
        let ghost bb = b@;
        out.push((i as u64, Blob { bytes: b }));
        proof {
            let prev = dec_pairs(data@, i as nat, size as nat);
            let next = dec_pairs(data@, (i + 1) as nat, size as nat);
            assert(out@.len() == i + 1);
            assert forall|j: int| 0 <= j < i + 1 implies pairs_view(out@)[j] == next[j] by {
                if j < i {
                    assert(out@[j] == prev_out[j]);
                    assert(pairs_view(prev_out)[j] == prev[j]);
                } else {
                    assert(out@[j].0 == i as u64 && out@[j].1@ == bb);
                    assert(off == j * pair_slot(size as nat));
                }
                assert(pairs_view(out@)[j] == (out@[j].0, out@[j].1@));
            }
            assert(pairs_view(out@) =~~= next);
        }
        off = off + slot;
        i = i + 1;
        proof {
            assert(off == i * pair_slot(size as nat)) by (nonlinear_arith)
                requires
                    off == (i - 1) * pair_slot(size as nat) + pair_slot(size as nat),
            ;
        }
    }
    Ok(out)
}

} // verus!
