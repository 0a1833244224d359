//! The payloads of requests.
use vstd::prelude::*;

use crate::frame::HEADER_LEN;
use crate::wire::{le, lemma_le_len};

verus! {

/// A payload of `len` bytes and its header are no more than an allocation can hold.
pub open spec fn fits(len: nat) -> bool {
    len + HEADER_LEN <= isize::MAX
}

/// `[u16 len][bytes]`: a key or a name. A length that the field cannot hold is cut to its low
/// bits.
pub open spec fn short_bytes(bytes: Seq<u8>) -> Seq<u8> {
    le(2, bytes.len()) + bytes
}

/// `[u16 key_len][u32 value_len][key][value]`
pub open spec fn set_payload(key: Seq<u8>, value: Seq<u8>) -> Seq<u8> {
    le(2, key.len()) + le(4, value.len()) + key + value
}

/// The byte sequences behind a list of slices.
pub open spec fn slices(keys: Seq<&[u8]>) -> Seq<Seq<u8>> {
    keys.map_values(|k: &[u8]| k@)
}

/// Keys one after another, each with its length before it.
pub open spec fn key_list(keys: Seq<Seq<u8>>) -> Seq<u8>
    decreases keys.len(),
{
    if keys.len() == 0 {
        Seq::empty()
    } else {
        key_list(keys.drop_last()) + short_bytes(keys.last())
    }
}

/// `[u32 n_keys][[u16 key_len][key]] x n`
pub open spec fn mget_payload(keys: Seq<Seq<u8>>) -> Seq<u8> {
    le(4, keys.len()) + key_list(keys)
}

/// `[u16 name_len][name][u32 dim][u8 kind][u8 backend]`
pub open spec fn vindex_create_payload(name: Seq<u8>, dim: u32, kind: u8, backend: u8) -> Seq<u8> {
    short_bytes(name) + le(4, dim as nat) + seq![kind, backend]
}

/// `[u16 name_len][name][u64 vec_id]`
pub open spec fn vector_ref(name: Seq<u8>, id: u64) -> Seq<u8> {
    short_bytes(name) + le(8, id as nat)
}

/// The components of a vector, each as the four bytes of its bit pattern.
pub open spec fn components(vector: Seq<u32>) -> Seq<u8>
    decreases vector.len(),
{
    if vector.len() == 0 {
        Seq::empty()
    } else {
        components(vector.drop_last()) + le(4, vector.last() as nat)
    }
}

/// `[u32 dim][f32 x dim]`
pub open spec fn vector_body(vector: Seq<u32>) -> Seq<u8> {
    le(4, vector.len()) + components(vector)
}

/// `[u16 name_len][name][u64 vec_id][u32 dim][f32 x dim]`
pub open spec fn vset_payload(name: Seq<u8>, id: u64, vector: Seq<u32>) -> Seq<u8> {
    vector_ref(name, id) + vector_body(vector)
}

/// `[u16 name_len][name][u32 k][u32 dim][f32 x dim]`
pub open spec fn vsearch_payload(name: Seq<u8>, k: u32, query: Seq<u32>) -> Seq<u8> {
    short_bytes(name) + le(4, k as nat) + vector_body(query)
}

pub proof fn lemma_components_len(vector: Seq<u32>)
    ensures
        components(vector).len() == 4 * vector.len(),
    decreases vector.len(),
{
    if vector.len() > 0 {
        lemma_components_len(vector.drop_last());
        lemma_le_len(4, vector.last() as nat);
    }
}

/// One more key makes the list longer by its length field and its bytes.
pub proof fn lemma_key_list_step(keys: Seq<Seq<u8>>, n: int)
    requires
        0 <= n < keys.len(),
    ensures
        key_list(keys.take(n + 1)).len() == key_list(keys.take(n)).len() + 2 + keys[n].len(),
{
    assert(keys.take(n + 1).drop_last() =~= keys.take(n));
    lemma_le_len(2, keys[n].len());
}

/// The list of the first `n` keys is no longer than the whole list.
pub proof fn lemma_key_list_prefix(keys: Seq<Seq<u8>>, n: int)
    requires
        0 <= n <= keys.len(),
    ensures
        key_list(keys.take(n)).len() <= key_list(keys).len(),
    decreases keys.len() - n,
{
    if n < keys.len() {
        lemma_key_list_step(keys, n);
        lemma_key_list_prefix(keys, n + 1);
    } else {
        assert(keys.take(n) =~= keys);
    }
}

/// The bytes of a vector's components, for an encoder that takes bytes.
pub(crate) fn component_bytes(vector: &[u32]) -> (bytes: Vec<u8>)
    ensures
        bytes@ == components(vector@),
        bytes@.len() == 4 * vector@.len(),
{
    let mut bytes: Vec<u8> = Vec::new();
    let mut i: usize = 0;
    while i < vector.len()
        invariant
            i <= vector@.len(),
            bytes@ == components(vector@.take(i as int)),
        decreases vector@.len() - i,
    {
        crate::wire::push_u32(&mut bytes, vector[i]);
        assert(vector@.take(i + 1).drop_last() =~= vector@.take(i as int));
        i = i + 1;
    }
    assert(vector@.take(i as int) =~= vector@);
    proof {
        lemma_components_len(vector@);
    }
    bytes
}

/// Whether a request for `keys` is small enough to be made.
pub fn mget_fits(keys: &[&[u8]]) -> (ok: bool)
    ensures
        ok == fits(mget_payload(slices(keys@)).len()),
{
    let ghost views = slices(keys@);
    let limit: usize = isize::MAX as usize - HEADER_LEN - 4;
    let mut used: usize = 0;
    let mut i: usize = 0;
    proof {
        lemma_le_len(4, views.len());
    }
    assert(views.take(0) =~= Seq::empty());
    while i < keys.len()
        invariant
            i <= keys@.len(),
            views == slices(keys@),
            limit == isize::MAX - HEADER_LEN - 4,
            used == key_list(views.take(i as int)).len(),
            used <= limit,
            mget_payload(views).len() == 4 + key_list(views).len(),
        decreases keys@.len() - i,
    {
        proof {
            lemma_key_list_step(views, i as int);
            lemma_key_list_prefix(views, i + 1);
        }
        assert(views[i as int] == keys@[i as int]@);
        let len: usize = keys[i].len();
        if limit - used < 2 || limit - used - 2 < len {
            return false;
        }
        used = used + 2 + len;
        i = i + 1;
    }
    assert(views.take(i as int) =~= views);
    true
}

}
