//! The file format of saved storage: for each item, the length of the key as eight
//! big-endian bytes, the key's UTF-8 bytes, then the same for the value.
use vstd::prelude::*;

use super::in_memory_storage::{InMemoryStorage, Storage};
use super::storage_error::StorageError;
use crate::text::{utf8_error_text, utf8_to_str};
use vstd::string::{StringExecFns, StringSliceAdditionalSpecFns};
use vstd::utf8::{decode_utf8, encode_utf8, valid_utf8};

verus! {

/// The eight bytes of a `u64`, most significant first.
pub open spec fn be_u64_bytes(n: u64) -> Seq<u8> {
    seq![
        (n >> 56) as u8,
        (n >> 48) as u8,
        (n >> 40) as u8,
        (n >> 32) as u8,
        (n >> 24) as u8,
        (n >> 16) as u8,
        (n >> 8) as u8,
        n as u8,
    ]
}

/// The `u64` of the eight bytes at `off`, most significant first.
pub open spec fn be_u64_at(b: Seq<u8>, off: int) -> u64 {
    ((b[off] as u64) << 56) | ((b[off + 1] as u64) << 48) | ((b[off + 2] as u64) << 40) | ((b[off
        + 3] as u64) << 32) | ((b[off + 4] as u64) << 24) | ((b[off + 5] as u64) << 16) | ((b[off
        + 6] as u64) << 8) | (b[off + 7] as u64)
}

/// Reading back the bytes of a `u64` gives it.
pub proof fn lemma_be_u64_round_trip(n: u64, b: Seq<u8>, off: int)
    requires
        0 <= off,
        off + 8 <= b.len(),
        b.subrange(off, off + 8) == be_u64_bytes(n),
    ensures
        be_u64_at(b, off) == n,
{
    let s = be_u64_bytes(n);
    assert(b[off] == s[0] && b[off + 1] == s[1] && b[off + 2] == s[2] && b[off + 3] == s[3]);
    assert(b[off + 4] == s[4] && b[off + 5] == s[5] && b[off + 6] == s[6] && b[off + 7] == s[7]);
    let (b0, b1, b2, b3, b4, b5, b6, b7) = (s[0], s[1], s[2], s[3], s[4], s[5], s[6], s[7]);
    assert(((b0 as u64) << 56) | ((b1 as u64) << 48) | ((b2 as u64) << 40) | ((b3 as u64) << 32)
        | ((b4 as u64) << 24) | ((b5 as u64) << 16) | ((b6 as u64) << 8) | (b7 as u64) == n)
        by (bit_vector)
        requires
            b0 == (n >> 56) as u8,
            b1 == (n >> 48) as u8,
            b2 == (n >> 40) as u8,
            b3 == (n >> 32) as u8,
            b4 == (n >> 24) as u8,
            b5 == (n >> 16) as u8,
            b6 == (n >> 8) as u8,
            b7 == n as u8,
    ;
}

/// The bytes of one item: the key's length and bytes, then the value's.
pub open spec fn entry_bytes(k: Seq<char>, v: Seq<char>) -> Seq<u8> {
    be_u64_bytes(encode_utf8(k).len() as u64) + encode_utf8(k) + be_u64_bytes(
        encode_utf8(v).len() as u64,
    ) + encode_utf8(v)
}

/// The bytes of the items under the keys `ks`, in that order.
pub open spec fn entries_bytes(ks: Seq<Seq<char>>, items: Map<Seq<char>, Seq<char>>) -> Seq<u8>
    decreases ks.len(),
{
    if ks.len() == 0 {
        Seq::empty()
    } else {
        entry_bytes(ks[0], items[ks[0]]) + entries_bytes(ks.drop_first(), items)
    }
}

/// The bytes of a storage: its items in key order.
pub open spec fn storage_file_bytes<S: Storage>(s: S) -> Seq<u8> {
    entries_bytes(s.key_order(), s.items())
}

/// Why the bytes of a storage could not be loaded.
pub enum LoadError {
    /// The bytes end inside an item.
    Truncated,
    /// A key or a value is not UTF-8: the decoder's message for the first such one.
    BadText(Seq<char>),
}

/// Loading the items from `off` on into `items`: each item's key and value are read, then
/// stored, later items replacing earlier ones with the same key.
pub open spec fn load_entries(b: Seq<u8>, off: int, items: Map<Seq<char>, Seq<char>>) -> Result<
    Map<Seq<char>, Seq<char>>,
    LoadError,
>
    decreases b.len() - off,
{
    if off < 0 || off >= b.len() {
        Ok(items)
    } else if off + 8 > b.len() {
        Err(LoadError::Truncated)
    } else {
        let kl = be_u64_at(b, off) as int;
        let ks = off + 8;
        if ks + kl + 8 > b.len() {
            Err(LoadError::Truncated)
        } else {
            let vo = ks + kl;
            let vl = be_u64_at(b, vo) as int;
            let vs = vo + 8;
            if vs + vl > b.len() {
                Err(LoadError::Truncated)
            } else {
                let kb = b.subrange(ks, ks + kl);
                let vb = b.subrange(vs, vs + vl);
                if !valid_utf8(kb) {
                    Err(LoadError::BadText(utf8_error_text(kb)))
                } else if !valid_utf8(vb) {
                    Err(LoadError::BadText(utf8_error_text(vb)))
                } else {
                    load_entries(b, vs + vl, items.insert(decode_utf8(kb), decode_utf8(vb)))
                }
            }
        }
    }
}

fn push_be_u64(out: &mut Vec<u8>, n: u64)
    ensures
        final(out)@ == old(out)@ + be_u64_bytes(n),
{
    out.push((n >> 56) as u8);
    out.push((n >> 48) as u8);
    out.push((n >> 40) as u8);
    out.push((n >> 32) as u8);
    out.push((n >> 24) as u8);
    out.push((n >> 16) as u8);
    out.push((n >> 8) as u8);
    out.push(n as u8);
    assert(out@ =~= old(out)@ + be_u64_bytes(n));
}

fn read_be_u64(b: &[u8], off: usize) -> (n: u64)
    requires
        off + 8 <= b@.len(),
    ensures
        n == be_u64_at(b@, off as int),
{
    ((b[off] as u64) << 56) | ((b[off + 1] as u64) << 48) | ((b[off + 2] as u64) << 40) | ((b[off
        + 3] as u64) << 32) | ((b[off + 4] as u64) << 24) | ((b[off + 5] as u64) << 16) | ((b[off
        + 6] as u64) << 8) | (b[off + 7] as u64)
}

/// Taking one more key adds its item at the end.
proof fn lemma_entries_bytes_take(ks: Seq<Seq<char>>, items: Map<Seq<char>, Seq<char>>, i: int)
    requires
        0 <= i < ks.len(),
    ensures
        entries_bytes(ks.take(i + 1), items) == entries_bytes(ks.take(i), items) + entry_bytes(
            ks[i],
            items[ks[i]],
        ),
    decreases i,
{
    if i == 0 {
        assert(ks.take(1).drop_first() =~= Seq::<Seq<char>>::empty());
        assert(ks.take(1)[0] == ks[0]);
        assert(entries_bytes(Seq::<Seq<char>>::empty(), items) =~= Seq::<u8>::empty());
        assert(entries_bytes(ks.take(0), items) =~= Seq::<u8>::empty());
        assert(entries_bytes(ks.take(1), items) =~= entry_bytes(ks[0], items[ks[0]]));
    } else {
        let rest = ks.drop_first();
        lemma_entries_bytes_take(rest, items, i - 1);
        assert(ks.take(i + 1).drop_first() =~= rest.take(i));
        assert(ks.take(i).drop_first() =~= rest.take(i - 1));
        assert(ks.take(i + 1)[0] == ks[0]);
        assert(ks.take(i)[0] == ks[0]);
        assert(rest[i - 1] == ks[i]);
        assert(entries_bytes(ks.take(i + 1), items) =~= entries_bytes(ks.take(i), items) + entry_bytes(
            ks[i],
            items[ks[i]],
        ));
    }
}

/// The bytes of a storage, as `write_to_disk` saves them.
pub fn storage_bytes(storage: &InMemoryStorage) -> (out: Vec<u8>)
    requires
        storage.items().len() <= u32::MAX,
    ensures
        out@ == storage_file_bytes(*storage),
{
    let mut out: Vec<u8> = Vec::new();
    let length = storage.length();
    let ghost ks = storage.key_order();
    let ghost items = storage.items();
    let _ = storage.key(0);
    let mut index: u32 = 0;
    assert(entries_bytes(ks.take(0), items) =~= Seq::<u8>::empty());
    while index < length
        invariant
            ks == storage.key_order(),
            items == storage.items(),
            length == items.len(),
            index <= length,
            out@ == entries_bytes(ks.take(index as int), items),
            ks.no_duplicates(),
            ks.to_set() == items.dom(),
        decreases length - index,
    {
        proof {
            ks.unique_seq_to_set();
        }
        let key = match storage.key(index) {
            Some(k) => k,
            None => {
                assert(false);
                return out;
            },
        };
        proof {
            assert(ks.to_set().contains(ks[index as int]));
        }
        let value = match storage.get_item(key) {
            Some(v) => v,
            None => {
                assert(false);
                return out;
            },
        };
        let key_bytes = key.as_bytes();
        let value_bytes = value.as_bytes();
        let ghost before = out@;
        push_be_u64(&mut out, key_bytes.len() as u64);
        out.extend_from_slice(key_bytes);
        push_be_u64(&mut out, value_bytes.len() as u64);
        out.extend_from_slice(value_bytes);
        proof {
            lemma_entries_bytes_take(ks, items, index as int);
            assert(out@ =~= before + entry_bytes(key@, value@));
        }
        index = index + 1;
    }
    proof {
        ks.unique_seq_to_set();
        assert(ks.take(length as int) =~= ks);
    }
    out
}

/// The view of the error of loading.
pub open spec fn load_error_of(e: StorageError) -> LoadError {
    match e {
        StorageError::IoError(_) => LoadError::Truncated,
        StorageError::Utf8Error(m) => LoadError::BadText(m@),
    }
}

/// Loads the items that the bytes of a saved storage hold into `storage`, as `parse_file`
/// reads a file.
pub fn load_storage(bytes: &[u8], storage: &mut InMemoryStorage) -> (res: Result<(), StorageError>)
    ensures
        match load_entries(bytes@, 0, old(storage).items()) {
            Ok(m) => res is Ok && final(storage).items() == m,
            Err(e) => res matches Err(err) && load_error_of(err) == e,
        },
        match res {
            Err(StorageError::IoError(m)) => m@ == "failed to fill whole buffer"@,
            _ => true,
        },
{
    let n = bytes.len();
    let mut offset: usize = 0;
    let ghost start = load_entries(bytes@, 0, storage.items());
    while offset < n
        invariant
            n == bytes@.len(),
            offset <= n,
            start == load_entries(bytes@, offset as int, storage.items()),
            start == load_entries(bytes@, 0, old(storage).items()),
        decreases n - offset,
    {
        if n - offset < 8 {
            return Err(StorageError::IoError(String::from_str("failed to fill whole buffer")));
        }
        let key_len = read_be_u64(bytes, offset);
        let ks = offset + 8;
        if key_len > (n - ks) as u64 || (n - ks) - (key_len as usize) < 8 {
            return Err(StorageError::IoError(String::from_str("failed to fill whole buffer")));
        }
        let vo = ks + key_len as usize;
        let value_len = read_be_u64(bytes, vo);
        let vs = vo + 8;
        if value_len > (n - vs) as u64 {
            return Err(StorageError::IoError(String::from_str("failed to fill whole buffer")));
        }
        let ve = vs + value_len as usize;
        let key_bytes = &bytes[ks..vo];
        let value_bytes = &bytes[vs..ve];
        assert(key_bytes@ =~= bytes@.subrange(ks as int, vo as int));
        assert(value_bytes@ =~= bytes@.subrange(vs as int, ve as int));
        let key = match utf8_to_str(key_bytes) {
            Ok(k) => k,
            Err(e) => return Err(StorageError::Utf8Error(e)),
        };
        let value = match utf8_to_str(value_bytes) {
            Ok(v) => v,
            Err(e) => return Err(StorageError::Utf8Error(e)),
        };
        storage.set_item(key, value);
        offset = ve;
    }
    Ok(())
}

/// Loading a prefix that has been read leaves the rest to read.
proof fn lemma_load_shift(p: Seq<u8>, q: Seq<u8>, o: int, items: Map<Seq<char>, Seq<char>>)
    requires
        0 <= o <= q.len(),
    ensures
        load_entries(p + q, p.len() + o, items) == load_entries(q, o, items),
    decreases q.len() - o,
{
    let b = p + q;
    let off = p.len() + o;
    if o < q.len() && o + 8 <= q.len() {
        assert(be_u64_at(b, off) == be_u64_at(q, o));
        let kl = be_u64_at(q, o) as int;
        let ks = o + 8;
        if ks + kl + 8 <= q.len() {
            assert(be_u64_at(b, off + 8 + kl) == be_u64_at(q, ks + kl));
            let vl = be_u64_at(q, ks + kl) as int;
            let vs = ks + kl + 8;
            if vs + vl <= q.len() {
                assert(b.subrange(p.len() + ks, p.len() + ks + kl) =~= q.subrange(ks, ks + kl));
                assert(b.subrange(p.len() + vs, p.len() + vs + vl) =~= q.subrange(vs, vs + vl));
                let kb = q.subrange(ks, ks + kl);
                let vb = q.subrange(vs, vs + vl);
                if valid_utf8(kb) && valid_utf8(vb) {
                    lemma_load_shift(p, q, vs + vl, items.insert(decode_utf8(kb), decode_utf8(vb)));
                }
            }
        }
    }
}

/// Reading the first item of the bytes moves past it with the item stored.
proof fn lemma_load_first_entry(
    k: Seq<char>,
    v: Seq<char>,
    rb: Seq<u8>,
    acc: Map<Seq<char>, Seq<char>>,
)
    requires
        encode_utf8(k).len() <= u64::MAX,
        encode_utf8(v).len() <= u64::MAX,
    ensures
        load_entries(entry_bytes(k, v) + rb, 0, acc) == load_entries(rb, 0, acc.insert(k, v)),
{
    let kb = encode_utf8(k);
    let vb = encode_utf8(v);
    let kn = kb.len() as int;
    let vn = vb.len() as int;
    let e = entry_bytes(k, v);
    let b = e + rb;
    vstd::utf8::encode_utf8_valid_utf8(k);
    vstd::utf8::encode_utf8_decode_utf8(k);
    vstd::utf8::encode_utf8_valid_utf8(v);
    vstd::utf8::encode_utf8_decode_utf8(v);
    let kl = kb.len() as u64;
    let vl = vb.len() as u64;
    assert(e.len() == 16 + kn + vn);
    assert(b.subrange(0, 8) =~= be_u64_bytes(kl));
    lemma_be_u64_round_trip(kl, b, 0);
    assert(b.subrange(8 + kn, 16 + kn) =~= be_u64_bytes(vl));
    lemma_be_u64_round_trip(vl, b, 8 + kn);
    assert(b.subrange(8, 8 + kn) =~= kb);
    assert(b.subrange(16 + kn, 16 + kn + vn) =~= vb);
    lemma_load_shift(e, rb, 0, acc.insert(k, v));
}

/// The bytes of items load back as those items, on top of what was there.
proof fn lemma_load_entries_bytes(
    ks: Seq<Seq<char>>,
    items: Map<Seq<char>, Seq<char>>,
    acc: Map<Seq<char>, Seq<char>>,
)
    requires
        forall|i: int| 0 <= i < ks.len() ==> #[trigger] items.contains_key(ks[i]),
        forall|i: int| 0 <= i < ks.len() ==> #[trigger] encode_utf8(ks[i]).len() <= u64::MAX
            && encode_utf8(items[ks[i]]).len() <= u64::MAX,
    ensures
        load_entries(entries_bytes(ks, items), 0, acc) == Ok::<Map<Seq<char>, Seq<char>>, LoadError>(
            acc.union_prefer_right(Map::new(|k: Seq<char>| ks.contains(k), |k: Seq<char>| items[k])),
        ),
    decreases ks.len(),
{
    let part = Map::new(|k: Seq<char>| ks.contains(k), |k: Seq<char>| items[k]);
    if ks.len() == 0 {
        assert(acc.union_prefer_right(part) =~= acc);
    } else {
        let k = ks[0];
        let v = items[k];
        let rest = ks.drop_first();
        assert(encode_utf8(ks[0]).len() <= u64::MAX && encode_utf8(items[ks[0]]).len() <= u64::MAX);
        assert forall|i: int| 0 <= i < rest.len() implies #[trigger] items.contains_key(rest[i]) by {
            assert(rest[i] == ks[i + 1]);
        }
        assert forall|i: int| 0 <= i < rest.len() implies #[trigger] encode_utf8(rest[i]).len() <= u64::MAX
            && encode_utf8(items[rest[i]]).len() <= u64::MAX by {
            assert(rest[i] == ks[i + 1]);
        }
        let acc2 = acc.insert(k, v);
        lemma_load_first_entry(k, v, entries_bytes(rest, items), acc);
        lemma_load_entries_bytes(rest, items, acc2);
        let rest_part = Map::new(|kk: Seq<char>| rest.contains(kk), |kk: Seq<char>| items[kk]);
        assert forall|kk: Seq<char>| #[trigger] ks.contains(kk) == (kk == k || rest.contains(kk)) by {
            if ks.contains(kk) && kk != k {
                let j = choose|j: int| 0 <= j < ks.len() && ks[j] == kk;
                assert(j != 0);
                assert(rest[j - 1] == kk);
            }
            if rest.contains(kk) {
                let j = choose|j: int| 0 <= j < rest.len() && rest[j] == kk;
                assert(ks[j + 1] == kk);
            }
            if kk == k {
                assert(ks[0] == kk);
            }
        }
        assert(acc2.union_prefer_right(rest_part) =~= acc.union_prefer_right(part));
    }
}

/// What is saved loads back: the bytes of items listed in a key order that holds every key
/// load into an empty storage as those items.
pub proof fn lemma_storage_round_trip(ks: Seq<Seq<char>>, items: Map<Seq<char>, Seq<char>>)
    requires
        ks.to_set() == items.dom(),
        forall|k: Seq<char>| #[trigger] items.contains_key(k) ==> encode_utf8(k).len() <= u64::MAX
            && encode_utf8(items[k]).len() <= u64::MAX,
    ensures
        load_entries(entries_bytes(ks, items), 0, Map::empty()) == Ok::<Map<Seq<char>, Seq<char>>, LoadError>(items),
{
    assert forall|i: int| 0 <= i < ks.len() implies #[trigger] items.contains_key(ks[i]) by {
        assert(ks.to_set().contains(ks[i]));
    }
    assert forall|i: int| 0 <= i < ks.len() implies #[trigger] encode_utf8(ks[i]).len() <= u64::MAX
        && encode_utf8(items[ks[i]]).len() <= u64::MAX by {
        assert(ks.to_set().contains(ks[i]));
        assert(items.contains_key(ks[i]));
    }
    lemma_load_entries_bytes(ks, items, Map::empty());
    let part = Map::new(|k: Seq<char>| ks.contains(k), |k: Seq<char>| items[k]);
    assert(Map::<Seq<char>, Seq<char>>::empty().union_prefer_right(part) =~= items) by {
        assert forall|k: Seq<char>| #[trigger] items.contains_key(k) == ks.contains(k) by {
            assert(ks.to_set().contains(k) == ks.contains(k));
        }
    }
}

} // verus!
