//! Key/value maps of the attached-program facility.
//!
//! Only the array variant is provided: a contiguous, zero-initialised slot
//! array of `max_entries × value_size` bytes, indexed by a 4-byte
//! little-endian integer key. Every operation bounds-checks the key and the
//! value against the map's attributes before touching storage, and each
//! error of the taxonomy is tied to exactly the inputs that produce it.

use vstd::prelude::*;
use vstd::arithmetic::mul::{lemma_mul_inequality, lemma_mul_is_commutative, lemma_mul_is_distributive_add, lemma_mul_nonnegative};
use crate::errors::{SysError, SysResult};
use crate::object::{BpfObject, BpfObjects};

verus! {

/// Map attributes as the control plane passes them.
#[derive(Clone, Copy, Debug, PartialEq, Eq, Structural)]
pub struct MapAttr {
    pub map_type: u32,
    pub key_size: u32,
    pub value_size: u32,
    pub max_entries: u32,
}

/// Map attributes in the table's own width.
#[derive(Clone, Copy, Debug, PartialEq, Eq, Structural)]
pub struct InternalMapAttr {
    pub key_size: usize,
    pub value_size: usize,
    pub max_entries: usize,
}

/// Attributes of one map operation as the control plane passes them: the
/// target handle, caller-space addresses of key and value, and flags.
#[derive(Clone, Copy, Debug, PartialEq, Eq, Structural)]
pub struct MapOpAttr {
    pub map_fd: u32,
    pub key: u64,
    pub value: u64,
    pub flags: u64,
}

impl InternalMapAttr {
    /// Widen control-plane attributes.
    pub fn from_attr(attr: MapAttr) -> (r: InternalMapAttr)
        ensures
            r.key_size == attr.key_size,
            r.value_size == attr.value_size,
            r.max_entries == attr.max_entries,
    {
        InternalMapAttr {
            key_size: attr.key_size as usize,
            value_size: attr.value_size as usize,
            max_entries: attr.max_entries as usize,
        }
    }
}

/// The operation codes of the control plane.
pub const BPF_MAP_CREATE: usize = 0;

pub const BPF_MAP_LOOKUP_ELEM: usize = 1;

pub const BPF_MAP_UPDATE_ELEM: usize = 2;

pub const BPF_MAP_DELETE_ELEM: usize = 3;

pub const BPF_MAP_GET_NEXT_KEY: usize = 4;

pub const BPF_PROG_LOAD: usize = 5;

pub const BPF_PROG_ATTACH: usize = 8;

pub const BPF_PROG_DETACH: usize = 9;

/// The map type code of the array variant.
pub const BPF_MAP_TYPE_ARRAY: u32 = 2;

/// The 4-byte little-endian index decoded from a key.
pub open spec fn spec_key_index(key: Seq<u8>) -> u32 {
    (key[0] as u32) | ((key[1] as u32) << 8) | ((key[2] as u32) << 16) | ((key[3] as u32) << 24)
}

/// Decode the 4-byte little-endian index from a key.
fn key_index(key: &Vec<u8>) -> (r: u32)
    requires
        key@.len() == 4,
    ensures
        r == spec_key_index(key@),
{
    (key[0] as u32) | ((key[1] as u32) << 8) | ((key[2] as u32) << 16) | ((key[3] as u32) << 24)
}

/// An array map: fixed attributes plus its slot storage.
pub struct ArrayMap {
    pub attr: InternalMapAttr,
    pub storage: Vec<u8>,
}

impl ArrayMap {
    /// Well-formed: the array variant's key is a 4-byte index and storage
    /// holds exactly `max_entries × value_size` bytes.
    pub open spec fn wf(self) -> bool {
        &&& self.attr.key_size == 4
        &&& self.storage@.len() == self.attr.max_entries * self.attr.value_size
    }

    /// A fresh, zero-initialised array map.
    pub fn new(attr: InternalMapAttr) -> (r: ArrayMap)
        requires
            attr.key_size == 4,
            attr.max_entries * attr.value_size <= usize::MAX,
        ensures
            r.wf(),
            r.attr == attr,
            forall|i: int| 0 <= i < r.storage@.len() ==> r.storage@[i] == 0,
    {
        let size = attr.max_entries * attr.value_size;
        let mut storage: Vec<u8> = Vec::new();
        let mut i: usize = 0;
        while i < size
            invariant
                i <= size,
                storage@.len() == i,
                forall|j: int| 0 <= j < i ==> storage@[j] == 0,
            decreases size - i,
        {
            storage.push(0);
            i = i + 1;
        }
        ArrayMap { attr, storage }
    }

    /// The byte offset of slot `index` inside the storage array. (The model
    /// carries offsets rather than raw addresses.)
    pub fn get_element_addr(&self, index: usize) -> (r: usize)
        requires
            self.wf(),
            index < self.attr.max_entries,
        ensures
            r == index * self.attr.value_size,
            r + self.attr.value_size <= self.storage@.len(),
    {
        let total = self.storage.len();
        proof {
            let i = index as int;
            let m = self.attr.max_entries as int;
            let v = self.attr.value_size as int;
            lemma_mul_inequality(i + 1, m, v);
            lemma_mul_is_commutative(i + 1, v);
            lemma_mul_is_distributive_add(v, i, 1);
            lemma_mul_is_commutative(v, i);
            lemma_mul_nonnegative(i, v);
        }
        self.attr.value_size * index
    }

    /// Copy the slot named by `key` out. `InvalidArgument` for a key of the
    /// wrong width, `NotFound` for an index past the end.
    pub fn lookup(&self, key: &Vec<u8>) -> (r: Result<Vec<u8>, SysError>)
        requires
            self.wf(),
        ensures
            key@.len() != 4 ==> r == Err::<Vec<u8>, SysError>(SysError::InvalidArgument),
            key@.len() == 4 && spec_key_index(key@) >= self.attr.max_entries ==> r == Err::<
                Vec<u8>,
                SysError,
            >(SysError::NotFound),
            key@.len() == 4 && spec_key_index(key@) < self.attr.max_entries ==> r is Ok
                && r->Ok_0@ == self.storage@.subrange(
                spec_key_index(key@) * self.attr.value_size,
                spec_key_index(key@) * self.attr.value_size + self.attr.value_size,
            ),
    {
        if key.len() != 4 {
            return Err(SysError::InvalidArgument);
        }
        let index = key_index(key) as usize;
        if index >= self.attr.max_entries {
            return Err(SysError::NotFound);
        }
        let off = self.get_element_addr(index);
        let total = self.storage.len();
        let mut out: Vec<u8> = Vec::new();
        let mut i: usize = 0;
        while i < self.attr.value_size
            invariant
                self.wf(),
                i <= self.attr.value_size,
                total == self.storage@.len(),
                off + self.attr.value_size <= total,
                out@.len() == i,
                forall|j: int| 0 <= j < i ==> out@[j] == self.storage@[off + j],
            decreases self.attr.value_size - i,
        {
            out.push(self.storage[off + i]);
            i = i + 1;
        }
        proof {
            assert(out@ =~= self.storage@.subrange(
                off as int,
                off + self.attr.value_size,
            ));
        }
        Ok(out)
    }

    /// Copy `value` into the slot named by `key`; the flags are ignored by
    /// the array variant. `InvalidArgument` for a key or value of the wrong
    /// width, `NotFound` for an index past the end.
    pub fn update(&mut self, key: &Vec<u8>, value: &Vec<u8>, _flags: u64) -> (r: SysResult)
        requires
            old(self).wf(),
        ensures
            final(self).wf(),
            final(self).attr == old(self).attr,
            key@.len() != 4 || value@.len() != old(self).attr.value_size ==> r == Err::<
                u64,
                SysError,
            >(SysError::InvalidArgument) && final(self).storage@ == old(self).storage@,
            key@.len() == 4 && value@.len() == old(self).attr.value_size && spec_key_index(key@)
                >= old(self).attr.max_entries ==> r == Err::<u64, SysError>(SysError::NotFound)
                && final(self).storage@ == old(self).storage@,
            key@.len() == 4 && value@.len() == old(self).attr.value_size && spec_key_index(key@)
                < old(self).attr.max_entries ==> r == Ok::<u64, SysError>(0) && {
                let off = spec_key_index(key@) * old(self).attr.value_size;
                &&& final(self).storage@.len() == old(self).storage@.len()
                &&& (forall|i: int|
                    0 <= i < final(self).storage@.len() ==> final(self).storage@[i] == (if off <= i
                        < off + old(self).attr.value_size {
                        value@[i - off]
                    } else {
                        old(self).storage@[i]
                    }))
            },
    {
        if key.len() != 4 || value.len() != self.attr.value_size {
            return Err(SysError::InvalidArgument);
        }
        let index = key_index(key) as usize;
        if index >= self.attr.max_entries {
            return Err(SysError::NotFound);
        }
        let off = self.get_element_addr(index);
        let total = self.storage.len();
        let mut i: usize = 0;
        while i < self.attr.value_size
            invariant
                self.wf(),
                self.attr == old(self).attr,
                value@.len() == self.attr.value_size,
                i <= self.attr.value_size,
                total == self.storage@.len(),
                off + self.attr.value_size <= total,
                self.storage@.len() == old(self).storage@.len(),
                forall|j: int|
                    0 <= j < self.storage@.len() ==> self.storage@[j] == (if off <= j < off + i {
                        value@[j - off]
                    } else {
                        old(self).storage@[j]
                    }),
            decreases self.attr.value_size - i,
        {
            self.storage[off + i] = value[i];
            i = i + 1;
        }
        Ok(0)
    }

    /// Deletion is meaningless in a fixed-size array: always
    /// `InvalidArgument`.
    pub fn delete(&mut self, _key: &Vec<u8>) -> (r: SysResult)
        ensures
            *final(self) == *old(self),
            r == Err::<u64, SysError>(SysError::InvalidArgument),
    {
        Err(SysError::InvalidArgument)
    }

    /// The iteration protocol: an out-of-range index restarts iteration at
    /// index 0; the last valid index terminates it with `NotFound`; any
    /// other index yields its successor.
    pub fn next_key(&self, key: &Vec<u8>) -> (r: Result<u32, SysError>)
        requires
            self.wf(),
        ensures
            key@.len() != 4 ==> r == Err::<u32, SysError>(SysError::InvalidArgument),
            key@.len() == 4 && spec_key_index(key@) >= self.attr.max_entries ==> r == Ok::<
                u32,
                SysError,
            >(0),
            key@.len() == 4 && spec_key_index(key@) + 1 < self.attr.max_entries ==> r == Ok::<
                u32,
                SysError,
            >((spec_key_index(key@) + 1) as u32),
            key@.len() == 4 && spec_key_index(key@) + 1 >= self.attr.max_entries && spec_key_index(
                key@,
            ) < self.attr.max_entries ==> r == Err::<u32, SysError>(SysError::NotFound),
    {
        if key.len() != 4 {
            return Err(SysError::InvalidArgument);
        }
        let index = key_index(key) as usize;
        if index >= self.attr.max_entries {
            return Ok(0);
        }
        if index + 1 < self.attr.max_entries {
            Ok((index + 1) as u32)
        } else {
            Err(SysError::NotFound)
        }
    }

    /// The map's attributes.
    pub fn get_attr(&self) -> (r: InternalMapAttr)
        ensures
            r == self.attr,
    {
        self.attr
    }

    /// The canonical spec-level result of `lookup` on this map.
    pub open spec fn spec_lookup(self, key: Seq<u8>) -> Result<Seq<u8>, SysError> {
        if key.len() != 4 {
            Err(SysError::InvalidArgument)
        } else if spec_key_index(key) >= self.attr.max_entries {
            Err(SysError::NotFound)
        } else {
            Ok(
                self.storage@.subrange(
                    spec_key_index(key) * self.attr.value_size,
                    spec_key_index(key) * self.attr.value_size + self.attr.value_size,
                ),
            )
        }
    }

    /// The helper-facing lookup: the byte offset of the slot named by
    /// `key` inside the map's storage, for the kernel to turn into a real
    /// address. Errors as `lookup`.
    pub fn lookup_helper(&self, key: &Vec<u8>) -> (r: SysResult)
        requires
            self.wf(),
        ensures
            key@.len() != 4 ==> r == Err::<u64, SysError>(SysError::InvalidArgument),
            key@.len() == 4 && spec_key_index(key@) >= self.attr.max_entries ==> r == Err::<
                u64,
                SysError,
            >(SysError::NotFound),
            key@.len() == 4 && spec_key_index(key@) < self.attr.max_entries ==> r == Ok::<
                u64,
                SysError,
            >((spec_key_index(key@) * self.attr.value_size) as u64),
    {
        if key.len() != 4 {
            return Err(SysError::InvalidArgument);
        }
        let index = key_index(key) as usize;
        if index >= self.attr.max_entries {
            return Err(SysError::NotFound);
        }
        let off = self.get_element_addr(index);
        Ok(off as u64)
    }
}

/// The storage of an array map after a successful update of the slot named
/// by `key` with `value`.
pub open spec fn spec_update_storage(m: ArrayMap, key: Seq<u8>, value: Seq<u8>) -> Seq<u8> {
    let off = spec_key_index(key) * m.attr.value_size;
    Seq::new(
        m.storage@.len(),
        |i: int|
            if off <= i < off + m.attr.value_size {
                value[i - off]
            } else {
                m.storage@[i]
            },
    )
}

/// Create a map from control-plane attributes.
///
/// Only the array variant exists: any other `map_type` is refused, as is an
/// array key that is not a 4-byte index, each with `InvalidArgument`; so is
/// an exhausted handle range. On success the new, zero-filled map is stored
/// under the returned fresh handle.
pub fn bpf_map_create(bpf: &mut BpfObjects, attr: MapAttr) -> (r: SysResult)
    requires
        old(bpf).inv(),
        attr.max_entries as int * attr.value_size as int <= usize::MAX,
    ensures
        final(bpf).inv(),
        final(bpf).tracepoints@ == old(bpf).tracepoints@,
        attr.map_type != BPF_MAP_TYPE_ARRAY || attr.key_size != 4 || old(bpf).next_fd == u32::MAX
            ==> r == Err::<u64, SysError>(SysError::InvalidArgument) && final(bpf).objects@ == old(
            bpf,
        ).objects@ && final(bpf).next_fd == old(bpf).next_fd,
        attr.map_type == BPF_MAP_TYPE_ARRAY && attr.key_size == 4 && old(bpf).next_fd < u32::MAX
            ==> {
            let fd = old(bpf).next_fd;
            &&& r == Ok::<u64, SysError>(fd as u64)
            &&& final(bpf).next_fd == old(bpf).next_fd + 1
            &&& final(bpf).objects@.dom() == old(bpf).objects@.dom().insert(fd)
            &&& (forall|g: u32|
                g != fd && old(bpf).objects@.dom().contains(g) ==> final(bpf).objects@[g] == old(
                    bpf,
                ).objects@[g])
            &&& final(bpf).objects@[fd] is MapObject
            &&& {
                let m = final(bpf).objects@[fd]->MapObject_0;
                &&& m.wf()
                &&& m.attr.key_size == attr.key_size
                &&& m.attr.value_size == attr.value_size
                &&& m.attr.max_entries == attr.max_entries
                &&& (forall|i: int| 0 <= i < m.storage@.len() ==> m.storage@[i] == 0)
            }
        },
{
    if attr.map_type != BPF_MAP_TYPE_ARRAY {
        return Err(SysError::InvalidArgument);
    }
    let internal_attr = InternalMapAttr::from_attr(attr);
    if internal_attr.key_size != 4 {
        return Err(SysError::InvalidArgument);
    }
    let fd = match bpf.allocate_handle() {
        Some(fd) => fd,
        None => {
            return Err(SysError::InvalidArgument);
        },
    };
    let m = ArrayMap::new(internal_attr);
    bpf.objects.insert(fd, BpfObject::MapObject(m));
    proof {
        assert(bpf.objects@.dom() =~= old(bpf).objects@.dom().insert(fd));
    }
    Ok(fd as u64)
}

/// The predicate a scrub keeps: every handle but the closed one.
pub open spec fn keeps_handle(fd: u32) -> spec_fn(u32) -> bool {
    |x: u32| x != fd
}

/// How `filter` grows under `push`.
proof fn lemma_filter_push(s: Seq<u32>, x: u32, fd: u32)
    ensures
        s.push(x).filter(keeps_handle(fd)) == if x != fd {
            s.filter(keeps_handle(fd)).push(x)
        } else {
            s.filter(keeps_handle(fd))
        },
{
    reveal(Seq::filter);
    assert(s.push(x).drop_last() =~= s);
    assert(s.push(x).last() == x);
}

/// Every element of a filtered sequence occurs in the original.
proof fn lemma_filter_elem_of(s: Seq<u32>, fd: u32, k: int)
    requires
        0 <= k < s.filter(keeps_handle(fd)).len(),
    ensures
        exists|j: int| 0 <= j < s.len() && s[j] == #[trigger] s.filter(keeps_handle(fd))[k],
    decreases s.len(),
{
    reveal(Seq::filter);
    let out = s.filter(keeps_handle(fd));
    let subseq = s.drop_last().filter(keeps_handle(fd));
    if keeps_handle(fd)(s.last()) && k == out.len() - 1 {
        assert(s[s.len() - 1] == out[k]);
    } else {
        lemma_filter_elem_of(s.drop_last(), fd, k);
        let j = choose|j: int| 0 <= j < s.drop_last().len() && s.drop_last()[j] == subseq[k];
        assert(s[j] == out[k]);
    }
}

/// A copy of `list` without every occurrence of `fd`, order kept.
fn scrub_list(list: &Vec<u32>, fd: u32) -> (r: Vec<u32>)
    ensures
        r@ == list@.filter(keeps_handle(fd)),
{
    let n = list.len();
    let mut out: Vec<u32> = Vec::new();
    let mut k: usize = 0;
    while k < n
        invariant
            n == list@.len(),
            k <= n,
            out@ == list@.subrange(0, k as int).filter(keeps_handle(fd)),
        decreases n - k,
    {
        let x = list[k];
        proof {
            assert(list@.subrange(0, k + 1) =~= list@.subrange(0, k as int).push(list@[k as int]));
            lemma_filter_push(list@.subrange(0, k as int), list@[k as int], fd);
        }
        if x != fd {
            out.push(x);
        }
        k = k + 1;
    }
    proof {
        assert(list@.subrange(0, n as int) =~= list@);
    }
    out
}

/// Close the object named by `fd`: remove it from the table and scrub the
/// handle from every tracepoint's attachment list, so no list ever names a
/// closed object. `NotFound` when no such object is live.
pub fn bpf_map_close(bpf: &mut BpfObjects, fd: u32) -> (r: SysResult)
    requires
        old(bpf).inv(),
    ensures
        final(bpf).inv(),
        final(bpf).next_fd == old(bpf).next_fd,
        !old(bpf).objects@.dom().contains(fd) ==> r == Err::<u64, SysError>(SysError::NotFound)
            && final(bpf).objects@ == old(bpf).objects@ && final(bpf).tracepoints@ == old(
            bpf,
        ).tracepoints@,
        old(bpf).objects@.dom().contains(fd) ==> {
            &&& r == Ok::<u64, SysError>(0)
            &&& final(bpf).objects@ == old(bpf).objects@.remove(fd)
            &&& final(bpf).tracepoints@.len() == old(bpf).tracepoints@.len()
            &&& (forall|i: int|
                0 <= i < old(bpf).tracepoints@.len() ==> #[trigger] final(bpf).tracepoints@[i].0
                    == old(bpf).tracepoints@[i].0 && final(bpf).tracepoints@[i].1@ == old(
                    bpf,
                ).tracepoints@[i].1@.filter(keeps_handle(fd)))
        },
{
    if !bpf.objects.contains_key(&fd) {
        return Err(SysError::NotFound);
    }
    bpf.objects.remove(&fd);
    let n = bpf.tracepoints.len();
    let mut i: usize = 0;
    while i < n
        invariant
            old(bpf).inv(),
            bpf.objects@ == old(bpf).objects@.remove(fd),
            bpf.next_fd == old(bpf).next_fd,
            n == bpf.tracepoints@.len(),
            n == old(bpf).tracepoints@.len(),
            i <= n,
            forall|j: int|
                i <= j < n ==> #[trigger] bpf.tracepoints@[j] == old(bpf).tracepoints@[j],
            forall|j: int|
                0 <= j < i ==> #[trigger] bpf.tracepoints@[j].0 == old(bpf).tracepoints@[j].0
                    && bpf.tracepoints@[j].1@ == old(bpf).tracepoints@[j].1@.filter(
                    keeps_handle(fd),
                ),
        decreases n - i,
    {
        let (tp, lv) = bpf.tracepoints.remove(i);
        let list = scrub_list(&lv, fd);
        bpf.tracepoints.insert(i, (tp, list));
        i = i + 1;
    }
    proof {
        assert forall|a: int, k: int|
            0 <= a < bpf.tracepoints@.len() && 0 <= k < bpf.tracepoints@[a].1@.len() implies {
            &&& bpf.objects@.dom().contains(#[trigger] bpf.tracepoints@[a].1@[k])
            &&& bpf.objects@[bpf.tracepoints@[a].1@[k]] is Program
        } by {
            assert(bpf.tracepoints@[a].0 == old(bpf).tracepoints@[a].0);
            assert(bpf.tracepoints@[a].1@ =~= old(bpf).tracepoints@[a].1@.filter(
                keeps_handle(fd),
            ));
            old(bpf).tracepoints@[a].1@.lemma_filter_pred(keeps_handle(fd), k);
            lemma_filter_elem_of(old(bpf).tracepoints@[a].1@, fd, k);
            let j = choose|j: int|
                0 <= j < old(bpf).tracepoints@[a].1@.len() && old(bpf).tracepoints@[a].1@[j]
                    == bpf.tracepoints@[a].1@[k];
            assert(old(bpf).objects@.dom().contains(old(bpf).tracepoints@[a].1@[j]));
            assert(bpf.tracepoints@[a].1@[k] != fd);
        }
        assert forall|a: int, b: int|
            0 <= a < bpf.tracepoints@.len() && 0 <= b < bpf.tracepoints@.len() && a != b
            implies #[trigger] bpf.tracepoints@[a].0 != #[trigger] bpf.tracepoints@[b].0 by {
            assert(bpf.tracepoints@[a].0 == old(bpf).tracepoints@[a].0);
            assert(bpf.tracepoints@[b].0 == old(bpf).tracepoints@[b].0);
            assert(old(bpf).tracepoints@[a].0 != old(bpf).tracepoints@[b].0);
        }
    }
    Ok(0)
}

/// The attributes of the map named by `fd`, or `None` when `fd` names no
/// map.
pub fn bpf_map_get_attr(bpf: &BpfObjects, fd: u32) -> (r: Option<InternalMapAttr>)
    ensures
        r == if bpf.objects@.dom().contains(fd) && bpf.objects@[fd] is MapObject {
            Some(bpf.objects@[fd]->MapObject_0.attr)
        } else {
            None::<InternalMapAttr>
        },
{
    match bpf.objects.get(&fd) {
        Some(BpfObject::MapObject(m)) => Some(m.get_attr()),
        _ => None,
    }
}

/// Dispatch one map operation on the map named by `fd`.
///
/// `NotFound` when `fd` names no map. A lookup reports the slot's bytes; an
/// update reports an empty payload; a next-key reports the follower index
/// as 4 little-endian bytes; a delete and an unknown operation code report
/// the array variant's errors.
pub fn bpf_map_ops(bpf: &mut BpfObjects, fd: u32, op: usize, key: &Vec<u8>, value: &Vec<u8>,
    flags: u64) -> (r: Result<Vec<u8>, SysError>)
    requires
        old(bpf).inv(),
    ensures
        final(bpf).inv(),
        final(bpf).next_fd == old(bpf).next_fd,
        final(bpf).tracepoints@ == old(bpf).tracepoints@,
        final(bpf).objects@.dom() == old(bpf).objects@.dom(),
        forall|g: u32|
            g != fd && old(bpf).objects@.dom().contains(g) ==> final(bpf).objects@[g] == old(
                bpf,
            ).objects@[g],
        !(old(bpf).objects@.dom().contains(fd) && old(bpf).objects@[fd] is MapObject) ==> r
            == Err::<Vec<u8>, SysError>(SysError::NotFound) && final(bpf).objects@ == old(
            bpf,
        ).objects@,
        old(bpf).objects@.dom().contains(fd) && old(bpf).objects@[fd] is MapObject ==> {
            let m = old(bpf).objects@[fd]->MapObject_0;
            &&& (op != BPF_MAP_UPDATE_ELEM ==> final(bpf).objects@ == old(bpf).objects@)
            &&& (op == BPF_MAP_LOOKUP_ELEM ==> (match m.spec_lookup(key@) {
                Ok(bytes) => r is Ok && r->Ok_0@ == bytes,
                Err(e) => r == Err::<Vec<u8>, SysError>(e),
            }))
            &&& (op == BPF_MAP_DELETE_ELEM ==> r == Err::<Vec<u8>, SysError>(
                SysError::InvalidArgument,
            ))
            &&& (op == BPF_MAP_UPDATE_ELEM ==> {
                &&& final(bpf).objects@[fd] is MapObject
                &&& {
                    let m1 = final(bpf).objects@[fd]->MapObject_0;
                    &&& m1.attr == m.attr
                    &&& (key@.len() == 4 && value@.len() == m.attr.value_size && spec_key_index(
                        key@,
                    ) < m.attr.max_entries ==> r is Ok && r->Ok_0@.len() == 0 && m1.storage@
                        == spec_update_storage(m, key@, value@))
                    &&& (key@.len() != 4 || value@.len() != m.attr.value_size ==> r == Err::<
                        Vec<u8>,
                        SysError,
                    >(SysError::InvalidArgument) && m1.storage@ == m.storage@)
                    &&& (key@.len() == 4 && value@.len() == m.attr.value_size && spec_key_index(
                        key@,
                    ) >= m.attr.max_entries ==> r == Err::<Vec<u8>, SysError>(SysError::NotFound)
                        && m1.storage@ == m.storage@)
                }
            })
            &&& (op == BPF_MAP_GET_NEXT_KEY ==> {
                &&& (key@.len() != 4 ==> r == Err::<Vec<u8>, SysError>(SysError::InvalidArgument))
                &&& (key@.len() == 4 && spec_key_index(key@) >= m.attr.max_entries ==> r is Ok
                    && r->Ok_0@ == seq![0u8, 0u8, 0u8, 0u8])
                &&& (key@.len() == 4 && spec_key_index(key@) < m.attr.max_entries
                    && spec_key_index(key@) + 1 >= m.attr.max_entries ==> r == Err::<
                    Vec<u8>,
                    SysError,
                >(SysError::NotFound))
            })
            &&& (op != BPF_MAP_LOOKUP_ELEM && op != BPF_MAP_UPDATE_ELEM && op
                != BPF_MAP_DELETE_ELEM && op != BPF_MAP_GET_NEXT_KEY ==> r == Err::<
                Vec<u8>,
                SysError,
            >(SysError::InvalidArgument))
        },
{
    let obj = match bpf.objects.remove(&fd) {
        None => {
            proof {
                assert(bpf.objects@ =~= old(bpf).objects@);
            }
            return Err(SysError::NotFound);
        },
        Some(o) => o,
    };
    let mut m = match obj {
        BpfObject::MapObject(m) => m,
        BpfObject::Program(p) => {
            bpf.objects.insert(fd, BpfObject::Program(p));
            proof {
                assert(bpf.objects@ =~= old(bpf).objects@);
                assert(bpf.objects@.dom() =~= old(bpf).objects@.dom());
            }
            return Err(SysError::NotFound);
        },
    };
    proof {
        assert(m.wf());
    }
    let r: Result<Vec<u8>, SysError> = if op == BPF_MAP_LOOKUP_ELEM {
        m.lookup(key)
    } else if op == BPF_MAP_UPDATE_ELEM {
        match m.update(key, value, flags) {
            Ok(_) => Ok(Vec::new()),
            Err(e) => Err(e),
        }
    } else if op == BPF_MAP_DELETE_ELEM {
        match m.delete(key) {
            Ok(_) => Ok(Vec::new()),
            Err(e) => Err(e),
        }
    } else if op == BPF_MAP_GET_NEXT_KEY {
        match m.next_key(key) {
            Ok(next) => {
                let mut out: Vec<u8> = Vec::new();
                out.push(#[verifier::truncate] ((next & 0xff) as u8));
                out.push(#[verifier::truncate] (((next >> 8) & 0xff) as u8));
                out.push(#[verifier::truncate] (((next >> 16) & 0xff) as u8));
                out.push(#[verifier::truncate] (((next >> 24) & 0xff) as u8));
                proof {
                    if next == 0 {
                        assert((0u32 & 0xff) as u8 == 0 && ((0u32 >> 8) & 0xff) as u8 == 0 && ((0u32
                            >> 16) & 0xff) as u8 == 0 && ((0u32 >> 24) & 0xff) as u8 == 0)
                            by (bit_vector);
                        assert(out@ =~= seq![0u8, 0u8, 0u8, 0u8]);
                    }
                }
                Ok(out)
            },
            Err(e) => Err(e),
        }
    } else {
        Err(SysError::InvalidArgument)
    };
    bpf.objects.insert(fd, BpfObject::MapObject(m));
    proof {
        let b0 = *old(bpf);
        let m0 = b0.objects@[fd]->MapObject_0;
        assert(bpf.objects@.dom() =~= b0.objects@.dom());
        if op != BPF_MAP_UPDATE_ELEM {
            assert(BpfObject::MapObject(m) == b0.objects@[fd]);
            assert(bpf.objects@ =~= b0.objects@);
        } else if key@.len() == 4 && value@.len() == m0.attr.value_size && spec_key_index(key@)
            < m0.attr.max_entries {
            assert(m.storage@ =~= spec_update_storage(m0, key@, value@));
        }
        assert forall|g: u32| #[trigger] bpf.objects@.dom().contains(g) && bpf
            .objects@[g] is MapObject implies bpf.objects@[g]->MapObject_0.wf() by {
            if g != fd {
                assert(b0.objects@.dom().contains(g));
            }
        }
        assert forall|a: int, k2: int|
            0 <= a < bpf.tracepoints@.len() && 0 <= k2 < bpf.tracepoints@[a].1@.len() implies {
            &&& bpf.objects@.dom().contains(#[trigger] bpf.tracepoints@[a].1@[k2])
            &&& bpf.objects@[bpf.tracepoints@[a].1@[k2]] is Program
        } by {
            assert(b0.objects@.dom().contains(b0.tracepoints@[a].1@[k2]));
            assert(bpf.tracepoints@[a].1@[k2] != fd);
        }
    }
    r
}

/// The helper-facing lookup on the map named by `fd`: the byte offset of
/// the keyed slot, with `NotFound` for an unknown handle or an index past
/// the end.
pub fn bpf_map_lookup_helper(bpf: &BpfObjects, fd: u32, key: &Vec<u8>) -> (r: SysResult)
    requires
        bpf.inv(),
    ensures
        !(bpf.objects@.dom().contains(fd) && bpf.objects@[fd] is MapObject) ==> r == Err::<
            u64,
            SysError,
        >(SysError::NotFound),
        bpf.objects@.dom().contains(fd) && bpf.objects@[fd] is MapObject ==> {
            let m = bpf.objects@[fd]->MapObject_0;
            &&& (key@.len() != 4 ==> r == Err::<u64, SysError>(SysError::InvalidArgument))
            &&& (key@.len() == 4 && spec_key_index(key@) >= m.attr.max_entries ==> r == Err::<
                u64,
                SysError,
            >(SysError::NotFound))
            &&& (key@.len() == 4 && spec_key_index(key@) < m.attr.max_entries ==> r == Ok::<
                u64,
                SysError,
            >((spec_key_index(key@) * m.attr.value_size) as u64))
        },
{
    match bpf.objects.get(&fd) {
        Some(BpfObject::MapObject(m)) => m.lookup_helper(key),
        _ => Err(SysError::NotFound),
    }
}

} // verus!
