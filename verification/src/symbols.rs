//! The loaded-module symbol table the attachment machinery resolves
//! against, modelled as an explicit value the kernel hands in.

use vstd::prelude::*;

verus! {

/// A symbol table: names with their addresses. For address-to-symbol
/// queries the kernel keeps it sorted by address.
pub struct SymbolTable {
    pub entries: Vec<(Vec<u8>, u64)>,
}

/// Byte-for-byte equality of two byte strings.
pub fn bytes_eq(a: &Vec<u8>, b: &Vec<u8>) -> (r: bool)
    ensures
        r == (a@ == b@),
{
    if a.len() != b.len() {
        proof {
            assert(a@.len() != b@.len());
        }
        return false;
    }
    let n = a.len();
    let mut i: usize = 0;
    while i < n
        invariant
            n == a@.len(),
            n == b@.len(),
            i <= n,
            forall|j: int| 0 <= j < i ==> a@[j] == b@[j],
        decreases n - i,
    {
        if a[i] != b[i] {
            return false;
        }
        i = i + 1;
    }
    proof {
        assert(a@ =~= b@);
    }
    true
}

impl SymbolTable {
    /// Whether the table is sorted by address, as `find_symbol` requires.
    pub open spec fn sorted(self) -> bool {
        forall|i: int, j: int|
            0 <= i < j < self.entries@.len() ==> #[trigger] self.entries@[i].1 <= #[trigger] self
                .entries@[j].1
    }

    /// An empty table.
    pub fn new() -> (r: SymbolTable)
        ensures
            r.entries@.len() == 0,
            r.sorted(),
    {
        SymbolTable { entries: Vec::new() }
    }
}

/// The address of the first entry at or after `i` whose name is `name`.
pub open spec fn spec_resolve_from(entries: Seq<(Vec<u8>, u64)>, name: Seq<u8>, i: int) -> Option<
    u64,
>
    decreases entries.len() - i,
{
    if i < 0 || i >= entries.len() {
        None
    } else if entries[i].0@ == name {
        Some(entries[i].1)
    } else {
        spec_resolve_from(entries, name, i + 1)
    }
}

/// What symbol resolution reports for `name`.
pub open spec fn spec_resolve(entries: Seq<(Vec<u8>, u64)>, name: Seq<u8>) -> Option<u64> {
    spec_resolve_from(entries, name, 0)
}

/// Resolve a symbol name to its address: the first entry whose name equals
/// `name`, or `None` when the table holds no such symbol.
pub fn resolve_symbol(table: &SymbolTable, name: &Vec<u8>) -> (r: Option<u64>)
    ensures
        r == spec_resolve(table.entries@, name@),
{
    let n = table.entries.len();
    let mut i: usize = 0;
    while i < n
        invariant
            n == table.entries@.len(),
            i <= n,
            spec_resolve(table.entries@, name@) == spec_resolve_from(table.entries@, name@, i as int),
        decreases n - i,
    {
        if bytes_eq(&table.entries[i].0, name) {
            return Some(table.entries[i].1);
        }
        proof {
            assert(spec_resolve_from(table.entries@, name@, i as int) == spec_resolve_from(
                table.entries@,
                name@,
                i + 1,
            ));
        }
        i = i + 1;
    }
    None
}

/// Find the symbol containing address `pc` in a table sorted by address:
/// the entry with the greatest address not above `pc`; among entries
/// sharing that address, one with the shortest name (every entry after the
/// reported one has a strictly longer name). Reports the entry's index and
/// the offset of `pc` into it, or `None` when every symbol starts above
/// `pc`.
pub fn find_symbol(table: &SymbolTable, pc: u64) -> (r: Option<(usize, u64)>)
    requires
        table.sorted(),
    ensures
        r is None ==> forall|i: int|
            0 <= i < table.entries@.len() ==> (#[trigger] table.entries@[i]).1 > pc,
        r is Some ==> {
            let (i, off) = r->Some_0;
            &&& 0 <= i < table.entries@.len()
            &&& table.entries@[i as int].1 <= pc
            &&& off == pc - table.entries@[i as int].1
            &&& (forall|j: int|
                0 <= j < table.entries@.len() && (#[trigger] table.entries@[j]).1 <= pc
                    ==> table.entries@[j].1 <= table.entries@[i as int].1)
            &&& (forall|j: int|
                0 <= j < table.entries@.len() && (#[trigger] table.entries@[j]).1
                    == table.entries@[i as int].1 ==> table.entries@[i as int].0@.len()
                    <= table.entries@[j].0@.len())
            &&& (forall|j: int|
                i < j < table.entries@.len() && (#[trigger] table.entries@[j]).1
                    == table.entries@[i as int].1 ==> table.entries@[i as int].0@.len()
                    < table.entries@[j].0@.len())
        },
{
    let n = table.entries.len();
    let mut l: usize = 0;
    let mut r: usize = n;
    while l < r
        invariant
            table.sorted(),
            n == table.entries@.len(),
            l <= r <= n,
            forall|j: int| 0 <= j < l ==> (#[trigger] table.entries@[j]).1 <= pc,
            forall|j: int| r <= j < n ==> (#[trigger] table.entries@[j]).1 > pc,
        decreases r - l,
    {
        let m = l + (r - l) / 2;
        if table.entries[m].1 <= pc {
            l = m + 1;
        } else {
            r = m;
        }
    }
    if r == 0 {
        return None;
    }
    let top = r - 1;
    let top_addr = table.entries[top].1;
    let mut best = top;
    let mut best_len = table.entries[top].0.len();
    let mut k = top;
    while k > 0 && table.entries[k - 1].1 == top_addr
        invariant
            table.sorted(),
            n == table.entries@.len(),
            k <= top < n,
            best <= top,
            top_addr == table.entries@[top as int].1,
            table.entries@[best as int].1 == top_addr,
            best_len == table.entries@[best as int].0@.len(),
            forall|j: int|
                k <= j <= top && (#[trigger] table.entries@[j]).1 == top_addr ==> best_len
                    <= table.entries@[j].0@.len(),
            forall|j: int|
                best < j <= top && (#[trigger] table.entries@[j]).1 == top_addr ==> best_len
                    < table.entries@[j].0@.len(),
        decreases k,
    {
        k = k - 1;
        let len_k = table.entries[k].0.len();
        if len_k < best_len {
            best = k;
            best_len = len_k;
        }
    }
    proof {
        assert forall|j: int|
            0 <= j < n && (#[trigger] table.entries@[j]).1 == top_addr implies best_len
            <= table.entries@[j].0@.len() by {
            if j < k {
                assert(table.entries@[j].1 <= table.entries@[k - 1].1);
            } else if j > top {
                assert(table.entries@[j].1 > pc);
            }
        }
        assert forall|j: int|
            best < j < n && (#[trigger] table.entries@[j]).1 == top_addr implies best_len
            < table.entries@[j].0@.len() by {
            if j > top {
                assert(table.entries@[j].1 > pc);
            }
        }
        assert forall|j: int|
            0 <= j < n && (#[trigger] table.entries@[j]).1 <= pc implies table.entries@[j].1
            <= top_addr by {
            if j > top {
                assert(table.entries@[j].1 > pc);
            } else if j < top {
                assert(table.entries@[j].1 <= table.entries@[top as int].1);
            }
        }
    }
    Some((best, pc - table.entries[best].1))
}

} // verus!
