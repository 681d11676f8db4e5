//! Name tables of access-control permissions and flags, and the bit sets
//! that they describe.
use vstd::prelude::*;
use crate::text::{chars_eq, chars_of, split_on, join_with};

verus! {

/// Which name table to use.
#[derive(Clone, Copy, Debug, PartialEq, Eq)]
pub enum Table {
    /// Permissions, in bit order.
    Permission,
    /// Entry flags in the order of the first entry format.
    LegacyFlag,
    /// Entry flags in the order of the current entry format.
    Flag,
}

/// Number of entries of a table.
pub open spec fn table_len(t: Table) -> nat {
    match t {
        Table::Permission => 16,
        _ => 6,
    }
}

/// The bit position that entry `k` stands for.
pub open spec fn entry_pos(t: Table, k: nat) -> nat {
    match t {
        Table::Permission => k,
        Table::LegacyFlag => if k == 0 { 0 } else if k == 1 { 2 } else if k == 2 { 3 } else if k == 3 { 4 } else if k == 4 { 5 } else { 1 },
        Table::Flag => if k == 0 { 0 } else if k == 1 { 2 } else if k == 2 { 3 } else if k == 3 { 5 } else if k == 4 { 4 } else { 1 },
    }
}

/// The name under which entry `k` is written.
pub open spec fn entry_primary(t: Table, k: nat) -> Seq<char> {
    match t {
        Table::Permission => if k == 0 { "r"@ } else if k == 1 { "w"@ } else if k == 2 { "x"@ }
            else if k == 3 { "delete"@ } else if k == 4 { "append"@ } else if k == 5 { "delete_child"@ }
            else if k == 6 { "readattr"@ } else if k == 7 { "writeattr"@ } else if k == 8 { "readextattr"@ }
            else if k == 9 { "writeextattr"@ } else if k == 10 { "readsecurity"@ } else if k == 11 { "writesecurity"@ }
            else if k == 12 { "chown"@ } else if k == 13 { "sync"@ } else if k == 14 { "read_data"@ } else { "write_data"@ },
        Table::LegacyFlag => if k == 0 { "d"@ } else if k == 1 { "file_inherit"@ } else if k == 2 { "directory_inherit"@ }
            else if k == 3 { "limit_inherit"@ } else if k == 4 { "only_inherit"@ } else { "inherited"@ },
        Table::Flag => if k == 0 { "d"@ } else if k == 1 { "file_inherit"@ } else if k == 2 { "directory_inherit"@ }
            else if k == 3 { "only_inherit"@ } else if k == 4 { "limit_inherit"@ } else { "inherited"@ },
    }
}

/// The second name that entry `k` is read under, where it has one.
pub open spec fn entry_alt(t: Table, k: nat) -> Option<Seq<char>> {
    match t {
        Table::Permission => if k == 0 { Some("read"@) } else if k == 1 { Some("write"@) }
            else if k == 2 { Some("execute"@) } else { None },
        _ => if k == 0 { Some("default"@) } else { None },
    }
}

/// Whether `w` names entry `k`.
pub open spec fn names_entry(t: Table, k: nat, w: Seq<char>) -> bool {
    w == entry_primary(t, k) || entry_alt(t, k) == Some(w)
}

/// The single-bit mask of entry `k`.
pub open spec fn entry_mask(t: Table, k: nat) -> u16 {
    1u16 << (entry_pos(t, k) as u16)
}

/// Whether a table name is well-formed: non-empty, without `:` and `,`.
pub open spec fn plain_word(w: Seq<char>) -> bool {
    w.len() > 0 && !w.contains(':') && !w.contains(',')
}

/// The names of a table are plain words, and no name of one entry names
/// another.
pub proof fn lemma_table_names(t: Table)
    ensures
        forall|k: nat| k < table_len(t) ==> #[trigger] plain_word(entry_primary(t, k)),
        forall|j: nat, k: nat| j < table_len(t) && k < table_len(t) && j != k
            ==> !#[trigger] names_entry(t, k, entry_primary(t, j)),
{
    reveal_strlit("r");
    reveal_strlit("w");
    reveal_strlit("x");
    reveal_strlit("read");
    reveal_strlit("write");
    reveal_strlit("execute");
    reveal_strlit("delete");
    reveal_strlit("append");
    reveal_strlit("delete_child");
    reveal_strlit("readattr");
    reveal_strlit("writeattr");
    reveal_strlit("readextattr");
    reveal_strlit("writeextattr");
    reveal_strlit("readsecurity");
    reveal_strlit("writesecurity");
    reveal_strlit("chown");
    reveal_strlit("sync");
    reveal_strlit("read_data");
    reveal_strlit("write_data");
    reveal_strlit("d");
    reveal_strlit("default");
    reveal_strlit("file_inherit");
    reveal_strlit("directory_inherit");
    reveal_strlit("limit_inherit");
    reveal_strlit("only_inherit");
    reveal_strlit("inherited");
    assert forall|j: nat, k: nat| j < table_len(t) && k < table_len(t) && j != k
        implies !#[trigger] names_entry(t, k, entry_primary(t, j)) by {
        let a = entry_primary(t, j);
        let b = entry_primary(t, k);
        assert(a.len() != b.len() || a[0] != b[0]);
        if let Some(c) = entry_alt(t, k) {
            assert(a.len() != c.len() || a[0] != c[0]);
        }
    }
}

/// The bit that each name is written for, and the name that each bit is
/// written as. Permissions: `r` 0x1, `w` 0x2,
/// `x` 0x4, `delete` 0x8, `append` 0x10, `delete_child` 0x20, `readattr`
/// 0x40, `writeattr` 0x80, `readextattr` 0x100, `writeextattr` 0x200,
/// `readsecurity` 0x400, `writesecurity` 0x800, `chown` 0x1000, `sync`
/// 0x2000, `read_data` 0x4000, `write_data` 0x8000. Flags, in both flag
/// tables alike: `d` 0x1, `inherited` 0x2, `file_inherit` 0x4,
/// `directory_inherit` 0x8, `limit_inherit` 0x10, `only_inherit` 0x20.
pub proof fn table_name_bits(t: Table, k: nat)
    requires
        k < table_len(t),
    ensures
        t is Permission ==> {
            let w = entry_primary(t, k);
            let m = entry_mask(t, k);
            &&& w == "r"@ <==> m == 0x1
            &&& w == "w"@ <==> m == 0x2
            &&& w == "x"@ <==> m == 0x4
            &&& w == "delete"@ <==> m == 0x8
            &&& w == "append"@ <==> m == 0x10
            &&& w == "delete_child"@ <==> m == 0x20
            &&& w == "readattr"@ <==> m == 0x40
            &&& w == "writeattr"@ <==> m == 0x80
            &&& w == "readextattr"@ <==> m == 0x100
            &&& w == "writeextattr"@ <==> m == 0x200
            &&& w == "readsecurity"@ <==> m == 0x400
            &&& w == "writesecurity"@ <==> m == 0x800
            &&& w == "chown"@ <==> m == 0x1000
            &&& w == "sync"@ <==> m == 0x2000
            &&& w == "read_data"@ <==> m == 0x4000
            &&& w == "write_data"@ <==> m == 0x8000
        },
        !(t is Permission) ==> {
            let w = entry_primary(t, k);
            let m = entry_mask(t, k);
            &&& w == "d"@ <==> m == 0x1
            &&& w == "inherited"@ <==> m == 0x2
            &&& w == "file_inherit"@ <==> m == 0x4
            &&& w == "directory_inherit"@ <==> m == 0x8
            &&& w == "limit_inherit"@ <==> m == 0x10
            &&& w == "only_inherit"@ <==> m == 0x20
        },
{
    lemma_table_names(t);
    assert(1u16 << 0u16 == 0x1 && 1u16 << 1u16 == 0x2 && 1u16 << 2u16 == 0x4 && 1u16 << 3u16 == 0x8
        && 1u16 << 4u16 == 0x10 && 1u16 << 5u16 == 0x20 && 1u16 << 6u16 == 0x40 && 1u16 << 7u16 == 0x80
        && 1u16 << 8u16 == 0x100 && 1u16 << 9u16 == 0x200 && 1u16 << 10u16 == 0x400 && 1u16 << 11u16
        == 0x800 && 1u16 << 12u16 == 0x1000 && 1u16 << 13u16 == 0x2000 && 1u16 << 14u16 == 0x4000
        && 1u16 << 15u16 == 0x8000) by (bit_vector);
    let w = entry_primary(t, k);
    assert forall|j: nat| j < table_len(t) && #[trigger] entry_primary(t, j) == w implies j == k by {
        if j != k {
            assert(names_entry(t, k, entry_primary(t, j)));
        }
    }
    if t is Permission {
        assert(entry_primary(t, 0) == "r"@);
        assert(entry_primary(t, 1) == "w"@);
        assert(entry_primary(t, 2) == "x"@);
        assert(entry_primary(t, 3) == "delete"@);
        assert(entry_primary(t, 4) == "append"@);
        assert(entry_primary(t, 5) == "delete_child"@);
        assert(entry_primary(t, 6) == "readattr"@);
        assert(entry_primary(t, 7) == "writeattr"@);
        assert(entry_primary(t, 8) == "readextattr"@);
        assert(entry_primary(t, 9) == "writeextattr"@);
        assert(entry_primary(t, 10) == "readsecurity"@);
        assert(entry_primary(t, 11) == "writesecurity"@);
        assert(entry_primary(t, 12) == "chown"@);
        assert(entry_primary(t, 13) == "sync"@);
        assert(entry_primary(t, 14) == "read_data"@);
        assert(entry_primary(t, 15) == "write_data"@);
    } else {
        assert(entry_primary(t, 0) == "d"@);
        assert(entry_primary(t, 5) == "inherited"@);
        assert(entry_primary(t, 1) == "file_inherit"@);
        assert(entry_primary(t, 2) == "directory_inherit"@);
        if t is Flag {
            assert(entry_primary(t, 3) == "only_inherit"@);
            assert(entry_primary(t, 4) == "limit_inherit"@);
        } else {
            assert(entry_primary(t, 3) == "limit_inherit"@);
            assert(entry_primary(t, 4) == "only_inherit"@);
        }
    }
}

/// The union of the masks of entries `0..n`.
pub open spec fn mask_upto(t: Table, n: nat) -> u16
    decreases n,
{
    if n == 0 {
        0
    } else {
        mask_upto(t, (n - 1) as nat) | entry_mask(t, (n - 1) as nat)
    }
}

/// All bits that a table describes.
pub open spec fn table_mask(t: Table) -> u16 {
    mask_upto(t, table_len(t))
}

/// The names of those entries `0..n` whose bit is set in `bits`, in table
/// order.
pub open spec fn names_upto(t: Table, bits: u16, n: nat) -> Seq<Seq<char>>
    decreases n,
{
    if n == 0 {
        Seq::empty()
    } else {
        names_upto(t, bits, (n - 1) as nat) + if bits & entry_mask(t, (n - 1) as nat) != 0 {
            seq![entry_primary(t, (n - 1) as nat)]
        } else {
            Seq::empty()
        }
    }
}

/// The names of all entries whose bit is set, in table order.
pub open spec fn names_of(t: Table, bits: u16) -> Seq<Seq<char>> {
    names_upto(t, bits, table_len(t))
}

/// The names of the set bits, separated by commas.
pub open spec fn names_text(t: Table, bits: u16) -> Seq<char> {
    join_with(names_of(t, bits), ',')
}

/// Whether some item names entry `k`.
pub open spec fn any_names(items: Seq<Seq<char>>, t: Table, k: nat) -> bool {
    exists|i: int| 0 <= i < items.len() && names_entry(t, k, #[trigger] items[i])
}

/// The bits of the entries `0..n` that some item names.
pub open spec fn member_bits_upto(items: Seq<Seq<char>>, t: Table, n: nat) -> u16
    decreases n,
{
    if n == 0 {
        0
    } else {
        member_bits_upto(items, t, (n - 1) as nat) | if any_names(items, t, (n - 1) as nat) {
            entry_mask(t, (n - 1) as nat)
        } else {
            0
        }
    }
}

/// Reading a comma-separated list by membership: each entry whose name
/// occurs anywhere in the list.
pub open spec fn member_bits(items: Seq<Seq<char>>, t: Table) -> u16 {
    member_bits_upto(items, t, table_len(t))
}

/// The first position at or after `p` whose item names entry `k`.
pub open spec fn first_match_from(items: Seq<Seq<char>>, t: Table, k: nat, p: int) -> Option<int>
    decreases items.len() - p,
{
    if p < 0 || p >= items.len() {
        None
    } else if names_entry(t, k, items[p]) {
        Some(p)
    } else {
        first_match_from(items, t, k, p + 1)
    }
}

/// Reading a list with one iterator that each entry in table order
/// searches onwards from where the previous search stopped: a found entry
/// resumes after its item, a missing one uses up the rest of the list.
/// Yields the bits found and the position reached.
pub open spec fn consumed_upto(items: Seq<Seq<char>>, t: Table, n: nat) -> (u16, int)
    decreases n,
{
    if n == 0 {
        (0, 0)
    } else {
        let (b, p) = consumed_upto(items, t, (n - 1) as nat);
        match first_match_from(items, t, (n - 1) as nat, p) {
            Some(i) => (b | entry_mask(t, (n - 1) as nat), i + 1),
            None => (b, items.len() as int),
        }
    }
}

/// The bits that the single-iterator reading finds.
pub open spec fn consumed_bits(items: Seq<Seq<char>>, t: Table) -> u16 {
    consumed_upto(items, t, table_len(t)).0
}

/// The bit position of entry `k`.
pub fn entry_pos_exec(t: Table, k: usize) -> (r: u16)
    requires
        k < table_len(t),
    ensures
        r == entry_pos(t, k as nat),
        r < 16,
{
    match t {
        Table::Permission => k as u16,
        Table::LegacyFlag => if k == 0 { 0 } else if k == 1 { 2 } else if k == 2 { 3 } else if k == 3 { 4 } else if k == 4 { 5 } else { 1 },
        Table::Flag => if k == 0 { 0 } else if k == 1 { 2 } else if k == 2 { 3 } else if k == 3 { 5 } else if k == 4 { 4 } else { 1 },
    }
}

/// The number of entries of a table.
pub fn table_len_exec(t: Table) -> (r: usize)
    ensures
        r == table_len(t),
{
    match t {
        Table::Permission => 16,
        _ => 6,
    }
}

/// The name under which entry `k` is written.
pub fn entry_primary_exec(t: Table, k: usize) -> (r: &'static str)
    requires
        k < table_len(t),
    ensures
        r@ == entry_primary(t, k as nat),
{
    match t {
        Table::Permission => if k == 0 { "r" } else if k == 1 { "w" } else if k == 2 { "x" }
            else if k == 3 { "delete" } else if k == 4 { "append" } else if k == 5 { "delete_child" }
            else if k == 6 { "readattr" } else if k == 7 { "writeattr" } else if k == 8 { "readextattr" }
            else if k == 9 { "writeextattr" } else if k == 10 { "readsecurity" } else if k == 11 { "writesecurity" }
            else if k == 12 { "chown" } else if k == 13 { "sync" } else if k == 14 { "read_data" } else { "write_data" },
        Table::LegacyFlag => if k == 0 { "d" } else if k == 1 { "file_inherit" } else if k == 2 { "directory_inherit" }
            else if k == 3 { "limit_inherit" } else if k == 4 { "only_inherit" } else { "inherited" },
        Table::Flag => if k == 0 { "d" } else if k == 1 { "file_inherit" } else if k == 2 { "directory_inherit" }
            else if k == 3 { "only_inherit" } else if k == 4 { "limit_inherit" } else { "inherited" },
    }
}

/// Whether `w` names entry `k`.
pub fn names_entry_exec(t: Table, k: usize, w: &[char]) -> (r: bool)
    requires
        k < table_len(t),
    ensures
        r == names_entry(t, k as nat, w@),
{
    let p = chars_of(entry_primary_exec(t, k));
    if chars_eq(w, p.as_slice()) {
        return true;
    }
    let alt: Option<&'static str> = match t {
        Table::Permission => if k == 0 { Some("read") } else if k == 1 { Some("write") }
            else if k == 2 { Some("execute") } else { None },
        _ => if k == 0 { Some("default") } else { None },
    };
    match alt {
        Some(a) => {
            let av = chars_of(a);
            chars_eq(w, av.as_slice())
        },
        None => false,
    }
}

/// The single-bit masks are non-zero and pairwise disjoint.
pub proof fn lemma_masks(t: Table, j: nat, k: nat)
    requires
        j < table_len(t),
        k < table_len(t),
    ensures
        entry_mask(t, k) != 0,
        j != k ==> entry_mask(t, j) & entry_mask(t, k) == 0,
        forall|b: u16| (b & #[trigger] entry_mask(t, k) != 0) ==> b & entry_mask(t, k) == entry_mask(t, k),
{
    let p = entry_pos(t, j) as u16;
    let q = entry_pos(t, k) as u16;
    assert(entry_pos(t, j) != entry_pos(t, k) || j == k);
    assert(p < 16 && q < 16);
    assert(q < 16 ==> (1u16 << q) != 0) by (bit_vector);
    assert(p < 16 && q < 16 && p != q ==> (1u16 << p) & (1u16 << q) == 0) by (bit_vector);
    assert forall|b: u16| (b & (1u16 << q) != 0) implies b & (1u16 << q) == (1u16 << q) by {
        assert(q < 16 && (b & (1u16 << q) != 0) ==> b & (1u16 << q) == (1u16 << q)) by (bit_vector);
    }
}

/// The bits of all entries of each table.
pub proof fn lemma_table_mask(t: Table)
    ensures
        table_mask(t) == match t {
            Table::Permission => 0xffffu16,
            _ => 0x3fu16,
        },
{
    reveal_with_fuel(mask_upto, 17);
    match t {
        Table::Permission => {
            assert(((((((((((((((((0u16 | (1u16 << 0u16)) | (1u16 << 1u16)) | (1u16 << 2u16)) | (1u16 << 3u16))
                | (1u16 << 4u16)) | (1u16 << 5u16)) | (1u16 << 6u16)) | (1u16 << 7u16)) | (1u16 << 8u16))
                | (1u16 << 9u16)) | (1u16 << 10u16)) | (1u16 << 11u16)) | (1u16 << 12u16)) | (1u16 << 13u16))
                | (1u16 << 14u16)) | (1u16 << 15u16)) == 0xffffu16) by (bit_vector);
        },
        Table::LegacyFlag => {
            assert((((((0u16 | (1u16 << 0u16)) | (1u16 << 2u16)) | (1u16 << 3u16)) | (1u16 << 4u16))
                | (1u16 << 5u16)) | (1u16 << 1u16) == 0x3fu16) by (bit_vector);
        },
        Table::Flag => {
            assert((((((0u16 | (1u16 << 0u16)) | (1u16 << 2u16)) | (1u16 << 3u16)) | (1u16 << 5u16))
                | (1u16 << 4u16)) | (1u16 << 1u16) == 0x3fu16) by (bit_vector);
        },
    }
}


/// The names of the set bits, in table order.
pub fn names_list(t: Table, bits: u16) -> (r: Vec<Vec<char>>)
    ensures
        r.deep_view() == names_of(t, bits),
{
    let n = table_len_exec(t);
    let mut out: Vec<Vec<char>> = Vec::new();
    let mut k: usize = 0;
    while k < n
        invariant
            n == table_len(t),
            k <= n,
            out.deep_view() == names_upto(t, bits, k as nat),
        decreases n - k,
    {
        let m: u16 = 1u16 << entry_pos_exec(t, k);
        let ghost before = out.deep_view();
        if bits & m != 0 {
            let w = chars_of(entry_primary_exec(t, k));
            assert(w.deep_view() =~= w@);
            out.push(w);
            assert(out.deep_view() =~= before.push(entry_primary(t, k as nat)));
        }
        k = k + 1;
        assert(out.deep_view() =~= names_upto(t, bits, k as nat));
    }
    out
}

/// Reads a list by membership: each entry that some item names.
pub fn parse_member(t: Table, items: &Vec<Vec<char>>) -> (r: u16)
    ensures
        r == member_bits(items.deep_view(), t),
{
    let n = table_len_exec(t);
    let mut bits: u16 = 0;
    let mut k: usize = 0;
    while k < n
        invariant
            n == table_len(t),
            k <= n,
            bits == member_bits_upto(items.deep_view(), t, k as nat),
        decreases n - k,
    {
        let mut found = false;
        let mut i: usize = 0;
        while i < items.len()
            invariant
                k < n == table_len(t),
                i <= items.len(),
                found == exists|j: int| 0 <= j < i && names_entry(t, k as nat, #[trigger] items.deep_view()[j]),
            decreases items.len() - i,
        {
            assert(items.deep_view()[i as int] == items[i as int]@);
            if names_entry_exec(t, k, items[i].as_slice()) {
                found = true;
            }
            i = i + 1;
        }
        assert(found == any_names(items.deep_view(), t, k as nat));
        let m: u16 = 1u16 << entry_pos_exec(t, k);
        assert(m == entry_mask(t, k as nat));
        let ghost old_bits = bits;
        if found {
            bits = bits | m;
        }
        assert(old_bits | 0u16 == old_bits) by (bit_vector);
        k = k + 1;
    }
    bits
}

/// Reads a list with one iterator, each entry in table order searching on
/// from where the previous search stopped.
pub fn parse_consuming(t: Table, items: &Vec<Vec<char>>) -> (r: u16)
    ensures
        r == consumed_bits(items.deep_view(), t),
{
    let n = table_len_exec(t);
    let mut bits: u16 = 0;
    let mut pos: usize = 0;
    let mut k: usize = 0;
    while k < n
        invariant
            n == table_len(t),
            k <= n,
            pos <= items.len(),
            (bits, pos as int) == consumed_upto(items.deep_view(), t, k as nat),
        decreases n - k,
    {
        let ghost start = pos as int;
        let mut found = false;
        while pos < items.len()
            invariant_except_break
                k < n == table_len(t),
                start <= pos <= items.len(),
                !found,
                first_match_from(items.deep_view(), t, k as nat, start)
                    == first_match_from(items.deep_view(), t, k as nat, pos as int),
            ensures
                start <= pos <= items.len(),
                found ==> first_match_from(items.deep_view(), t, k as nat, start) == Some(pos - 1),
                !found ==> first_match_from(items.deep_view(), t, k as nat, start) is None
                    && pos == items.len(),
            decreases items.len() - pos,
        {
            assert(items.deep_view()[pos as int] == items[pos as int]@);
            let hit = names_entry_exec(t, k, items[pos].as_slice());
            pos = pos + 1;
            if hit {
                found = true;
                break;
            }
        }
        let m: u16 = 1u16 << entry_pos_exec(t, k);
        assert(m == entry_mask(t, k as nat));
        if found {
            bits = bits | m;
        }
        k = k + 1;
    }
    bits
}


/// The written names are exactly the names of the set bits.
pub proof fn lemma_names_upto(t: Table, bits: u16, n: nat)
    requires
        n <= table_len(t),
    ensures
        forall|i: int| 0 <= i < names_upto(t, bits, n).len() ==> exists|j: nat| #![trigger entry_primary(t, j)]
            j < n && bits & entry_mask(t, j) != 0 && #[trigger] names_upto(t, bits, n)[i] == entry_primary(t, j),
        forall|j: nat| j < n && bits & entry_mask(t, j) != 0 ==> names_upto(t, bits, n).contains(
            #[trigger] entry_primary(t, j),
        ),
    decreases n,
{
    if n > 0 {
        let m = (n - 1) as nat;
        lemma_names_upto(t, bits, m);
        let prev = names_upto(t, bits, m);
        let cur = names_upto(t, bits, n);
        assert forall|i: int| 0 <= i < cur.len() implies exists|j: nat| #![trigger entry_primary(t, j)]
            j < n && bits & entry_mask(t, j) != 0 && #[trigger] cur[i] == entry_primary(t, j) by {
            if i < prev.len() {
                assert(cur[i] == prev[i]);
            } else {
                assert(cur[i] == entry_primary(t, m));
            }
        }
        assert forall|j: nat| j < n && bits & entry_mask(t, j) != 0 implies cur.contains(
            #[trigger] entry_primary(t, j)) by {
            if j < m {
                let i = choose|i: int| 0 <= i < prev.len() && prev[i] == entry_primary(t, j);
                assert(cur[i] == prev[i]);
            } else {
                assert(cur[prev.len() as int] == entry_primary(t, m));
            }
        }
    }
}

/// An entry is named in the written list exactly when its bit is set.
pub proof fn lemma_names_any(t: Table, bits: u16, k: nat)
    requires
        k < table_len(t),
    ensures
        any_names(names_of(t, bits), t, k) <==> bits & entry_mask(t, k) != 0,
{
    lemma_names_upto(t, bits, table_len(t));
    lemma_table_names(t);
    let items = names_of(t, bits);
    if bits & entry_mask(t, k) != 0 {
        assert(items.contains(entry_primary(t, k)));
        let i = choose|i: int| 0 <= i < items.len() && items[i] == entry_primary(t, k);
        assert(names_entry(t, k, items[i]));
    }
    if any_names(items, t, k) {
        let i = choose|i: int| 0 <= i < items.len() && names_entry(t, k, #[trigger] items[i]);
        let j = choose|j: nat| #![trigger entry_primary(t, j)]
            j < table_len(t) && bits & entry_mask(t, j) != 0 && items[i] == entry_primary(t, j);
        if j != k {
            assert(!names_entry(t, k, entry_primary(t, j)));
        }
    }
}

/// Reading by membership gives back the bits, where the items name exactly
/// the entries whose bits are set.
pub proof fn lemma_member_bits(items: Seq<Seq<char>>, t: Table, bits: u16, n: nat)
    requires
        n <= table_len(t),
        forall|k: nat| k < table_len(t) ==> (#[trigger] any_names(items, t, k) <==> bits & entry_mask(t, k) != 0),
    ensures
        member_bits_upto(items, t, n) == bits & mask_upto(t, n),
    decreases n,
{
    if n == 0 {
        assert(bits & 0u16 == 0u16) by (bit_vector);
    } else {
        let k = (n - 1) as nat;
        lemma_member_bits(items, t, bits, k);
        lemma_masks(t, k, k);
        let mm = mask_upto(t, k);
        let m = entry_mask(t, k);
        assert(any_names(items, t, k) <==> bits & m != 0);
        assert((bits & mm) | (bits & m) == bits & (mm | m)) by (bit_vector);
        assert((bits & mm) | 0u16 == bits & mm) by (bit_vector);
    }
}

/// The names of a table's bits, written with commas and split again,
/// name exactly the entries whose bits are set.
pub proof fn lemma_written_items(t: Table, bits: u16)
    ensures
        forall|k: nat| k < table_len(t) ==> (#[trigger] any_names(split_on(names_text(t, bits), ','), t, k)
            <==> bits & entry_mask(t, k) != 0),
{
    lemma_table_names(t);
    lemma_names_upto(t, bits, table_len(t));
    let names = names_of(t, bits);
    let items = split_on(names_text(t, bits), ',');
    assert forall|i: int| 0 <= i < names.len() implies !(#[trigger] names[i]).contains(',') by {
        let j = choose|j: nat| #![trigger entry_primary(t, j)]
            j < table_len(t) && bits & entry_mask(t, j) != 0 && names[i] == entry_primary(t, j);
        assert(plain_word(entry_primary(t, j)));
    }
    assert forall|k: nat| k < table_len(t) implies (#[trigger] any_names(items, t, k)
        <==> bits & entry_mask(t, k) != 0) by {
        lemma_names_any(t, bits, k);
        if names.len() >= 1 {
            crate::text::lemma_split_join(names, ',');
        } else {
            assert(names_text(t, bits) =~= Seq::<char>::empty());
            assert(items =~= seq![Seq::<char>::empty()]);
            assert(plain_word(entry_primary(t, k)));
            if any_names(items, t, k) {
                assert(names_entry(t, k, items[0]));
                if let Some(a) = entry_alt(t, k) {
                    reveal_strlit("read");
                    reveal_strlit("write");
                    reveal_strlit("execute");
                    reveal_strlit("default");
                    assert(a.len() > 0);
                }
            }
            if bits & entry_mask(t, k) != 0 {
                assert(names.contains(entry_primary(t, k)));
            }
        }
    }
}

/// Writing a set of valid bits by name and reading it back by membership
/// gives the same bits.
pub proof fn lemma_member_roundtrip(t: Table, bits: u16)
    requires
        bits & table_mask(t) == bits,
    ensures
        member_bits(split_on(names_text(t, bits), ','), t) == bits,
{
    lemma_written_items(t, bits);
    lemma_member_bits(split_on(names_text(t, bits), ','), t, bits, table_len(t));
}


/// The first `m` entries' masks hold the bit of entry `k` exactly when
/// `k` is among them.
pub proof fn lemma_mask_upto_bit(t: Table, m: nat, k: nat)
    requires
        m <= table_len(t),
        k < table_len(t),
    ensures
        (mask_upto(t, m) & entry_mask(t, k) != 0) <==> k < m,
    decreases m,
{
    lemma_masks(t, k, k);
    if m == 0 {
        let mk = entry_mask(t, k);
        assert(0u16 & mk == 0u16) by (bit_vector);
    } else {
        let j = (m - 1) as nat;
        lemma_mask_upto_bit(t, j, k);
        lemma_masks(t, j, k);
        let a = mask_upto(t, j);
        let mj = entry_mask(t, j);
        let mk = entry_mask(t, k);
        assert((a | mj) & mk == (a & mk) | (mj & mk)) by (bit_vector);
        assert(mk & mk == mk) by (bit_vector);
        assert(forall|x: u16| x | 0u16 == x) by (bit_vector);
        assert(forall|x: u16| 0u16 | x == x) by (bit_vector);
    }
}

/// The names of the first `m` entries' bits are the first names, in order.
pub proof fn lemma_prefix_names(t: Table, m: nat, n: nat)
    requires
        m <= table_len(t),
        n <= table_len(t),
    ensures
        names_upto(t, mask_upto(t, m), n) =~= Seq::new(
            if n <= m { n } else { m },
            |j: int| entry_primary(t, j as nat),
        ),
    decreases n,
{
    if n > 0 {
        let k = (n - 1) as nat;
        lemma_prefix_names(t, m, k);
        lemma_mask_upto_bit(t, m, k);
    }
}

/// Reading the names of the first `m` entries with one iterator gives back
/// the first `m` entries' bits.
pub proof fn lemma_consumed_prefix(t: Table, m: nat, n: nat)
    requires
        m <= table_len(t),
        n <= table_len(t),
    ensures
        consumed_upto(split_on(names_text(t, mask_upto(t, m)), ','), t, n) == if n <= m {
            (mask_upto(t, n), n as int)
        } else {
            (mask_upto(t, m), split_on(names_text(t, mask_upto(t, m)), ',').len() as int)
        },
    decreases n,
{
    let bits = mask_upto(t, m);
    let items = split_on(names_text(t, bits), ',');
    lemma_prefix_names(t, m, table_len(t));
    lemma_table_names(t);
    let names = names_of(t, bits);
    if m >= 1 {
        assert forall|i: int| 0 <= i < names.len() implies !(#[trigger] names[i]).contains(',') by {
            assert(plain_word(entry_primary(t, i as nat)));
        }
        crate::text::lemma_split_join(names, ',');
        assert(items == names);
    } else {
        assert(names =~= Seq::<Seq<char>>::empty());
        assert(items =~= seq![Seq::<char>::empty()]);
    }
    if n > 0 {
        let k = (n - 1) as nat;
        lemma_consumed_prefix(t, m, k);
        if k < m {
            assert(items[k as int] == entry_primary(t, k));
            assert(names_entry(t, k, items[k as int]));
        } else if m >= 1 {
            assert(first_match_from(items, t, k, items.len() as int) is None);
        } else {
            if k == 0 {
                assert(plain_word(entry_primary(t, k)));
                reveal_strlit("read");
                reveal_strlit("default");
                assert(!names_entry(t, k, items[0]));
                assert(first_match_from(items, t, k, 1) is None);
            } else {
                assert(first_match_from(items, t, k, items.len() as int) is None);
            }
        }
    }
}

/// Writing the first `m` entries by name and reading them back with one
/// iterator gives the same bits.
pub proof fn lemma_consumed_roundtrip(t: Table, m: nat)
    requires
        m <= table_len(t),
    ensures
        consumed_bits(split_on(names_text(t, mask_upto(t, m)), ','), t) == mask_upto(t, m),
{
    lemma_consumed_prefix(t, m, table_len(t));
}

/// The written list of a table's names holds no colon.
pub proof fn lemma_names_text_no_colon(t: Table, bits: u16)
    ensures
        !names_text(t, bits).contains(':'),
{
    lemma_names_upto(t, bits, table_len(t));
    lemma_table_names(t);
    let names = names_of(t, bits);
    assert forall|i: int| 0 <= i < names.len() implies !(#[trigger] names[i]).contains(':') by {
        let j = choose|j: nat| #![trigger entry_primary(t, j)]
            j < table_len(t) && bits & entry_mask(t, j) != 0 && names[i] == entry_primary(t, j);
        assert(plain_word(entry_primary(t, j)));
    }
    crate::text::lemma_join_excludes(names, ',', ':');
}

/// The bits of the first entries of a flag table fit in six bits.
pub proof fn lemma_mask_upto_flags(t: Table, m: nat)
    requires
        t != Table::Permission,
        m <= table_len(t),
    ensures
        mask_upto(t, m) < 64,
    decreases m,
{
    if m > 0 {
        let k = (m - 1) as nat;
        lemma_mask_upto_flags(t, k);
        let x = mask_upto(t, k);
        let p = entry_pos(t, k) as u16;
        assert(p < 6);
        assert(x < 64 && p < 6 ==> (x | (1u16 << p)) < 64) by (bit_vector);
    }
}

} // verus!
