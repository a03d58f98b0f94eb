//! `pg_filenode.map`: the relation mapper file that gives the on-disk
//! filenode of mapped catalogs (whose `pg_class.relfilenode` is 0).

use vstd::prelude::*;

use crate::codec::le::{le32, read_u32};
use crate::messages::{relmap_count_message, relmap_count_text, relmap_magic_message, relmap_magic_text};

verus! {

/// The magic number a relation mapper file starts with.
pub const RELMAPPER_MAGIC: u32 = 0x00592717;

/// Size of a relation mapper file: always 512 bytes, however many entries
/// are used. After the 8-byte header come the mappings; the file ends with
/// a 4-byte CRC.
pub const RELMAPPER_FILESIZE: usize = 512;

/// The most mappings a relation mapper file holds: 63 (PostgreSQL 17 and
/// later; older releases hold at most 62).
pub const RELMAPPER_MAX_MAPPINGS: u32 = 63;

/// A single OID → filenode mapping from `pg_filenode.map`.
#[derive(Debug, Clone, Copy, PartialEq, Eq, Structural)]
pub struct RelMapping {
    /// Relation OID (e.g. pg_class = 1259).
    pub mapoid: u32,
    /// Filenode number on disk.
    pub mapfilenode: u32,
}

/// Parsed contents of a `pg_filenode.map` file.
#[derive(Debug)]
pub struct RelMapFile {
    pub num_mappings: u32,
    pub mappings: Vec<RelMapping>,
    pub crc: u32,
}

/// The `i`-th mapping stored in `buf`: the OID and filenode at
/// `8 + 8 * i`, little-endian.
pub open spec fn relmap_entry(buf: Seq<u8>, i: int) -> RelMapping {
    RelMapping { mapoid: le32(buf, 8 + 8 * i) as u32, mapfilenode: le32(buf, 12 + 8 * i) as u32 }
}

/// The first `n` mappings stored in `buf`, in file order.
pub open spec fn relmap_entries(buf: Seq<u8>, n: int) -> Seq<RelMapping> {
    Seq::new(n as nat, |i: int| relmap_entry(buf, i))
}

/// Position `x` comes before position `y` of `s` in `mapoid` order, ties
/// broken by position.
pub open spec fn mapoid_before(s: Seq<RelMapping>, x: int, y: int) -> bool {
    s[x].mapoid < s[y].mapoid || (s[x].mapoid == s[y].mapoid && x < y)
}

/// `perm` lists the positions of `s` in `mapoid` order, ties in their
/// input order: the permutation a stable sort by `mapoid` applies.
pub open spec fn is_mapoid_order(s: Seq<RelMapping>, perm: Seq<int>) -> bool {
    &&& perm.len() == s.len()
    &&& forall|k: int| 0 <= k < perm.len() ==> 0 <= #[trigger] perm[k] < s.len()
    &&& forall|k: int, l: int| 0 <= k < l < perm.len() ==> mapoid_before(s, #[trigger] perm[k], #[trigger] perm[l])
}

/// The buffers `parse_relmap` reads without indexing past their end: the
/// magic number is there, and for a file with the right magic the count is
/// there, and for a count within bounds the whole 512-byte file is there.
pub open spec fn relmap_parse_ok(buf: Seq<u8>) -> bool {
    &&& buf.len() >= 4
    &&& le32(buf, 0) == RELMAPPER_MAGIC ==> {
        &&& buf.len() >= 8
        &&& le32(buf, 4) <= RELMAPPER_MAX_MAPPINGS ==> buf.len() >= RELMAPPER_FILESIZE
    }
}

/// Parse a `pg_filenode.map` file.
///
/// A wrong magic number, or more mappings than the file can hold, is an
/// error. Otherwise the mappings come back sorted by `mapoid` (a stable
/// sort), and `crc` holds the last 4 bytes of the file.
pub fn parse_relmap(buf: &[u8]) -> (r: Result<RelMapFile, String>)
    requires
        relmap_parse_ok(buf@),
    ensures
        le32(buf@, 0) != RELMAPPER_MAGIC ==> (r matches Err(e) && e@ == relmap_magic_text(
            le32(buf@, 0) as u32,
            RELMAPPER_MAGIC,
        )),
        le32(buf@, 0) == RELMAPPER_MAGIC && le32(buf@, 4) > RELMAPPER_MAX_MAPPINGS ==> (r matches Err(e)
            && e@ == relmap_count_text(le32(buf@, 4) as nat, RELMAPPER_MAX_MAPPINGS as nat)),
        le32(buf@, 0) == RELMAPPER_MAGIC && le32(buf@, 4) <= RELMAPPER_MAX_MAPPINGS ==> (r matches Ok(f) && {
            let n = le32(buf@, 4);
            let entries = relmap_entries(buf@, n);
            &&& f.num_mappings == n
            &&& f.crc == le32(buf@, RELMAPPER_FILESIZE - 4)
            &&& exists|perm: Seq<int>| {
                &&& is_mapoid_order(entries, perm)
                &&& f.mappings@.len() == perm.len()
                &&& forall|k: int| 0 <= k < perm.len() ==> #[trigger] f.mappings@[k] == entries[perm[k]]
            }
        }),
{
    let magic = read_u32(buf, 0);
    if magic != RELMAPPER_MAGIC {
        return Err(relmap_magic_message(magic, RELMAPPER_MAGIC));
    }
    let num_mappings = read_u32(buf, 4);
    let max_possible = RELMAPPER_MAX_MAPPINGS as usize;
    if num_mappings as usize > max_possible {
        return Err(relmap_count_message(num_mappings, max_possible));
    }
    let n = num_mappings as usize;
    let ghost entries = relmap_entries(buf@, n as int);
    let mut mappings: Vec<RelMapping> = Vec::with_capacity(n);
    let mut i: usize = 0;
    while i < n
        invariant
            n == le32(buf@, 4),
            n <= 63,
            buf@.len() >= 512,
            entries == relmap_entries(buf@, n as int),
            i <= n,
            mappings@.len() == i,
            forall|k: int| 0 <= k < i ==> #[trigger] mappings@[k] == entries[k],
        decreases n - i,
    {
        let off = 8 + i * 8;
        let mapoid = read_u32(buf, off);
        let mapfilenode = read_u32(buf, off + 4);
        mappings.push(RelMapping { mapoid, mapfilenode });
        i = i + 1;
    }
    // The CRC is the last 4 bytes of the file.
    let crc = read_u32(buf, RELMAPPER_FILESIZE - 4);

    // Stable insertion sort by mapoid, following the input positions.
    let ghost mut perm: Seq<int> = Seq::new(n as nat, |k: int| k);
    let mut i: usize = 1;
    while i < n
        invariant
            1 <= i || n == 0,
            entries.len() == n,
            mappings@.len() == n,
            perm.len() == n,
            forall|k: int| 0 <= k < n ==> 0 <= #[trigger] perm[k] < n,
            forall|k: int| 0 <= k < n ==> #[trigger] mappings@[k] == entries[perm[k]],
            forall|k: int| i <= k < n ==> #[trigger] perm[k] == k,
            forall|k: int| 0 <= k < i && k < n ==> #[trigger] perm[k] < i,
            forall|a: int, b: int| 0 <= a < b < i && b < n ==> mapoid_before(entries, #[trigger] perm[a], #[trigger] perm[b]),
        decreases n - i,
    {
        let mut j: usize = i;
        while j > 0 && mappings[j].mapoid < mappings[j - 1].mapoid
            invariant
                0 <= j <= i < n,
                entries.len() == n,
                mappings@.len() == n,
                perm.len() == n,
                forall|k: int| 0 <= k < n ==> 0 <= #[trigger] perm[k] < n,
                forall|k: int| 0 <= k < n ==> #[trigger] mappings@[k] == entries[perm[k]],
                forall|k: int| i < k < n ==> #[trigger] perm[k] == k,
                perm[j as int] == i,
                forall|k: int| 0 <= k <= i && k != j ==> #[trigger] perm[k] < i,
                forall|a: int, b: int| 0 <= a < b <= i && a != j && b != j ==> mapoid_before(entries, #[trigger] perm[a], #[trigger] perm[b]),
                forall|b: int| j < b <= i ==> mapoid_before(entries, i as int, #[trigger] perm[b]),
            decreases j,
        {
            let x = mappings[j];
            let y = mappings[j - 1];
            mappings.set(j, y);
            mappings.set(j - 1, x);
            proof {
                let pj = perm[j as int];
                let pj1 = perm[j - 1];
                perm = perm.update(j as int, pj1).update(j - 1, pj);
            }
            j = j - 1;
        }
        proof {
            if j > 0 {
                let y = perm[j - 1];
                assert(y < i);
                assert(mapoid_before(entries, y, i as int));
            }
        }
        i = i + 1;
    }
    proof {
        assert(is_mapoid_order(entries, perm));
    }
    Ok(RelMapFile { num_mappings, mappings, crc })
}

} // verus!
