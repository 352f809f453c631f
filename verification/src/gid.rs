use crate::tileset::Tileset;
use vstd::prelude::*;

use std::sync::Arc;

verus! {

/// A raw 32-bit cell value: orientation flag bits packed above a global tile
/// identifier. The value `0` denotes "no tile".
#[derive(Debug, Clone, Copy, PartialEq, Eq, Structural)]
pub struct Gid(pub u32);

/// The three orientation flag bits of a raw cell value.
pub const FLIPPED_HORIZONTALLY_FLAG: u32 = 0x8000_0000;
pub const FLIPPED_VERTICALLY_FLAG: u32 = 0x4000_0000;
pub const FLIPPED_DIAGONALLY_FLAG: u32 = 0x2000_0000;
/// Everything below the flag bits: the global tile identifier.
pub const GID_MASK: u32 = 0x1FFF_FFFF;

/// One entry of the per-map tileset table: a tileset together with the first
/// global id its tiles occupy. Entries keep declaration order.
#[derive(Debug, Clone, PartialEq)]
pub struct MapTilesetGid {
    pub first_gid: Gid,
    pub tileset: Arc<Tileset>,
}

/// One decoded, resolved cell: the owning tileset (by table index), the tile
/// id local to that tileset, and the orientation flags.
#[derive(Debug, Clone, Copy, PartialEq, Eq, Structural)]
pub struct LayerTileData {
    /// Index of the owning tileset in the map's tileset table.
    pub tileset_index: usize,
    /// Tile id local to the owning tileset.
    pub id: u32,
    pub flip_h: bool,
    pub flip_v: bool,
    pub flip_d: bool,
}

/// The masked identifier of a raw cell value: its flag bits stripped.
pub open spec fn spec_mask(bits: u32) -> u32 {
    bits & GID_MASK
}

/// The index of the last table entry whose `first_gid` does not exceed the
/// masked identifier, scanning from the end; `None` when no entry qualifies.
pub open spec fn resolve_index(ts: Seq<MapTilesetGid>, masked: u32) -> Option<int>
    decreases ts.len(),
{
    if ts.len() == 0 {
        None
    } else if ts.last().first_gid.0 <= masked {
        Some(ts.len() - 1)
    } else {
        resolve_index(ts.drop_last(), masked)
    }
}

/// `resolve_index` finds exactly the last qualifying entry: the entry it
/// names qualifies and everything after it does not; `None` means nothing
/// qualifies.
pub proof fn lemma_resolve_index_characterization(ts: Seq<MapTilesetGid>, masked: u32)
    ensures
        match resolve_index(ts, masked) {
            Some(i) => 0 <= i < ts.len() && ts[i].first_gid.0 <= masked && (forall|j: int|
                i < j < ts.len() ==> ts[j].first_gid.0 > masked),
            None => forall|j: int| 0 <= j < ts.len() ==> ts[j].first_gid.0 > masked,
        },
    decreases ts.len(),
{
    if ts.len() > 0 && ts.last().first_gid.0 > masked {
        lemma_resolve_index_characterization(ts.drop_last(), masked);
        assert forall|j: int| 0 <= j < ts.len() - 1 implies ts.drop_last()[j] == ts[j] by {}
    }
}

/// Returns the last table entry (and its index) whose `first_gid` is at most
/// the given value, or `None` when no entry qualifies.
pub fn get_tileset_for_gid<'a>(tilesets: &'a [MapTilesetGid], gid: Gid) -> (r: Option<
    (usize, &'a MapTilesetGid),
>)
    ensures
        match r {
            Some((idx, entry)) => resolve_index(tilesets@, gid.0) == Some(idx as int) && *entry
                == tilesets@[idx as int],
            None => resolve_index(tilesets@, gid.0) is None,
        },
{
    proof {
        lemma_resolve_index_characterization(tilesets@, gid.0);
    }
    let mut idx: usize = tilesets.len();
    while idx > 0
        invariant
            idx <= tilesets@.len(),
            forall|j: int| idx <= j < tilesets@.len() ==> tilesets@[j].first_gid.0 > gid.0,
        decreases idx,
    {
        idx = idx - 1;
        let entry = &tilesets[idx];
        if entry.first_gid.0 <= gid.0 {
            proof {
                lemma_resolve_unique(tilesets@, gid.0, idx as int);
            }
            return Some((idx, entry));
        }
    }
    None
}

/// A qualifying index after which nothing qualifies is the one
/// `resolve_index` names.
proof fn lemma_resolve_unique(ts: Seq<MapTilesetGid>, masked: u32, i: int)
    requires
        0 <= i < ts.len(),
        ts[i].first_gid.0 <= masked,
        forall|j: int| i < j < ts.len() ==> ts[j].first_gid.0 > masked,
    ensures
        resolve_index(ts, masked) == Some(i),
    decreases ts.len(),
{
    if i == ts.len() - 1 {
    } else {
        lemma_resolve_unique(ts.drop_last(), masked, i);
    }
}

/// What a raw cell value resolves to against a tileset table: `0` is "no
/// tile"; otherwise the flag bits are stripped and the last entry with
/// `first_gid` at most the masked identifier owns the tile, whose local id is
/// the difference; with no such entry, resolution fails.
pub open spec fn from_bits_spec(bits: u32, ts: Seq<MapTilesetGid>) -> Result<
    Option<LayerTileData>,
    crate::error::Error,
> {
    if bits == 0 {
        Ok(None)
    } else {
        let masked = spec_mask(bits);
        match resolve_index(ts, masked) {
            Some(i) => Ok(
                Some(
                    LayerTileData {
                        tileset_index: i as usize,
                        id: (masked - ts[i].first_gid.0) as u32,
                        flip_h: bits & FLIPPED_HORIZONTALLY_FLAG != 0,
                        flip_v: bits & FLIPPED_VERTICALLY_FLAG != 0,
                        flip_d: bits & FLIPPED_DIAGONALLY_FLAG != 0,
                    },
                ),
            ),
            None => Err(crate::error::Error::GidNotFound(masked)),
        }
    }
}

impl LayerTileData {
    /// Resolves one raw cell value against the tileset table.
    pub fn from_bits(bits: u32, tilesets: &[MapTilesetGid]) -> (r: Result<
        Option<LayerTileData>,
        crate::error::Error,
    >)
        ensures
            r == from_bits_spec(bits, tilesets@),
    {
        if bits == 0 {
            return Ok(None);
        }
        let masked = bits & GID_MASK;
        assert(masked == spec_mask(bits));
        match get_tileset_for_gid(tilesets, Gid(masked)) {
            Some((idx, entry)) => {
                proof {
                    lemma_resolve_index_characterization(tilesets@, masked);
                }
                Ok(
                    Some(
                        LayerTileData {
                            tileset_index: idx,
                            id: masked - entry.first_gid.0,
                            flip_h: bits & FLIPPED_HORIZONTALLY_FLAG != 0,
                            flip_v: bits & FLIPPED_VERTICALLY_FLAG != 0,
                            flip_d: bits & FLIPPED_DIAGONALLY_FLAG != 0,
                        },
                    ),
                )
            },
            None => Err(crate::error::Error::GidNotFound(masked)),
        }
    }
}

/// The table is ordered: `first_gid` never decreases along declaration order.
pub open spec fn sorted_by_first_gid(ts: Seq<MapTilesetGid>) -> bool {
    forall|a: int, b: int| 0 <= a <= b < ts.len() ==> ts[a].first_gid.0 <= ts[b].first_gid.0
}

/// For a table built in declaration order (non-decreasing `first_gid`), the
/// resolver selects an entry with the greatest `first_gid` not exceeding the
/// masked identifier.
pub proof fn lemma_resolver_selects_greatest(ts: Seq<MapTilesetGid>, masked: u32, i: int)
    requires
        sorted_by_first_gid(ts),
        resolve_index(ts, masked) == Some(i),
    ensures
        0 <= i < ts.len(),
        ts[i].first_gid.0 <= masked,
        forall|j: int|
            0 <= j < ts.len() && ts[j].first_gid.0 <= masked ==> ts[j].first_gid.0
                <= ts[i].first_gid.0,
{
    lemma_resolve_index_characterization(ts, masked);
    assert forall|j: int|
        0 <= j < ts.len() && ts[j].first_gid.0 <= masked implies ts[j].first_gid.0
        <= ts[i].first_gid.0 by {
        if j > i {
            assert(ts[j].first_gid.0 > masked);
        }
    }
}

/// A raw cell value of `0` resolves to "no tile" against every table.
pub proof fn lemma_zero_is_no_tile(ts: Seq<MapTilesetGid>)
    ensures
        from_bits_spec(0, ts) == Ok::<Option<LayerTileData>, crate::error::Error>(None),
{
}

} // verus!
