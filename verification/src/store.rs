//! The content-addressed asset store: a deduplicating byte-blob store keyed
//! by content hash.  For a fixed hash value the first write determines the
//! stored bytes and extension; later writes of identical content are no-ops
//! that return the same path.

use vstd::prelude::*;
use vstd::string::*;
use std::collections::HashMap;
use crate::hashing::{content_hash, hash_bytes, hex_seq, push_hex};

verus! {

broadcast use vstd::std_specs::hash::group_hash_axioms;

/// One stored asset: its raw bytes and its file extension.
pub struct AssetBlob {
    pub bytes: Vec<u8>,
    pub ext: String,
}

/// The build-wide asset store.
pub struct AssetStore {
    pub assets: HashMap<u64, AssetBlob>,
}

/// The site-relative path of the asset with hash `h` and extension `ext`:
/// `assets/<16-hex-digit-hash>.<ext>`.
pub open spec fn asset_path_view(h: u64, ext: Seq<char>) -> Seq<char> {
    "assets/"@ + hex_seq(h, 16) + "."@ + ext
}

/// The store contents after storing `bytes` with extension `ext`: a fresh
/// hash gets a new entry, an existing hash leaves the store unchanged.
pub open spec fn store_after(
    m: Map<u64, (Seq<u8>, Seq<char>)>,
    bytes: Seq<u8>,
    ext: Seq<char>,
) -> Map<u64, (Seq<u8>, Seq<char>)> {
    let h = content_hash(bytes);
    if m.dom().contains(h) {
        m
    } else {
        m.insert(h, (bytes, ext))
    }
}

/// The path returned for storing `bytes` with extension `ext`: the extension
/// in the path is the one recorded by the first write of this hash.
pub open spec fn store_path(
    m: Map<u64, (Seq<u8>, Seq<char>)>,
    bytes: Seq<u8>,
    ext: Seq<char>,
) -> Seq<char> {
    let h = content_hash(bytes);
    if m.dom().contains(h) {
        asset_path_view(h, m[h].1)
    } else {
        asset_path_view(h, ext)
    }
}

impl AssetStore {
    /// What the store holds: hash -> (payload bytes, extension).
    pub open spec fn contents(&self) -> Map<u64, (Seq<u8>, Seq<char>)> {
        self.assets@.map_values(|b: AssetBlob| (b.bytes@, b.ext@))
    }

    pub fn new() -> (s: Self)
        ensures
            s.contents() == Map::<u64, (Seq<u8>, Seq<char>)>::empty(),
    {
        let s = AssetStore { assets: HashMap::new() };
        proof {
            assert(s.contents() =~= Map::<u64, (Seq<u8>, Seq<char>)>::empty());
        }
        s
    }

    /// The deterministic path for a stored hash/extension pair.
    pub fn asset_path(hash: u64, ext: &str) -> (p: String)
        ensures
            p@ == asset_path_view(hash, ext@),
    {
        let mut p = String::from_str("assets/");
        push_hex(&mut p, hash, 16);
        p.append(".");
        let r = p.concat(ext);
        proof {
            assert(r@ =~= asset_path_view(hash, ext@));
        }
        r
    }

    /// Stores `asset` under its content hash, unless that hash is already
    /// present, and returns the deterministic, deduplicated path.
    pub fn store_asset(&mut self, asset: Vec<u8>, ext: &str) -> (p: String)
        ensures
            final(self).contents() == store_after(old(self).contents(), asset@, ext@),
            p@ == store_path(old(self).contents(), asset@, ext@),
    {
        let hash = hash_bytes(asset.as_slice());
        match self.assets.get(&hash) {
            Some(blob) => {
                proof {
                    assert(old(self).contents()[hash].1 == blob.ext@);
                }
                Self::asset_path(hash, blob.ext.as_str())
            },
            None => {
                let p = Self::asset_path(hash, ext);
                self.assets.insert(hash, AssetBlob { bytes: asset, ext: String::from_str(ext) });
                proof {
                    assert(self.contents() =~= store_after(old(self).contents(), asset@, ext@));
                }
                p
            },
        }
    }
}

/// Storing the same content twice returns the same path both times and leaves
/// the store, after the second write, exactly as after the first: identical
/// content is stored once.
pub proof fn lemma_store_dedup(m: Map<u64, (Seq<u8>, Seq<char>)>, bytes: Seq<u8>, ext: Seq<char>)
    ensures
        store_path(store_after(m, bytes, ext), bytes, ext) == store_path(m, bytes, ext),
        store_after(store_after(m, bytes, ext), bytes, ext) == store_after(m, bytes, ext),
{
}

} // verus!
