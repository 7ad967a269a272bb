//! The torrent descriptor that a download works from.
use vstd::prelude::*;
use crate::digest::{sha1_digest, sha1_of};

verus! {

/// One file of a multi-file torrent.
#[derive(Debug)]
pub struct TorrentFile {
    /// Directory names, then the file name.
    pub path: Vec<String>,
    pub length: u64,
    pub md5sum: Option<String>,
}

/// The info dictionary of a torrent.
#[derive(Debug)]
pub struct TorrentInfo {
    /// The file name of a single-file torrent, the directory of a multi-file one.
    pub name: String,
    pub md5sum: Option<String>,
    /// The length of a single-file torrent.
    pub length: Option<i64>,
    pub files: Option<Vec<TorrentFile>>,
    /// The 20-byte SHA-1 digests of the pieces, one after the other.
    pub pieces: Vec<u8>,
    pub piece_length: i64,
    pub private: Option<u8>,
}

/// A torrent descriptor.
#[derive(Debug)]
pub struct Torrent {
    pub announce: Option<String>,
    pub announce_list: Option<Vec<Vec<String>>>,
    pub comment: Option<String>,
    pub created_by: Option<String>,
    pub creation_date: Option<i64>,
    pub encoding: Option<String>,
    pub info: TorrentInfo,
    pub httpseeds: Option<Vec<String>>,
    /// The canonical (bencoded) form of the info dictionary.
    pub info_encoded: Vec<u8>,
}

/// The first tracker of each tier that has one, in tier order.
pub open spec fn tier_heads(tiers: Seq<Vec<String>>) -> Seq<Seq<char>>
    decreases tiers.len(),
{
    if tiers.len() == 0 {
        Seq::empty()
    } else {
        let init = tier_heads(tiers.drop_last());
        let last = tiers.last();
        if last@.len() > 0 {
            init.push(last@[0]@)
        } else {
            init
        }
    }
}

/// The trackers to try, in order: the primary announce address, then the
/// first address of each announce-list tier.
pub open spec fn trackers_of(t: Torrent) -> Seq<Seq<char>> {
    let primary = match t.announce {
        Some(a) => seq![a@],
        None => Seq::empty(),
    };
    let tiers = match t.announce_list {
        Some(l) => tier_heads(l@),
        None => Seq::empty(),
    };
    primary + tiers
}

/// The sum of the first `n` file lengths.
pub open spec fn files_length(files: Seq<TorrentFile>, n: int) -> int
    decreases n,
{
    if n <= 0 {
        0
    } else {
        files_length(files, n - 1) + files[n - 1].length
    }
}

/// The total length of the content.
pub open spec fn content_length(info: TorrentInfo) -> int {
    match info.files {
        Some(files) => files_length(files@, files@.len() as int),
        None => match info.length {
            Some(l) => if l > 0 { l as int } else { 0 },
            None => 0,
        },
    }
}

/// The size of piece `i` of a content of `total` bytes cut in pieces of
/// `piece_length` bytes: the last piece holds what is left.
pub open spec fn piece_size_of(piece_length: int, total: int, i: int) -> int {
    if piece_length <= 0 || i * piece_length >= total {
        0
    } else if total - i * piece_length < piece_length {
        total - i * piece_length
    } else {
        piece_length
    }
}

/// The total length of the content, up to `u64::MAX`.
pub open spec fn total_size_of(info: TorrentInfo) -> int {
    if content_length(info) <= u64::MAX {
        content_length(info)
    } else {
        u64::MAX as int
    }
}

impl Torrent {
    /// The announce addresses to try, in order.
    pub fn trackers_list(&self) -> (r: Vec<String>)
        ensures
            r@.map_values(|s: String| s@) == trackers_of(*self),
    {
        let mut result: Vec<String> = Vec::new();
        match &self.announce {
            Some(a) => {
                result.push(a.clone());
            },
            None => {},
        }
        let ghost primary = result@.map_values(|s: String| s@);
        assert(primary =~= match self.announce {
            Some(a) => seq![a@],
            None => Seq::<Seq<char>>::empty(),
        });
        match &self.announce_list {
            Some(tiers) => {
                let mut i: usize = 0;
                while i < tiers.len()
                    invariant
                        i <= tiers@.len(),
                        result@.map_values(|s: String| s@) == primary + tier_heads(
                            tiers@.subrange(0, i as int),
                        ),
                    decreases tiers@.len() - i,
                {
                    let tier = &tiers[i];
                    assert(tiers@.subrange(0, i + 1).drop_last() =~= tiers@.subrange(0, i as int));
                    let ghost before = result@;
                    if tier.len() > 0 {
                        let head = tier[0].clone();
                        assert(head@ == tiers@[i as int]@[0]@);
                        result.push(head);
                        assert(result@.map_values(|s: String| s@) =~= before.map_values(
                            |s: String| s@,
                        ).push(head@));
                    }
                    i = i + 1;
                }
                assert(tiers@.subrange(0, tiers@.len() as int) =~= tiers@);
            },
            None => {
                assert(primary + Seq::<Seq<char>>::empty() =~= primary);
            },
        }
        result
    }

    /// The info hash: the SHA-1 digest of the info dictionary's canonical form.
    pub fn info_hash(&self) -> (r: [u8; 20])
        ensures
            r@ == sha1_of(self.info_encoded@),
    {
        sha1_digest(self.info_encoded.as_slice())
    }

    /// The total length of the content, or `u64::MAX` where it does not fit.
    pub fn total_size(&self) -> (r: u64)
        ensures
            r == total_size_of(self.info),
    {
        match &self.info.files {
            Some(files) => {
                let mut sum: u64 = 0;
                let mut i: usize = 0;
                while i < files.len()
                    invariant
                        i <= files@.len(),
                        sum == (if files_length(files@, i as int) <= u64::MAX {
                            files_length(files@, i as int)
                        } else {
                            u64::MAX as int
                        }),
                    decreases files@.len() - i,
                {
                    proof {
                        lemma_files_length_monotone(files@, i as int);
                    }
                    sum = sum.saturating_add(files[i].length);
                    i = i + 1;
                }
                sum
            },
            None => match self.info.length {
                Some(l) => if l > 0 { l as u64 } else { 0 },
                None => 0,
            },
        }
    }

    /// The size of piece `i`.
    pub fn piece_size(&self, i: usize) -> (r: u64)
        ensures
            r == piece_size_of(self.info.piece_length as int, total_size_of(self.info), i as int),
    {
        let total = self.total_size();
        if self.info.piece_length <= 0 {
            return 0;
        }
        let pl = self.info.piece_length as u128;
        assert((i as u128) * pl <= u64::MAX as u128 * i64::MAX as u128) by (nonlinear_arith)
            requires
                i <= u64::MAX,
                pl <= i64::MAX,
        ;
        let start: u128 = (i as u128) * pl;
        if start >= total as u128 {
            0
        } else if (total as u128) - start < pl {
            ((total as u128) - start) as u64
        } else {
            pl as u64
        }
    }

    /// The number of pieces: one per 20 bytes of digests.
    pub fn piece_count(&self) -> (r: usize)
        ensures
            r == self.info.pieces@.len() / 20,
    {
        self.info.pieces.len() / 20
    }

    /// The recorded digest of every piece.
    pub fn piece_hashes(&self) -> (r: Vec<[u8; 20]>)
        ensures
            r@.len() == self.info.pieces@.len() / 20,
            forall|i: int|
                0 <= i < r@.len() ==> (#[trigger] r@[i])@ == self.info.pieces@.subrange(
                    20 * i,
                    20 * i + 20,
                ),
    {
        let total = self.info.pieces.len();
        let n = total / 20;
        let mut r: Vec<[u8; 20]> = Vec::new();
        let mut i: usize = 0;
        while i < n
            invariant
                n == self.info.pieces@.len() / 20,
                i <= n,
                r@.len() == i,
                forall|k: int|
                    0 <= k < i ==> (#[trigger] r@[k])@ == self.info.pieces@.subrange(
                        20 * k,
                        20 * k + 20,
                    ),
                total == self.info.pieces@.len(),
            decreases n - i,
        {
            assert(20 * i + 20 <= total) by (nonlinear_arith)
                requires
                    i < n,
                    n == total / 20,
            ;
            let mut h = [0u8; 20];
            let base = 20 * i;
            let mut j: usize = 0;
            while j < 20
                invariant
                    n == self.info.pieces@.len() / 20,
                    i < n,
                    base == 20 * i,
                    base + 20 <= self.info.pieces@.len(),
                    total == self.info.pieces@.len(),
                    j <= 20,
                    forall|k: int| 0 <= k < j ==> h@[k] == self.info.pieces@[base + k],
                decreases 20 - j,
            {
                h[j] = self.info.pieces[base + j];
                j = j + 1;
            }
            assert(h@ =~= self.info.pieces@.subrange(20 * i, 20 * i + 20));
            r.push(h);
            i = i + 1;
        }
        r
    }
}

proof fn lemma_files_length_monotone(files: Seq<TorrentFile>, n: int)
    requires
        0 <= n < files.len(),
    ensures
        files_length(files, n + 1) == files_length(files, n) + files[n].length,
        files_length(files, n) >= 0,
    decreases n,
{
    if n > 0 {
        lemma_files_length_monotone(files, n - 1);
    }
}

} // verus!
