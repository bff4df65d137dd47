//! Tile caches: where a tile is stored and which store a tile set uses.
use vstd::prelude::*;
use crate::text::{concat, decimal, digit_char, join_path, path_join, u64_to_decimal};

verus! {

/// The address of a tile: column `x`, row `y`, zoom level `z`.
#[derive(Clone, Copy, Debug, PartialEq, Eq)]
pub struct Xyz {
    pub x: u64,
    pub y: u64,
    pub z: u8,
}

/// An error of a tile store. Where the cause is an I/O error, the variant
/// holds its message.
#[derive(Clone, Debug)]
pub enum TileCacheError {
    FileError(String, String),
    S3CacheError(S3CacheError),
}

/// An error of an S3 tile store configuration.
#[derive(Clone, Debug)]
pub enum S3CacheError {
    /// The path is no `s3://` URL of a bucket.
    InvalidPath(String),
}

/// The layout of tiles in a store.
#[derive(Clone, Copy, Debug, PartialEq, Eq)]
pub enum CacheLayout {
    /// `{z}/{x}/{y}.{format}`
    Zxy,
}

/// The path of a tile under `base_dir`: `{z}/{x}/{y}`, with `.{format}`
/// appended unless the format is empty, as `PathBuf::push` and
/// `PathBuf::set_extension` build it on Unix.
pub open spec fn tile_path_spec(base_dir: Seq<char>, tile: Xyz, format: Seq<char>) -> Seq<char> {
    let p = join_path(
        join_path(join_path(base_dir, decimal(tile.z as nat)), decimal(tile.x as nat)),
        decimal(tile.y as nat),
    );
    if format.len() == 0 {
        p
    } else {
        p + seq!['.'] + format
    }
}

/// A decimal rendering holds digits only, so no `/` and no `.`.
pub proof fn lemma_decimal_digits(n: nat)
    ensures
        decimal(n).len() >= 1,
        forall|i: int| 0 <= i < decimal(n).len() ==> #[trigger] decimal(n)[i] != '/' && decimal(n)[i] != '.',
        n < 10 <==> decimal(n).len() == 1,
    decreases n,
{
    if n >= 10 {
        lemma_decimal_digits(n / 10);
        let d = decimal(n / 10);
        assert forall|i: int| 0 <= i < decimal(n).len() implies #[trigger] decimal(n)[i] != '/' && decimal(n)[i] != '.' by {
            if i < d.len() {
                assert(decimal(n)[i] == d[i]);
            }
        }
    }
}

/// Different numbers have different decimal renderings.
pub proof fn lemma_decimal_injective(n: nat, m: nat)
    requires
        decimal(n) == decimal(m),
    ensures
        n == m,
    decreases n,
{
    lemma_decimal_digits(n);
    lemma_decimal_digits(m);
    if n >= 10 && m >= 10 {
        assert(decimal(n).drop_last() =~= decimal(n / 10));
        assert(decimal(m).drop_last() =~= decimal(m / 10));
        lemma_decimal_injective(n / 10, m / 10);
        assert(decimal(n).last() == digit_char(n % 10));
        assert(decimal(m).last() == digit_char(m % 10));
        assert(n % 10 == m % 10);
    } else if n < 10 && m < 10 {
        assert(decimal(n)[0] == digit_char(n));
        assert(decimal(m)[0] == digit_char(m));
    }
}

proof fn lemma_split_at_first_slash(a1: Seq<char>, r1: Seq<char>, a2: Seq<char>, r2: Seq<char>)
    requires
        !a1.contains('/'),
        !a2.contains('/'),
        a1 + seq!['/'] + r1 == a2 + seq!['/'] + r2,
    ensures
        a1 == a2,
        r1 == r2,
{
    let l = a1 + seq!['/'] + r1;
    let r = a2 + seq!['/'] + r2;
    if a1.len() < a2.len() {
        assert(l[a1.len() as int] == '/');
        assert(r[a1.len() as int] == a2[a1.len() as int]);
        assert(a2.contains(a2[a1.len() as int]));
    } else if a2.len() < a1.len() {
        assert(r[a2.len() as int] == '/');
        assert(l[a2.len() as int] == a1[a2.len() as int]);
        assert(a1.contains(a1[a2.len() as int]));
    }
    assert(a1 =~= l.subrange(0, a1.len() as int));
    assert(a2 =~= r.subrange(0, a2.len() as int));
    assert(r1 =~= l.subrange(a1.len() as int + 1, l.len() as int));
    assert(r2 =~= r.subrange(a2.len() as int + 1, r.len() as int));
}

/// The part of a path up to where a relative component goes.
spec fn dir_prefix(base: Seq<char>) -> Seq<char> {
    if base.len() == 0 || base.last() == '/' {
        base
    } else {
        base.push('/')
    }
}

proof fn lemma_tile_path_shape(base: Seq<char>, t: Xyz)
    ensures
        ({
            let dz = decimal(t.z as nat);
            let dx = decimal(t.x as nat);
            let dy = decimal(t.y as nat);
            join_path(join_path(join_path(base, dz), dx), dy) == dir_prefix(base) + (dz + seq!['/'] + (dx + seq![
                '/',
            ] + dy))
        }),
{
    let dz = decimal(t.z as nat);
    let dx = decimal(t.x as nat);
    let dy = decimal(t.y as nat);
    lemma_decimal_digits(t.z as nat);
    lemma_decimal_digits(t.x as nat);
    lemma_decimal_digits(t.y as nat);
    let p1 = join_path(base, dz);
    assert(p1 =~= dir_prefix(base) + dz);
    let p2 = join_path(p1, dx);
    assert(p1.last() == dz.last());
    assert(p2 =~= dir_prefix(base) + dz + seq!['/'] + dx);
    let p3 = join_path(p2, dy);
    assert(p2.last() == dx.last());
    assert(p3 =~= dir_prefix(base) + (dz + seq!['/'] + (dx + seq!['/'] + dy)));
}

/// Different tiles are stored at different paths of the same store and
/// format.
pub proof fn law_distinct_tiles_distinct_paths(base_dir: Seq<char>, a: Xyz, b: Xyz, format: Seq<char>)
    requires
        a != b,
    ensures
        tile_path_spec(base_dir, a, format) != tile_path_spec(base_dir, b, format),
{
    if tile_path_spec(base_dir, a, format) == tile_path_spec(base_dir, b, format) {
        lemma_tile_path_shape(base_dir, a);
        lemma_tile_path_shape(base_dir, b);
        let pre = dir_prefix(base_dir);
        let ta = decimal(a.z as nat) + seq!['/'] + (decimal(a.x as nat) + seq!['/'] + decimal(a.y as nat));
        let tb = decimal(b.z as nat) + seq!['/'] + (decimal(b.x as nat) + seq!['/'] + decimal(b.y as nat));
        let pa = pre + ta;
        let pb = pre + tb;
        let sfx = if format.len() == 0 { Seq::<char>::empty() } else { seq!['.'] + format };
        assert(tile_path_spec(base_dir, a, format) =~= pa + sfx);
        assert(tile_path_spec(base_dir, b, format) =~= pb + sfx);
        assert(pa.len() == pb.len());
        assert(pa =~= (pa + sfx).subrange(0, pa.len() as int));
        assert(pb =~= (pb + sfx).subrange(0, pb.len() as int));
        assert(ta =~= pa.subrange(pre.len() as int, pa.len() as int));
        assert(tb =~= pb.subrange(pre.len() as int, pb.len() as int));
        lemma_decimal_digits(a.z as nat);
        lemma_decimal_digits(a.x as nat);
        lemma_decimal_digits(a.y as nat);
        lemma_decimal_digits(b.z as nat);
        lemma_decimal_digits(b.x as nat);
        lemma_decimal_digits(b.y as nat);
        lemma_split_at_first_slash(
            decimal(a.z as nat),
            decimal(a.x as nat) + seq!['/'] + decimal(a.y as nat),
            decimal(b.z as nat),
            decimal(b.x as nat) + seq!['/'] + decimal(b.y as nat),
        );
        lemma_split_at_first_slash(
            decimal(a.x as nat),
            decimal(a.y as nat),
            decimal(b.x as nat),
            decimal(b.y as nat),
        );
        lemma_decimal_injective(a.z as nat, b.z as nat);
        lemma_decimal_injective(a.x as nat, b.x as nat);
        lemma_decimal_injective(a.y as nat, b.y as nat);
        assert(a == b);
    }
}

/// A tile is stored as `{z}/{x}/{y}.{format}` below the base directory,
/// with one `/` between the directory and the tile path (none added where
/// the directory is empty or already ends with `/`), and no extension where
/// the format is empty.
pub proof fn law_tile_path_layout(base_dir: Seq<char>, t: Xyz, format: Seq<char>)
    ensures
        ({
            let tail = decimal(t.z as nat) + seq!['/'] + decimal(t.x as nat) + seq!['/'] + decimal(t.y as nat)
                + (if format.len() == 0 { Seq::<char>::empty() } else { seq!['.'] + format });
            &&& (base_dir.len() == 0 || base_dir.last() == '/') ==> tile_path_spec(base_dir, t, format)
                == base_dir + tail
            &&& (base_dir.len() > 0 && base_dir.last() != '/') ==> tile_path_spec(base_dir, t, format)
                == base_dir + seq!['/'] + tail
        }),
{
    lemma_tile_path_shape(base_dir, t);
    let dz = decimal(t.z as nat);
    let dx = decimal(t.x as nat);
    let dy = decimal(t.y as nat);
    let sfx = if format.len() == 0 { Seq::<char>::empty() } else { seq!['.'] + format };
    let tail = dz + seq!['/'] + dx + seq!['/'] + dy + sfx;
    assert(tile_path_spec(base_dir, t, format) =~= dir_prefix(base_dir) + (dz + seq!['/'] + (dx + seq!['/'] + dy))
        + sfx);
    if base_dir.len() == 0 || base_dir.last() == '/' {
        assert(tile_path_spec(base_dir, t, format) =~= base_dir + tail);
    } else {
        assert(tile_path_spec(base_dir, t, format) =~= base_dir + seq!['/'] + tail);
    }
}

/// An S3 store path is accepted exactly as `s3://` followed by a bucket
/// name without `/`, and the bucket is that name.
pub proof fn law_s3_bucket(path: Seq<char>, bucket: Seq<char>)
    ensures
        s3_bucket(path) matches Some(b) ==> path == "s3://"@ + b && !b.contains('/'),
        !bucket.contains('/') ==> s3_bucket("s3://"@ + bucket) == Some(bucket),
{
    reveal_strlit("s3://");
    if s3_bucket(path) is Some {
        assert(path =~= path.subrange(0, 5) + path.subrange(5, path.len() as int));
    }
    let p = "s3://"@ + bucket;
    assert(p.subrange(0, 5) =~= "s3://"@);
    assert(p.subrange(5, p.len() as int) =~= bucket);
}

impl CacheLayout {
    /// The path of `tile` in format `format` under `base_dir`.
    pub fn path(&self, base_dir: &str, tile: &Xyz, format: &str) -> (r: String)
        requires
            !format@.contains('/'),
        ensures
            r@ == tile_path_spec(base_dir@, *tile, format@),
    {
        match self {
            CacheLayout::Zxy => {
                let z = u64_to_decimal(tile.z as u64);
                let x = u64_to_decimal(tile.x);
                let y = u64_to_decimal(tile.y);
                let p = path_join(base_dir, z.as_str());
                let p = path_join(p.as_str(), x.as_str());
                let p = path_join(p.as_str(), y.as_str());
                if format.unicode_len() == 0 {
                    p
                } else {
                    let dot = ".";
                    proof { reveal_strlit("."); }
                    let p = concat(p.as_str(), dot);
                    concat(p.as_str(), format)
                }
            },
        }
    }

    /// The path of `tile` in format `format` under `base_dir`, as text.
    pub fn path_string(&self, base_dir: &str, tile: &Xyz, format: &str) -> (r: String)
        requires
            !format@.contains('/'),
        ensures
            r@ == tile_path_spec(base_dir@, *tile, format@),
    {
        self.path(base_dir, tile, format)
    }
}

/// The configuration of a file tile store.
#[derive(Clone, Debug)]
pub struct FileStoreCfg {
    pub base_dir: String,
}

/// The configuration of an S3 tile store: an `s3://{bucket}` URL.
#[derive(Clone, Debug)]
pub struct S3StoreCfg {
    pub path: String,
}

/// The configured store of a tile set.
#[derive(Clone, Debug)]
pub enum TileCacheCfg {
    Files(FileStoreCfg),
    S3(S3StoreCfg),
}

/// A tile store in a directory.
#[derive(Clone, Debug)]
pub struct FileCache {
    pub base_dir: String,
}

impl FileCache {
    /// The store of tile set `tileset_name`: its directory under the
    /// configured base directory.
    pub fn from_config(cfg: &FileStoreCfg, tileset_name: &str) -> (r: FileCache)
        ensures
            r.base_dir@ == join_path(cfg.base_dir@, tileset_name@),
    {
        FileCache { base_dir: path_join(cfg.base_dir.as_str(), tileset_name) }
    }
}

/// A tile store in an S3 bucket.
#[derive(Clone, Debug)]
pub struct S3Cache {
    pub bucket: String,
}

/// The bucket that an S3 store path names: the text after `s3://`, which
/// must hold no `/`.
pub open spec fn s3_bucket(path: Seq<char>) -> Option<Seq<char>> {
    if path.len() >= 5 && path.subrange(0, 5) == "s3://"@ && !path.subrange(5, path.len() as int).contains('/') {
        Some(path.subrange(5, path.len() as int))
    } else {
        None
    }
}

impl S3Cache {
    /// The store of an S3 configuration; refused unless the path is
    /// `s3://` and a bucket name.
    pub fn from_config(cfg: &S3StoreCfg) -> (r: Result<S3Cache, S3CacheError>)
        ensures
            r is Ok == s3_bucket(cfg.path@) is Some,
            r matches Ok(c) ==> Some(c.bucket@) == s3_bucket(cfg.path@),
    {
        let path = cfg.path.as_str();
        let n = path.unicode_len();
        proof { reveal_strlit("s3://"); }
        if n < 5 {
            return Err(S3CacheError::InvalidPath(cfg.path.clone()));
        }
        let scheme = path.substring_char(0, 5);
        assert(path@ == cfg.path@);
        if !crate::text::str_eq(scheme, "s3://") {
            assert(scheme@ == cfg.path@.subrange(0, 5));
            return Err(S3CacheError::InvalidPath(cfg.path.clone()));
        }
        let mut i: usize = 5;
        while i < n
            invariant
                n == path@.len(),
                path@ == cfg.path@,
                5 <= i <= n,
                forall|j: int| 5 <= j < i ==> path@[j] != '/',
            decreases n - i,
        {
            if path.get_char(i) == '/' {
                assert(path@.subrange(5, n as int)[i - 5] == '/');
                return Err(S3CacheError::InvalidPath(cfg.path.clone()));
            }
            i = i + 1;
        }
        let bucket = path.substring_char(5, n).to_owned();
        assert forall|j: int| 0 <= j < bucket@.len() implies bucket@[j] != '/' by {
            assert(bucket@[j] == path@[j + 5]);
        }
        Ok(S3Cache { bucket })
    }
}

/// The store that keeps nothing.
#[derive(Clone, Copy, Debug)]
pub struct NoCache;

impl NoCache {
    /// No tile is ever found.
    pub fn tile_exists(&self, path: &str) -> (r: bool)
        ensures
            !r,
    {
        false
    }
}

/// The store of a tile set.
#[derive(Clone, Debug)]
pub enum TileCache {
    NoCache,
    Files(FileCache),
    S3(S3Cache),
}

/// The store that a tile set writes to or reads from.
#[derive(Debug)]
pub enum CacheStore<'a> {
    NoCache(NoCache),
    Files(&'a FileCache),
    S3(&'a S3Cache),
}

/// `r` is the store of `cache`.
pub open spec fn store_of(cache: TileCache, r: CacheStore) -> bool {
    match cache {
        TileCache::NoCache => r is NoCache,
        TileCache::Files(c) => r matches CacheStore::Files(f) && *f == c,
        TileCache::S3(c) => r matches CacheStore::S3(s) && *s == c,
    }
}

/// Whether the configuration can be set up; the service stops otherwise.
pub open spec fn cache_cfg_ok(config: TileCacheCfg) -> bool {
    match config {
        TileCacheCfg::Files(_) => true,
        TileCacheCfg::S3(cfg) => s3_bucket(cfg.path@) is Some,
    }
}

impl TileCache {
    /// The store of tile set `tileset_name` as configured.
    pub fn from_config(config: &TileCacheCfg, tileset_name: &str) -> (r: TileCache)
        requires
            cache_cfg_ok(*config),
        ensures
            match *config {
                TileCacheCfg::Files(cfg) => r matches TileCache::Files(f) && f.base_dir@ == join_path(
                    cfg.base_dir@,
                    tileset_name@,
                ),
                TileCacheCfg::S3(cfg) => r matches TileCache::S3(s) && Some(s.bucket@) == s3_bucket(cfg.path@),
            },
    {
        match config {
            TileCacheCfg::Files(cfg) => TileCache::Files(FileCache::from_config(cfg, tileset_name)),
            TileCacheCfg::S3(cfg) => match S3Cache::from_config(cfg) {
                Ok(c) => TileCache::S3(c),
                Err(_) => TileCache::NoCache,
            },
        }
    }

    /// The store that tiles are written to.
    pub fn write(&self) -> (r: CacheStore<'_>)
        ensures
            store_of(*self, r),
    {
        match self {
            TileCache::NoCache => CacheStore::NoCache(NoCache),
            TileCache::Files(cache) => CacheStore::Files(cache),
            TileCache::S3(cache) => CacheStore::S3(cache),
        }
    }

    /// The store that tiles are read from.
    pub fn read(&self) -> (r: CacheStore<'_>)
        ensures
            store_of(*self, r),
    {
        match self {
            TileCache::NoCache => CacheStore::NoCache(NoCache),
            TileCache::Files(cache) => CacheStore::Files(cache),
            TileCache::S3(cache) => CacheStore::S3(cache),
        }
    }
}

} // verus!
