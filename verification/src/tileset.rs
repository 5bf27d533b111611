//! The tile set: which contiguous block of tile indices belongs to which
//! biome, and the classification of a field value into a biome's block.

use vstd::prelude::*;
use vstd::utf8::encode_utf8;
use crate::fixed::Fixed;
use crate::settings::ConfigError;
use crate::utils::{scale_to_index, scale_to_index_spec};

verus! {

/// A biome as it is declared: a name and, where it has any, its tiles by
/// name and colour.
#[derive(Debug, Clone)]
pub struct Biome {
    pub name: String,
    pub tiles: Option<Vec<(String, [u8; 3])>>,
}

/// One tile of the tile set.
#[derive(Debug, Clone)]
pub struct TextureTile {
    pub index: usize,
    pub biome_name: String,
    pub tile_name: String,
}

/// The block of tile indices of one biome: `length` indices from
/// `start_index` on.
#[derive(Debug, Clone, Copy, PartialEq, Eq)]
pub struct BiomeTileRange {
    pub start_index: usize,
    pub length: usize,
}

/// One biome of a tile set: its name and its block of tile indices.
pub struct Row {
    pub name: Seq<char>,
    pub start: nat,
    pub length: nat,
}

/// The first index after the blocks of `rows`.
pub open spec fn end_of(rows: Seq<Row>) -> nat {
    if rows.len() == 0 {
        0
    } else {
        rows.last().start + rows.last().length
    }
}

/// The blocks of `rows` follow one another from 0 on without a gap, each
/// holds a tile, no two rows have the same name, and every index fits in
/// `usize`.
pub open spec fn is_layout(rows: Seq<Row>) -> bool {
    &&& forall|k: int| 0 <= k < rows.len() ==> (#[trigger] rows[k]).length >= 1
    &&& forall|k: int|
        0 <= k < rows.len() ==> (#[trigger] rows[k]).start == (if k == 0 {
            0
        } else {
            rows[k - 1].start + rows[k - 1].length
        })
    &&& forall|j: int, k: int|
        0 <= j < k < rows.len() ==> (#[trigger] rows[j]).name != (#[trigger] rows[k]).name
    &&& end_of(rows) <= usize::MAX
}

/// Whether `rows` has a biome of the name `name`.
pub open spec fn has_biome(rows: Seq<Row>, name: Seq<char>) -> bool {
    exists|k: int| 0 <= k < rows.len() && (#[trigger] rows[k]).name == name
}

/// The row of the biome named `name`, where `rows` has one.
pub open spec fn row_of(rows: Seq<Row>, name: Seq<char>) -> Row {
    rows[choose|k: int| 0 <= k < rows.len() && (#[trigger] rows[k]).name == name]
}

/// In a layout the row of a name is the one row that has the name.
pub proof fn lemma_row_found(rows: Seq<Row>, k: int, name: Seq<char>)
    requires
        is_layout(rows),
        0 <= k < rows.len(),
        rows[k].name == name,
    ensures
        has_biome(rows, name),
        row_of(rows, name) == rows[k],
{
    let c = choose|c: int| 0 <= c < rows.len() && (#[trigger] rows[c]).name == name;
    if c < k {
        assert(rows[c].name != rows[k].name);
    }
    if k < c {
        assert(rows[k].name != rows[c].name);
    }
}

/// Whether `a` comes before `b` where both are read byte by byte: at the
/// first byte in which they differ `a` has the smaller one, or `a` ends
/// first.
pub open spec fn bytes_before(a: Seq<u8>, b: Seq<u8>) -> bool
    decreases a.len(),
{
    if b.len() == 0 {
        false
    } else if a.len() == 0 {
        true
    } else if a[0] != b[0] {
        a[0] < b[0]
    } else {
        bytes_before(a.drop_first(), b.drop_first())
    }
}

/// Whether the name `a` comes before the name `b`: the order of their
/// bytes in UTF-8, which is the order of strings.
pub open spec fn name_before(a: Seq<char>, b: Seq<char>) -> bool {
    bytes_before(encode_utf8(a), encode_utf8(b))
}

/// Whether the name of each of `tiles` comes before the name of the next:
/// the tiles ascend by name, and no two have one name.
pub open spec fn is_ascending(tiles: Seq<(String, [u8; 3])>) -> bool {
    forall|j: int| 0 <= j < tiles.len() - 1 ==> name_before((#[trigger] tiles[j]).0@, tiles[j + 1].0@)
}

/// Whether the tiles of every biome that gets a block ascend by name.
pub open spec fn all_ordered(biomes: Seq<Biome>) -> bool {
    forall|i: int|
        0 <= i < biomes.len() && #[trigger] is_kept(biomes, i) ==> is_ascending(biomes[i].tiles->0@)
}

/// Whether the name `a` comes before the name `b`.
pub fn comes_before(a: &String, b: &String) -> (r: bool)
    ensures
        r == name_before(a@, b@),
{
    let left = a.as_str().as_bytes();
    let right = b.as_str().as_bytes();
    let mut i: usize = 0;
    assert(left@.skip(0) =~= left@ && right@.skip(0) =~= right@);
    while i < left.len() && i < right.len()
        invariant
            i <= left@.len(),
            i <= right@.len(),
            left@ == encode_utf8(a@),
            right@ == encode_utf8(b@),
            bytes_before(left@, right@) == bytes_before(left@.skip(i as int), right@.skip(i as int)),
        decreases left@.len() - i,
    {
        proof {
            assert(left@.skip(i as int).drop_first() =~= left@.skip(i + 1));
            assert(right@.skip(i as int).drop_first() =~= right@.skip(i + 1));
        }
        if left[i] != right[i] {
            return left[i] < right[i];
        }
        i = i + 1;
    }
    i < right.len()
}

/// Whether the tiles ascend by name.
pub fn ascending(tiles: &Vec<(String, [u8; 3])>) -> (r: bool)
    ensures
        r == is_ascending(tiles@),
{
    let mut j: usize = 1;
    while j < tiles.len()
        invariant
            1 <= j,
            forall|k: int| 0 <= k < j - 1 ==> name_before((#[trigger] tiles@[k]).0@, tiles@[k + 1].0@),
        decreases tiles@.len() - j,
    {
        if !comes_before(&tiles[j - 1].0, &tiles[j].0) {
            assert(!name_before(tiles@[j - 1].0@, tiles@[(j - 1) + 1].0@));
            return false;
        }
        j = j + 1;
    }
    true
}

/// Whether the `i`-th of `biomes` gets a block: it has a tile, and no
/// biome before it has its name.
pub open spec fn is_kept(biomes: Seq<Biome>, i: int) -> bool {
    &&& biomes[i].tiles is Some
    &&& biomes[i].tiles->0@.len() >= 1
    &&& forall|j: int| 0 <= j < i ==> (#[trigger] biomes[j]).name@ != biomes[i].name@
}

/// The rows that the first `n` of `biomes` give: each biome that is kept
/// gets the block that starts where the one before it ends, as long as its
/// number of tiles.
pub open spec fn layout_of(biomes: Seq<Biome>, n: nat) -> Seq<Row>
    decreases n,
{
    if n == 0 {
        Seq::empty()
    } else {
        let before = layout_of(biomes, (n - 1) as nat);
        if is_kept(biomes, n - 1) {
            before.push(
                Row {
                    name: biomes[n - 1].name@,
                    start: end_of(before),
                    length: biomes[n - 1].tiles->0@.len(),
                },
            )
        } else {
            before
        }
    }
}

/// The tiles of `biome`, each as the biome's name and its own.
pub open spec fn tiles_of(biome: Biome) -> Seq<(Seq<char>, Seq<char>)> {
    Seq::new(biome.tiles->0@.len(), |j: int| (biome.name@, biome.tiles->0@[j].0@))
}

/// The tiles that the first `n` of `biomes` give, in the order of their
/// indices.
pub open spec fn listing_of(biomes: Seq<Biome>, n: nat) -> Seq<(Seq<char>, Seq<char>)>
    decreases n,
{
    if n == 0 {
        Seq::empty()
    } else {
        let before = listing_of(biomes, (n - 1) as nat);
        if is_kept(biomes, n - 1) {
            before + tiles_of(biomes[n - 1])
        } else {
            before
        }
    }
}

/// The colours of the tiles of `biome`.
pub open spec fn colors_of(biome: Biome) -> Seq<[u8; 3]> {
    Seq::new(biome.tiles->0@.len(), |j: int| biome.tiles->0@[j].1)
}

/// The colours of the tiles that the first `n` of `biomes` give, in the
/// order of their indices.
pub open spec fn palette_of(biomes: Seq<Biome>, n: nat) -> Seq<[u8; 3]>
    decreases n,
{
    if n == 0 {
        Seq::empty()
    } else {
        let before = palette_of(biomes, (n - 1) as nat);
        if is_kept(biomes, n - 1) {
            before + colors_of(biomes[n - 1])
        } else {
            before
        }
    }
}

/// The names in a list of tiles.
pub open spec fn listing(tiles: Seq<TextureTile>) -> Seq<(Seq<char>, Seq<char>)> {
    Seq::new(tiles.len(), |i: int| (tiles[i].biome_name@, tiles[i].tile_name@))
}

/// What `layout_of` gives is a layout up to its size, it lists as many
/// tiles as it has indices, and its rows are the biomes that were kept.
pub proof fn lemma_layout_of(biomes: Seq<Biome>, n: nat)
    requires
        n <= biomes.len(),
    ensures
        ({
            let rows = layout_of(biomes, n);
            &&& forall|k: int| 0 <= k < rows.len() ==> (#[trigger] rows[k]).length >= 1
            &&& forall|k: int|
                0 <= k < rows.len() ==> (#[trigger] rows[k]).start == (if k == 0 {
                    0
                } else {
                    rows[k - 1].start + rows[k - 1].length
                })
            &&& forall|k: int|
                0 <= k < rows.len() ==> exists|i: int|
                    0 <= i < n && is_kept(biomes, i) && biomes[i].name@ == (#[trigger] rows[k]).name
            &&& forall|j: int, k: int|
                0 <= j < k < rows.len() ==> (#[trigger] rows[j]).name != (#[trigger] rows[k]).name
            &&& listing_of(biomes, n).len() == end_of(rows)
            &&& palette_of(biomes, n).len() == end_of(rows)
            &&& forall|k: int|
                0 <= k < rows.len() ==> (#[trigger] rows[k]).start + rows[k].length <= end_of(rows)
        }),
    decreases n,
{
    if n > 0 {
        lemma_layout_of(biomes, (n - 1) as nat);
        let before = layout_of(biomes, (n - 1) as nat);
        let rows = layout_of(biomes, n);
        if is_kept(biomes, n - 1) {
            let name = biomes[n - 1].name@;
            assert forall|j: int, k: int| 0 <= j < k < rows.len() implies (#[trigger] rows[j]).name
                != (#[trigger] rows[k]).name by {
                if k == rows.len() - 1 {
                    assert(rows[j] == before[j]);
                    let i = choose|i: int|
                        0 <= i < n - 1 && is_kept(biomes, i) && biomes[i].name@ == before[j].name;
                    assert(biomes[i].name@ != name);
                } else {
                    assert(rows[j] == before[j]);
                    assert(rows[k] == before[k]);
                }
            }
            assert forall|k: int| 0 <= k < rows.len() implies exists|i: int|
                0 <= i < n && is_kept(biomes, i) && biomes[i].name@ == (#[trigger] rows[k]).name by {
                if k == rows.len() - 1 {
                    assert(is_kept(biomes, n - 1) && biomes[n - 1].name@ == rows[k].name);
                } else {
                    assert(rows[k] == before[k]);
                    let i = choose|i: int|
                        0 <= i < n - 1 && is_kept(biomes, i) && biomes[i].name@ == before[k].name;
                    assert(0 <= i < n && is_kept(biomes, i) && biomes[i].name@ == rows[k].name);
                }
            }
            assert forall|k: int| 0 <= k < rows.len() implies (#[trigger] rows[k]).start == (if k == 0 {
                0
            } else {
                rows[k - 1].start + rows[k - 1].length
            }) by {
                if k < rows.len() - 1 {
                    assert(rows[k] == before[k]);
                    if k > 0 {
                        assert(rows[k - 1] == before[k - 1]);
                    }
                } else if k > 0 {
                    assert(rows[k - 1] == before[k - 1]);
                }
            }
            assert forall|k: int| 0 <= k < rows.len() implies (#[trigger] rows[k]).start + rows[k].length
                <= end_of(rows) by {
                if k < rows.len() - 1 {
                    assert(rows[k] == before[k]);
                }
            }
        } else {
            assert forall|k: int| 0 <= k < rows.len() implies exists|i: int|
                0 <= i < n && is_kept(biomes, i) && biomes[i].name@ == (#[trigger] rows[k]).name by {
                let i = choose|i: int|
                    0 <= i < n - 1 && is_kept(biomes, i) && biomes[i].name@ == before[k].name;
                assert(0 <= i < n && is_kept(biomes, i) && biomes[i].name@ == rows[k].name);
            }
        }
    }
}

/// The layout only grows with the number of biomes.
pub proof fn lemma_layout_grows(biomes: Seq<Biome>, m: nat, n: nat)
    requires
        m <= n <= biomes.len(),
    ensures
        end_of(layout_of(biomes, m)) <= end_of(layout_of(biomes, n)),
    decreases n - m,
{
    if m < n {
        lemma_layout_grows(biomes, m, (n - 1) as nat);
    }
}

/// Whether a biome before the `i`-th has the name of the `i`-th.
pub fn seen_before(biomes: &Vec<Biome>, i: usize) -> (r: bool)
    requires
        i < biomes@.len(),
    ensures
        r == !(forall|j: int| 0 <= j < i ==> (#[trigger] biomes@[j]).name@ != biomes@[i as int].name@),
{
    let mut j: usize = 0;
    while j < i
        invariant
            j <= i < biomes@.len(),
            forall|k: int| 0 <= k < j ==> (#[trigger] biomes@[k]).name@ != biomes@[i as int].name@,
        decreases i - j,
    {
        if biomes[j].name == biomes[i].name {
            return true;
        }
        j = j + 1;
    }
    false
}

/// The tile set: the tiles in the order of their indices, and for every
/// biome that has a block its name and the block.
#[derive(Debug, Clone)]
pub struct TextureTileSet {
    tileset: Vec<TextureTile>,
    colors: Vec<[u8; 3]>,
    biomes_position: Vec<[usize; 2]>,
    biomes_mapping: Vec<(String, usize)>,
}

impl TextureTileSet {
    /// The biomes of the tile set with their blocks, in the order in which
    /// they were laid out.
    pub closed spec fn rows(self) -> Seq<Row> {
        Seq::new(
            self.biomes_mapping@.len(),
            |k: int|
                Row {
                    name: self.biomes_mapping@[k].0@,
                    start: self.biomes_position@[k][0] as nat,
                    length: self.biomes_position@[k][1] as nat,
                },
        )
    }

    /// The tiles, in the order of their indices.
    pub closed spec fn tiles(self) -> Seq<TextureTile> {
        self.tileset@
    }

    /// The colours of the tiles, in the order of their indices.
    pub closed spec fn palette(self) -> Seq<[u8; 3]> {
        self.colors@
    }

    /// The blocks form a layout, every name points at its own block, and
    /// the tiles are as many as the layout has indices, each at its index.
    pub closed spec fn wf(self) -> bool {
        &&& self.biomes_mapping@.len() == self.biomes_position@.len()
        &&& forall|k: int| 0 <= k < self.biomes_mapping@.len() ==> (#[trigger] self.biomes_mapping@[k]).1 == k
        &&& is_layout(self.rows())
        &&& self.tileset@.len() == end_of(self.rows())
        &&& self.colors@.len() == end_of(self.rows())
        &&& forall|i: int| 0 <= i < self.tileset@.len() ==> (#[trigger] self.tileset@[i]).index == i
    }

    /// In a well-formed tile set the blocks follow one another from 0 on,
    /// no two biomes have the same name, the tiles and their colours are as
    /// many as the blocks have indices, and each tile holds its own index.
    pub proof fn law_tile_set_is_laid_out(self)
        requires
            self.wf(),
        ensures
            is_layout(self.rows()),
            self.tiles().len() == end_of(self.rows()),
            self.palette().len() == end_of(self.rows()),
            forall|i: int| 0 <= i < self.tiles().len() ==> (#[trigger] self.tiles()[i]).index == i,
    {
    }

    /// Lays out the tile set of `biomes`. Biomes without a tile get no
    /// block, whether they have no list of tiles or an empty one, and of
    /// biomes with one name only the first counts. Each other biome gets
    /// the next block, as long as its number of tiles, and its tiles get
    /// the indices of the block in the order of their names.
    ///
    /// Fails with `UnorderedTiles` where a biome that gets a block does not
    /// list its tiles in the order of their names, and with `TooManyTiles`
    /// where the biomes have more than `capacity` tiles between them.
    pub fn from_biomes(biomes: &Vec<Biome>, capacity: usize) -> (r: Result<Self, LayoutError>)
        ensures
            match r {
                Ok(set) => {
                    &&& layout_fault(biomes@, capacity) is None
                    &&& set.wf()
                    &&& set.rows() == layout_of(biomes@, biomes@.len())
                    &&& listing(set.tiles()) == listing_of(biomes@, biomes@.len())
                    &&& set.palette() == palette_of(biomes@, biomes@.len())
                    &&& end_of(set.rows()) <= capacity
                },
                Err(e) => layout_fault(biomes@, capacity) == Some(e),
            },
    {
        if !tiles_are_ordered(biomes) {
            return Err(LayoutError::UnorderedTiles);
        }
        let mut set = Self {
            tileset: Vec::new(),
            colors: Vec::new(),
            biomes_position: Vec::new(),
            biomes_mapping: Vec::new(),
        };
        let mut idx_tile: usize = 0;
        let mut i: usize = 0;
        assert(set.rows() =~= layout_of(biomes@, 0));
        assert(listing(set.tileset@) =~= listing_of(biomes@, 0));
        assert(set.colors@ =~= palette_of(biomes@, 0));
        while i < biomes.len()
            invariant
                i <= biomes@.len(),
                all_ordered(biomes@),
                set.biomes_mapping@.len() == set.biomes_position@.len(),
                forall|k: int|
                    0 <= k < set.biomes_mapping@.len() ==> (#[trigger] set.biomes_mapping@[k]).1 == k,
                set.rows() == layout_of(biomes@, i as nat),
                idx_tile == end_of(set.rows()),
                idx_tile <= capacity,
                set.tileset@.len() == idx_tile,
                forall|t: int| 0 <= t < set.tileset@.len() ==> (#[trigger] set.tileset@[t]).index == t,
                listing(set.tileset@) == listing_of(biomes@, i as nat),
                set.colors@ == palette_of(biomes@, i as nat),
            decreases biomes@.len() - i,
        {
            let biome = &biomes[i];
            let fresh = !seen_before(biomes, i);
            match &biome.tiles {
                Some(tiles) if fresh && tiles.len() >= 1 => {
                    assert(is_kept(biomes@, i as int));
                    if tiles.len() > capacity - idx_tile {
                        proof {
                            lemma_layout_grows(biomes@, (i + 1) as nat, biomes@.len());
                        }
                        return Err(LayoutError::TooManyTiles);
                    }
                    let ghost before = set.tileset@;
                    let ghost painted = set.colors@;
                    let mut j: usize = 0;
                    while j < tiles.len()
                        invariant
                            j <= tiles@.len(),
                            biome.tiles == Some(*tiles),
                            idx_tile + tiles@.len() <= capacity,
                            before.len() == idx_tile,
                            set.tileset@.len() == idx_tile + j,
                            forall|t: int|
                                0 <= t < set.tileset@.len() ==> (#[trigger] set.tileset@[t]).index == t,
                            listing(set.tileset@) == listing(before) + tiles_of(*biome).take(j as int),
                            set.colors@ == painted + colors_of(*biome).take(j as int),
                            set.biomes_mapping@.len() == set.biomes_position@.len(),
                            forall|k: int|
                                0 <= k < set.biomes_mapping@.len() ==> (
                                #[trigger] set.biomes_mapping@[k]).1 == k,
                            set.rows() == layout_of(biomes@, i as nat),
                        decreases tiles@.len() - j,
                    {
                        let ghost listed = set.tileset@;
                        let tile = TextureTile {
                            index: idx_tile + j,
                            biome_name: biome.name.clone(),
                            tile_name: tiles[j].0.clone(),
                        };
                        set.tileset.push(tile);
                        set.colors.push(tiles[j].1);
                        proof {
                            assert(colors_of(*biome).take(j + 1) =~= colors_of(*biome).take(j as int).push(
                                tiles@[j as int].1,
                            ));
                            assert(set.colors@ =~= painted + colors_of(*biome).take(j + 1));
                            assert(listing(set.tileset@) =~= listing(listed).push(
                                (biome.name@, tiles@[j as int].0@),
                            ));
                            assert(tiles_of(*biome).take(j + 1) =~= tiles_of(*biome).take(j as int).push(
                                (biome.name@, tiles@[j as int].0@),
                            ));
                            assert(listing(set.tileset@) =~= listing(before) + tiles_of(*biome).take(
                                j + 1,
                            ));
                        }
                        j = j + 1;
                    }
                    let ghost rows_before = set.rows();
                    set.biomes_position.push([idx_tile, tiles.len()]);
                    let at: usize = set.biomes_position.len() - 1;
                    set.biomes_mapping.push((biome.name.clone(), at));
                    proof {
                        assert(tiles_of(*biome).take(tiles@.len() as int) =~= tiles_of(*biome));
                        assert(colors_of(*biome).take(tiles@.len() as int) =~= colors_of(*biome));
                        assert(set.rows() =~= rows_before.push(
                            Row { name: biome.name@, start: idx_tile as nat, length: tiles@.len() },
                        ));
                    }
                    idx_tile = idx_tile + tiles.len();
                },
                _ => {
                    assert(!is_kept(biomes@, i as int));
                },
            }
            i = i + 1;
        }
        proof {
            lemma_layout_of(biomes@, biomes@.len());
        }
        Ok(set)
    }

    /// The tiles, in the order of their indices.
    pub fn tileset(&self) -> (r: &Vec<TextureTile>)
        ensures
            r@ == self.tiles(),
    {
        &self.tileset
    }

    /// The colours of the tiles, in the order of their indices.
    pub fn colors(&self) -> (r: &Vec<[u8; 3]>)
        ensures
            r@ == self.palette(),
    {
        &self.colors
    }

    /// The number of biomes that have a block.
    pub fn biome_count(&self) -> (r: usize)
        ensures
            r == self.rows().len(),
    {
        self.biomes_mapping.len()
    }

    /// The block of the biome named `name`, or `MissingBiome` where the
    /// tile set has no biome of that name.
    pub fn biome_range(&self, name: &str) -> (r: Result<BiomeTileRange, ConfigError>)
        requires
            self.wf(),
        ensures
            has_biome(self.rows(), name@) ==> r == Ok::<BiomeTileRange, ConfigError>(
                BiomeTileRange {
                    start_index: row_of(self.rows(), name@).start as usize,
                    length: row_of(self.rows(), name@).length as usize,
                },
            ),
            !has_biome(self.rows(), name@) ==> r == Err::<BiomeTileRange, ConfigError>(
                ConfigError::MissingBiome,
            ),
            has_biome(self.rows(), name@) ==> row_of(self.rows(), name@).start + row_of(
                self.rows(),
                name@,
            ).length <= usize::MAX,
            has_biome(self.rows(), name@) ==> row_of(self.rows(), name@).length >= 1,
    {
        let wanted: String = name.to_owned();
        let mut k: usize = 0;
        while k < self.biomes_mapping.len()
            invariant
                self.wf(),
                wanted@ == name@,
                k <= self.biomes_mapping@.len(),
                forall|j: int| 0 <= j < k ==> (#[trigger] self.rows()[j]).name != name@,
            decreases self.biomes_mapping@.len() - k,
        {
            proof {
                self.lemma_row_at(k as int);
            }
            if self.biomes_mapping[k].0 == wanted {
                let at: usize = self.biomes_mapping[k].1;
                let position = self.biomes_position[at];
                proof {
                    lemma_row_found(self.rows(), k as int, name@);
                    Self::lemma_block_fits(self.rows(), k as int);
                }
                return Ok(BiomeTileRange { start_index: position[0], length: position[1] });
            }
            k = k + 1;
        }
        proof {
            assert(self.rows().len() == self.biomes_mapping@.len());
        }
        Err(ConfigError::MissingBiome)
    }

    proof fn lemma_row_at(self, k: int)
        requires
            self.wf(),
            0 <= k < self.biomes_mapping@.len(),
        ensures
            self.rows().len() == self.biomes_mapping@.len(),
            k < self.biomes_position@.len(),
            self.biomes_mapping@[k].1 == k,
            self.rows()[k].name == self.biomes_mapping@[k].0@,
            self.rows()[k].start == self.biomes_position@[k][0],
            self.rows()[k].length == self.biomes_position@[k][1],
    {
    }

    proof fn lemma_block_fits(rows: Seq<Row>, k: int)
        requires
            is_layout(rows),
            0 <= k < rows.len(),
        ensures
            rows[k].start + rows[k].length <= end_of(rows),
        decreases rows.len() - k,
    {
        if k < rows.len() - 1 {
            Self::lemma_block_fits(rows, k + 1);
            assert(rows[k + 1].start == rows[k].start + rows[k].length);
        }
    }
}

/// Why a tile set could not be laid out.
#[derive(Debug, Clone, Copy, PartialEq, Eq)]
pub enum LayoutError {
    /// The tiles of a biome do not ascend by name.
    UnorderedTiles,
    /// The biomes have more tiles than there is room for.
    TooManyTiles,
}

/// What keeps the tile set of `biomes` from being laid out in room for
/// `capacity` tiles: first tiles that do not ascend by name, then more
/// tiles than there is room for.
pub open spec fn layout_fault(biomes: Seq<Biome>, capacity: usize) -> Option<LayoutError> {
    if !all_ordered(biomes) {
        Some(LayoutError::UnorderedTiles)
    } else if end_of(layout_of(biomes, biomes.len())) > capacity {
        Some(LayoutError::TooManyTiles)
    } else {
        None
    }
}

/// Whether the tiles of every biome that gets a block ascend by name.
pub fn tiles_are_ordered(biomes: &Vec<Biome>) -> (r: bool)
    ensures
        r == all_ordered(biomes@),
{
    let mut i: usize = 0;
    while i < biomes.len()
        invariant
            i <= biomes@.len(),
            forall|k: int| 0 <= k < i && #[trigger] is_kept(biomes@, k) ==> is_ascending(biomes@[k].tiles->0@),
        decreases biomes@.len() - i,
    {
        let fresh = !seen_before(biomes, i);
        match &biomes[i].tiles {
            Some(tiles) if fresh && tiles.len() >= 1 => {
                if !ascending(tiles) {
                    assert(is_kept(biomes@, i as int));
                    return false;
                }
            },
            _ => {
                assert(!is_kept(biomes@, i as int));
            },
        }
        i = i + 1;
    }
    true
}

/// How many tiles the texture of a tile set has room for.
pub const TILE_ROOM: usize = 50;

/// `v` brought into `[lo, hi]`.
pub open spec fn clamp_spec(v: int, lo: int, hi: int) -> int {
    if v < lo {
        lo
    } else if v > hi {
        hi
    } else {
        v
    }
}

/// The tile of `range` that stands for `value` within `[min, max]`: the
/// value is brought into `[min, max]`, carried to the indices of the range
/// and rounded, and the index is brought into the range once more.
pub open spec fn classify_spec(value: int, min: int, max: int, range: BiomeTileRange) -> int {
    let last = range.start_index + range.length - 1;
    clamp_spec(
        scale_to_index_spec(clamp_spec(value, min, max), min, max, range.start_index as int, last),
        range.start_index as int,
        last,
    )
}

/// The tile of `range` that stands for `value` within `[min, max]`.
///
/// The range of values must not be empty or inverted, and the range of
/// tiles must hold a tile and end within `usize`.
pub fn classify(value: Fixed, min: Fixed, max: Fixed, range: BiomeTileRange) -> (r: usize)
    requires
        min < max,
        range.length >= 1,
        range.start_index + range.length - 1 <= usize::MAX,
    ensures
        r == classify_spec(value as int, min as int, max as int, range),
        range.start_index <= r <= range.start_index + range.length - 1,
{
    let last: usize = range.start_index + (range.length - 1);
    let within: Fixed = if value < min {
        min
    } else if value > max {
        max
    } else {
        value
    };
    let index = scale_to_index(within, min, max, range.start_index, last);
    if index < range.start_index {
        range.start_index
    } else if index > last {
        last
    } else {
        index
    }
}

proof fn lemma_round_of_multiple(k: int, d: int)
    requires
        0 <= k,
        0 < d,
    ensures
        crate::fixed::round_ratio(k * d, d) == k,
{
    assert(k * d >= 0) by (nonlinear_arith)
        requires
            0 <= k,
            0 < d,
    ;
    assert(2 * (k * d) + d == k * (2 * d) + d) by (nonlinear_arith);
    vstd::arithmetic::div_mod::lemma_fundamental_div_mod_converse(2 * (k * d) + d, 2 * d, k, d);
}

/// A classified value lies in the range of tiles it was classified into,
/// whatever the value and the range of values.
pub proof fn law_classified_index_is_in_range(value: int, min: int, max: int, range: BiomeTileRange)
    requires
        range.length >= 1,
    ensures
        range.start_index <= classify_spec(value, min, max, range) <= range.start_index + range.length
            - 1,
{
}

/// Values at or below the lower end of the range of values get the first
/// tile of the range of tiles, values at or above the upper end the last.
pub proof fn law_classify_ends(value: int, min: int, max: int, range: BiomeTileRange)
    requires
        min < max,
        range.length >= 1,
        range.start_index + range.length - 1 <= usize::MAX,
    ensures
        value <= min ==> classify_spec(value, min, max, range) == range.start_index,
        value >= max ==> classify_spec(value, min, max, range) == range.start_index + range.length - 1,
{
    let first = range.start_index as int;
    let last = range.start_index + range.length - 1;
    let d = max - min;
    lemma_round_of_multiple(first, d);
    lemma_round_of_multiple(last, d);
    assert((min - min) * (last - first) + first * d == first * d) by (nonlinear_arith);
    assert((max - min) * (last - first) + first * d == last * d) by (nonlinear_arith)
        requires
            d == max - min,
    ;
}

proof fn lemma_round_grows(a: int, b: int, d: int)
    requires
        a <= b,
        0 < d,
    ensures
        crate::fixed::round_ratio(a, d) <= crate::fixed::round_ratio(b, d),
{
    if a >= 0 {
        vstd::arithmetic::div_mod::lemma_div_is_ordered(2 * a + d, 2 * b + d, 2 * d);
    } else if b < 0 {
        vstd::arithmetic::div_mod::lemma_div_is_ordered(2 * (-b) + d, 2 * (-a) + d, 2 * d);
    } else {
        vstd::arithmetic::div_mod::lemma_div_pos_is_pos(2 * (-a) + d, 2 * d);
        vstd::arithmetic::div_mod::lemma_div_pos_is_pos(2 * b + d, 2 * d);
    }
}

/// Of two values the higher is not classified into a lower tile.
pub proof fn law_classify_grows(low: int, high: int, min: int, max: int, range: BiomeTileRange)
    requires
        low <= high,
        min < max,
        range.length >= 1,
    ensures
        classify_spec(low, min, max, range) <= classify_spec(high, min, max, range),
{
    let first = range.start_index as int;
    let last = range.start_index + range.length - 1;
    let d = max - min;
    let a = clamp_spec(low, min, max);
    let b = clamp_spec(high, min, max);
    assert((a - min) * (last - first) <= (b - min) * (last - first)) by (nonlinear_arith)
        requires
            a <= b,
            first <= last,
    ;
    lemma_round_grows((a - min) * (last - first) + first * d, (b - min) * (last - first) + first * d, d);
}

} // verus!
