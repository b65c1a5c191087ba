//! The grid controller: one tile per descriptor, in the same order, whose
//! visibility follows the search query.

use vstd::prelude::*;
use vstd::string::*;
use crate::index::{descriptor_views, DescriptorView, EmojiDescriptor};
use crate::text::{is_substring, lowercase_of, to_lowercase};

verus! {

/// One cell of the grid. It shows a glyph and is either shown or hidden.
pub struct Tile {
    /// The emoji that the tile displays and that a click on it copies.
    pub glyph: &'static str,
    /// Whether the tile is currently shown.
    pub visible: bool,
}

/// What a tile holds: its glyph as a character sequence, and its flag.
pub struct TileView {
    pub glyph: Seq<char>,
    pub visible: bool,
}

impl View for Tile {
    type V = TileView;

    open spec fn view(&self) -> TileView {
        TileView { glyph: self.glyph@, visible: self.visible }
    }
}

/// What a click on a tile asks of the clipboard and of the feedback label.
pub struct CopyAction {
    /// The text to put on the general clipboard.
    pub clipboard: &'static str,
    /// The text to put on the primary selection.
    pub primary: &'static str,
    /// The new text of the feedback label.
    pub feedback: String,
}

/// The confirmation shown after `glyph` was copied.
pub open spec fn feedback_of(glyph: Seq<char>) -> Seq<char> {
    glyph + " copied to clipboard !"@
}

impl Tile {
    /// The action bound to a click on this tile: copy the tile's own glyph to
    /// both selection targets and confirm it in the feedback label. Whether
    /// the tile is shown or hidden makes no difference.
    pub fn click(&self) -> (action: CopyAction)
        ensures
            action.clipboard == self.glyph,
            action.primary == self.glyph,
            action.feedback@ == feedback_of(self.glyph@),
    {
        let mut feedback = String::from_str(self.glyph);
        feedback.append(" copied to clipboard !");
        CopyAction { clipboard: self.glyph, primary: self.glyph, feedback }
    }
}

/// What a list of tiles holds, position by position.
pub open spec fn tile_views(tiles: Seq<Tile>) -> Seq<TileView> {
    Seq::new(tiles.len(), |i: int| tiles[i]@)
}

/// Tile `i` stands for descriptor `i`: there are as many tiles as
/// descriptors, and each tile shows the glyph of the descriptor at its place.
pub open spec fn corresponds(descriptors: Seq<DescriptorView>, tiles: Seq<TileView>) -> bool {
    &&& tiles.len() == descriptors.len()
    &&& forall|i: int| 0 <= i < tiles.len() ==> (#[trigger] tiles[i]).glyph == descriptors[i].glyph
}

/// The grid as it is first shown: one visible tile per descriptor.
pub open spec fn fresh_tiles(descriptors: Seq<DescriptorView>) -> Seq<TileView> {
    Seq::new(descriptors.len(), |i: int| TileView { glyph: descriptors[i].glyph, visible: true })
}

/// Tile `i` after a filter pass with a lowercased query. The glyph stays. An
/// empty query shows the tile. Any other query shows it exactly if the query
/// occurs in the keywords of descriptor `i`; a tile that has no descriptor
/// keeps its flag.
pub open spec fn tile_after(
    descriptors: Seq<DescriptorView>,
    before: Seq<TileView>,
    normalized_query: Seq<char>,
    i: int,
) -> TileView {
    TileView {
        glyph: before[i].glyph,
        visible: if normalized_query.len() == 0 {
            true
        } else if i < descriptors.len() {
            is_substring(normalized_query, descriptors[i].keywords)
        } else {
            before[i].visible
        },
    }
}

/// The grid after a filter pass with a lowercased query.
pub open spec fn filtered(
    descriptors: Seq<DescriptorView>,
    before: Seq<TileView>,
    normalized_query: Seq<char>,
) -> Seq<TileView> {
    Seq::new(before.len(), |i: int| tile_after(descriptors, before, normalized_query, i))
}

/// Creates the tiles of a grid: one per descriptor, in descriptor order, all
/// of them shown.
pub fn build_tiles(descriptors: &Vec<EmojiDescriptor>) -> (tiles: Vec<Tile>)
    ensures
        tile_views(tiles@) == fresh_tiles(descriptor_views(descriptors@)),
        corresponds(descriptor_views(descriptors@), tile_views(tiles@)),
        forall|i: int| 0 <= i < tiles.len() ==> (#[trigger] tiles[i]).glyph == descriptors[i].glyph,
{
    let mut tiles: Vec<Tile> = Vec::new();
    let mut i: usize = 0;
    while i < descriptors.len()
        invariant
            i <= descriptors.len(),
            tiles.len() == i,
            forall|k: int| 0 <= k < i ==> (#[trigger] tiles[k]).glyph == descriptors[k].glyph,
            forall|k: int| 0 <= k < i ==> (#[trigger] tiles[k]).visible,
        decreases descriptors.len() - i,
    {
        tiles.push(Tile { glyph: descriptors[i].glyph, visible: true });
        i = i + 1;
    }
    proof {
        assert(tile_views(tiles@) =~= fresh_tiles(descriptor_views(descriptors@)));
    }
    tiles
}

/// Shows every tile, whatever its state was. The descriptors play no part.
pub fn show_all(tiles: &mut Vec<Tile>)
    ensures
        final(tiles).len() == old(tiles).len(),
        forall|i: int|
            0 <= i < final(tiles).len() ==> (#[trigger] final(tiles)[i]).glyph == old(tiles)[i].glyph,
        forall|i: int| 0 <= i < final(tiles).len() ==> (#[trigger] final(tiles)[i]).visible,
{
    let mut i: usize = 0;
    while i < tiles.len()
        invariant
            i <= tiles.len(),
            tiles.len() == old(tiles).len(),
            forall|k: int| 0 <= k < tiles.len() ==> (#[trigger] tiles[k]).glyph == old(tiles)[k].glyph,
            forall|k: int| 0 <= k < i ==> (#[trigger] tiles[k]).visible,
        decreases tiles.len() - i,
    {
        let glyph = tiles[i].glyph;
        tiles.set(i, Tile { glyph, visible: true });
        i = i + 1;
    }
}

/// One filter pass with a query that is already in lowercase.
///
/// An empty query shows every tile. Any other query walks descriptors and
/// tiles in step, as far as both reach, and shows tile `i` exactly if the
/// query occurs in the keywords of descriptor `i`. No tile moves or changes
/// its glyph.
pub fn filter_normalized(
    descriptors: &Vec<EmojiDescriptor>,
    tiles: &mut Vec<Tile>,
    normalized_query: &str,
)
    ensures
        tile_views(final(tiles)@) == filtered(
            descriptor_views(descriptors@),
            tile_views(old(tiles)@),
            normalized_query@,
        ),
        final(tiles).len() == old(tiles).len(),
        forall|i: int|
            0 <= i < final(tiles).len() ==> (#[trigger] final(tiles)[i]).glyph == old(tiles)[i].glyph,
        corresponds(descriptor_views(descriptors@), tile_views(old(tiles)@)) ==> corresponds(
            descriptor_views(descriptors@),
            tile_views(final(tiles)@),
        ),
{
    if normalized_query.is_empty() {
        show_all(tiles);
        proof {
            assert(tile_views(tiles@) =~= filtered(
                descriptor_views(descriptors@),
                tile_views(old(tiles)@),
                normalized_query@,
            ));
        }
        return ;
    }
    let paired: usize = if descriptors.len() < tiles.len() {
        descriptors.len()
    } else {
        tiles.len()
    };
    let mut i: usize = 0;
    while i < paired
        invariant
            i <= paired,
            paired <= descriptors.len(),
            paired <= tiles.len(),
            tiles.len() == old(tiles).len(),
            forall|k: int| 0 <= k < tiles.len() ==> (#[trigger] tiles[k]).glyph == old(tiles)[k].glyph,
            forall|k: int|
                0 <= k < i ==> (#[trigger] tiles[k]).visible == is_substring(
                    normalized_query@,
                    descriptors[k].keywords@,
                ),
            forall|k: int| i <= k < tiles.len() ==> (#[trigger] tiles[k]).visible == old(tiles)[k].visible,
        decreases paired - i,
    {
        let visible = descriptors[i].matches(normalized_query);
        let glyph = tiles[i].glyph;
        tiles.set(i, Tile { glyph, visible });
        i = i + 1;
    }
    proof {
        assert(tile_views(tiles@) =~= filtered(
            descriptor_views(descriptors@),
            tile_views(old(tiles)@),
            normalized_query@,
        ));
    }
}

/// The filter pass that runs whenever the search text changes: lowercases
/// the query and shows or hides each tile accordingly.
///
/// The empty query shows every tile. Otherwise tile `i`, where descriptor
/// `i` exists, ends up shown exactly if the lowercased query occurs in that
/// descriptor's keywords. A tile without a descriptor keeps its state unless
/// the lowercased query is empty.
pub fn filter(descriptors: &Vec<EmojiDescriptor>, tiles: &mut Vec<Tile>, query: &str)
    ensures
        tile_views(final(tiles)@) == filtered(
            descriptor_views(descriptors@),
            tile_views(old(tiles)@),
            lowercase_of(query@),
        ),
        final(tiles).len() == old(tiles).len(),
        forall|i: int|
            0 <= i < final(tiles).len() ==> (#[trigger] final(tiles)[i]).glyph == old(tiles)[i].glyph,
        corresponds(descriptor_views(descriptors@), tile_views(old(tiles)@)) ==> corresponds(
            descriptor_views(descriptors@),
            tile_views(final(tiles)@),
        ),
        query@.len() == 0 ==> forall|i: int|
            0 <= i < final(tiles).len() ==> (#[trigger] final(tiles)[i]).visible,
        query@.len() > 0 ==> forall|i: int|
            #![trigger final(tiles)[i]]
            0 <= i < final(tiles).len() && i < descriptors.len() ==> final(tiles)[i].visible
                == is_substring(lowercase_of(query@), descriptors[i].keywords@),
        query@.len() > 0 ==> forall|i: int|
            descriptors.len() <= i < final(tiles).len() ==> (#[trigger] final(tiles)[i]).visible
                == old(tiles)[i].visible,
{
    let normalized = to_lowercase(query);
    filter_normalized(descriptors, tiles, normalized.as_str());
    proof {
        let after = tile_views(tiles@);
        assert forall|i: int| 0 <= i < tiles.len() implies (#[trigger] tiles[i])@ == tile_after(
            descriptor_views(descriptors@),
            tile_views(old(tiles)@),
            lowercase_of(query@),
            i,
        ) by {
            assert(after[i] == tiles[i]@);
        }
    }
}

/// A filter pass answers a non-empty lowercased query tile by tile: where
/// descriptor `i` and tile `i` both exist, the tile is shown exactly if the
/// query occurs in the descriptor's keywords.
pub proof fn lemma_visible_iff_match(
    descriptors: Seq<DescriptorView>,
    before: Seq<TileView>,
    normalized_query: Seq<char>,
    i: int,
)
    requires
        normalized_query.len() > 0,
        0 <= i < before.len(),
        i < descriptors.len(),
    ensures
        filtered(descriptors, before, normalized_query)[i].visible <==> is_substring(
            normalized_query,
            descriptors[i].keywords,
        ),
{
}

/// A filter pass with the empty query shows every tile, whatever the tiles'
/// state was before and whatever the descriptors are.
pub proof fn lemma_empty_query_shows_all(descriptors: Seq<DescriptorView>, before: Seq<TileView>)
    ensures
        filtered(descriptors, before, Seq::empty()).len() == before.len(),
        forall|i: int|
            0 <= i < before.len() ==> (#[trigger] filtered(descriptors, before, Seq::empty())[i]).visible,
{
}

/// Filtering is idempotent: a second pass with the same query changes
/// nothing.
pub proof fn lemma_filter_idempotent(
    descriptors: Seq<DescriptorView>,
    before: Seq<TileView>,
    normalized_query: Seq<char>,
)
    ensures
        filtered(descriptors, filtered(descriptors, before, normalized_query), normalized_query)
            == filtered(descriptors, before, normalized_query),
{
    let once = filtered(descriptors, before, normalized_query);
    assert(filtered(descriptors, once, normalized_query) =~= once);
}

/// A filter pass overrides the one before it: where every tile has a
/// descriptor, the grid after two passes is the grid after the second alone.
pub proof fn lemma_last_query_wins(
    descriptors: Seq<DescriptorView>,
    before: Seq<TileView>,
    first: Seq<char>,
    second: Seq<char>,
)
    requires
        before.len() <= descriptors.len(),
    ensures
        filtered(descriptors, filtered(descriptors, before, first), second) == filtered(
            descriptors,
            before,
            second,
        ),
{
    let once = filtered(descriptors, before, first);
    assert(filtered(descriptors, once, second) =~= filtered(descriptors, before, second));
}

/// A fresh grid corresponds to its descriptors.
pub proof fn lemma_fresh_tiles_correspond(descriptors: Seq<DescriptorView>)
    ensures
        corresponds(descriptors, fresh_tiles(descriptors)),
{
}

/// Filtering keeps every tile at its place: a grid that corresponds to its
/// descriptors still does after a filter pass, whatever the query.
pub proof fn lemma_filter_keeps_correspondence(
    descriptors: Seq<DescriptorView>,
    before: Seq<TileView>,
    normalized_query: Seq<char>,
)
    requires
        corresponds(descriptors, before),
    ensures
        corresponds(descriptors, filtered(descriptors, before, normalized_query)),
{
}

} // verus!
