//! Rows and columns of the redesign game table.
use vstd::prelude::*;

use super::state::{collection_matches, RedesignCollection, RedesignState, TableRow};
use crate::catalog::{clones_of, CloneIndex};
use crate::models::{names, Game};

verus! {

/// Layout of the game table for the available width.
#[derive(Clone, Copy, Debug, PartialEq, Eq, Structural)]
pub enum TableMode {
    Full,
    Compact,
    NarrowWithIcon,
    Narrow,
}

/// A column of the game table.
#[derive(Clone, Copy, Debug, PartialEq, Eq, Structural)]
pub enum TableColumn {
    Expand,
    Star,
    Icon,
    Title,
    Manufacturer,
    Year,
    RomSet,
    Status,
}

/// The columns that each table mode shows, left to right.
pub open spec fn columns_spec(mode: TableMode) -> Seq<TableColumn> {
    match mode {
        TableMode::Full => seq![
            TableColumn::Expand,
            TableColumn::Star,
            TableColumn::Icon,
            TableColumn::Title,
            TableColumn::Manufacturer,
            TableColumn::Year,
            TableColumn::RomSet,
            TableColumn::Status,
        ],
        TableMode::Compact => seq![
            TableColumn::Expand,
            TableColumn::Star,
            TableColumn::Icon,
            TableColumn::Title,
            TableColumn::Year,
            TableColumn::Status,
        ],
        TableMode::NarrowWithIcon => seq![
            TableColumn::Expand,
            TableColumn::Star,
            TableColumn::Icon,
            TableColumn::Title,
            TableColumn::Status,
        ],
        TableMode::Narrow => seq![
            TableColumn::Expand,
            TableColumn::Star,
            TableColumn::Title,
            TableColumn::Status,
        ],
    }
}

impl TableMode {
    /// The columns of this mode, left to right.
    pub fn columns(self) -> (r: Vec<TableColumn>)
        ensures
            r@ == columns_spec(self),
    {
        let mut r: Vec<TableColumn> = Vec::new();
        r.push(TableColumn::Expand);
        r.push(TableColumn::Star);
        match self {
            TableMode::Narrow => {},
            _ => r.push(TableColumn::Icon),
        }
        r.push(TableColumn::Title);
        match self {
            TableMode::Full => {
                r.push(TableColumn::Manufacturer);
                r.push(TableColumn::Year);
                r.push(TableColumn::RomSet);
            },
            TableMode::Compact => r.push(TableColumn::Year),
            _ => {},
        }
        r.push(TableColumn::Status);
        assert(r@ =~= columns_spec(self));
        r
    }
}

/// Every mode keeps the title and the status column, with the status last.
pub proof fn lemma_required_columns_visible(mode: TableMode)
    ensures
        columns_spec(mode).contains(TableColumn::Title),
        columns_spec(mode).last() == TableColumn::Status,
{
    assert(columns_spec(mode)[if mode == TableMode::Narrow {
        2int
    } else {
        3int
    }] == TableColumn::Title);
}

/// Header text of a column.
pub open spec fn header_text_spec(column: TableColumn) -> Seq<char> {
    match column {
        TableColumn::Expand | TableColumn::Icon => ""@,
        TableColumn::Star => "★"@,
        TableColumn::Title => "TITLE"@,
        TableColumn::Manufacturer => "MANUFACTURER"@,
        TableColumn::Year => "YEAR"@,
        TableColumn::RomSet => "SET"@,
        TableColumn::Status => "STATUS"@,
    }
}

/// Header text of a column.
pub fn header_text(column: TableColumn) -> (r: &'static str)
    ensures
        r@ == header_text_spec(column),
{
    match column {
        TableColumn::Expand | TableColumn::Icon => "",
        TableColumn::Star => "★",
        TableColumn::Title => "TITLE",
        TableColumn::Manufacturer => "MANUFACTURER",
        TableColumn::Year => "YEAR",
        TableColumn::RomSet => "SET",
        TableColumn::Status => "STATUS",
    }
}

/// Clone rows for the given clone indices.
pub open spec fn clone_rows(clones: Seq<usize>) -> Seq<TableRow> {
    clones.map_values(|c: usize| TableRow::Clone { index: c })
}

/// The rows contributed by one filtered game: nothing for a clone, a missing
/// index or a game outside the collection; otherwise its parent row followed,
/// when expanded, by one row per clone.
pub open spec fn rows_for(
    games: Seq<Game>,
    idx: usize,
    expanded: Seq<Seq<char>>,
    collection: RedesignCollection,
) -> Seq<TableRow> {
    if idx < games.len() && !games[idx as int].is_clone && collection_matches(
        collection,
        games[idx as int].status,
    ) {
        let clones = clones_of(games, games[idx as int].name@);
        let head = seq![TableRow::Parent { index: idx, clone_count: clones.len() as usize }];
        if expanded.contains(games[idx as int].name@) {
            head + clone_rows(clones)
        } else {
            head
        }
    } else {
        Seq::empty()
    }
}

/// The rows of the game table for the filtered games, in filter order.
pub open spec fn table_rows_spec(
    games: Seq<Game>,
    filtered: Seq<usize>,
    expanded: Seq<Seq<char>>,
    collection: RedesignCollection,
) -> Seq<TableRow>
    decreases filtered.len(),
{
    if filtered.len() == 0 {
        Seq::empty()
    } else {
        table_rows_spec(games, filtered.drop_last(), expanded, collection) + rows_for(
            games,
            filtered.last(),
            expanded,
            collection,
        )
    }
}

/// A table row is sound: a parent row shows a non-clone of the collection, a
/// clone row shows a clone.
pub open spec fn row_sound(games: Seq<Game>, row: TableRow, collection: RedesignCollection) -> bool {
    match row {
        TableRow::Parent { index, .. } => index < games.len() && !games[index as int].is_clone
            && collection_matches(collection, games[index as int].status),
        TableRow::Clone { index } => index < games.len() && games[index as int].is_clone,
    }
}

proof fn lemma_clones_are_clones(games: Seq<Game>, name: Seq<char>, n: int)
    requires
        0 <= n <= games.len(),
        n <= usize::MAX,
    ensures
        forall|k: int|
            0 <= k < clone_indices_len(games, name, n) ==> {
                let c = #[trigger] crate::catalog::clone_indices(games, name, n)[k];
                c < n && games[c as int].is_clone
            },
    decreases n,
{
    if n > 0 {
        lemma_clones_are_clones(games, name, n - 1);
        let prev = crate::catalog::clone_indices(games, name, n - 1);
        let cur = crate::catalog::clone_indices(games, name, n);
        assert forall|k: int| 0 <= k < cur.len() implies {
            let c = #[trigger] cur[k];
            c < n && games[c as int].is_clone
        } by {
            if k < prev.len() {
                assert(cur[k] == prev[k]);
            }
        }
    }
}

/// Length of the clone list among the first `n` games.
pub open spec fn clone_indices_len(games: Seq<Game>, name: Seq<char>, n: int) -> int {
    crate::catalog::clone_indices(games, name, n).len() as int
}

/// Every row built for a filter result is sound: clones are never promoted to
/// parent rows, and the collection's ROM-state predicate holds for every parent.
pub proof fn lemma_table_rows_sound(
    games: Seq<Game>,
    filtered: Seq<usize>,
    expanded: Seq<Seq<char>>,
    collection: RedesignCollection,
)
    requires
        games.len() <= usize::MAX,
    ensures
        forall|k: int|
            0 <= k < table_rows_spec(games, filtered, expanded, collection).len() ==> row_sound(
                games,
                #[trigger] table_rows_spec(games, filtered, expanded, collection)[k],
                collection,
            ),
    decreases filtered.len(),
{
    if filtered.len() > 0 {
        lemma_table_rows_sound(games, filtered.drop_last(), expanded, collection);
        let prev = table_rows_spec(games, filtered.drop_last(), expanded, collection);
        let idx = filtered.last();
        let extra = rows_for(games, idx, expanded, collection);
        let all = table_rows_spec(games, filtered, expanded, collection);
        assert(all == prev + extra);
        if idx < games.len() && !games[idx as int].is_clone && collection_matches(
            collection,
            games[idx as int].status,
        ) {
            lemma_clones_are_clones(games, games[idx as int].name@, games.len() as int);
        }
        assert forall|k: int| 0 <= k < all.len() implies row_sound(
            games,
            #[trigger] all[k],
            collection,
        ) by {
            if k < prev.len() {
                assert(all[k] == prev[k]);
            } else {
                assert(all[k] == extra[k - prev.len()]);
                if k - prev.len() > 0 {
                    let clones = clones_of(games, games[idx as int].name@);
                    assert(extra[k - prev.len()] == clone_rows(clones)[k - prev.len() - 1]);
                }
            }
        }
    }
}

/// When an expanded parent passes the filters, all of its clones follow its row.
pub proof fn lemma_expanded_parent_keeps_all_clones(
    games: Seq<Game>,
    idx: usize,
    expanded: Seq<Seq<char>>,
    collection: RedesignCollection,
)
    requires
        idx < games.len(),
        !games[idx as int].is_clone,
        collection_matches(collection, games[idx as int].status),
        expanded.contains(games[idx as int].name@),
    ensures
        rows_for(games, idx, expanded, collection) == seq![
            TableRow::Parent {
                index: idx,
                clone_count: clones_of(games, games[idx as int].name@).len() as usize,
            },
        ] + clone_rows(clones_of(games, games[idx as int].name@)),
{
}

/// Builds the table rows for the filtered games.
pub fn build_table_rows(
    games: &Vec<Game>,
    filtered: &Vec<usize>,
    expanded_parents: &Vec<String>,
    collection: RedesignCollection,
) -> (rows: Vec<TableRow>)
    ensures
        rows@ == table_rows_spec(games@, filtered@, names(expanded_parents@), collection),
{
    let index = CloneIndex::build(games);
    let mut rows: Vec<TableRow> = Vec::new();
    let mut i: usize = 0;
    while i < filtered.len()
        invariant
            index.describes(games@),
            i <= filtered.len(),
            rows@ == table_rows_spec(
                games@,
                filtered@.take(i as int),
                names(expanded_parents@),
                collection,
            ),
        decreases filtered.len() - i,
    {
        let idx = filtered[i];
        let ghost before = rows@;
        proof {
            assert(filtered@.take(i + 1).drop_last() =~= filtered@.take(i as int));
        }
        if idx < games.len() {
            let game = &games[idx];
            if !game.is_clone && collection.matches_status(game.status) {
                let clones = index.clones_of(games, game.name.as_str());
                rows.push(TableRow::Parent { index: idx, clone_count: clones.len() });
                if crate::models::contains_name(expanded_parents, game.name.as_str()) {
                    let mut j: usize = 0;
                    while j < clones.len()
                        invariant
                            j <= clones.len(),
                            rows@ == before + seq![
                                TableRow::Parent { index: idx, clone_count: clones.len() },
                            ] + clone_rows(clones@.take(j as int)),
                        decreases clones.len() - j,
                    {
                        rows.push(TableRow::Clone { index: clones[j] });
                        j = j + 1;
                        assert(rows@ =~= before + seq![
                            TableRow::Parent { index: idx, clone_count: clones.len() },
                        ] + clone_rows(clones@.take(j as int)));
                    }
                    assert(clones@.take(j as int) =~= clones@);
                    assert(rows@ =~= before + rows_for(
                        games@,
                        idx,
                        names(expanded_parents@),
                        collection,
                    ));
                } else {
                    assert(rows@ =~= before + rows_for(
                        games@,
                        idx,
                        names(expanded_parents@),
                        collection,
                    ));
                }
            } else {
                assert(rows@ =~= before + rows_for(
                    games@,
                    idx,
                    names(expanded_parents@),
                    collection,
                ));
            }
        } else {
            assert(rows@ =~= before + rows_for(games@, idx, names(expanded_parents@), collection));
        }
        i = i + 1;
    }
    assert(filtered@.take(i as int) =~= filtered@);
    rows
}

/// Rebuilds the cached table rows of the redesign state from a filter result.
pub fn rebuild_table_rows(games: &Vec<Game>, filtered: &Vec<usize>, state: &mut RedesignState)
    ensures
        final(state).table_rows@ == table_rows_spec(
            games@,
            filtered@,
            names(old(state).expanded_parents@),
            old(state).collection,
        ),
        *final(state) == (RedesignState {
            table_rows: final(state).table_rows,
            table_rows_dirty: false,
            ..*old(state)
        }),
{
    state.table_rows = build_table_rows(games, filtered, &state.expanded_parents, state.collection);
    state.table_rows_dirty = false;
}

/// Names whose artwork may stand for a game: its own, then its parent's.
pub open spec fn artwork_candidates_spec(g: Game) -> Seq<Seq<char>> {
    match g.parent {
        Some(p) => if p@ != g.name@ {
            seq![g.name@, p@]
        } else {
            seq![g.name@]
        },
        None => seq![g.name@],
    }
}

/// Names whose artwork the table icon may use, in order of preference.
pub fn table_artwork_candidates(game: &Game) -> (r: Vec<&str>)
    ensures
        r@.map_values(|s: &str| s@) == artwork_candidates_spec(*game),
{
    let mut candidates: Vec<&str> = Vec::new();
    candidates.push(game.name.as_str());
    match &game.parent {
        Some(parent) => {
            if !crate::text::same_text(parent.as_str(), game.name.as_str()) {
                candidates.push(parent.as_str());
            }
        },
        None => {},
    }
    assert(candidates@.map_values(|s: &str| s@) =~= artwork_candidates_spec(*game));
    candidates
}

} // verus!
