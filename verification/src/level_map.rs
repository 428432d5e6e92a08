use vstd::prelude::*;

use crate::entity::{predefined, snapshot, Entity, EntityModel, EntityRepository};
use crate::grid::{grid_index, on_field, tile_of, EntityMap, GRID_COLUMNS, GRID_ROWS};

verus! {

/// The test whether an entity's layer is `order`.
pub open spec fn on_layer(order: i32) -> spec_fn(EntityModel) -> bool {
    |entity: EntityModel| entity.draw_order == order
}

/// The entities of `entities` whose layer is `order`, in the order in which
/// they stand.
pub open spec fn drawn_at(entities: Seq<EntityModel>, order: i32) -> Seq<EntityModel> {
    entities.filter(on_layer(order))
}

/// Whether no entity stands before one of a lower layer.
pub open spec fn in_draw_order(entities: Seq<EntityModel>) -> bool {
    forall|i: int, j: int|
        0 <= i <= j < entities.len() ==> entities[i].draw_order <= entities[j].draw_order
}

/// Whether `sorted` is `given` sorted by layer, entities of one layer
/// keeping the order they had. There is exactly one such sequence.
pub open spec fn sorted_stably(sorted: Seq<EntityModel>, given: Seq<EntityModel>) -> bool {
    &&& sorted.len() == given.len()
    &&& in_draw_order(sorted)
    &&& forall|order: i32| drawn_at(sorted, order) == drawn_at(given, order)
}

/// Every entity of a stably sorted sequence is one of the given ones.
pub proof fn lemma_sorted_from_given(sorted: Seq<EntityModel>, given: Seq<EntityModel>, i: int)
    requires
        sorted_stably(sorted, given),
        0 <= i < sorted.len(),
    ensures
        given.contains(sorted[i]),
{
    let order = sorted[i].draw_order;
    sorted.lemma_filter_contains(on_layer(order), i);
    assert(drawn_at(given, order).contains(sorted[i]));
    given.lemma_filter_contains_rev(on_layer(order), sorted[i]);
}

/// Taking an entity out and putting it back further to the front leaves
/// every layer as it was, if it passes no entity of its own layer.
proof fn lemma_move_forward(entities: Seq<EntityModel>, from: int, to: int, order: i32)
    requires
        0 <= to <= from < entities.len(),
        forall|k: int| to <= k < from ==> entities[k].draw_order != entities[from].draw_order,
    ensures
        drawn_at(entities.remove(from).insert(to, entities[from]), order) == drawn_at(
            entities,
            order,
        ),
{
    let kept = on_layer(order);
    let head = entities.subrange(0, to);
    let passed = entities.subrange(to, from);
    let one = seq![entities[from]];
    let tail = entities.subrange(from + 1, entities.len() as int);
    let moved = entities.remove(from).insert(to, entities[from]);
    assert(entities =~= head + passed + one + tail);
    assert(moved =~= head + one + passed + tail);
    Seq::filter_distributes_over_add(head + passed + one, tail, kept);
    Seq::filter_distributes_over_add(head + passed, one, kept);
    Seq::filter_distributes_over_add(head, passed, kept);
    Seq::filter_distributes_over_add(head + one + passed, tail, kept);
    Seq::filter_distributes_over_add(head + one, passed, kept);
    Seq::filter_distributes_over_add(head, one, kept);
    if entities[from].draw_order == order {
        assert(passed.all(|entity: EntityModel| !kept(entity)));
        passed.lemma_all_neg_filter_empty(kept);
        assert(passed.filter(kept) =~= Seq::empty());
    } else {
        assert(one.all(|entity: EntityModel| !kept(entity)));
        one.lemma_all_neg_filter_empty(kept);
        assert(one.filter(kept) =~= Seq::empty());
    }
    assert(moved.filter(kept) =~= entities.filter(kept));
}

/// Sorts `entities` by layer, lowest first. Entities of one layer keep the
/// order they had.
pub fn sort_by_draw_order(entities: &mut Vec<Entity>)
    ensures
        sorted_stably(snapshot(final(entities)@), snapshot(old(entities)@)),
{
    let ghost given = snapshot(entities@);
    let mut i: usize = 0;
    while i < entities.len()
        invariant
            i <= entities.len(),
            entities.len() == given.len(),
            forall|a: int, b: int|
                0 <= a <= b < i ==> entities@[a].draw_order <= entities@[b].draw_order,
            forall|order: i32| drawn_at(snapshot(entities@), order) == drawn_at(given, order),
        decreases entities.len() - i,
    {
        let layer = entities[i].draw_order;
        let mut j: usize = i;
        while j > 0 && entities[j - 1].draw_order > layer
            invariant
                j <= i < entities.len(),
                layer == entities@[i as int].draw_order,
                forall|k: int| j <= k < i ==> entities@[k].draw_order > layer,
            decreases j,
        {
            j -= 1;
        }
        if j < i {
            let ghost before = entities@;
            let entity = entities.remove(i);
            entities.insert(j, entity);
            proof {
                let models = snapshot(before);
                assert(snapshot(entities@) =~= models.remove(i as int).insert(
                    j as int,
                    models[i as int],
                ));
                assert forall|order: i32|
                    drawn_at(snapshot(entities@), order) == drawn_at(given, order) by {
                    lemma_move_forward(models, i as int, j as int, order);
                }
                assert forall|a: int, b: int| 0 <= a <= b < i + 1 implies entities@[a].draw_order
                    <= entities@[b].draw_order by {
                    if a < j {
                        assert(entities@[a] == before[a]);
                        if j > 0 {
                            assert(before[a].draw_order <= before[j - 1].draw_order);
                        }
                    } else if a > j {
                        assert(entities@[a] == before[a - 1]);
                    }
                    if b < j {
                        assert(entities@[b] == before[b]);
                    } else if b > j {
                        assert(entities@[b] == before[b - 1]);
                    }
                }
            }
        }
        i += 1;
    }
}

/// The predefined entity filed under `key`, standing on tile (`column`,
/// `row`) at the pixel position that belongs to it.
pub open spec fn stationed(
    key: Seq<char>,
    column: int,
    row: int,
    tile_size: (u32, u32),
) -> EntityModel {
    EntityModel {
        position: ((column * tile_size.0) as i32, (row * tile_size.1) as i32),
        tile: (column as i32, row as i32),
        ..predefined(key, tile_size)->0
    }
}

/// The entities of level `level` in the order in which the level lists
/// them. A level that does not exist has none.
pub open spec fn level_placements(level: i32, tile_size: (u32, u32)) -> Seq<EntityModel> {
    if level == 1 {
        seq![stationed("Logi"@, 0, 0, tile_size)]
    } else if level == 2 {
        seq![
            stationed("Logi"@, 0, 0, tile_size),
            stationed("Goal"@, 0, 6, tile_size),
            stationed("LogiText"@, 3, 1, tile_size),
            stationed("GoalText"@, 3, 3, tile_size),
            stationed("Stop"@, 6, 1, tile_size),
            stationed("Push"@, 6, 3, tile_size),
            stationed("Is"@, 5, 4, tile_size),
        ]
    } else {
        Seq::empty()
    }
}

/// The size of a tile, (width, height), in a view of `viewport_width` by
/// `viewport_height` pixels.
pub open spec fn tile_size_in(viewport_width: u32, viewport_height: u32) -> (u32, u32) {
    (viewport_width / (GRID_COLUMNS as u32), viewport_height / (GRID_ROWS as u32))
}

/// Whether level `level` can be laid out in a view of `viewport_width` by
/// `viewport_height` pixels: a level that has entities needs tiles at least
/// one pixel wide and high, and the pixel position of each of its entities
/// must be an `i32` value. The entities of the second level reach to the
/// seventh column and the seventh row.
pub open spec fn has_room(level: i32, viewport_width: u32, viewport_height: u32) -> bool {
    let size = tile_size_in(viewport_width, viewport_height);
    &&& level == 1 || level == 2 ==> size.0 > 0 && size.1 > 0
    &&& level == 2 ==> 6 * size.0 <= i32::MAX && 6 * size.1 <= i32::MAX
}

/// Whether level `level` can be loaded for a view of `viewport_width` by
/// `viewport_height` pixels.
pub fn can_load(level: i32, viewport_width: u32, viewport_height: u32) -> (possible: bool)
    ensures
        possible == has_room(level, viewport_width, viewport_height),
{
    let tile_width = viewport_width / 12;
    let tile_height = viewport_height / 8;
    if level == 1 {
        tile_width > 0 && tile_height > 0
    } else if level == 2 {
        tile_width > 0 && tile_height > 0 && tile_height <= 0x7fff_ffff / 6
    } else {
        true
    }
}

/// A level as loaded: its entities, sorted by layer, and their grid index.
#[derive(Debug)]
pub struct LevelMap {
    pub entities: Vec<Entity>,
    pub entity_map: EntityMap,
}

impl LevelMap {
    /// Loads level `level_to_load` for a view of `viewport_width` by
    /// `viewport_height` pixels.
    pub fn new(level_to_load: i32, viewport_width: u32, viewport_height: u32) -> (level: LevelMap)
        requires
            has_room(level_to_load, viewport_width, viewport_height),
        ensures
            sorted_stably(
                snapshot(level.entities@),
                level_placements(level_to_load, tile_size_in(viewport_width, viewport_height)),
            ),
            level.entity_map@ == grid_index(snapshot(level.entities@)),
            forall|i: int|
                0 <= i < level.entities.len() ==> on_field(
                    tile_of(#[trigger] level.entities[i].tile),
                ),
    {
        let entities = Self::get_level_map(level_to_load, viewport_width, viewport_height);
        let mut entity_map = EntityMap::new();
        entity_map.rebuild(&entities);
        LevelMap { entities, entity_map }
    }

    /// The entities of level `level`, sorted by layer, for a view of
    /// `viewport_width` by `viewport_height` pixels.
    pub fn get_level_map(level: i32, viewport_width: u32, viewport_height: u32) -> (entities: Vec<
        Entity,
    >)
        requires
            has_room(level, viewport_width, viewport_height),
        ensures
            sorted_stably(
                snapshot(entities@),
                level_placements(level, tile_size_in(viewport_width, viewport_height)),
            ),
            forall|i: int|
                0 <= i < entities.len() ==> on_field(tile_of(#[trigger] entities[i].tile)),
    {
        let tile_width = viewport_width / 12;
        let tile_height = viewport_height / 8;
        let mut entities: Vec<Entity> = Vec::new();
        let entity_repo = EntityRepository::new(tile_width, tile_height);
        let ghost size = (tile_width, tile_height);
        if level == 1 {
            entities.push(Self::station(&entity_repo, "Logi", 0, 0));
        } else if level == 2 {
            entities.push(Self::station(&entity_repo, "Logi", 0, 0));
            entities.push(Self::station(&entity_repo, "Goal", 0, 6));
            entities.push(Self::station(&entity_repo, "LogiText", 3, 1));
            entities.push(Self::station(&entity_repo, "GoalText", 3, 3));
            entities.push(Self::station(&entity_repo, "Stop", 6, 1));
            entities.push(Self::station(&entity_repo, "Push", 6, 3));
            entities.push(Self::station(&entity_repo, "Is", 5, 4));
        }
        let ghost placements = snapshot(entities@);
        assert(placements =~= level_placements(level, size));
        sort_by_draw_order(&mut entities);
        proof {
            assert forall|i: int| 0 <= i < entities.len() implies on_field(
                tile_of(#[trigger] entities[i].tile),
            ) by {
                lemma_sorted_from_given(snapshot(entities@), placements, i);
                let k = choose|k: int|
                    0 <= k < placements.len() && placements[k] == snapshot(entities@)[i];
                assert(on_field(tile_of(placements[k].tile)));
            }
        }
        entities
    }

    /// The predefined entity filed under `name`, made at the pixel position
    /// of tile (`column`, `row`).
    fn station(repository: &EntityRepository, name: &str, column: i32, row: i32) -> (entity: Entity)
        requires
            predefined(name@, repository.tile_size()) is Some,
            0 < repository.tile_size().0 <= i32::MAX,
            0 < repository.tile_size().1 <= i32::MAX,
            0 <= column < GRID_COLUMNS,
            0 <= row < GRID_ROWS,
            column * repository.tile_size().0 <= i32::MAX,
            row * repository.tile_size().1 <= i32::MAX,
        ensures
            entity@ == stationed(name@, column as int, row as int, repository.tile_size()),
    {
        let tile_width = repository.tile_width();
        let tile_height = repository.tile_height();
        assert(0 <= column * tile_width) by (nonlinear_arith)
            requires
                0 <= column,
                0 < tile_width,
        ;
        assert(0 <= row * tile_height) by (nonlinear_arith)
            requires
                0 <= row,
                0 < tile_height,
        ;
        let x_pos = column * (tile_width as i32);
        let y_pos = row * (tile_height as i32);
        assert((column * tile_width) / (tile_width as int) == column) by (nonlinear_arith)
            requires
                tile_width > 0,
        ;
        assert((row * tile_height) / (tile_height as int) == row) by (nonlinear_arith)
            requires
                tile_height > 0,
        ;
        let created = repository.create_entity(name, x_pos, y_pos);
        created.unwrap()
    }
}

} // verus!
