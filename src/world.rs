//! The entity store and the state that one simulation owns.

use vstd::prelude::*;
use crate::components::{Entity, MonsterStats, Role, monster_spawn_timer, blast_spawn_timer};
use crate::timer::Timer;

verus! {

/// Everything one game session simulates.
pub struct World {
    pub entities: Vec<Entity>,
    pub next_id: u64,
    pub stats: MonsterStats,
    pub monster_spawn_timer: Timer,
    pub blast_spawn_timer: Timer,
    /// A new game was asked for and not yet started.
    pub new_game_requested: bool,
}

pub open spec fn entities_wf(s: Seq<Entity>) -> bool {
    forall|i: int| 0 <= i < s.len() ==> #[trigger] s[i].wf()
}

/// Index of the first entity with the given role, if any.
pub open spec fn first_with_role(s: Seq<Entity>, role: Role) -> Option<int> {
    if exists|i: int| 0 <= i < s.len() && s[i].role == role {
        Some(
            choose|i: int|
                0 <= i < s.len() && s[i].role == role && forall|k: int|
                    0 <= k < i ==> s[k].role != role,
        )
    } else {
        None
    }
}

/// Finds the first entity with the given role.
pub fn find_role(entities: &Vec<Entity>, role: Role) -> (r: Option<usize>)
    ensures
        match r {
            Some(i) => i < entities@.len() && entities@[i as int].role == role && forall|k: int|
                0 <= k < i ==> entities@[k].role != role,
            None => forall|k: int| 0 <= k < entities@.len() ==> entities@[k].role != role,
        },
        r matches Some(i) ==> first_with_role(entities@, role) == Some(i as int),
        r is None ==> first_with_role(entities@, role) is None,
{
    let mut i: usize = 0;
    while i < entities.len()
        invariant
            i <= entities@.len(),
            forall|k: int| 0 <= k < i ==> entities@[k].role != role,
        decreases entities@.len() - i,
    {
        if entities[i].role == role {
            proof {
                let s = entities@;
                let j = first_with_role(s, role)->Some_0;
                assert(0 <= j < s.len() && s[j].role == role && forall|k: int|
                    0 <= k < j ==> s[k].role != role);
                assert(j == i) by {
                    if j < i {
                    } else if j > i {
                    }
                }
            }
            return Some(i);
        }
        i = i + 1;
    }
    None
}

impl World {
    pub open spec fn wf(&self) -> bool {
        &&& entities_wf(self.entities@)
        &&& self.monster_spawn_timer.wf()
        &&& self.blast_spawn_timer.wf()
    }

    /// An empty world with both spawn timers paused and a new game asked for.
    pub fn new() -> (r: World)
        ensures
            r.wf(),
            r.entities@.len() == 0,
            r.new_game_requested,
            r.stats.spawned == 0 && r.stats.killed == 0,
            r.monster_spawn_timer.paused && r.blast_spawn_timer.paused,
    {
        World {
            entities: Vec::new(),
            next_id: 0,
            stats: MonsterStats::new(),
            monster_spawn_timer: monster_spawn_timer(),
            blast_spawn_timer: blast_spawn_timer(),
            new_game_requested: true,
        }
    }

    /// Number of entities with the given role.
    pub fn count_role(&self, role: Role) -> (r: usize)
        ensures
            r == self.entities@.filter(|e: Entity| e.role == role).len(),
    {
        let mut n: usize = 0;
        let mut i: usize = 0;
        while i < self.entities.len()
            invariant
                i <= self.entities@.len(),
                n == self.entities@.subrange(0, i as int).filter(|e: Entity| e.role == role).len(),
                n <= i,
            decreases self.entities@.len() - i,
        {
            proof {
                lemma_filter_step(self.entities@, i as int, |e: Entity| e.role == role);
            }
            if self.entities[i].role == role {
                n = n + 1;
            }
            i = i + 1;
        }
        proof {
            assert(self.entities@.subrange(0, i as int) == self.entities@);
        }
        n
    }
}

/// Filtering a prefix one element longer adds that element where it passes.
pub proof fn lemma_filter_step(s: Seq<Entity>, i: int, p: spec_fn(Entity) -> bool)
    requires
        0 <= i < s.len(),
    ensures
        s.subrange(0, i + 1).filter(p) == (if p(s[i]) {
            s.subrange(0, i).filter(p).push(s[i])
        } else {
            s.subrange(0, i).filter(p)
        }),
{
    reveal(Seq::filter);
    assert(s.subrange(0, i + 1).drop_last() == s.subrange(0, i));
}

} // verus!
