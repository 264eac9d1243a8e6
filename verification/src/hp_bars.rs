//! Health bars of enemies: which enemy shows one, and the reconciliation
//! that creates, updates and removes them.

use vstd::prelude::*;
use std::collections::{HashMap, HashSet};
use crate::combat::Actor;
use vstd::std_specs::hash::*;
use vstd::std_specs::iter::IteratorSpec;

verus! {

broadcast use vstd::std_specs::hash::group_hash_axioms;

/// The health bar of an enemy: whose it is and how full, in millionths.
#[derive(Clone, Copy, Debug, PartialEq, Eq, Structural)]
pub struct EnemyHpBar {
    pub owner: u64,
    pub ratio: u32,
}

/// Which indicator shows the health of which enemy: from the enemy's handle
/// to the indicator's.
#[derive(Debug)]
pub struct EnemyHpBarMap(pub HashMap<u64, u64>);

/// What a reconciliation asks of the caller: indicators to create, to bring
/// up to date and to remove.
#[derive(Debug)]
pub struct BarSync {
    /// Bars of enemies that have none yet. The caller creates an indicator
    /// for each and attaches it.
    pub create: Vec<EnemyHpBar>,
    /// Indicators that exist already, each with what it now shows.
    pub update: Vec<(u64, EnemyHpBar)>,
    /// Entries that have left the mapping, as owner and indicator: the
    /// caller removes the indicators.
    pub remove: Vec<(u64, u64)>,
}

/// What the death pass found: the enemies that died, and the entries that
/// left the mapping, as owner and indicator.
#[derive(Debug)]
pub struct DeathReport {
    pub dead: Vec<u64>,
    pub remove: Vec<(u64, u64)>,
}

/// No two owners share an indicator.
pub open spec fn one_to_one(bars: Map<u64, u64>) -> bool {
    forall|a: u64, b: u64|
        bars.contains_key(a) && bars.contains_key(b) && a != b ==> #[trigger] bars[a]
            != #[trigger] bars[b]
}

/// The handles of the actors that are damaged but alive: those that show a
/// health bar.
pub open spec fn shown(actors: Seq<Actor>) -> Set<u64> {
    Set::new(
        |h: u64|
            exists|i: int|
                0 <= i < actors.len() && (#[trigger] actors[i]).handle == h
                    && actors[i].health.damaged_alive(),
    )
}

/// The handles of all `actors`.
pub open spec fn handles(actors: Seq<Actor>) -> Set<u64> {
    Set::new(|h: u64| exists|i: int| 0 <= i < actors.len() && (#[trigger] actors[i]).handle == h)
}

/// The bar that shows `actor`'s health.
pub open spec fn bar_of(actor: Actor) -> EnemyHpBar {
    EnemyHpBar { owner: actor.handle, ratio: actor.health.spec_ratio() as u32 }
}

/// The bars to create: one for every actor that is damaged but alive and
/// has no entry in `bars`, in the order of `actors`.
pub open spec fn bars_to_create(actors: Seq<Actor>, bars: Map<u64, u64>) -> Seq<EnemyHpBar>
    decreases actors.len(),
{
    if actors.len() == 0 {
        Seq::empty()
    } else if actors.last().health.damaged_alive() && !bars.contains_key(actors.last().handle) {
        bars_to_create(actors.drop_last(), bars).push(bar_of(actors.last()))
    } else {
        bars_to_create(actors.drop_last(), bars)
    }
}

/// The indicators to bring up to date: that of every actor that is damaged
/// but alive and has an entry in `bars`, in the order of `actors`.
pub open spec fn bars_to_update(actors: Seq<Actor>, bars: Map<u64, u64>) -> Seq<(u64, EnemyHpBar)>
    decreases actors.len(),
{
    if actors.len() == 0 {
        Seq::empty()
    } else if actors.last().health.damaged_alive() && bars.contains_key(actors.last().handle) {
        bars_to_update(actors.drop_last(), bars).push(
            (bars[actors.last().handle], bar_of(actors.last())),
        )
    } else {
        bars_to_update(actors.drop_last(), bars)
    }
}

/// The actors that are not dead, in their order.
pub open spec fn survivors(actors: Seq<Actor>) -> Seq<Actor>
    decreases actors.len(),
{
    if actors.len() == 0 {
        Seq::empty()
    } else if actors.last().health.dead() {
        survivors(actors.drop_last())
    } else {
        survivors(actors.drop_last()).push(actors.last())
    }
}

/// The handles of the actors that are dead, in their order.
pub open spec fn casualties(actors: Seq<Actor>) -> Seq<u64>
    decreases actors.len(),
{
    if actors.len() == 0 {
        Seq::empty()
    } else if actors.last().health.dead() {
        casualties(actors.drop_last()).push(actors.last().handle)
    } else {
        casualties(actors.drop_last())
    }
}

/// Every survivor was among the actors and is not dead, and every actor that
/// is not dead survives.
pub proof fn lemma_survivors(actors: Seq<Actor>)
    ensures
        forall|i: int|
            0 <= i < survivors(actors).len() ==> !(#[trigger] survivors(actors)[i]).health.dead()
                && actors.contains(survivors(actors)[i]),
        forall|i: int|
            0 <= i < actors.len() && !(#[trigger] actors[i]).health.dead() ==> survivors(
                actors,
            ).contains(actors[i]),
    decreases actors.len(),
{
    if actors.len() > 0 {
        let rest = actors.drop_last();
        lemma_survivors(rest);
        let s = survivors(actors);
        assert forall|i: int| 0 <= i < s.len() implies !(#[trigger] s[i]).health.dead()
            && actors.contains(s[i]) by {
            if i < survivors(rest).len() {
                let a = survivors(rest)[i];
                assert(rest.contains(a));
                let j = choose|j: int| 0 <= j < rest.len() && rest[j] == a;
                assert(actors[j] == a);
            } else {
                assert(actors[actors.len() - 1] == s[i]);
            }
        }
        assert forall|i: int| 0 <= i < actors.len() && !(#[trigger] actors[i]).health.dead() implies s.contains(
            actors[i],
        ) by {
            if i < rest.len() {
                assert(rest[i] == actors[i]);
                assert(survivors(rest).contains(rest[i]));
                let j = choose|j: int| 0 <= j < survivors(rest).len() && survivors(rest)[j] == rest[i];
                assert(s[j] == actors[i]);
            } else {
                assert(s[s.len() - 1] == actors[i]);
            }
        }
    }
}

/// The owners in `bars` that are not in `alive`, each once.
fn stale_owners(bars: &HashMap<u64, u64>, alive: &HashSet<u64>) -> (out: Vec<u64>)
    ensures
        out@.no_duplicates(),
        forall|k: u64| out@.contains(k) <==> bars@.contains_key(k) && !alive@.contains(k),
{
    let mut out: Vec<u64> = Vec::new();
    let ghost keys = spec_keys_iter(bars).remaining();
    for k in it: bars.keys()
        invariant
            it.seq() == keys,
            keys == spec_keys_iter(bars).remaining(),
            out@.no_duplicates(),
            forall|j: int|
                0 <= j < it.index() && !alive@.contains(*(#[trigger] keys[j])) ==> out@.contains(
                    *keys[j],
                ),
            forall|i: int|
                0 <= i < out.len() ==> !alive@.contains(#[trigger] out@[i]) && exists|j: int|
                    0 <= j < it.index() && *(#[trigger] keys[j]) == out@[i],
    {
        let ghost before = out@;
        let ghost at = it.index();
        assert(*k == *keys[at]);
        if !alive.contains(k) {
            out.push(*k);
            proof {
                assert(out@[out.len() - 1] == *k);
                assert forall|i: int, j: int| 0 <= i < j < out.len() implies out@[i] != out@[j] by {
                    if j == out.len() - 1 {
                        let w = choose|w: int| 0 <= w < at && *(#[trigger] keys[w]) == before[i];
                        assert(keys[w] != keys[at]);
                    } else {
                        assert(before[i] != before[j]);
                    }
                }
                assert forall|j: int|
                    0 <= j < at + 1 && !alive@.contains(*(#[trigger] keys[j])) implies out@.contains(
                    *keys[j],
                ) by {
                    if j < at {
                        let w = choose|w: int| 0 <= w < before.len() && before[w] == *keys[j];
                        assert(out@[w] == *keys[j]);
                    }
                }
                assert forall|i: int| 0 <= i < out.len() implies !alive@.contains(#[trigger] out@[i])
                    && exists|j: int| 0 <= j < at + 1 && *(#[trigger] keys[j]) == out@[i] by {
                    if i == out.len() - 1 {
                        assert(*keys[at] == out@[i]);
                    } else {
                        let w = choose|w: int| 0 <= w < at && *(#[trigger] keys[w]) == before[i];
                        assert(*keys[w] == out@[i]);
                    }
                }
            }
        }
    }
    proof {
        assert forall|x: u64| out@.contains(x) <==> bars@.contains_key(x) && !alive@.contains(
            x,
        ) by {
            if out@.contains(x) {
                let i = choose|i: int| 0 <= i < out.len() && out@[i] == x;
                let j = choose|j: int| 0 <= j < keys.len() && *(#[trigger] keys[j]) == out@[i];
                assert(keys.unref()[j] == x);
                assert(keys.unref().to_set().contains(x));
            }
            if bars@.contains_key(x) && !alive@.contains(x) {
                assert(keys.unref().to_set().contains(x));
                let j = choose|j: int| 0 <= j < keys.unref().len() && keys.unref()[j] == x;
                assert(*keys[j] == x);
            }
        }
    }
    out
}

/// Takes out of `bars` every entry whose owner is not in `keep`, and returns
/// what it took out, each entry once, in no particular order.
fn purge(bars: &mut HashMap<u64, u64>, keep: &HashSet<u64>) -> (removed: Vec<(u64, u64)>)
    ensures
        final(bars)@ == old(bars)@.restrict(keep@),
        removed@.no_duplicates(),
        forall|owner: u64, bar: u64|
            removed@.contains((owner, bar)) <==> old(bars)@.contains_pair(owner, bar)
                && !keep@.contains(owner),
{
    let stale = stale_owners(bars, keep);
    let mut removed: Vec<(u64, u64)> = Vec::new();
    let mut i: usize = 0;
    while i < stale.len()
        invariant
            i <= stale.len(),
            stale@.no_duplicates(),
            forall|k: u64| stale@.contains(k) <==> old(bars)@.contains_key(k) && !keep@.contains(k),
            forall|k: u64|
                bars@.contains_key(k) <==> old(bars)@.contains_key(k) && !stale@.take(
                    i as int,
                ).contains(k),
            forall|k: u64| bars@.contains_key(k) ==> bars@[k] == old(bars)@[k],
            removed.len() == i,
            forall|j: int|
                0 <= j < i ==> (#[trigger] removed@[j]).0 == stale@[j] && removed@[j].1 == old(
                    bars,
                )@[stale@[j]],
        decreases stale.len() - i,
    {
        let owner = stale[i];
        let ghost now = bars@;
        proof {
            assert(stale@.contains(owner));
            let prev = stale@.take(i as int);
            if prev.contains(owner) {
                let j = choose|j: int| 0 <= j < prev.len() && prev[j] == owner;
                assert(stale@[j] == stale@[i as int]);
            }
            assert(now.contains_key(owner));
        }
        match bars.remove(&owner) {
            Some(bar) => {
                removed.push((owner, bar));
            },
            None => {
                assert(false);
            },
        }
        proof {
            assert(bars@ == now.remove(owner));
            let prev = stale@.take(i as int);
            let next = stale@.take(i + 1);
            assert forall|k: u64|
                bars@.contains_key(k) <==> old(bars)@.contains_key(k) && !next.contains(k) by {
                if next.contains(k) {
                    let j = choose|j: int| 0 <= j < next.len() && next[j] == k;
                    if j < i {
                        assert(prev[j] == k);
                    }
                }
                if prev.contains(k) {
                    let j = choose|j: int| 0 <= j < prev.len() && prev[j] == k;
                    assert(next[j] == k);
                }
                if k == owner {
                    assert(next[i as int] == k);
                }
            }
        }
        i += 1;
    }
    proof {
        assert(stale@.take(stale.len() as int) =~= stale@);
        assert(bars@ =~= old(bars)@.restrict(keep@));
        assert forall|a: int, b: int| 0 <= a < b < removed.len() implies removed@[a] != removed@[b] by {
            assert(stale@[a] != stale@[b]);
        }
        assert forall|owner: u64, bar: u64|
            removed@.contains((owner, bar)) <==> old(bars)@.contains_pair(owner, bar)
                && !keep@.contains(owner) by {
            if removed@.contains((owner, bar)) {
                let j = choose|j: int| 0 <= j < removed.len() && removed@[j] == (owner, bar);
                assert(stale@.contains(stale@[j]));
            }
            if old(bars)@.contains_pair(owner, bar) && !keep@.contains(owner) {
                assert(stale@.contains(owner));
                let j = choose|j: int| 0 <= j < stale.len() && stale@[j] == owner;
                assert(removed@[j] == (owner, bar));
            }
        }
    }
    removed
}

impl EnemyHpBarMap {
    /// A mapping without entries.
    pub fn new() -> (m: EnemyHpBarMap)
        ensures
            m.0@ == Map::<u64, u64>::empty(),
    {
        EnemyHpBarMap(HashMap::new())
    }

    /// The indicator of `owner`, if it has one.
    pub fn bar(&self, owner: u64) -> (bar: Option<u64>)
        ensures
            bar == (if self.0@.contains_key(owner) {
                Some(self.0@[owner])
            } else {
                None
            }),
    {
        match self.0.get(&owner) {
            Some(bar) => Some(*bar),
            None => None,
        }
    }

    /// Enters `bar` as the indicator of `owner`: what the caller does once
    /// it has created an indicator that a reconciliation asked for. The
    /// mapping stays one-to-one where `bar` is a new indicator.
    pub fn attach(&mut self, owner: u64, bar: u64)
        ensures
            final(self).0@ == old(self).0@.insert(owner, bar),
            one_to_one(old(self).0@) && !old(self).0@.values().contains(bar) ==> one_to_one(
                final(self).0@,
            ),
    {
        proof {
            let before = self.0@;
            if one_to_one(before) && !before.values().contains(bar) {
                let after = before.insert(owner, bar);
                assert forall|a: u64, b: u64|
                    after.contains_key(a) && after.contains_key(b) && a != b implies #[trigger] after[a]
                    != #[trigger] after[b] by {
                    if a != owner {
                        assert(before.values().contains(before[a]));
                    }
                    if b != owner {
                        assert(before.values().contains(before[b]));
                    }
                }
            }
        }
        self.0.insert(owner, bar);
    }
}

/// One reconciliation of the health bars with the enemies as they are now.
/// An enemy shows a bar while it is damaged but alive. The result lists the
/// bars to create, with their ratio, and the indicators to bring up to
/// date; every entry whose owner shows no bar any more, or is not among
/// `enemies` at all, leaves the mapping and is listed for removal.
pub fn sync_enemy_hp_bars(bar_map: &mut EnemyHpBarMap, enemies: &Vec<Actor>) -> (sync: BarSync)
    ensures
        final(bar_map).0@ == old(bar_map).0@.restrict(shown(enemies@)),
        one_to_one(old(bar_map).0@) ==> one_to_one(final(bar_map).0@),
        sync.create@ == bars_to_create(enemies@, old(bar_map).0@),
        sync.update@ == bars_to_update(enemies@, old(bar_map).0@),
        sync.remove@.no_duplicates(),
        forall|owner: u64, bar: u64|
            sync.remove@.contains((owner, bar)) <==> old(bar_map).0@.contains_pair(owner, bar)
                && !shown(enemies@).contains(owner),
{
    let mut seen: HashSet<u64> = HashSet::new();
    let mut create: Vec<EnemyHpBar> = Vec::new();
    let mut update: Vec<(u64, EnemyHpBar)> = Vec::new();
    let n = enemies.len();
    let mut i: usize = 0;
    while i < n
        invariant
            i <= n,
            n == enemies.len(),
            bar_map.0@ == old(bar_map).0@,
            seen@ =~= shown(enemies@.take(i as int)),
            create@ == bars_to_create(enemies@.take(i as int), old(bar_map).0@),
            update@ == bars_to_update(enemies@.take(i as int), old(bar_map).0@),
        decreases n - i,
    {
        let enemy = enemies[i];
        proof {
            assert(enemies@.take(i + 1).drop_last() =~= enemies@.take(i as int));
            assert(enemies@.take(i + 1).last() == enemy);
        }
        let ghost before = seen@;
        if enemy.health.is_damaged_alive() {
            seen.insert(enemy.handle);
            let bar = EnemyHpBar { owner: enemy.handle, ratio: enemy.health.ratio() };
            match bar_map.bar(enemy.handle) {
                Some(indicator) => {
                    update.push((indicator, bar));
                },
                None => {
                    create.push(bar);
                },
            }
        }
        proof {
            let prev = enemies@.take(i as int);
            let next = enemies@.take(i + 1);
            assert forall|h: u64| seen@.contains(h) <==> shown(next).contains(h) by {
                if shown(next).contains(h) {
                    let j = choose|j: int|
                        0 <= j < next.len() && (#[trigger] next[j]).handle == h
                            && next[j].health.damaged_alive();
                    if j < i {
                        assert(prev[j] == next[j]);
                        assert(shown(prev).contains(h));
                    }
                }
                if before.contains(h) {
                    let j = choose|j: int|
                        0 <= j < prev.len() && (#[trigger] prev[j]).handle == h
                            && prev[j].health.damaged_alive();
                    assert(next[j] == prev[j]);
                }
                if enemy.health.damaged_alive() && h == enemy.handle {
                    assert(next[i as int] == enemy);
                }
            }
        }
        i += 1;
    }
    assert(enemies@.take(n as int) =~= enemies@);
    assert(seen@ == shown(enemies@));
    let remove = purge(&mut bar_map.0, &seen);
    assert(forall|owner: u64, bar: u64|
        remove@.contains((owner, bar)) <==> old(bar_map).0@.contains_pair(owner, bar) && !shown(enemies@).contains(
            owner,
        ));
    BarSync { create, update, remove }
}

/// The death pass, the one place where dead enemies leave the world: every
/// enemy without hit points goes out of `enemies`, and every entry of the
/// mapping whose owner is then not among `enemies`, dead or vanished, goes
/// out of the mapping. The result lists who died and which indicators the
/// caller has to remove.
pub fn process_enemy_death(bar_map: &mut EnemyHpBarMap, enemies: &mut Vec<Actor>) -> (report:
    DeathReport)
    ensures
        final(enemies)@ == survivors(old(enemies)@),
        report.dead@ == casualties(old(enemies)@),
        final(bar_map).0@ == old(bar_map).0@.restrict(handles(survivors(old(enemies)@))),
        one_to_one(old(bar_map).0@) ==> one_to_one(final(bar_map).0@),
        report.remove@.no_duplicates(),
        forall|owner: u64, bar: u64|
            report.remove@.contains((owner, bar)) <==> old(bar_map).0@.contains_pair(owner, bar)
                && !handles(survivors(old(enemies)@)).contains(owner),
{
    let mut existing: HashSet<u64> = HashSet::new();
    let mut alive: Vec<Actor> = Vec::new();
    let mut dead: Vec<u64> = Vec::new();
    let n = enemies.len();
    let mut i: usize = 0;
    while i < n
        invariant
            i <= n,
            n == enemies.len(),
            enemies@ == old(enemies)@,
            bar_map.0@ == old(bar_map).0@,
            alive@ == survivors(enemies@.take(i as int)),
            dead@ == casualties(enemies@.take(i as int)),
            existing@ =~= handles(alive@),
        decreases n - i,
    {
        let enemy = enemies[i];
        proof {
            assert(enemies@.take(i + 1).drop_last() =~= enemies@.take(i as int));
            assert(enemies@.take(i + 1).last() == enemy);
        }
        let ghost before = alive@;
        if enemy.health.is_dead() {
            dead.push(enemy.handle);
        } else {
            alive.push(enemy);
            existing.insert(enemy.handle);
            proof {
                assert forall|h: u64| existing@.contains(h) <==> handles(alive@).contains(h) by {
                    if handles(alive@).contains(h) {
                        let j = choose|j: int|
                            0 <= j < alive@.len() && (#[trigger] alive@[j]).handle == h;
                        if j < before.len() {
                            assert(before[j] == alive@[j]);
                            assert(handles(before).contains(h));
                        }
                    }
                    if handles(before).contains(h) {
                        let j = choose|j: int|
                            0 <= j < before.len() && (#[trigger] before[j]).handle == h;
                        assert(alive@[j] == before[j]);
                    }
                    if h == enemy.handle {
                        assert(alive@[alive@.len() - 1] == enemy);
                    }
                }
            }
        }
        i += 1;
    }
    assert(enemies@.take(n as int) =~= enemies@);
    assert(existing@ == handles(alive@));
    let remove = purge(&mut bar_map.0, &existing);
    *enemies = alive;
    DeathReport { dead, remove }
}

/// Whether the game is over: the player is there and has no hit points
/// left. The caller removes the player and ends the game.
pub fn check_player_death(player: &Option<Actor>) -> (over: bool)
    ensures
        over == (player is Some && player->0.health.dead()),
{
    match player {
        Some(actor) => actor.health.is_dead(),
        None => false,
    }
}

} // verus!
