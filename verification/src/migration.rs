//! Migration of a workspace from the layout with a `strategies/` level to the
//! layout where initiatives sit directly in `initiatives/`.

use vstd::prelude::*;
use crate::paths::{join, path_join};
use crate::text::{chars_eq, chars_of};

verus! {

/// One move of a migration.
pub struct MigrationAction {
    pub from: String,
    pub to: String,
}

/// What a migration did.
pub struct MigrationReport {
    /// Whether the workspace had the old layout and was migrated.
    pub migrated: bool,
    /// The initiative folders moved up, in order.
    pub moved_items: Vec<MigrationAction>,
    /// The files and folders deleted, in order.
    pub deleted_items: Vec<String>,
}

/// Migrates workspace layouts.
pub struct WorkspaceMigrationService;

/// What walking the `strategies/` folder met, in walk order.
pub enum MigrationItem {
    /// A file directly in `strategies/`: deleted.
    StrayFile(String),
    /// The `strategy.md` of a strategy folder: deleted.
    StrategyDocument(String),
    /// An initiative folder `src` named `name` inside a strategy folder: moved
    /// to `initiatives/<name>` unless that is taken.
    Initiative { src: String, name: String },
    /// A strategy folder, emptied: deleted.
    StrategyFolder(String),
}

/// The initiative name of item `k`, if it is an initiative.
pub open spec fn item_initiative(items: Seq<MigrationItem>, k: int) -> Option<Seq<char>> {
    match items[k] {
        MigrationItem::Initiative { name, .. } => Some(name@),
        _ => None,
    }
}

/// Item `k` moves its initiative: the name is neither in `initiatives/` from
/// the start nor taken by an earlier initiative.
pub open spec fn item_moves(items: Seq<MigrationItem>, existing: Seq<Seq<char>>, k: int) -> bool {
    &&& item_initiative(items, k) is Some
    &&& !existing.contains(item_initiative(items, k)->0)
    &&& forall|j: int| 0 <= j < k ==> item_initiative(items, j) != item_initiative(items, k)
}

/// The moves made by the first `n` items.
pub open spec fn moves_upto(items: Seq<MigrationItem>, existing: Seq<Seq<char>>, initiatives_dir: Seq<char>, n: int)
    -> Seq<(Seq<char>, Seq<char>)>
    decreases n,
{
    if n <= 0 {
        Seq::empty()
    } else {
        let prev = moves_upto(items, existing, initiatives_dir, n - 1);
        match items[n - 1] {
            MigrationItem::Initiative { src, name } => if item_moves(items, existing, n - 1) {
                prev.push((src@, path_join(initiatives_dir, name@)))
            } else {
                prev
            },
            _ => prev,
        }
    }
}

/// The deletions made by the first `n` items.
pub open spec fn deletions_upto(items: Seq<MigrationItem>, n: int) -> Seq<Seq<char>>
    decreases n,
{
    if n <= 0 {
        Seq::empty()
    } else {
        let prev = deletions_upto(items, n - 1);
        match items[n - 1] {
            MigrationItem::StrayFile(p) => prev.push(p@),
            MigrationItem::StrategyDocument(p) => prev.push(p@),
            MigrationItem::StrategyFolder(p) => prev.push(p@),
            MigrationItem::Initiative { .. } => prev,
        }
    }
}

/// The moves of a report, as pairs.
pub open spec fn moved_pairs(moves: Seq<MigrationAction>) -> Seq<(Seq<char>, Seq<char>)> {
    moves.map_values(|m: MigrationAction| (m.from@, m.to@))
}

impl WorkspaceMigrationService {
    /// Plans the migration of the workspace `metis_dir`. Without a
    /// `strategies/` folder nothing happens. Otherwise each item met in
    /// `strategies/` is handled in order: stray files, strategy documents and
    /// the emptied strategy folders are deleted; each initiative folder moves to
    /// `initiatives/<name>` unless that name is already there (from the start,
    /// `existing`, or from an earlier move); last, `strategies/` is deleted.
    pub fn plan(metis_dir: &str, has_strategies: bool, items: &Vec<MigrationItem>, existing: &Vec<String>)
        -> (res: MigrationReport)
        ensures
            res.migrated == has_strategies,
            !has_strategies ==> res.moved_items@.len() == 0 && res.deleted_items@.len() == 0,
            has_strategies ==> moved_pairs(res.moved_items@) == moves_upto(
                items@,
                existing.deep_view(),
                path_join(metis_dir@, "initiatives"@),
                items@.len() as int,
            ),
            has_strategies ==> res.deleted_items.deep_view() == deletions_upto(items@, items@.len() as int).push(
                path_join(metis_dir@, "strategies"@),
            ),
    {
        if !has_strategies {
            return MigrationReport { migrated: false, moved_items: Vec::new(), deleted_items: Vec::new() };
        }
        let initiatives_dir = join(metis_dir, "initiatives");
        let ghost ev = existing.deep_view();
        let mut taken: Vec<String> = Vec::new();
        let mut moved: Vec<MigrationAction> = Vec::new();
        let mut deleted: Vec<String> = Vec::new();
        let mut k: usize = 0;
        while k < items.len()
            invariant
                k <= items@.len(),
                ev == existing.deep_view(),
                initiatives_dir@ == path_join(metis_dir@, "initiatives"@),
                moved_pairs(moved@) == moves_upto(items@, ev, initiatives_dir@, k as int),
                deleted.deep_view() == deletions_upto(items@, k as int),
                forall|x: Seq<char>| taken.deep_view().contains(x) <==> exists|j: int| 0 <= j < k && item_initiative(items@, j) == Some(x),
            decreases items@.len() - k,
        {
            let ghost om = moved_pairs(moved@);
            let ghost od = deleted.deep_view();
            let ghost ot = taken.deep_view();
            match &items[k] {
                MigrationItem::Initiative { src, name } => {
                    let in_existing = contains_name(existing, name);
                    let in_taken = contains_name(&taken, name);
                    proof {
                        assert(item_initiative(items@, k as int) == Some(name@));
                        if !in_taken {
                            assert forall|j: int| 0 <= j < k implies item_initiative(items@, j) != item_initiative(items@, k as int) by {
                                if item_initiative(items@, j) == Some(name@) {
                                    assert(ot.contains(name@));
                                }
                            }
                        } else {
                            let j = choose|j: int| 0 <= j < k && item_initiative(items@, j) == Some(name@);
                        }
                    }
                    if !in_existing && !in_taken {
                        let dest = join(initiatives_dir.as_str(), name.as_str());
                        moved.push(MigrationAction { from: src.clone(), to: dest });
                        assert(moved_pairs(moved@) =~= om.push((src@, path_join(initiatives_dir@, name@))));
                    } else {
                        assert(moved_pairs(moved@) =~= om);
                    }
                    taken.push(name.clone());
                    proof {
                        assert(taken.deep_view() =~= ot.push(name@));
                        assert forall|x: Seq<char>| taken.deep_view().contains(x) <==> exists|j: int| 0 <= j < k + 1 && item_initiative(items@, j) == Some(x) by {
                            if x == name@ {
                                assert(taken.deep_view()[ot.len() as int] == x);
                            }
                            if taken.deep_view().contains(x) && x != name@ {
                                let i = choose|i: int| 0 <= i < taken.deep_view().len() && taken.deep_view()[i] == x;
                                assert(ot[i] == x);
                            }
                            if ot.contains(x) {
                                let i = choose|i: int| 0 <= i < ot.len() && ot[i] == x;
                                assert(taken.deep_view()[i] == x);
                            }
                        }
                    }
                },
                MigrationItem::StrayFile(p) => {
                    deleted.push(p.clone());
                    assert(deleted.deep_view() =~= od.push(p@));
                    assert(moved_pairs(moved@) =~= om);
                },
                MigrationItem::StrategyDocument(p) => {
                    deleted.push(p.clone());
                    assert(deleted.deep_view() =~= od.push(p@));
                    assert(moved_pairs(moved@) =~= om);
                },
                MigrationItem::StrategyFolder(p) => {
                    deleted.push(p.clone());
                    assert(deleted.deep_view() =~= od.push(p@));
                    assert(moved_pairs(moved@) =~= om);
                },
            }
            k = k + 1;
        }
        let ghost od = deleted.deep_view();
        deleted.push(join(metis_dir, "strategies"));
        assert(deleted.deep_view() =~= od.push(path_join(metis_dir@, "strategies"@)));
        MigrationReport { migrated: true, moved_items: moved, deleted_items: deleted }
    }
}

/// Whether `name` is among `names`.
fn contains_name(names: &Vec<String>, name: &String) -> (res: bool)
    ensures
        res == names.deep_view().contains(name@),
{
    let n = chars_of(name.as_str());
    let mut i: usize = 0;
    while i < names.len()
        invariant
            i <= names@.len(),
            n@ == name@,
            forall|j: int| 0 <= j < i ==> names.deep_view()[j] != name@,
        decreases names@.len() - i,
    {
        if chars_eq(&chars_of(names[i].as_str()), &n) {
            assert(names.deep_view()[i as int] == name@);
            return true;
        }
        i = i + 1;
    }
    false
}

} // verus!
