use vstd::prelude::*;

use crate::arith::{sat_add_i32, sat_add_u32};
use crate::cards::{
    Ability, BaseCard, Cooldown, CooldownModifier, Deck, DirectionCard, DragableCard, Effect,
    Keybind, MultiCastModifier, PassiveCard, ProjectileModifier, SignedSimpleCooldownModifier,
    SimpleCooldownModifier, SimpleProjectileModifierType, SimpleStatusEffectType, StatusEffect,
};
use crate::model::{
    ab_models, bc_models, cd_models, lemma_ab_models, lemma_bc_models, lemma_cd_models,
    lemma_dc_models, lemma_pm_models, lemma_se_models, pm_models, se_models, BaseCardM,
    ProjectileModifierM, StatusEffectM,
};
use crate::semantics::{
    cdm_insert_seq, cdm_merged, cdm_signed_pred, cdm_simple_pred, first_where,
    lemma_first_where, lemma_first_where_at, lemma_first_where_none, lemma_take_drop_last,
    mcm_dup_pred, mcm_insert_seq, mcm_merged, mcm_spread_pred, pm_insert_seq, pm_keep_pred,
    pm_kind_pred, pm_merged, se_insert_seq, se_keep_pred, se_kind_pred, se_merged,
    cdm_keep_pred, mcm_keep_pred,
};

verus! {

broadcast use lemma_pm_models, lemma_se_models, lemma_bc_models, lemma_dc_models, lemma_ab_models, lemma_cd_models, Seq::lemma_filter_push, Seq::lemma_filter_len_push;

// The insert (attach) operation. An empty path attaches the item at this
// node: an empty card slot is overwritten, a sequence slot merges a counted
// "simple" item into the first sibling of the same kind or appends it, and
// then drops every sibling of a prunable kind whose count is exactly 0. A
// non-empty path descends. An illegal path or an item of the wrong kind
// hands the item back unchanged.

fn pm_find_kind(mods: &Vec<ProjectileModifier>, k: SimpleProjectileModifierType) -> (res: Option<
    usize,
>)
    ensures
        match res {
            Some(j) => j < mods@.len() && first_where(pm_models(mods@), pm_kind_pred(k))
                == Some(j as int),
            None => first_where(pm_models(mods@), pm_kind_pred(k)) is None,
        },
{
    let mut j: usize = 0;
    while j < mods.len()
        invariant
            j <= mods@.len(),
            forall|jj: int| 0 <= jj < j ==> !pm_kind_pred(k)(pm_models(mods@)[jj]),
        decreases mods@.len() - j,
    {
        let hit = match &mods[j] {
            ProjectileModifier::SimpleModify(k2, _) => *k2 == k,
            _ => false,
        };
        if hit {
            proof {
                lemma_first_where_at(pm_models(mods@), pm_kind_pred(k), j as int);
            }
            return Some(j);
        }
        proof {
            assert(!pm_kind_pred(k)(pm_models(mods@)[j as int]));
        }
        j += 1;
    }
    proof {
        lemma_first_where_none(pm_models(mods@), pm_kind_pred(k));
    }
    None
}

fn pm_prune(mods: Vec<ProjectileModifier>) -> (res: Vec<ProjectileModifier>)
    ensures
        pm_models(res@) == pm_models(mods@).filter(pm_keep_pred()),
{
    let mut out: Vec<ProjectileModifier> = Vec::new();
    let mut i: usize = 0;
    proof {
        assert(pm_models(mods@).take(0).filter(pm_keep_pred()).len() <= 0) by {
            pm_models(mods@).take(0).lemma_filter_len(pm_keep_pred());
        }
        assert(pm_models(out@) =~= pm_models(mods@).take(0).filter(pm_keep_pred()));
    }
    while i < mods.len()
        invariant
            i <= mods@.len(),
            pm_models(out@) == pm_models(mods@).take(i as int).filter(pm_keep_pred()),
        decreases mods@.len() - i,
    {
        let keep = match &mods[i] {
            ProjectileModifier::SimpleModify(_, v) => *v != 0,
            _ => true,
        };
        let ghost pre = pm_models(mods@).take(i as int);
        let ghost e = pm_models(mods@)[i as int];
        proof {
            assert(pm_models(mods@).take(i as int + 1) =~= pre.push(e));
            assert(keep == pm_keep_pred()(e));
        }
        if keep {
            out.push(mods[i].deep_clone());
            proof {
                assert(pm_models(out@) =~= pre.filter(pm_keep_pred()).push(e));
            }
        }
        i += 1;
    }
    proof {
        assert(pm_models(mods@).take(mods@.len() as int) =~= pm_models(mods@));
    }
    out
}

/// Merge-or-append `item` into a projectile's modifier list, then prune
/// zero-count simple modifiers.
fn pm_apply_insert(mut mods: Vec<ProjectileModifier>, item: ProjectileModifier) -> (res: Vec<
    ProjectileModifier,
>)
    ensures
        pm_models(res@) == pm_insert_seq(pm_models(mods@), item.model()),
{
    let ghost s0 = pm_models(mods@);
    let ghost itm = item.model();
    match item {
        ProjectileModifier::SimpleModify(k, nv) => {
            match pm_find_kind(&mods, k) {
                Some(j) => {
                    proof {
                        lemma_first_where(s0, pm_kind_pred(k));
                    }
                    let m = mods.remove(j);
                    let v = match &m {
                        ProjectileModifier::SimpleModify(_, v) => *v,
                        _ => 0,
                    };
                    let ghost mid = mods@;
                    mods.insert(j, ProjectileModifier::SimpleModify(k, sat_add_i32(v, nv)));
                    proof {
                        assert(pm_models(mods@) =~= pm_merged(s0, itm));
                    }
                },
                None => {
                    mods.push(ProjectileModifier::SimpleModify(k, nv));
                    proof {
                        assert(pm_models(mods@) =~= pm_merged(s0, itm));
                    }
                },
            }
        },
        other => {
            mods.push(other);
            proof {
                assert(pm_models(mods@) =~= pm_merged(s0, itm));
            }
        },
    }
    pm_prune(mods)
}

fn se_find_kind(effs: &Vec<StatusEffect>, k: SimpleStatusEffectType) -> (res: Option<usize>)
    ensures
        match res {
            Some(j) => j < effs@.len() && first_where(se_models(effs@), se_kind_pred(k))
                == Some(j as int),
            None => first_where(se_models(effs@), se_kind_pred(k)) is None,
        },
{
    let mut j: usize = 0;
    while j < effs.len()
        invariant
            j <= effs@.len(),
            forall|jj: int| 0 <= jj < j ==> !se_kind_pred(k)(se_models(effs@)[jj]),
        decreases effs@.len() - j,
    {
        let hit = match &effs[j] {
            StatusEffect::SimpleStatusEffect(k2, _) => *k2 == k,
            _ => false,
        };
        if hit {
            proof {
                lemma_first_where_at(se_models(effs@), se_kind_pred(k), j as int);
            }
            return Some(j);
        }
        proof {
            assert(!se_kind_pred(k)(se_models(effs@)[j as int]));
        }
        j += 1;
    }
    proof {
        lemma_first_where_none(se_models(effs@), se_kind_pred(k));
    }
    None
}

fn se_prune(effs: Vec<StatusEffect>) -> (res: Vec<StatusEffect>)
    ensures
        se_models(res@) == se_models(effs@).filter(se_keep_pred()),
{
    let mut out: Vec<StatusEffect> = Vec::new();
    let mut i: usize = 0;
    proof {
        assert(se_models(effs@).take(0).filter(se_keep_pred()).len() <= 0) by {
            se_models(effs@).take(0).lemma_filter_len(se_keep_pred());
        }
        assert(se_models(out@) =~= se_models(effs@).take(0).filter(se_keep_pred()));
    }
    while i < effs.len()
        invariant
            i <= effs@.len(),
            se_models(out@) == se_models(effs@).take(i as int).filter(se_keep_pred()),
        decreases effs@.len() - i,
    {
        let keep = match &effs[i] {
            StatusEffect::SimpleStatusEffect(_, v) => *v != 0,
            StatusEffect::UnsignedSimpleStatusEffect(_, v) => *v != 0,
            _ => true,
        };
        let ghost pre = se_models(effs@).take(i as int);
        let ghost e = se_models(effs@)[i as int];
        proof {
            assert(se_models(effs@).take(i as int + 1) =~= pre.push(e));
            assert(keep == se_keep_pred()(e));
        }
        if keep {
            out.push(effs[i].deep_clone());
            proof {
                assert(se_models(out@) =~= pre.filter(se_keep_pred()).push(e));
            }
        }
        i += 1;
    }
    proof {
        assert(se_models(effs@).take(effs@.len() as int) =~= se_models(effs@));
    }
    out
}

/// Merge-or-append `item` into a status effect list, then prune zero-count
/// effects.
fn se_apply_insert(mut effs: Vec<StatusEffect>, item: StatusEffect) -> (res: Vec<StatusEffect>)
    ensures
        se_models(res@) == se_insert_seq(se_models(effs@), item.model()),
{
    let ghost s0 = se_models(effs@);
    let ghost itm = item.model();
    match item {
        StatusEffect::SimpleStatusEffect(k, nv) => {
            match se_find_kind(&effs, k) {
                Some(j) => {
                    proof {
                        lemma_first_where(s0, se_kind_pred(k));
                    }
                    let e = effs.remove(j);
                    let v = match &e {
                        StatusEffect::SimpleStatusEffect(_, v) => *v,
                        _ => 0,
                    };
                    effs.insert(j, StatusEffect::SimpleStatusEffect(k, sat_add_i32(v, nv)));
                    proof {
                        assert(se_models(effs@) =~= se_merged(s0, itm));
                    }
                },
                None => {
                    effs.push(StatusEffect::SimpleStatusEffect(k, nv));
                    proof {
                        assert(se_models(effs@) =~= se_merged(s0, itm));
                    }
                },
            }
        },
        other => {
            effs.push(other);
            proof {
                assert(se_models(effs@) =~= se_merged(s0, itm));
            }
        },
    }
    se_prune(effs)
}

fn cdm_find_simple(mods: &Vec<CooldownModifier>, k: SimpleCooldownModifier) -> (res: Option<usize>)
    ensures
        match res {
            Some(j) => j < mods@.len() && first_where(mods@, cdm_simple_pred(k)) == Some(j as int),
            None => first_where(mods@, cdm_simple_pred(k)) is None,
        },
{
    let mut j: usize = 0;
    while j < mods.len()
        invariant
            j <= mods@.len(),
            forall|jj: int| 0 <= jj < j ==> !cdm_simple_pred(k)(mods@[jj]),
        decreases mods@.len() - j,
    {
        let hit = match &mods[j] {
            CooldownModifier::SimpleCooldownModifier(k2, _) => *k2 == k,
            _ => false,
        };
        if hit {
            proof {
                lemma_first_where_at(mods@, cdm_simple_pred(k), j as int);
            }
            return Some(j);
        }
        j += 1;
    }
    proof {
        lemma_first_where_none(mods@, cdm_simple_pred(k));
    }
    None
}

fn cdm_find_signed(mods: &Vec<CooldownModifier>, k: SignedSimpleCooldownModifier) -> (res: Option<
    usize,
>)
    ensures
        match res {
            Some(j) => j < mods@.len() && first_where(mods@, cdm_signed_pred(k)) == Some(j as int),
            None => first_where(mods@, cdm_signed_pred(k)) is None,
        },
{
    let mut j: usize = 0;
    while j < mods.len()
        invariant
            j <= mods@.len(),
            forall|jj: int| 0 <= jj < j ==> !cdm_signed_pred(k)(mods@[jj]),
        decreases mods@.len() - j,
    {
        let hit = match &mods[j] {
            CooldownModifier::SignedSimpleCooldownModifier(k2, _) => *k2 == k,
            _ => false,
        };
        if hit {
            proof {
                lemma_first_where_at(mods@, cdm_signed_pred(k), j as int);
            }
            return Some(j);
        }
        j += 1;
    }
    proof {
        lemma_first_where_none(mods@, cdm_signed_pred(k));
    }
    None
}

fn cdm_prune(mods: Vec<CooldownModifier>) -> (res: Vec<CooldownModifier>)
    ensures
        res@ == mods@.filter(cdm_keep_pred()),
{
    let mut out: Vec<CooldownModifier> = Vec::new();
    let mut i: usize = 0;
    proof {
        assert(mods@.take(0).filter(cdm_keep_pred()).len() <= 0) by {
            mods@.take(0).lemma_filter_len(cdm_keep_pred());
        }
        assert(out@ =~= mods@.take(0).filter(cdm_keep_pred()));
    }
    while i < mods.len()
        invariant
            i <= mods@.len(),
            out@ == mods@.take(i as int).filter(cdm_keep_pred()),
        decreases mods@.len() - i,
    {
        let keep = match &mods[i] {
            CooldownModifier::SimpleCooldownModifier(_, v) => *v != 0,
            CooldownModifier::SignedSimpleCooldownModifier(_, v) => *v != 0,
            _ => true,
        };
        let ghost pre = mods@.take(i as int);
        proof {
            assert(mods@.take(i as int + 1) =~= pre.push(mods@[i as int]));
            assert(keep == cdm_keep_pred()(mods@[i as int]));
        }
        if keep {
            out.push(mods[i]);
        }
        i += 1;
    }
    proof {
        assert(mods@.take(mods@.len() as int) =~= mods@);
    }
    out
}

/// Merge-or-append `item` into a cooldown's modifier list, then prune
/// zero-count modifiers.
fn cdm_apply_insert(mut mods: Vec<CooldownModifier>, item: CooldownModifier) -> (res: Vec<
    CooldownModifier,
>)
    ensures
        res@ == cdm_insert_seq(mods@, item),
{
    let ghost s0 = mods@;
    match item {
        CooldownModifier::SimpleCooldownModifier(k, nv) => {
            match cdm_find_simple(&mods, k) {
                Some(j) => {
                    proof {
                        lemma_first_where(s0, cdm_simple_pred(k));
                    }
                    let m = mods.remove(j);
                    let v = match &m {
                        CooldownModifier::SimpleCooldownModifier(_, v) => *v,
                        _ => 0,
                    };
                    mods.insert(j, CooldownModifier::SimpleCooldownModifier(k, sat_add_u32(v, nv)));
                    proof {
                        assert(mods@ =~= cdm_merged(s0, item));
                    }
                },
                None => {
                    mods.push(CooldownModifier::SimpleCooldownModifier(k, nv));
                    proof {
                        assert(mods@ =~= cdm_merged(s0, item));
                    }
                },
            }
        },
        CooldownModifier::SignedSimpleCooldownModifier(k, nv) => {
            match cdm_find_signed(&mods, k) {
                Some(j) => {
                    proof {
                        lemma_first_where(s0, cdm_signed_pred(k));
                    }
                    let m = mods.remove(j);
                    let v = match &m {
                        CooldownModifier::SignedSimpleCooldownModifier(_, v) => *v,
                        _ => 0,
                    };
                    mods.insert(
                        j,
                        CooldownModifier::SignedSimpleCooldownModifier(k, sat_add_i32(v, nv)),
                    );
                    proof {
                        assert(mods@ =~= cdm_merged(s0, item));
                    }
                },
                None => {
                    mods.push(CooldownModifier::SignedSimpleCooldownModifier(k, nv));
                    proof {
                        assert(mods@ =~= cdm_merged(s0, item));
                    }
                },
            }
        },
        other => {
            mods.push(other);
            proof {
                assert(mods@ =~= cdm_merged(s0, other));
            }
        },
    }
    cdm_prune(mods)
}

fn mcm_find_spread(mods: &Vec<MultiCastModifier>) -> (res: Option<usize>)
    ensures
        match res {
            Some(j) => j < mods@.len() && first_where(mods@, mcm_spread_pred()) == Some(j as int),
            None => first_where(mods@, mcm_spread_pred()) is None,
        },
{
    let mut j: usize = 0;
    while j < mods.len()
        invariant
            j <= mods@.len(),
            forall|jj: int| 0 <= jj < j ==> !mcm_spread_pred()(mods@[jj]),
        decreases mods@.len() - j,
    {
        let hit = matches!(&mods[j], MultiCastModifier::Spread(_));
        if hit {
            proof {
                lemma_first_where_at(mods@, mcm_spread_pred(), j as int);
            }
            return Some(j);
        }
        j += 1;
    }
    proof {
        lemma_first_where_none(mods@, mcm_spread_pred());
    }
    None
}

fn mcm_find_dup(mods: &Vec<MultiCastModifier>) -> (res: Option<usize>)
    ensures
        match res {
            Some(j) => j < mods@.len() && first_where(mods@, mcm_dup_pred()) == Some(j as int),
            None => first_where(mods@, mcm_dup_pred()) is None,
        },
{
    let mut j: usize = 0;
    while j < mods.len()
        invariant
            j <= mods@.len(),
            forall|jj: int| 0 <= jj < j ==> !mcm_dup_pred()(mods@[jj]),
        decreases mods@.len() - j,
    {
        let hit = matches!(&mods[j], MultiCastModifier::Duplication(_));
        if hit {
            proof {
                lemma_first_where_at(mods@, mcm_dup_pred(), j as int);
            }
            return Some(j);
        }
        j += 1;
    }
    proof {
        lemma_first_where_none(mods@, mcm_dup_pred());
    }
    None
}

fn mcm_prune(mods: Vec<MultiCastModifier>) -> (res: Vec<MultiCastModifier>)
    ensures
        res@ == mods@.filter(mcm_keep_pred()),
{
    let mut out: Vec<MultiCastModifier> = Vec::new();
    let mut i: usize = 0;
    proof {
        assert(mods@.take(0).filter(mcm_keep_pred()).len() <= 0) by {
            mods@.take(0).lemma_filter_len(mcm_keep_pred());
        }
        assert(out@ =~= mods@.take(0).filter(mcm_keep_pred()));
    }
    while i < mods.len()
        invariant
            i <= mods@.len(),
            out@ == mods@.take(i as int).filter(mcm_keep_pred()),
        decreases mods@.len() - i,
    {
        let keep = match &mods[i] {
            MultiCastModifier::Spread(v) => *v != 0,
            MultiCastModifier::Duplication(v) => *v != 0,
            _ => true,
        };
        let ghost pre = mods@.take(i as int);
        proof {
            assert(mods@.take(i as int + 1) =~= pre.push(mods@[i as int]));
            assert(keep == mcm_keep_pred()(mods@[i as int]));
        }
        if keep {
            out.push(mods[i]);
        }
        i += 1;
    }
    proof {
        assert(mods@.take(mods@.len() as int) =~= mods@);
    }
    out
}

/// Merge-or-append `item` into a multicast's modifier list, then prune
/// zero-count modifiers.
fn mcm_apply_insert(mut mods: Vec<MultiCastModifier>, item: MultiCastModifier) -> (res: Vec<
    MultiCastModifier,
>)
    ensures
        res@ == mcm_insert_seq(mods@, item),
{
    let ghost s0 = mods@;
    match item {
        MultiCastModifier::Spread(nv) => {
            match mcm_find_spread(&mods) {
                Some(j) => {
                    proof {
                        lemma_first_where(s0, mcm_spread_pred());
                    }
                    let m = mods.remove(j);
                    let v = match &m {
                        MultiCastModifier::Spread(v) => *v,
                        _ => 0,
                    };
                    mods.insert(j, MultiCastModifier::Spread(sat_add_u32(v, nv)));
                    proof {
                        assert(mods@ =~= mcm_merged(s0, item));
                    }
                },
                None => {
                    mods.push(MultiCastModifier::Spread(nv));
                    proof {
                        assert(mods@ =~= mcm_merged(s0, item));
                    }
                },
            }
        },
        MultiCastModifier::Duplication(nv) => {
            match mcm_find_dup(&mods) {
                Some(j) => {
                    proof {
                        lemma_first_where(s0, mcm_dup_pred());
                    }
                    let m = mods.remove(j);
                    let v = match &m {
                        MultiCastModifier::Duplication(v) => *v,
                        _ => 0,
                    };
                    mods.insert(j, MultiCastModifier::Duplication(sat_add_u32(v, nv)));
                    proof {
                        assert(mods@ =~= mcm_merged(s0, item));
                    }
                },
                None => {
                    mods.push(MultiCastModifier::Duplication(nv));
                    proof {
                        assert(mods@ =~= mcm_merged(s0, item));
                    }
                },
            }
        },
        MultiCastModifier::Empty => {
            mods.push(MultiCastModifier::Empty);
            proof {
                assert(mods@ =~= mcm_merged(s0, item));
            }
        },
    }
    mcm_prune(mods)
}

impl DirectionCard {
    /// A direction slot accepts a direction only while it is empty.
    pub fn insert_to_path(self, path: &Vec<usize>, n: usize, item: DragableCard) -> (res: (
        Self,
        Option<DragableCard>,
    ))
        requires
            n <= path@.len(),
        ensures
            match self.insert(path@.take(n as int), item.model()) {
                Some(m2) => res.1 is None && res.0 == m2,
                None => res.1 matches Some(back) && back.model() == item.model() && res.0 == self,
            },
    {
        if n == 0 && matches!(self, DirectionCard::Empty) {
            match item {
                DragableCard::Direction(d) => (d, None),
                other => (self, Some(other)),
            }
        } else {
            (self, Some(item))
        }
    }
}

impl ProjectileModifier {
    pub fn insert_to_path(self, path: &Vec<usize>, n: usize, item: DragableCard) -> (res: (
        Self,
        Option<DragableCard>,
    ))
        requires
            n <= path@.len(),
        ensures
            match self.model().insert(path@.take(n as int), item.model()) {
                Some(m2) => res.1 is None && res.0.model() == m2,
                None => res.1 matches Some(back) && back.model() == item.model() && res.0.model()
                    == self.model(),
            },
        decreases n, self,
    {
        if n == 0 {
            return (self, Some(item));
        }
        proof {
            lemma_take_drop_last(path@, n as int);
        }
        if path[n - 1] != 0 {
            return (self, Some(item));
        }
        match self {
            ProjectileModifier::OnHit(c) => {
                let (c2, back) = c.insert_to_path(path, n - 1, item);
                (ProjectileModifier::OnHit(c2), back)
            },
            ProjectileModifier::OnHeadshot(c) => {
                let (c2, back) = c.insert_to_path(path, n - 1, item);
                (ProjectileModifier::OnHeadshot(c2), back)
            },
            ProjectileModifier::OnExpiry(c) => {
                let (c2, back) = c.insert_to_path(path, n - 1, item);
                (ProjectileModifier::OnExpiry(c2), back)
            },
            ProjectileModifier::OnTrigger(id, c) => {
                let (c2, back) = c.insert_to_path(path, n - 1, item);
                (ProjectileModifier::OnTrigger(id, c2), back)
            },
            ProjectileModifier::Trail(f, c) => {
                let (c2, back) = c.insert_to_path(path, n - 1, item);
                (ProjectileModifier::Trail(f, c2), back)
            },
            ProjectileModifier::LockToOwner(d) => {
                let (d2, back) = d.insert_to_path(path, n - 1, item);
                (ProjectileModifier::LockToOwner(d2), back)
            },
            other => (other, Some(item)),
        }
    }
}

impl StatusEffect {
    /// The containing sequence consumes both the element index and the `0`
    /// sentinel before an insert reaches a status effect, so the remaining
    /// path is handed on as it is.
    pub fn insert_to_path(self, path: &Vec<usize>, n: usize, item: DragableCard) -> (res: (
        Self,
        Option<DragableCard>,
    ))
        requires
            n <= path@.len(),
        ensures
            match self.model().insert(path@.take(n as int), item.model()) {
                Some(m2) => res.1 is None && res.0.model() == m2,
                None => res.1 matches Some(back) && back.model() == item.model() && res.0.model()
                    == self.model(),
            },
        decreases n, self,
    {
        match self {
            StatusEffect::OnHit(c) => {
                let (c2, back) = c.insert_to_path(path, n, item);
                (StatusEffect::OnHit(c2), back)
            },
            StatusEffect::SimpleStatusEffect(SimpleStatusEffectType::IncreaseGravity(d), v) => {
                let (d2, back) = d.insert_to_path(path, n, item);
                (
                    StatusEffect::SimpleStatusEffect(
                        SimpleStatusEffectType::IncreaseGravity(d2),
                        v,
                    ),
                    back,
                )
            },
            other => (other, Some(item)),
        }
    }
}

impl BaseCard {
    pub fn insert_to_path(self, path: &Vec<usize>, n: usize, item: DragableCard) -> (res: (
        Self,
        Option<DragableCard>,
    ))
        requires
            n <= path@.len(),
        ensures
            match self.model().insert(path@.take(n as int), item.model()) {
                Some(m2) => res.1 is None && res.0.model() == m2,
                None => res.1 matches Some(back) && back.model() == item.model() && res.0.model()
                    == self.model(),
            },
        decreases n, self,
    {
        match self {
            BaseCard::Projectile(mut mods) => {
                if n == 0 {
                    match item {
                        DragableCard::ProjectileModifier(m) => {
                            let merged = pm_apply_insert(mods, m);
                            (BaseCard::Projectile(merged), None)
                        },
                        other => (BaseCard::Projectile(mods), Some(other)),
                    }
                } else {
                    proof {
                        lemma_take_drop_last(path@, n as int);
                    }
                    let i = path[n - 1];
                    if i >= mods.len() {
                        proof {
                            assert(self.model() == BaseCardM::Projectile(pm_models(mods@)));
                        }
                        return (BaseCard::Projectile(mods), Some(item));
                    }
                    let ghost mods0 = mods@;
                    let m = mods.remove(i);
                    let (m2, back) = m.insert_to_path(path, n - 1, item);
                    mods.insert(i, m2);
                    proof {
                        assert(mods@ =~= mods0.update(i as int, m2));
                        if back is None {
                            assert(pm_models(mods@) =~= pm_models(mods0).update(
                                i as int,
                                m2.model(),
                            ));
                        } else {
                            assert(pm_models(mods@) =~= pm_models(mods0));
                        }
                    }
                    (BaseCard::Projectile(mods), back)
                }
            },
            BaseCard::MultiCast(mut cards, mut mods) => {
                if n == 0 {
                    match item {
                        DragableCard::BaseCard(c) => {
                            let ghost cards0 = cards@;
                            cards.push(c);
                            proof {
                                assert(bc_models(cards@) =~= bc_models(cards0).push(c.model()));
                            }
                            (BaseCard::MultiCast(cards, mods), None)
                        },
                        DragableCard::MultiCastModifier(m) => {
                            let merged = mcm_apply_insert(mods, m);
                            (BaseCard::MultiCast(cards, merged), None)
                        },
                        other => (BaseCard::MultiCast(cards, mods), Some(other)),
                    }
                } else {
                    proof {
                        lemma_take_drop_last(path@, n as int);
                    }
                    let ti = path[n - 1];
                    if ti != 1 {
                        return (BaseCard::MultiCast(cards, mods), Some(item));
                    }
                    if n == 1 {
                        return (BaseCard::MultiCast(cards, mods), Some(item));
                    }
                    proof {
                        lemma_take_drop_last(path@, n as int - 1);
                    }
                    let i = path[n - 2];
                    if i >= cards.len() {
                        proof {
                            assert(self.model() == BaseCardM::MultiCast(bc_models(cards@), mods@));
                        }
                        return (BaseCard::MultiCast(cards, mods), Some(item));
                    }
                    let ghost cards0 = cards@;
                    let c = cards.remove(i);
                    let (c2, back) = c.insert_to_path(path, n - 2, item);
                    cards.insert(i, c2);
                    proof {
                        assert(cards@ =~= cards0.update(i as int, c2));
                        if back is None {
                            assert(bc_models(cards@) =~= bc_models(cards0).update(
                                i as int,
                                c2.model(),
                            ));
                        } else {
                            assert(bc_models(cards@) =~= bc_models(cards0));
                        }
                    }
                    (BaseCard::MultiCast(cards, mods), back)
                }
            },
            BaseCard::StatusEffects(dur, mut effs) => {
                if n == 0 {
                    match item {
                        DragableCard::StatusEffect(e) => {
                            let merged = se_apply_insert(effs, e);
                            (BaseCard::StatusEffects(dur, merged), None)
                        },
                        other => (BaseCard::StatusEffects(dur, effs), Some(other)),
                    }
                } else {
                    proof {
                        lemma_take_drop_last(path@, n as int);
                    }
                    let i = path[n - 1];
                    if n == 1 || path[n - 2] != 0 {
                        proof {
                            assert(self.model() == BaseCardM::StatusEffects(dur, se_models(effs@)));
                        }
                        return (BaseCard::StatusEffects(dur, effs), Some(item));
                    }
                    proof {
                        lemma_take_drop_last(path@, n as int - 1);
                    }
                    if i >= effs.len() {
                        proof {
                            assert(self.model() == BaseCardM::StatusEffects(dur, se_models(effs@)));
                        }
                        return (BaseCard::StatusEffects(dur, effs), Some(item));
                    }
                    let ghost effs0 = effs@;
                    let e = effs.remove(i);
                    let (e2, back) = e.insert_to_path(path, n - 2, item);
                    effs.insert(i, e2);
                    proof {
                        assert(effs@ =~= effs0.update(i as int, e2));
                        if back is None {
                            assert(se_models(effs@) =~= se_models(effs0).update(
                                i as int,
                                e2.model(),
                            ));
                        } else {
                            assert(se_models(effs@) =~= se_models(effs0));
                        }
                    }
                    (BaseCard::StatusEffects(dur, effs), back)
                }
            },
            BaseCard::Effect(Effect::Knockback(v, d)) => {
                if n == 0 {
                    return (BaseCard::Effect(Effect::Knockback(v, d)), Some(item));
                }
                proof {
                    lemma_take_drop_last(path@, n as int);
                }
                if path[n - 1] != 0 {
                    return (BaseCard::Effect(Effect::Knockback(v, d)), Some(item));
                }
                let (d2, back) = d.insert_to_path(path, n - 1, item);
                (BaseCard::Effect(Effect::Knockback(v, d2)), back)
            },
            BaseCard::Empty => {
                if n == 0 {
                    match item {
                        DragableCard::BaseCard(c) => (c, None),
                        other => (BaseCard::Empty, Some(other)),
                    }
                } else {
                    (BaseCard::Empty, Some(item))
                }
            },
            other => (other, Some(item)),
        }
    }
}

impl PassiveCard {
    pub fn insert_to_path(self, path: &Vec<usize>, n: usize, item: DragableCard) -> (res: (
        Self,
        Option<DragableCard>,
    ))
        requires
            n <= path@.len(),
        ensures
            match self.model().insert(path@.take(n as int), item.model()) {
                Some(m2) => res.1 is None && res.0.model() == m2,
                None => res.1 matches Some(back) && back.model() == item.model() && res.0.model()
                    == self.model(),
            },
        decreases n,
    {
        let PassiveCard { mut passive_effects } = self;
        if n == 0 {
            match item {
                DragableCard::StatusEffect(e) => {
                    let merged = se_apply_insert(passive_effects, e);
                    return (PassiveCard { passive_effects: merged }, None);
                },
                other => {
                    return (PassiveCard { passive_effects }, Some(other));
                },
            }
        }
        proof {
            lemma_take_drop_last(path@, n as int);
        }
        let i = path[n - 1];
        if n == 1 || path[n - 2] != 0 {
            return (PassiveCard { passive_effects }, Some(item));
        }
        proof {
            lemma_take_drop_last(path@, n as int - 1);
        }
        if i >= passive_effects.len() {
            return (PassiveCard { passive_effects }, Some(item));
        }
        let ghost effs0 = passive_effects@;
        let e = passive_effects.remove(i);
        let (e2, back) = e.insert_to_path(path, n - 2, item);
        passive_effects.insert(i, e2);
        proof {
            assert(passive_effects@ =~= effs0.update(i as int, e2));
            if back is None {
                assert(se_models(passive_effects@) =~= se_models(effs0).update(
                    i as int,
                    e2.model(),
                ));
            } else {
                assert(se_models(passive_effects@) =~= se_models(effs0));
            }
        }
        (PassiveCard { passive_effects }, back)
    }
}

impl Cooldown {
    /// An empty path inserts into the cooldown itself: a base card becomes a
    /// fresh ability, a cooldown modifier merges into the modifier list.
    pub fn insert_to_path(self, path: &Vec<usize>, n: usize, item: DragableCard) -> (res: (
        Self,
        Option<DragableCard>,
    ))
        requires
            n <= path@.len(),
        ensures
            match self.model().insert(path@.take(n as int), item.model()) {
                Some(m2) => res.1 is None && res.0.model() == m2,
                None => res.1 matches Some(back) && back.model() == item.model() && res.0.model()
                    == self.model(),
            },
        decreases n,
    {
        let Cooldown { mut abilities, mut modifiers, cooldown_value } = self;
        if n == 0 {
            match item {
                DragableCard::BaseCard(c) => {
                    let ghost abs0 = abilities@;
                    let ab = Ability {
                        card: c,
                        keybind: Keybind::Unbound,
                        is_keybind_selected: false,
                        cached_recovery: Option::None,
                    };
                    abilities.push(ab);
                    proof {
                        assert(ab_models(abilities@) =~= ab_models(abs0).push(ab.model()));
                    }
                    return (
                        Cooldown { abilities, modifiers, cooldown_value: Option::None },
                        None,
                    );
                },
                DragableCard::CooldownModifier(m) => {
                    let merged = cdm_apply_insert(modifiers, m);
                    return (
                        Cooldown {
                            abilities,
                            modifiers: merged,
                            cooldown_value: Option::None,
                        },
                        None,
                    );
                },
                other => {
                    return (Cooldown { abilities, modifiers, cooldown_value }, Some(other));
                },
            }
        }
        proof {
            lemma_take_drop_last(path@, n as int);
        }
        let ti = path[n - 1];
        if ti != 1 || n == 1 {
            return (Cooldown { abilities, modifiers, cooldown_value }, Some(item));
        }
        proof {
            lemma_take_drop_last(path@, n as int - 1);
        }
        let i = path[n - 2];
        if i >= abilities.len() {
            return (Cooldown { abilities, modifiers, cooldown_value }, Some(item));
        }
        let ghost abs0 = abilities@;
        let Ability { card, keybind, is_keybind_selected, cached_recovery } = abilities.remove(i);
        let (c2, back) = card.insert_to_path(path, n - 2, item);
        if back.is_none() {
            let ab = Ability {
                card: c2,
                keybind,
                is_keybind_selected,
                cached_recovery: Option::None,
            };
            abilities.insert(i, ab);
            proof {
                assert(abilities@ =~= abs0.update(i as int, ab));
                assert(ab_models(abilities@) =~= ab_models(abs0).update(i as int, ab.model()));
            }
            (Cooldown { abilities, modifiers, cooldown_value: Option::None }, back)
        } else {
            let ab = Ability { card: c2, keybind, is_keybind_selected, cached_recovery };
            abilities.insert(i, ab);
            proof {
                assert(abilities@ =~= abs0.update(i as int, ab));
                assert(ab_models(abilities@) =~= ab_models(abs0));
            }
            (Cooldown { abilities, modifiers, cooldown_value }, back)
        }
    }
}

impl Deck {
    /// Attach `item` at the (already reversed) path `path[..n]`; root slot 1
    /// is the passive card, 2 and up the cooldowns.
    pub fn insert_to_path(self, path: &Vec<usize>, n: usize, item: DragableCard) -> (res: (
        Self,
        Option<DragableCard>,
    ))
        requires
            n <= path@.len(),
        ensures
            match self.model().insert(path@.take(n as int), item.model()) {
                Some(m2) => res.1 is None && res.0.model() == m2,
                None => res.1 matches Some(back) && back.model() == item.model() && res.0.model()
                    == self.model(),
            },
        decreases n,
    {
        let Deck { mut cooldowns, passive } = self;
        if n == 0 {
            return (Deck { cooldowns, passive }, Some(item));
        }
        proof {
            lemma_take_drop_last(path@, n as int);
        }
        let root = path[n - 1];
        if root == 1 {
            let (p2, back) = passive.insert_to_path(path, n - 1, item);
            (Deck { cooldowns, passive: p2 }, back)
        } else if root >= 2 {
            let i = root - 2;
            if i >= cooldowns.len() {
                return (Deck { cooldowns, passive }, Some(item));
            }
            let ghost cds0 = cooldowns@;
            let c = cooldowns.remove(i);
            let (c2, back) = c.insert_to_path(path, n - 1, item);
            cooldowns.insert(i, c2);
            proof {
                assert(cooldowns@ =~= cds0.update(i as int, c2));
                if back is None {
                    assert(cd_models(cooldowns@) =~= cd_models(cds0).update(i as int, c2.model()));
                } else {
                    assert(cd_models(cooldowns@) =~= cd_models(cds0));
                }
            }
            (Deck { cooldowns, passive }, back)
        } else {
            (Deck { cooldowns, passive }, Some(item))
        }
    }
}

} // verus!
