use vstd::prelude::*;

use crate::arith::dec_floor_u32_spec;
use crate::cards::{
    CooldownModifier, ModificationType, MultiCastModifier, SimpleCooldownModifier,
    SimpleProjectileModifierType, SimpleStatusEffectType, UnsignedSimpleStatusEffectType,
};
use crate::cards::Effect;
use crate::model::{BaseCardM, CooldownM, ProjectileModifierM, StatusEffectM};
use crate::semantics::{
    cdm_insert_seq, cdm_keep_pred, cdm_prunable, lemma_first_where_at, mcm_insert_seq,
    mcm_keep_pred, mcm_prunable, pm_insert_seq, pm_is_simple_kind, pm_keep_pred, pm_kind_pred,
    pm_prunable, se_insert_seq, se_keep_pred, se_prunable,
};

verus! {

// The laws the tree operations obey, stated over the model and proved once
// and for all.

/// Filtering drops nothing when every element satisfies the predicate.
pub proof fn lemma_filter_all_kept<T>(s: Seq<T>, f: spec_fn(T) -> bool)
    requires
        forall|i: int| 0 <= i < s.len() ==> f(#[trigger] s[i]),
    ensures
        s.filter(f) == s,
    decreases s.len(),
{
    reveal(Seq::filter);
    if s.len() > 0 {
        lemma_filter_all_kept(s.drop_last(), f);
    }
    assert(s.filter(f) =~= s);
}

/// Merge invariant: inserting a simple projectile modifier of kind `k` into
/// a modifier list that already holds exactly one simple modifier of that
/// kind — and no spent entries — yields the same list with the two counts
/// added at that entry, never a second entry of the kind.
pub proof fn lemma_merge_simple_modify(
    s: Seq<ProjectileModifierM>,
    k: SimpleProjectileModifierType,
    m: i32,
    n: i32,
    j: int,
)
    requires
        0 <= j < s.len(),
        s[j] == ProjectileModifierM::SimpleModify(k, m),
        forall|i: int| 0 <= i < s.len() && i != j ==> !pm_is_simple_kind(#[trigger] s[i], k),
        forall|i: int| 0 <= i < s.len() ==> !pm_prunable(#[trigger] s[i]),
        i32::MIN <= m + n <= i32::MAX,
        m + n != 0,
    ensures
        ({
            let r = pm_insert_seq(s, ProjectileModifierM::SimpleModify(k, n));
            &&& r.len() == s.len()
            &&& r[j] == ProjectileModifierM::SimpleModify(k, (m + n) as i32)
            &&& forall|i: int|
                0 <= i < r.len() && i != j ==> #[trigger] r[i] == s[i] && !pm_is_simple_kind(
                    r[i],
                    k,
                )
        }),
{
    lemma_first_where_at(s, pm_kind_pred(k), j);
    let merged = s.update(j, ProjectileModifierM::SimpleModify(k, (m + n) as i32));
    assert(crate::semantics::pm_merged(s, ProjectileModifierM::SimpleModify(k, n)) =~= merged);
    assert forall|i: int| 0 <= i < merged.len() implies pm_keep_pred()(#[trigger] merged[i]) by {
        if i != j {
            assert(merged[i] == s[i]);
        }
    }
    lemma_filter_all_kept(merged, pm_keep_pred());
}

/// Prune invariant: after an insert into a projectile's modifier list, no
/// simple modifier with count 0 remains.
pub proof fn lemma_insert_prunes_pm(s: Seq<ProjectileModifierM>, item: ProjectileModifierM)
    ensures
        forall|i: int|
            0 <= i < pm_insert_seq(s, item).len() ==> !pm_prunable(
                #[trigger] pm_insert_seq(s, item)[i],
            ),
{
    let merged = crate::semantics::pm_merged(s, item);
    assert forall|i: int| 0 <= i < pm_insert_seq(s, item).len() implies !pm_prunable(
        #[trigger] pm_insert_seq(s, item)[i],
    ) by {
        merged.lemma_filter_pred(pm_keep_pred(), i);
    }
}

/// Prune invariant for status effect lists: after an insert, no counted
/// effect with count 0 remains.
pub proof fn lemma_insert_prunes_se(s: Seq<StatusEffectM>, item: StatusEffectM)
    ensures
        forall|i: int|
            0 <= i < se_insert_seq(s, item).len() ==> !se_prunable(
                #[trigger] se_insert_seq(s, item)[i],
            ),
{
    let merged = crate::semantics::se_merged(s, item);
    assert forall|i: int| 0 <= i < se_insert_seq(s, item).len() implies !se_prunable(
        #[trigger] se_insert_seq(s, item)[i],
    ) by {
        merged.lemma_filter_pred(se_keep_pred(), i);
    }
}

/// Prune invariant for cooldown modifier lists.
pub proof fn lemma_insert_prunes_cdm(s: Seq<CooldownModifier>, item: CooldownModifier)
    ensures
        forall|i: int|
            0 <= i < cdm_insert_seq(s, item).len() ==> !cdm_prunable(
                #[trigger] cdm_insert_seq(s, item)[i],
            ),
{
    let merged = crate::semantics::cdm_merged(s, item);
    assert forall|i: int| 0 <= i < cdm_insert_seq(s, item).len() implies !cdm_prunable(
        #[trigger] cdm_insert_seq(s, item)[i],
    ) by {
        merged.lemma_filter_pred(cdm_keep_pred(), i);
    }
}

/// Prune invariant for multicast modifier lists.
pub proof fn lemma_insert_prunes_mcm(s: Seq<MultiCastModifier>, item: MultiCastModifier)
    ensures
        forall|i: int|
            0 <= i < mcm_insert_seq(s, item).len() ==> !mcm_prunable(
                #[trigger] mcm_insert_seq(s, item)[i],
            ),
{
    let merged = crate::semantics::mcm_merged(s, item);
    assert forall|i: int| 0 <= i < mcm_insert_seq(s, item).len() implies !mcm_prunable(
        #[trigger] mcm_insert_seq(s, item)[i],
    ) by {
        merged.lemma_filter_pred(mcm_keep_pred(), i);
    }
}

/// Floor invariant, unsigned stack counts with floor 1: decrementing a
/// cooldown stack modifier at 1 is a no-op; above 1 it steps down by one.
pub proof fn lemma_floor_cooldown_stack(k: SimpleCooldownModifier, v: u32)
    ensures
        CooldownModifier::SimpleCooldownModifier(k, 1).modify(
            Seq::empty(),
            ModificationType::Decrease,
        ) == Some(CooldownModifier::SimpleCooldownModifier(k, 1u32)),
        v > 1 ==> CooldownModifier::SimpleCooldownModifier(k, v).modify(
            Seq::empty(),
            ModificationType::Decrease,
        ) == Some(CooldownModifier::SimpleCooldownModifier(k, (v - 1) as u32)),
{
}

/// Floor invariant for multicast modifiers: the spread count stops at 1.
pub proof fn lemma_floor_spread(v: u32)
    ensures
        MultiCastModifier::Spread(1).modify(Seq::empty(), ModificationType::Decrease) == Some(
            MultiCastModifier::Spread(1u32),
        ),
        v > 1 ==> MultiCastModifier::Spread(v).modify(Seq::empty(), ModificationType::Decrease)
            == Some(MultiCastModifier::Spread((v - 1) as u32)),
{
}

/// Floor invariant for a trail's frequency: it stops at 1.
pub proof fn lemma_floor_trail(v: u32, c: BaseCardM)
    ensures
        ProjectileModifierM::Trail(1, c).modify(Seq::empty(), ModificationType::Decrease) == Some(
            ProjectileModifierM::Trail(1u32, c),
        ),
        v > 1 ==> ProjectileModifierM::Trail(v, c).modify(
            Seq::empty(),
            ModificationType::Decrease,
        ) == Some(ProjectileModifierM::Trail((v - 1) as u32, c)),
{
}

/// Floor invariant, unsigned counts with floor 0: an unsigned status effect
/// count stops at 0 and may then be pruned, never going negative.
pub proof fn lemma_floor_unsigned_status(k: UnsignedSimpleStatusEffectType, v: u32)
    ensures
        StatusEffectM::UnsignedSimpleStatusEffect(k, v).modify(
            Seq::empty(),
            ModificationType::Decrease,
        ) == Some(StatusEffectM::UnsignedSimpleStatusEffect(k, dec_floor_u32_spec(v, 0))),
        StatusEffectM::UnsignedSimpleStatusEffect(k, 0).modify(
            Seq::empty(),
            ModificationType::Decrease,
        ) == Some(StatusEffectM::UnsignedSimpleStatusEffect(k, 0u32)),
{
}

/// Signed kinds have no floor: decrementing a simple projectile modifier at
/// 0 yields -1.
pub proof fn lemma_signed_no_floor(k: SimpleProjectileModifierType, v: i32)
    ensures
        ProjectileModifierM::SimpleModify(k, 0).modify(Seq::empty(), ModificationType::Decrease)
            == Some(ProjectileModifierM::SimpleModify(k, -1i32)),
        v > i32::MIN ==> ProjectileModifierM::SimpleModify(k, v).modify(
            Seq::empty(),
            ModificationType::Decrease,
        ) == Some(ProjectileModifierM::SimpleModify(k, (v - 1) as i32)),
{
}

/// Signed status effect kinds have no floor either.
pub proof fn lemma_signed_status_no_floor(k: SimpleStatusEffectType, v: i32)
    ensures
        StatusEffectM::SimpleStatusEffect(k, 0).modify(Seq::empty(), ModificationType::Decrease)
            == Some(StatusEffectM::SimpleStatusEffect(k, -1i32)),
        v > i32::MIN ==> StatusEffectM::SimpleStatusEffect(k, v).modify(
            Seq::empty(),
            ModificationType::Decrease,
        ) == Some(StatusEffectM::SimpleStatusEffect(k, (v - 1) as i32)),
{
}

/// Cooldown non-emptiness: the cleanup pass never reduces a cooldown's
/// ability list below length 1.
pub proof fn lemma_cleanup_keeps_an_ability(c: CooldownM, p: Seq<usize>, c2: CooldownM)
    requires
        c.cleanup(p) == Some(c2),
        c.abilities.len() >= 1,
    ensures
        c2.abilities.len() >= 1,
{
}

/// Cache invalidation: a modify that reaches into a cooldown clears its
/// cached value, and the cached recovery of the ability it descends into.
pub proof fn lemma_modify_clears_cache(
    c: CooldownM,
    p: Seq<usize>,
    t: ModificationType,
    c2: CooldownM,
)
    requires
        p.len() > 0,
        c.modify(p, t) == Some(c2),
    ensures
        c2.cooldown_value is None,
        p.last() == 1 ==> c2.abilities[p.drop_last().last() as int].cached_recovery is None,
{
}

/// Cache invalidation: a take from under a cooldown clears its cached
/// value, and the cached recovery of the ability it reaches into.
pub proof fn lemma_take_clears_cache(
    c: CooldownM,
    p: Seq<usize>,
    c2: CooldownM,
    item: crate::model::DragableCardM,
)
    requires
        c.take(p) == Some((c2, item)),
    ensures
        c2.cooldown_value is None,
        p.last() == 1 ==> c2.abilities[p.drop_last().last() as int].cached_recovery is None,
{
}

/// Cache invalidation: any insert into a cooldown clears its cached value,
/// and the cached recovery of the ability it descends into.
pub proof fn lemma_insert_clears_cache(
    c: CooldownM,
    p: Seq<usize>,
    item: crate::model::DragableCardM,
    c2: CooldownM,
)
    requires
        c.insert(p, item) == Some(c2),
    ensures
        c2.cooldown_value is None,
        p.len() > 0 && p.last() == 1 ==> c2.abilities[p.drop_last().last() as int].cached_recovery
            is None,
{
}

/// Cache invalidation: a cleanup that reaches into a cooldown clears its
/// cached value, and the cached recovery of the ability whose card it
/// descends into.
pub proof fn lemma_cleanup_clears_cache(c: CooldownM, p: Seq<usize>, c2: CooldownM)
    requires
        p.len() > 0,
        c.cleanup(p) == Some(c2),
    ensures
        c2.cooldown_value is None,
        p.last() == 1 && p.drop_last().drop_last().len() > 0 ==> c2.abilities[p.drop_last().last()
            as int].cached_recovery is None,
{
}

// ---------------------------------------------------------------------------
// Round trip: take followed by insert at the same path restores the tree.

/// A direction slot taken and refilled at the same path is restored.
pub proof fn lemma_roundtrip_direction(
    d: crate::cards::DirectionCard,
    p: Seq<usize>,
    d2: crate::cards::DirectionCard,
    it: crate::model::DragableCardM,
    d3: crate::cards::DirectionCard,
)
    requires
        d.take(p) == Some((d2, it)),
        d2.insert(p, it) == Some(d3),
    ensures
        d3 == d,
{
}

/// A projectile modifier subtree taken and reinserted at the same path is
/// restored.
pub proof fn lemma_roundtrip_pm(
    m: ProjectileModifierM,
    p: Seq<usize>,
    m2: ProjectileModifierM,
    it: crate::model::DragableCardM,
    m3: ProjectileModifierM,
)
    requires
        m.take(p) == Some((m2, it)),
        m2.insert(p, it) == Some(m3),
    ensures
        m3 == m,
    decreases p.len(), 2nat,
{
    let q = p.drop_last();
    match m {
        ProjectileModifierM::LockToOwner(d) => {
            match d.take(q) {
                Some((dd2, itv)) => {
                    match dd2.insert(q, itv) {
                        Some(dd3) => {
                            lemma_roundtrip_direction(d, q, dd2, itv, dd3);
                        },
                        None => {
                            assert(false);
                        },
                    }
                },
                None => {
                    assert(false);
                },
            }
        },
        ProjectileModifierM::OnHit(c) => {
            lemma_roundtrip_pm_card(c, p, q, m, m2, it, m3);
        },
        ProjectileModifierM::OnHeadshot(c) => {
            lemma_roundtrip_pm_card(c, p, q, m, m2, it, m3);
        },
        ProjectileModifierM::OnExpiry(c) => {
            lemma_roundtrip_pm_card(c, p, q, m, m2, it, m3);
        },
        ProjectileModifierM::OnTrigger(_, c) => {
            lemma_roundtrip_pm_card(c, p, q, m, m2, it, m3);
        },
        ProjectileModifierM::Trail(_, c) => {
            lemma_roundtrip_pm_card(c, p, q, m, m2, it, m3);
        },
        _ => {
            assert(false);
        },
    }
}

/// The shared argument for the five advanced projectile modifiers, whose
/// nested card sits behind the `0` sentinel.
proof fn lemma_roundtrip_pm_card(
    c: BaseCardM,
    p: Seq<usize>,
    q: Seq<usize>,
    m: ProjectileModifierM,
    m2: ProjectileModifierM,
    it: crate::model::DragableCardM,
    m3: ProjectileModifierM,
)
    requires
        q == p.drop_last(),
        m.take(p) == Some((m2, it)),
        m2.insert(p, it) == Some(m3),
        ({
            ||| (m matches ProjectileModifierM::OnHit(cc) && cc == c)
            ||| (m matches ProjectileModifierM::OnHeadshot(cc) && cc == c)
            ||| (m matches ProjectileModifierM::OnExpiry(cc) && cc == c)
            ||| (m matches ProjectileModifierM::OnTrigger(_, cc) && cc == c)
            ||| (m matches ProjectileModifierM::Trail(_, cc) && cc == c)
        }),
    ensures
        m3 == m,
    decreases p.len(), 0nat,
{
    if q.len() == 0 {
        assert(m2.insert(p, it) == Some(m3));
        assert(it == crate::model::DragableCardM::BaseCard(c));
        assert(BaseCardM::Empty.insert(q, it) == Some(c));
    } else {
        match c.take(q) {
            Some((c2, itv)) => {
                match c2.insert(q, itv) {
                    Some(c3) => {
                        lemma_roundtrip_bc(c, q, c2, itv, c3);
                    },
                    None => {
                        assert(false);
                    },
                }
            },
            None => {
                assert(false);
            },
        }
    }
}

/// A status effect subtree taken with path `q` and reinserted (the parent
/// consumes the sentinel on the way in) is restored.
pub proof fn lemma_roundtrip_se(
    e: StatusEffectM,
    q: Seq<usize>,
    e2: StatusEffectM,
    it: crate::model::DragableCardM,
    e3: StatusEffectM,
)
    requires
        e.take(q) == Some((e2, it)),
        e2.insert(q.drop_last(), it) == Some(e3),
    ensures
        e3 == e,
    decreases q.len(), 2nat,
{
    let r = q.drop_last();
    match e {
        StatusEffectM::OnHit(c) => {
            match c.take(r) {
                Some((c2, itv)) => {
                    match c2.insert(r, itv) {
                        Some(c3) => {
                            lemma_roundtrip_bc(c, r, c2, itv, c3);
                        },
                        None => {
                            assert(false);
                        },
                    }
                },
                None => {
                    assert(false);
                },
            }
        },
        StatusEffectM::SimpleStatusEffect(SimpleStatusEffectType::IncreaseGravity(d), _) => {
            match d.take(r) {
                Some((dd2, itv)) => {
                    match dd2.insert(r, itv) {
                        Some(dd3) => {
                            lemma_roundtrip_direction(d, r, dd2, itv, dd3);
                        },
                        None => {
                            assert(false);
                        },
                    }
                },
                None => {
                    assert(false);
                },
            }
        },
        _ => {
            assert(false);
        },
    }
}

/// A card subtree taken and reinserted at the same path is restored.
pub proof fn lemma_roundtrip_bc(
    c: BaseCardM,
    p: Seq<usize>,
    c2: BaseCardM,
    it: crate::model::DragableCardM,
    c3: BaseCardM,
)
    requires
        c.take(p) == Some((c2, it)),
        c2.insert(p, it) == Some(c3),
    ensures
        c3 == c,
    decreases p.len(), 1nat,
{
    if p.len() == 0 {
        assert(c2 == BaseCardM::Empty);
        assert(it == crate::model::DragableCardM::BaseCard(c));
    } else {
        let i = p.last() as int;
        let q = p.drop_last();
        match c {
            BaseCardM::Projectile(mods) => {
                match mods[i].take(q) {
                    Some((mm2, itv)) => {
                        let mods2 = mods.update(i, mm2);
                        match mm2.insert(q, itv) {
                            Some(mm3) => {
                                lemma_roundtrip_pm(mods[i], q, mm2, itv, mm3);
                                assert(mods2.update(i, mm3) =~= mods);
                            },
                            None => {
                                assert(false);
                            },
                        }
                    },
                    None => {
                        assert(false);
                    },
                }
            },
            BaseCardM::MultiCast(cards, mods) => {
                let ti = p.last();
                if ti == 0 {
                    assert(false);
                } else {
                    let ii = q.last() as int;
                    let r = q.drop_last();
                    if r.len() == 0 {
                        assert(it == crate::model::DragableCardM::BaseCard(cards[ii]));
                        assert(cards.update(ii, BaseCardM::Empty)[ii] == BaseCardM::Empty);
                        assert(BaseCardM::Empty.insert(r, it) == Some(cards[ii]));
                        assert(c3 == BaseCardM::MultiCast(
                            cards.update(ii, BaseCardM::Empty).update(ii, cards[ii]),
                            mods,
                        ));
                        assert(cards.update(ii, BaseCardM::Empty).update(ii, cards[ii]) =~= cards);
                    } else {
                        match cards[ii].take(r) {
                            Some((cc2, itv)) => {
                                match cc2.insert(r, itv) {
                                    Some(cc3) => {
                                        lemma_roundtrip_bc(cards[ii], r, cc2, itv, cc3);
                                        assert(cards.update(ii, cc2).update(ii, cc3) =~= cards);
                                    },
                                    None => {
                                        assert(false);
                                    },
                                }
                            },
                            None => {
                                assert(false);
                            },
                        }
                    }
                }
            },
            BaseCardM::StatusEffects(dur, effs) => {
                if q.len() == 0 {
                    assert(false);
                } else {
                    match effs[i].take(q) {
                        Some((ee2, itv)) => {
                            match ee2.insert(q.drop_last(), itv) {
                                Some(ee3) => {
                                    lemma_roundtrip_se(effs[i], q, ee2, itv, ee3);
                                    assert(effs.update(i, ee2).update(i, ee3) =~= effs);
                                },
                                None => {
                                    assert(false);
                                },
                            }
                        },
                        None => {
                            assert(false);
                        },
                    }
                }
            },
            BaseCardM::Effect(Effect::Knockback(_, _)) => {
            },
            _ => {
                assert(false);
            },
        }
    }
}

/// A cooldown holds no cached values: neither its own cached recovery nor
/// any of its abilities'.
pub open spec fn cd_caches_clear(c: CooldownM) -> bool {
    c.cooldown_value is None && forall|j: int|
        0 <= j < c.abilities.len() ==> c.abilities[j].cached_recovery is None
}

/// A cooldown with no cached values, taken from and refilled at the same
/// path, is restored.
pub proof fn lemma_roundtrip_cd(
    c: CooldownM,
    p: Seq<usize>,
    c2: CooldownM,
    it: crate::model::DragableCardM,
    c3: CooldownM,
)
    requires
        cd_caches_clear(c),
        c.take(p) == Some((c2, it)),
        c2.insert(p, it) == Some(c3),
    ensures
        c3 == c,
    decreases p.len(),
{
    let ti = p.last();
    let q = p.drop_last();
    if ti == 0 {
        assert(false);
    } else {
        let i = q.last() as int;
        let r = q.drop_last();
        let ab = c.abilities[i];
        if r.len() == 0 {
            assert(it == crate::model::DragableCardM::BaseCard(ab.card));
            assert(BaseCardM::Empty.insert(r, it) == Some(ab.card));
            assert(c3.abilities =~= c.abilities.update(i, ab).update(i, ab).update(
                i,
                c3.abilities[i],
            ));
            assert(c3.abilities[i] == ab);
            assert(c3.abilities =~= c.abilities);
            assert(c3 =~= c);
        } else {
            match ab.card.take(r) {
                Some((cc2, itv)) => {
                    match cc2.insert(r, itv) {
                        Some(cc3) => {
                            lemma_roundtrip_bc(ab.card, r, cc2, itv, cc3);
                            assert(c3.abilities =~= c.abilities);
                            assert(c3 =~= c);
                        },
                        None => {
                            assert(false);
                        },
                    }
                },
                None => {
                    assert(false);
                },
            }
        }
    }
}

/// The passive card, taken from and refilled at the same path, is restored.
pub proof fn lemma_roundtrip_passive(
    pc: crate::model::PassiveCardM,
    p: Seq<usize>,
    pc2: crate::model::PassiveCardM,
    it: crate::model::DragableCardM,
    pc3: crate::model::PassiveCardM,
)
    requires
        pc.take(p) == Some((pc2, it)),
        pc2.insert(p, it) == Some(pc3),
    ensures
        pc3 == pc,
    decreases p.len(),
{
    let i = p.last() as int;
    let q = p.drop_last();
    if q.len() == 0 {
        assert(false);
    } else {
        match pc.passive_effects[i].take(q) {
            Some((ee2, itv)) => {
                match ee2.insert(q.drop_last(), itv) {
                    Some(ee3) => {
                        lemma_roundtrip_se(pc.passive_effects[i], q, ee2, itv, ee3);
                        assert(pc.passive_effects.update(i, ee2).update(i, ee3)
                            =~= pc.passive_effects);
                        assert(pc3 =~= pc);
                    },
                    None => {
                        assert(false);
                    },
                }
            },
            None => {
                assert(false);
            },
        }
    }
}

/// No cooldown of the deck holds a cached value.
pub open spec fn deck_caches_clear(d: crate::model::DeckM) -> bool {
    forall|i: int| 0 <= i < d.cooldowns.len() ==> cd_caches_clear(#[trigger] d.cooldowns[i])
}

/// Round trip: on a deck with no cached recovery values, detaching a
/// subtree and inserting the detached item back at the same path
/// reconstructs the original deck exactly.
pub proof fn lemma_take_insert_roundtrip(
    d: crate::model::DeckM,
    p: Seq<usize>,
    d1: crate::model::DeckM,
    it: crate::model::DragableCardM,
    d2: crate::model::DeckM,
)
    requires
        deck_caches_clear(d),
        d.take(p) == Some((d1, it)),
        d1.insert(p, it) == Some(d2),
    ensures
        d2 == d,
{
    let root = p.last();
    let q = p.drop_last();
    if root == 1 {
        match d.passive.take(q) {
            Some((pc2, itv)) => {
                match pc2.insert(q, itv) {
                    Some(pc3) => {
                        lemma_roundtrip_passive(d.passive, q, pc2, itv, pc3);
                        assert(d2 =~= d);
                    },
                    None => {
                        assert(false);
                    },
                }
            },
            None => {
                assert(false);
            },
        }
    } else {
        let i = (root - 2) as int;
        match d.cooldowns[i].take(q) {
            Some((cc2, itv)) => {
                match cc2.insert(q, itv) {
                    Some(cc3) => {
                        lemma_roundtrip_cd(d.cooldowns[i], q, cc2, itv, cc3);
                        assert(d.cooldowns.update(i, cc2).update(i, cc3) =~= d.cooldowns);
                        assert(d2 =~= d);
                    },
                    None => {
                        assert(false);
                    },
                }
            },
            None => {
                assert(false);
            },
        }
    }
}

} // verus!
