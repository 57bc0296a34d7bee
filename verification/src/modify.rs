use vstd::prelude::*;

use crate::arith::{dec_floor_u32, dec_i32, inc_i32, inc_u32};
use crate::cards::{
    Ability, BaseCard, Cooldown, CooldownModifier, Deck, DirectionCard, Effect, ModificationType,
    MultiCastModifier, PassiveCard, ProjectileModifier, StatusEffect,
};
use crate::model::{
    BaseCardM,
    ab_models, bc_models, cd_models, lemma_ab_models, lemma_bc_models, lemma_cd_models,
    lemma_dc_models, lemma_pm_models, lemma_se_models, pm_models, se_models, CooldownM,
};
use crate::semantics::{clear_cd_caches, lemma_take_drop_last};

verus! {

broadcast use lemma_pm_models, lemma_se_models, lemma_bc_models, lemma_dc_models, lemma_ab_models, lemma_cd_models;

// The locate-and-modify operation. Each node consumes the remaining path
// `path[..n]` from its tail; an empty path addresses the node itself, whose
// numeric field (if any) is stepped by the modification type. The returned
// flag reports whether the path addressed a legal slot; on `false` the node
// comes back unchanged.

impl DirectionCard {
    pub fn modify_from_path(self, path: &Vec<usize>, n: usize, t: ModificationType) -> (res: (
        Self,
        bool,
    ))
        requires
            n <= path@.len(),
        ensures
            match self.modify(path@.take(n as int), t) {
                Some(m2) => res.1 && res.0 == m2,
                None => !res.1 && res.0 == self,
            },
    {
        (self, n == 0)
    }
}

impl CooldownModifier {
    pub fn modify_from_path(self, path: &Vec<usize>, n: usize, t: ModificationType) -> (res: (
        Self,
        bool,
    ))
        requires
            n <= path@.len(),
        ensures
            match self.modify(path@.take(n as int), t) {
                Some(m2) => res.1 && res.0 == m2,
                None => !res.1 && res.0 == self,
            },
    {
        if n != 0 {
            return (self, false);
        }
        let res = match self {
            CooldownModifier::SimpleCooldownModifier(k, v) => CooldownModifier::SimpleCooldownModifier(
                k,
                match t {
                    ModificationType::Increase => inc_u32(v),
                    ModificationType::Decrease => dec_floor_u32(v, 1),
                    ModificationType::Other => v,
                },
            ),
            CooldownModifier::SignedSimpleCooldownModifier(k, v) => CooldownModifier::SignedSimpleCooldownModifier(
                k,
                match t {
                    ModificationType::Increase => inc_i32(v),
                    ModificationType::Decrease => dec_i32(v),
                    ModificationType::Other => v,
                },
            ),
            other => other,
        };
        (res, true)
    }
}

impl MultiCastModifier {
    pub fn modify_from_path(self, path: &Vec<usize>, n: usize, t: ModificationType) -> (res: (
        Self,
        bool,
    ))
        requires
            n <= path@.len(),
        ensures
            match self.modify(path@.take(n as int), t) {
                Some(m2) => res.1 && res.0 == m2,
                None => !res.1 && res.0 == self,
            },
    {
        if n != 0 {
            return (self, false);
        }
        let res = match self {
            MultiCastModifier::Spread(v) => MultiCastModifier::Spread(
                match t {
                    ModificationType::Increase => inc_u32(v),
                    ModificationType::Decrease => dec_floor_u32(v, 1),
                    ModificationType::Other => v,
                },
            ),
            MultiCastModifier::Duplication(v) => MultiCastModifier::Duplication(
                match t {
                    ModificationType::Increase => inc_u32(v),
                    ModificationType::Decrease => dec_floor_u32(v, 1),
                    ModificationType::Other => v,
                },
            ),
            other => other,
        };
        (res, true)
    }
}

impl ProjectileModifier {
    pub fn modify_from_path(self, path: &Vec<usize>, n: usize, t: ModificationType) -> (res: (
        Self,
        bool,
    ))
        requires
            n <= path@.len(),
        ensures
            match self.model().modify(path@.take(n as int), t) {
                Some(m2) => res.1 && res.0.model() == m2,
                None => !res.1 && res.0.model() == self.model(),
            },
        decreases n, self,
    {
        if n == 0 {
            let res = match self {
                ProjectileModifier::SimpleModify(k, v) => ProjectileModifier::SimpleModify(
                    k,
                    match t {
                        ModificationType::Increase => inc_i32(v),
                        ModificationType::Decrease => dec_i32(v),
                        ModificationType::Other => v,
                    },
                ),
                ProjectileModifier::Trail(f, c) => ProjectileModifier::Trail(
                    match t {
                        ModificationType::Increase => inc_u32(f),
                        ModificationType::Decrease => dec_floor_u32(f, 1),
                        ModificationType::Other => f,
                    },
                    c,
                ),
                ProjectileModifier::OnTrigger(id, c) => ProjectileModifier::OnTrigger(
                    match t {
                        ModificationType::Increase => inc_u32(id),
                        ModificationType::Decrease => dec_floor_u32(id, 0),
                        ModificationType::Other => id,
                    },
                    c,
                ),
                other => other,
            };
            (res, true)
        } else {
            proof {
                lemma_take_drop_last(path@, n as int);
            }
            if path[n - 1] != 0 {
                return (self, false);
            }
            match self {
                ProjectileModifier::OnHit(c) => {
                    let (c2, ok) = c.modify_from_path(path, n - 1, t);
                    (ProjectileModifier::OnHit(c2), ok)
                },
                ProjectileModifier::OnHeadshot(c) => {
                    let (c2, ok) = c.modify_from_path(path, n - 1, t);
                    (ProjectileModifier::OnHeadshot(c2), ok)
                },
                ProjectileModifier::OnExpiry(c) => {
                    let (c2, ok) = c.modify_from_path(path, n - 1, t);
                    (ProjectileModifier::OnExpiry(c2), ok)
                },
                ProjectileModifier::OnTrigger(id, c) => {
                    let (c2, ok) = c.modify_from_path(path, n - 1, t);
                    (ProjectileModifier::OnTrigger(id, c2), ok)
                },
                ProjectileModifier::Trail(f, c) => {
                    let (c2, ok) = c.modify_from_path(path, n - 1, t);
                    (ProjectileModifier::Trail(f, c2), ok)
                },
                other => (other, false),
            }
        }
    }
}

impl StatusEffect {
    pub fn modify_from_path(self, path: &Vec<usize>, n: usize, t: ModificationType) -> (res: (
        Self,
        bool,
    ))
        requires
            n <= path@.len(),
        ensures
            match self.model().modify(path@.take(n as int), t) {
                Some(m2) => res.1 && res.0.model() == m2,
                None => !res.1 && res.0.model() == self.model(),
            },
        decreases n, self,
    {
        match self {
            StatusEffect::OnHit(c) => {
                if n == 0 {
                    return (StatusEffect::OnHit(c), false);
                }
                proof {
                    lemma_take_drop_last(path@, n as int);
                }
                if path[n - 1] != 0 {
                    return (StatusEffect::OnHit(c), false);
                }
                let (c2, ok) = c.modify_from_path(path, n - 1, t);
                (StatusEffect::OnHit(c2), ok)
            },
            StatusEffect::SimpleStatusEffect(k, v) => {
                if n != 0 {
                    return (StatusEffect::SimpleStatusEffect(k, v), false);
                }
                (
                    StatusEffect::SimpleStatusEffect(
                        k,
                        match t {
                            ModificationType::Increase => inc_i32(v),
                            ModificationType::Decrease => dec_i32(v),
                            ModificationType::Other => v,
                        },
                    ),
                    true,
                )
            },
            StatusEffect::UnsignedSimpleStatusEffect(k, v) => {
                if n != 0 {
                    return (StatusEffect::UnsignedSimpleStatusEffect(k, v), false);
                }
                (
                    StatusEffect::UnsignedSimpleStatusEffect(
                        k,
                        match t {
                            ModificationType::Increase => inc_u32(v),
                            ModificationType::Decrease => dec_floor_u32(v, 0),
                            ModificationType::Other => v,
                        },
                    ),
                    true,
                )
            },
            other => {
                let ok = n == 0;
                (other, ok)
            },
        }
    }
}

impl BaseCard {
    pub fn modify_from_path(self, path: &Vec<usize>, n: usize, t: ModificationType) -> (res: (
        Self,
        bool,
    ))
        requires
            n <= path@.len(),
        ensures
            match self.model().modify(path@.take(n as int), t) {
                Some(m2) => res.1 && res.0.model() == m2,
                None => !res.1 && res.0.model() == self.model(),
            },
        decreases n, self,
    {
        match self {
            BaseCard::Projectile(mut mods) => {
                if n == 0 {
                    return (BaseCard::Projectile(mods), false);
                }
                proof {
                    lemma_take_drop_last(path@, n as int);
                }
                let i = path[n - 1];
                if i >= mods.len() {
                    proof {
                        assert(pm_models(mods@).len() == mods@.len());
                        assert(self.model() == BaseCardM::Projectile(pm_models(mods@)));
                        assert(path@.take(n as int).last() == i);
                    }
                    return (BaseCard::Projectile(mods), false);
                }
                let ghost mods0 = mods@;
                let m = mods.remove(i);
                let (m2, ok) = m.modify_from_path(path, n - 1, t);
                mods.insert(i, m2);
                proof {
                    assert(mods@ =~= mods0.update(i as int, m2));
                    if ok {
                        assert(pm_models(mods@) =~= pm_models(mods0).update(i as int, m2.model()));
                    } else {
                        assert(pm_models(mods@) =~= pm_models(mods0));
                    }
                }
                (BaseCard::Projectile(mods), ok)
            },
            BaseCard::MultiCast(mut cards, mut mods) => {
                if n == 0 {
                    return (BaseCard::MultiCast(cards, mods), false);
                }
                proof {
                    lemma_take_drop_last(path@, n as int);
                }
                let ti = path[n - 1];
                if ti == 0 {
                    if n == 1 {
                        return (BaseCard::MultiCast(cards, mods), false);
                    }
                    proof {
                        lemma_take_drop_last(path@, n as int - 1);
                    }
                    let i = path[n - 2];
                    if i >= mods.len() {
                        return (BaseCard::MultiCast(cards, mods), false);
                    }
                    let ghost mods0 = mods@;
                    let m = mods.remove(i);
                    let (m2, ok) = m.modify_from_path(path, n - 2, t);
                    mods.insert(i, m2);
                    proof {
                        if ok {
                            assert(mods@ =~= mods0.update(i as int, m2));
                        } else {
                            assert(mods@ =~= mods0);
                        }
                    }
                    (BaseCard::MultiCast(cards, mods), ok)
                } else if ti == 1 {
                    if n == 1 {
                        return (BaseCard::MultiCast(cards, mods), false);
                    }
                    proof {
                        lemma_take_drop_last(path@, n as int - 1);
                    }
                    let i = path[n - 2];
                    if i >= cards.len() {
                        proof {
                            assert(bc_models(cards@).len() == cards@.len());
                            assert(self.model() == BaseCardM::MultiCast(bc_models(cards@), mods@));
                        }
                        return (BaseCard::MultiCast(cards, mods), false);
                    }
                    let ghost cards0 = cards@;
                    let c = cards.remove(i);
                    let (c2, ok) = c.modify_from_path(path, n - 2, t);
                    cards.insert(i, c2);
                    proof {
                        assert(cards@ =~= cards0.update(i as int, c2));
                        if ok {
                            assert(bc_models(cards@) =~= bc_models(cards0).update(
                                i as int,
                                c2.model(),
                            ));
                        } else {
                            assert(bc_models(cards@) =~= bc_models(cards0));
                        }
                    }
                    (BaseCard::MultiCast(cards, mods), ok)
                } else {
                    (BaseCard::MultiCast(cards, mods), false)
                }
            },
            BaseCard::StatusEffects(dur, mut effs) => {
                if n == 0 {
                    let dur2 = match t {
                        ModificationType::Increase => inc_u32(dur),
                        ModificationType::Decrease => dec_floor_u32(dur, 1),
                        ModificationType::Other => dur,
                    };
                    return (BaseCard::StatusEffects(dur2, effs), true);
                }
                proof {
                    lemma_take_drop_last(path@, n as int);
                }
                let i = path[n - 1];
                if i >= effs.len() {
                    proof {
                        assert(se_models(effs@).len() == effs@.len());
                        assert(self.model() == BaseCardM::StatusEffects(dur, se_models(effs@)));
                    }
                    return (BaseCard::StatusEffects(dur, effs), false);
                }
                let ghost effs0 = effs@;
                let e = effs.remove(i);
                let (e2, ok) = e.modify_from_path(path, n - 1, t);
                effs.insert(i, e2);
                proof {
                    assert(effs@ =~= effs0.update(i as int, e2));
                    if ok {
                        assert(se_models(effs@) =~= se_models(effs0).update(i as int, e2.model()));
                    } else {
                        assert(se_models(effs@) =~= se_models(effs0));
                    }
                }
                (BaseCard::StatusEffects(dur, effs), ok)
            },
            BaseCard::Effect(e) => {
                if n != 0 {
                    return (BaseCard::Effect(e), false);
                }
                let e2 = match e {
                    Effect::Damage(v) => Effect::Damage(
                        match t {
                            ModificationType::Increase => inc_i32(v),
                            ModificationType::Decrease => dec_i32(v),
                            ModificationType::Other => v,
                        },
                    ),
                    Effect::Knockback(v, d) => Effect::Knockback(
                        match t {
                            ModificationType::Increase => inc_i32(v),
                            ModificationType::Decrease => dec_i32(v),
                            ModificationType::Other => v,
                        },
                        d,
                    ),
                    other => other,
                };
                (BaseCard::Effect(e2), true)
            },
            BaseCard::Trigger(id) => {
                if n != 0 {
                    return (BaseCard::Trigger(id), false);
                }
                let id2 = match t {
                    ModificationType::Increase => inc_u32(id),
                    ModificationType::Decrease => dec_floor_u32(id, 0),
                    ModificationType::Other => id,
                };
                (BaseCard::Trigger(id2), true)
            },
            BaseCard::Palette(items) => {
                let ok = n == 0;
                (BaseCard::Palette(items), ok)
            },
            other => (other, false),
        }
    }
}

impl PassiveCard {
    pub fn modify_from_path(self, path: &Vec<usize>, n: usize, t: ModificationType) -> (res: (
        Self,
        bool,
    ))
        requires
            n <= path@.len(),
        ensures
            match self.model().modify(path@.take(n as int), t) {
                Some(m2) => res.1 && res.0.model() == m2,
                None => !res.1 && res.0.model() == self.model(),
            },
        decreases n,
    {
        let PassiveCard { mut passive_effects } = self;
        if n == 0 {
            return (PassiveCard { passive_effects }, true);
        }
        proof {
            lemma_take_drop_last(path@, n as int);
        }
        let i = path[n - 1];
        if i >= passive_effects.len() {
            return (PassiveCard { passive_effects }, false);
        }
        let ghost effs0 = passive_effects@;
        let e = passive_effects.remove(i);
        let (e2, ok) = e.modify_from_path(path, n - 1, t);
        passive_effects.insert(i, e2);
        proof {
            assert(passive_effects@ =~= effs0.update(i as int, e2));
            if ok {
                assert(se_models(passive_effects@) =~= se_models(effs0).update(
                    i as int,
                    e2.model(),
                ));
            } else {
                assert(se_models(passive_effects@) =~= se_models(effs0));
            }
        }
        (PassiveCard { passive_effects }, ok)
    }
}

impl Cooldown {
    pub fn modify_from_path(self, path: &Vec<usize>, n: usize, t: ModificationType) -> (res: (
        Self,
        bool,
    ))
        requires
            n <= path@.len(),
        ensures
            match self.model().modify(path@.take(n as int), t) {
                Some(m2) => res.1 && res.0.model() == m2,
                None => !res.1 && res.0.model() == self.model(),
            },
        decreases n,
    {
        let Cooldown { mut abilities, mut modifiers, cooldown_value } = self;
        if n == 0 {
            return (Cooldown { abilities, modifiers, cooldown_value }, false);
        }
        proof {
            lemma_take_drop_last(path@, n as int);
        }
        let ti = path[n - 1];
        if ti == 0 {
            if n == 1 {
                return (Cooldown { abilities, modifiers, cooldown_value }, false);
            }
            proof {
                lemma_take_drop_last(path@, n as int - 1);
            }
            let i = path[n - 2];
            if i >= modifiers.len() {
                return (Cooldown { abilities, modifiers, cooldown_value }, false);
            }
            let ghost mods0 = modifiers@;
            let m = modifiers.remove(i);
            let (m2, ok) = m.modify_from_path(path, n - 2, t);
            modifiers.insert(i, m2);
            proof {
                if ok {
                    assert(modifiers@ =~= mods0.update(i as int, m2));
                } else {
                    assert(modifiers@ =~= mods0);
                }
            }
            if ok {
                (Cooldown { abilities, modifiers, cooldown_value: Option::None }, true)
            } else {
                (Cooldown { abilities, modifiers, cooldown_value }, false)
            }
        } else if ti == 1 {
            if n == 1 {
                return (Cooldown { abilities, modifiers, cooldown_value }, false);
            }
            proof {
                lemma_take_drop_last(path@, n as int - 1);
            }
            let i = path[n - 2];
            if i >= abilities.len() {
                return (Cooldown { abilities, modifiers, cooldown_value }, false);
            }
            let ghost abs0 = abilities@;
            let Ability { card, keybind, is_keybind_selected, cached_recovery } = abilities.remove(
                i,
            );
            let (c2, ok) = card.modify_from_path(path, n - 2, t);
            if ok {
                let ab = Ability {
                    card: c2,
                    keybind,
                    is_keybind_selected,
                    cached_recovery: Option::None,
                };
                abilities.insert(i, ab);
                proof {
                    assert(abilities@ =~= abs0.update(i as int, ab));
                    assert(ab_models(abilities@) =~= ab_models(abs0).update(i as int, ab.model()));
                }
                (Cooldown { abilities, modifiers, cooldown_value: Option::None }, true)
            } else {
                let ab = Ability { card: c2, keybind, is_keybind_selected, cached_recovery };
                abilities.insert(i, ab);
                proof {
                    assert(abilities@ =~= abs0.update(i as int, ab));
                    assert(ab_models(abilities@) =~= ab_models(abs0));
                }
                (Cooldown { abilities, modifiers, cooldown_value }, false)
            }
        } else {
            (Cooldown { abilities, modifiers, cooldown_value }, false)
        }
    }
}

/// A path as the engine consumes it: the caller's root-to-leaf order,
/// reversed so the first step sits at the tail.
pub fn reversed(path: &Vec<usize>) -> (r: Vec<usize>)
    ensures
        r@ == path@.reverse(),
{
    let mut out: Vec<usize> = Vec::new();
    let mut i: usize = path.len();
    while i > 0
        invariant
            i <= path@.len(),
            out@.len() == path@.len() - i,
            forall|j: int| 0 <= j < out@.len() ==> out@[j] == path@[path@.len() - 1 - j],
        decreases i,
    {
        i -= 1;
        out.push(path[i]);
    }
    proof {
        assert(out@ =~= path@.reverse());
    }
    out
}

/// Every cooldown's cached value cleared, as the editor does before it
/// applies a frame's pending mutation.
pub fn clear_all_caches(mut cooldowns: Vec<Cooldown>) -> (res: Vec<Cooldown>)
    ensures
        cd_models(res@) == clear_cd_caches(cd_models(cooldowns@)),
{
    let ghost cds0 = cooldowns@;
    let mut i: usize = 0;
    while i < cooldowns.len()
        invariant
            i <= cooldowns@.len(),
            cooldowns@.len() == cds0.len(),
            forall|j: int| i <= j < cds0.len() ==> cooldowns@[j] == cds0[j],
            forall|j: int|
                0 <= j < i ==> cooldowns@[j].model() == (CooldownM {
                    abilities: cds0[j].model().abilities,
                    modifiers: cds0[j].model().modifiers,
                    cooldown_value: Option::None,
                }),
        decreases cooldowns@.len() - i,
    {
        let ghost pre = cooldowns@;
        let mut c = cooldowns.remove(i);
        c.cooldown_value = Option::None;
        cooldowns.insert(i, c);
        proof {
            assert(cooldowns@ =~= pre.update(i as int, c));
        }
        i += 1;
    }
    proof {
        assert(cd_models(cooldowns@) =~= clear_cd_caches(cd_models(cds0)));
    }
    cooldowns
}

impl Deck {
    /// Apply one pending modify event. The path is in root-to-leaf order as
    /// the frame's traversal built it; root slot 1 is the passive card,
    /// 2 and up are the cooldowns, and an exhausted path with `Decrease`
    /// removes the addressed cooldown. All cooldown caches are cleared.
    /// Returns the unchanged deck and `false` when the path is not a legal
    /// address for this deck.
    pub fn modify_from_path(self, path: &Vec<usize>, t: ModificationType) -> (res: (Self, bool))
        ensures
            match self.model().modify(path@.reverse(), t) {
                Some(m2) => res.1 && res.0.model() == m2,
                None => !res.1 && res.0.model() == self.model(),
            },
    {
        let rev = reversed(path);
        let n = rev.len();
        if n == 0 {
            return (self, false);
        }
        proof {
            lemma_take_drop_last(rev@, n as int);
            assert(rev@.take(n as int) =~= rev@);
        }
        let root = rev[n - 1];
        let Deck { cooldowns, passive } = self;
        if root == 1 {
            let (p2, ok) = passive.modify_from_path(&rev, n - 1, t);
            if ok {
                let cleared = clear_all_caches(cooldowns);
                (Deck { cooldowns: cleared, passive: p2 }, true)
            } else {
                (Deck { cooldowns, passive: p2 }, false)
            }
        } else if root >= 2 {
            let i = root - 2;
            if n == 1 {
                if matches!(t, ModificationType::Decrease) {
                    if i < cooldowns.len() {
                        let mut cleared = clear_all_caches(cooldowns);
                        let ghost pre = cleared@;
                        let _removed = cleared.remove(i);
                        proof {
                            assert(cd_models(pre.remove(i as int)) =~= cd_models(pre).remove(
                                i as int,
                            ));
                        }
                        (Deck { cooldowns: cleared, passive }, true)
                    } else {
                        (Deck { cooldowns, passive }, false)
                    }
                } else {
                    let cleared = clear_all_caches(cooldowns);
                    (Deck { cooldowns: cleared, passive }, true)
                }
            } else if i < cooldowns.len() {
                let mut cds = cooldowns;
                let ghost cds0 = cds@;
                let c = cds.remove(i);
                let (c2, ok) = c.modify_from_path(&rev, n - 1, t);
                cds.insert(i, c2);
                proof {
                    assert(cds@ =~= cds0.update(i as int, c2));
                }
                if ok {
                    let cleared = clear_all_caches(cds);
                    proof {
                        assert(clear_cd_caches(cd_models(cds@)) =~= clear_cd_caches(
                            cd_models(cds0),
                        ).update(i as int, c2.model()));
                    }
                    (Deck { cooldowns: cleared, passive }, true)
                } else {
                    proof {
                        assert(cd_models(cds@) =~= cd_models(cds0));
                    }
                    (Deck { cooldowns: cds, passive }, false)
                }
            } else {
                (Deck { cooldowns, passive }, false)
            }
        } else {
            (Deck { cooldowns, passive }, false)
        }
    }
}

} // verus!
