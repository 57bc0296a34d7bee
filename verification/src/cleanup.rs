use vstd::prelude::*;

use crate::cards::{
    Ability, BaseCard, Cooldown, CooldownModifier, Deck, DirectionCard, Effect, MultiCastModifier,
    PassiveCard, ProjectileModifier, SimpleStatusEffectType, StatusEffect,
};
use crate::model::{
    ab_models, bc_models, cd_models, lemma_ab_models, lemma_bc_models, lemma_cd_models,
    lemma_dc_models, lemma_pm_models, lemma_se_models, pm_models, se_models, BaseCardM,
    StatusEffectM,
};
use crate::semantics::{
    bc_keep_pred, lemma_take_drop_last, pm_cleanup_pred, se_cleanup_pred,
};

verus! {

broadcast use lemma_pm_models, lemma_se_models, lemma_bc_models, lemma_dc_models, lemma_ab_models, lemma_cd_models, Seq::lemma_filter_push, Seq::lemma_filter_len_push;

// The cleanup (prune) pass that closes a drag transaction: at the level the
// path addresses it removes the entries a take left empty — and counted
// entries whose count reached exactly 0 — and it never removes a
// cooldown's last ability. With path segments remaining it descends. The
// returned flag reports whether the path addressed a legal level; on
// `false` the node comes back unchanged.

fn pm_cleanup_filter(mods: Vec<ProjectileModifier>) -> (res: Vec<ProjectileModifier>)
    ensures
        pm_models(res@) == pm_models(mods@).filter(pm_cleanup_pred()),
{
    let mut out: Vec<ProjectileModifier> = Vec::new();
    let mut i: usize = 0;
    proof {
        assert(pm_models(mods@).take(0).filter(pm_cleanup_pred()).len() <= 0) by {
            pm_models(mods@).take(0).lemma_filter_len(pm_cleanup_pred());
        }
        assert(pm_models(out@) =~= pm_models(mods@).take(0).filter(pm_cleanup_pred()));
    }
    while i < mods.len()
        invariant
            i <= mods@.len(),
            pm_models(out@) == pm_models(mods@).take(i as int).filter(pm_cleanup_pred()),
        decreases mods@.len() - i,
    {
        let keep = match &mods[i] {
            ProjectileModifier::Empty => false,
            ProjectileModifier::SimpleModify(_, v) => *v != 0,
            _ => true,
        };
        let ghost pre = pm_models(mods@).take(i as int);
        let ghost e = pm_models(mods@)[i as int];
        proof {
            assert(pm_models(mods@).take(i as int + 1) =~= pre.push(e));
            assert(keep == pm_cleanup_pred()(e));
        }
        if keep {
            out.push(mods[i].deep_clone());
            proof {
                assert(pm_models(out@) =~= pre.filter(pm_cleanup_pred()).push(e));
            }
        }
        i += 1;
    }
    proof {
        assert(pm_models(mods@).take(mods@.len() as int) =~= pm_models(mods@));
    }
    out
}

fn se_cleanup_filter(effs: Vec<StatusEffect>) -> (res: Vec<StatusEffect>)
    ensures
        se_models(res@) == se_models(effs@).filter(se_cleanup_pred()),
{
    let mut out: Vec<StatusEffect> = Vec::new();
    let mut i: usize = 0;
    proof {
        assert(se_models(effs@).take(0).filter(se_cleanup_pred()).len() <= 0) by {
            se_models(effs@).take(0).lemma_filter_len(se_cleanup_pred());
        }
        assert(se_models(out@) =~= se_models(effs@).take(0).filter(se_cleanup_pred()));
    }
    while i < effs.len()
        invariant
            i <= effs@.len(),
            se_models(out@) == se_models(effs@).take(i as int).filter(se_cleanup_pred()),
        decreases effs@.len() - i,
    {
        let keep = match &effs[i] {
            StatusEffect::Empty => false,
            StatusEffect::SimpleStatusEffect(_, v) => *v != 0,
            StatusEffect::UnsignedSimpleStatusEffect(_, v) => *v != 0,
            _ => true,
        };
        let ghost pre = se_models(effs@).take(i as int);
        let ghost e = se_models(effs@)[i as int];
        proof {
            assert(se_models(effs@).take(i as int + 1) =~= pre.push(e));
            assert(keep == se_cleanup_pred()(e));
        }
        if keep {
            out.push(effs[i].deep_clone());
            proof {
                assert(se_models(out@) =~= pre.filter(se_cleanup_pred()).push(e));
            }
        }
        i += 1;
    }
    proof {
        assert(se_models(effs@).take(effs@.len() as int) =~= se_models(effs@));
    }
    out
}

fn bc_cleanup_filter(cards: Vec<BaseCard>) -> (res: Vec<BaseCard>)
    ensures
        bc_models(res@) == bc_models(cards@).filter(bc_keep_pred()),
{
    let mut out: Vec<BaseCard> = Vec::new();
    let mut i: usize = 0;
    proof {
        assert(bc_models(cards@).take(0).filter(bc_keep_pred()).len() <= 0) by {
            bc_models(cards@).take(0).lemma_filter_len(bc_keep_pred());
        }
        assert(bc_models(out@) =~= bc_models(cards@).take(0).filter(bc_keep_pred()));
    }
    while i < cards.len()
        invariant
            i <= cards@.len(),
            bc_models(out@) == bc_models(cards@).take(i as int).filter(bc_keep_pred()),
        decreases cards@.len() - i,
    {
        let keep = !matches!(&cards[i], BaseCard::Empty);
        let ghost pre = bc_models(cards@).take(i as int);
        let ghost e = bc_models(cards@)[i as int];
        proof {
            assert(bc_models(cards@).take(i as int + 1) =~= pre.push(e));
            assert(keep == bc_keep_pred()(e));
        }
        if keep {
            out.push(cards[i].deep_clone());
            proof {
                assert(bc_models(out@) =~= pre.filter(bc_keep_pred()).push(e));
            }
        }
        i += 1;
    }
    proof {
        assert(bc_models(cards@).take(cards@.len() as int) =~= bc_models(cards@));
    }
    out
}

impl DirectionCard {
    pub fn cleanup(self, path: &Vec<usize>, n: usize) -> (res: (Self, bool))
        requires
            n <= path@.len(),
        ensures
            match DirectionCard::cleanup_spec(self, path@.take(n as int)) {
                Some(m2) => res.1 && res.0 == m2,
                None => !res.1 && res.0 == self,
            },
    {
        (self, n == 0)
    }
}

impl ProjectileModifier {
    pub fn cleanup(self, path: &Vec<usize>, n: usize) -> (res: (Self, bool))
        requires
            n <= path@.len(),
        ensures
            match self.model().cleanup(path@.take(n as int)) {
                Some(m2) => res.1 && res.0.model() == m2,
                None => !res.1 && res.0.model() == self.model(),
            },
        decreases n, self,
    {
        if n == 0 {
            return (self, false);
        }
        proof {
            lemma_take_drop_last(path@, n as int);
        }
        if path[n - 1] != 0 {
            return (self, false);
        }
        match self {
            ProjectileModifier::OnHit(c) => {
                let (c2, ok) = c.cleanup(path, n - 1);
                (ProjectileModifier::OnHit(c2), ok)
            },
            ProjectileModifier::OnHeadshot(c) => {
                let (c2, ok) = c.cleanup(path, n - 1);
                (ProjectileModifier::OnHeadshot(c2), ok)
            },
            ProjectileModifier::OnExpiry(c) => {
                let (c2, ok) = c.cleanup(path, n - 1);
                (ProjectileModifier::OnExpiry(c2), ok)
            },
            ProjectileModifier::OnTrigger(id, c) => {
                let (c2, ok) = c.cleanup(path, n - 1);
                (ProjectileModifier::OnTrigger(id, c2), ok)
            },
            ProjectileModifier::Trail(f, c) => {
                let (c2, ok) = c.cleanup(path, n - 1);
                (ProjectileModifier::Trail(f, c2), ok)
            },
            ProjectileModifier::LockToOwner(d) => {
                let (d2, ok) = d.cleanup(path, n - 1);
                (ProjectileModifier::LockToOwner(d2), ok)
            },
            other => (other, false),
        }
    }
}

impl StatusEffect {
    pub fn cleanup(self, path: &Vec<usize>, n: usize) -> (res: (Self, bool))
        requires
            n <= path@.len(),
        ensures
            match self.model().cleanup(path@.take(n as int)) {
                Some(m2) => res.1 && res.0.model() == m2,
                None => !res.1 && res.0.model() == self.model(),
            },
        decreases n, self,
    {
        if n == 0 {
            return (self, false);
        }
        proof {
            lemma_take_drop_last(path@, n as int);
        }
        if path[n - 1] != 0 {
            return (self, false);
        }
        match self {
            StatusEffect::OnHit(c) => {
                let (c2, ok) = c.cleanup(path, n - 1);
                (StatusEffect::OnHit(c2), ok)
            },
            StatusEffect::SimpleStatusEffect(SimpleStatusEffectType::IncreaseGravity(d), v) => {
                let (d2, ok) = d.cleanup(path, n - 1);
                (
                    StatusEffect::SimpleStatusEffect(
                        SimpleStatusEffectType::IncreaseGravity(d2),
                        v,
                    ),
                    ok,
                )
            },
            other => (other, true),
        }
    }
}

impl BaseCard {
    pub fn cleanup(self, path: &Vec<usize>, n: usize) -> (res: (Self, bool))
        requires
            n <= path@.len(),
        ensures
            match self.model().cleanup(path@.take(n as int)) {
                Some(m2) => res.1 && res.0.model() == m2,
                None => !res.1 && res.0.model() == self.model(),
            },
        decreases n, self,
    {
        match self {
            BaseCard::Projectile(mut mods) => {
                if n <= 1 {
                    let pruned = pm_cleanup_filter(mods);
                    return (BaseCard::Projectile(pruned), true);
                }
                proof {
                    lemma_take_drop_last(path@, n as int);
                }
                let i = path[n - 1];
                if i >= mods.len() {
                    proof {
                        assert(self.model() == BaseCardM::Projectile(pm_models(mods@)));
                    }
                    return (BaseCard::Projectile(mods), false);
                }
                let ghost mods0 = mods@;
                let m = mods.remove(i);
                let (m2, ok) = m.cleanup(path, n - 1);
                mods.insert(i, m2);
                proof {
                    assert(mods@ =~= mods0.update(i as int, m2));
                    if ok {
                        assert(pm_models(mods@) =~= pm_models(mods0).update(i as int, m2.model()));
                    } else {
                        assert(pm_models(mods@) =~= pm_models(mods0));
                    }
                }
                (BaseCard::Projectile(mods), ok)
            },
            BaseCard::MultiCast(mut cards, mut mods) => {
                if n == 0 {
                    let pruned = bc_cleanup_filter(cards);
                    return (BaseCard::MultiCast(pruned, mods), true);
                }
                proof {
                    lemma_take_drop_last(path@, n as int);
                }
                let ti = path[n - 1];
                if ti == 0 {
                    if n != 2 {
                        return (BaseCard::MultiCast(cards, mods), false);
                    }
                    proof {
                        lemma_take_drop_last(path@, n as int - 1);
                    }
                    let i = path[n - 2];
                    if i >= mods.len() {
                        return (BaseCard::MultiCast(cards, mods), false);
                    }
                    let prune = match &mods[i] {
                        MultiCastModifier::Empty => true,
                        MultiCastModifier::Spread(v) => *v == 0,
                        MultiCastModifier::Duplication(v) => *v == 0,
                    };
                    if prune {
                        let ghost mods0 = mods@;
                        let _gone = mods.remove(i);
                        proof {
                            assert(mods@ == mods0.remove(i as int));
                        }
                    }
                    (BaseCard::MultiCast(cards, mods), true)
                } else if ti == 1 {
                    if n == 1 {
                        return (BaseCard::MultiCast(cards, mods), false);
                    }
                    proof {
                        lemma_take_drop_last(path@, n as int - 1);
                    }
                    let i = path[n - 2];
                    if i >= cards.len() {
                        proof {
                            assert(self.model() == BaseCardM::MultiCast(bc_models(cards@), mods@));
                        }
                        return (BaseCard::MultiCast(cards, mods), false);
                    }
                    if n == 2 {
                        let gone = matches!(&cards[i], BaseCard::Empty);
                        proof {
                            assert((bc_models(cards@)[i as int] is Empty) == gone);
                        }
                        if gone {
                            let ghost cards0 = cards@;
                            let _c = cards.remove(i);
                            proof {
                                assert(bc_models(cards@) =~= bc_models(cards0).remove(i as int));
                            }
                        }
                        (BaseCard::MultiCast(cards, mods), true)
                    } else {
                        let ghost cards0 = cards@;
                        let c = cards.remove(i);
                        let (c2, ok) = c.cleanup(path, n - 2);
                        cards.insert(i, c2);
                        proof {
                            assert(cards@ =~= cards0.update(i as int, c2));
                            if ok {
                                assert(bc_models(cards@) =~= bc_models(cards0).update(
                                    i as int,
                                    c2.model(),
                                ));
                            } else {
                                assert(bc_models(cards@) =~= bc_models(cards0));
                            }
                        }
                        (BaseCard::MultiCast(cards, mods), ok)
                    }
                } else {
                    (BaseCard::MultiCast(cards, mods), false)
                }
            },
            BaseCard::StatusEffects(dur, mut effs) => {
                if n <= 1 {
                    let pruned = se_cleanup_filter(effs);
                    return (BaseCard::StatusEffects(dur, pruned), true);
                }
                proof {
                    lemma_take_drop_last(path@, n as int);
                }
                let i = path[n - 1];
                if path[n - 2] != 0 || i >= effs.len() {
                    proof {
                        assert(self.model() == BaseCardM::StatusEffects(dur, se_models(effs@)));
                    }
                    return (BaseCard::StatusEffects(dur, effs), false);
                }
                proof {
                    lemma_take_drop_last(path@, n as int - 1);
                }
                let is_on_hit = matches!(&effs[i], StatusEffect::OnHit(_));
                if is_on_hit {
                    let ghost effs0 = effs@;
                    let e = effs.remove(i);
                    match e {
                        StatusEffect::OnHit(c) => {
                            let (c2, ok) = c.cleanup(path, n - 2);
                            let e2 = StatusEffect::OnHit(c2);
                            effs.insert(i, e2);
                            proof {
                                assert(effs@ =~= effs0.update(i as int, e2));
                                if ok {
                                    assert(se_models(effs@) =~= se_models(effs0).update(
                                        i as int,
                                        e2.model(),
                                    ));
                                } else {
                                    assert(se_models(effs@) =~= se_models(effs0));
                                }
                            }
                            (BaseCard::StatusEffects(dur, effs), ok)
                        },
                        _ => {
                            proof {
                                assert(false);
                            }
                            (BaseCard::StatusEffects(dur, effs), false)
                        },
                    }
                } else {
                    let grav = matches!(
                        &effs[i],
                        StatusEffect::SimpleStatusEffect(SimpleStatusEffectType::IncreaseGravity(_), _)
                    );
                    proof {
                        assert(grav == (se_models(effs@)[i as int]
                            matches StatusEffectM::SimpleStatusEffect(
                            SimpleStatusEffectType::IncreaseGravity(_),
                            _,
                        )));
                        assert(self.model() == BaseCardM::StatusEffects(dur, se_models(effs@)));
                    }
                    if grav && n == 2 {
                        (BaseCard::StatusEffects(dur, effs), true)
                    } else {
                        (BaseCard::StatusEffects(dur, effs), false)
                    }
                }
            },
            BaseCard::Empty => {
                let ok = n == 0;
                (BaseCard::Empty, ok)
            },
            BaseCard::Effect(Effect::Knockback(v, d)) => {
                if n == 1 {
                    proof {
                        lemma_take_drop_last(path@, n as int);
                    }
                    let ok = path[n - 1] == 0;
                    (BaseCard::Effect(Effect::Knockback(v, d)), ok)
                } else {
                    (BaseCard::Effect(Effect::Knockback(v, d)), false)
                }
            },
            other => (other, false),
        }
    }
}

impl PassiveCard {
    pub fn cleanup(self, path: &Vec<usize>, n: usize) -> (res: (Self, bool))
        requires
            n <= path@.len(),
        ensures
            match self.model().cleanup(path@.take(n as int)) {
                Some(m2) => res.1 && res.0.model() == m2,
                None => !res.1 && res.0.model() == self.model(),
            },
        decreases n,
    {
        let PassiveCard { mut passive_effects } = self;
        if n <= 1 {
            let pruned = se_cleanup_filter(passive_effects);
            return (PassiveCard { passive_effects: pruned }, true);
        }
        proof {
            lemma_take_drop_last(path@, n as int);
        }
        let i = path[n - 1];
        if path[n - 2] != 0 || i >= passive_effects.len() {
            return (PassiveCard { passive_effects }, false);
        }
        proof {
            lemma_take_drop_last(path@, n as int - 1);
        }
        let is_on_hit = matches!(&passive_effects[i], StatusEffect::OnHit(_));
        if is_on_hit {
            let ghost effs0 = passive_effects@;
            let e = passive_effects.remove(i);
            match e {
                StatusEffect::OnHit(c) => {
                    let (c2, ok) = c.cleanup(path, n - 2);
                    let e2 = StatusEffect::OnHit(c2);
                    passive_effects.insert(i, e2);
                    proof {
                        assert(passive_effects@ =~= effs0.update(i as int, e2));
                        if ok {
                            assert(se_models(passive_effects@) =~= se_models(effs0).update(
                                i as int,
                                e2.model(),
                            ));
                        } else {
                            assert(se_models(passive_effects@) =~= se_models(effs0));
                        }
                    }
                    (PassiveCard { passive_effects }, ok)
                },
                _ => {
                    proof {
                        assert(false);
                    }
                    (PassiveCard { passive_effects }, false)
                },
            }
        } else {
            let grav = matches!(
                &passive_effects[i],
                StatusEffect::SimpleStatusEffect(SimpleStatusEffectType::IncreaseGravity(_), _)
            );
            proof {
                assert(grav == (se_models(passive_effects@)[i as int]
                    matches StatusEffectM::SimpleStatusEffect(
                    SimpleStatusEffectType::IncreaseGravity(_),
                    _,
                )));
            }
            if grav && n == 2 {
                (PassiveCard { passive_effects }, true)
            } else {
                (PassiveCard { passive_effects }, false)
            }
        }
    }
}

impl Cooldown {
    /// Cleanup prunes one addressed modifier slot, or one emptied ability —
    /// never the last one — or recurses into an ability's card.
    pub fn cleanup(self, path: &Vec<usize>, n: usize) -> (res: (Self, bool))
        requires
            n <= path@.len(),
        ensures
            match self.model().cleanup(path@.take(n as int)) {
                Some(m2) => res.1 && res.0.model() == m2,
                None => !res.1 && res.0.model() == self.model(),
            },
        decreases n,
    {
        let Cooldown { mut abilities, mut modifiers, cooldown_value } = self;
        if n == 0 {
            return (Cooldown { abilities, modifiers, cooldown_value }, true);
        }
        proof {
            lemma_take_drop_last(path@, n as int);
        }
        let ti = path[n - 1];
        if ti == 0 {
            if n != 2 {
                return (Cooldown { abilities, modifiers, cooldown_value }, false);
            }
            proof {
                lemma_take_drop_last(path@, n as int - 1);
            }
            let i = path[n - 2];
            if i >= modifiers.len() {
                return (Cooldown { abilities, modifiers, cooldown_value }, false);
            }
            let prune = match &modifiers[i] {
                CooldownModifier::Empty => true,
                CooldownModifier::SimpleCooldownModifier(_, v) => *v == 0,
                CooldownModifier::SignedSimpleCooldownModifier(_, v) => *v == 0,
                CooldownModifier::Reloading => false,
            };
            if prune {
                let ghost mods0 = modifiers@;
                let _gone = modifiers.remove(i);
                proof {
                    assert(modifiers@ == mods0.remove(i as int));
                }
            }
            (Cooldown { abilities, modifiers, cooldown_value: Option::None }, true)
        } else if ti == 1 {
            if n == 1 {
                return (Cooldown { abilities, modifiers, cooldown_value }, false);
            }
            proof {
                lemma_take_drop_last(path@, n as int - 1);
            }
            let i = path[n - 2];
            if i >= abilities.len() {
                return (Cooldown { abilities, modifiers, cooldown_value }, false);
            }
            if n == 2 {
                let gone = matches!(&abilities[i].card, BaseCard::Empty) && abilities.len() > 1;
                proof {
                    assert(ab_models(abilities@)[i as int] == abilities@[i as int].model());
                }
                if gone {
                    let ghost abs0 = abilities@;
                    let _ab = abilities.remove(i);
                    proof {
                        assert(ab_models(abilities@) =~= ab_models(abs0).remove(i as int));
                    }
                }
                (Cooldown { abilities, modifiers, cooldown_value: Option::None }, true)
            } else {
                let ghost abs0 = abilities@;
                let Ability { card, keybind, is_keybind_selected, cached_recovery } = abilities
                    .remove(i);
                let (c2, ok) = card.cleanup(path, n - 2);
                if ok {
                    let ab = Ability {
                        card: c2,
                        keybind,
                        is_keybind_selected,
                        cached_recovery: Option::None,
                    };
                    abilities.insert(i, ab);
                    proof {
                        assert(abilities@ =~= abs0.update(i as int, ab));
                        assert(ab_models(abilities@) =~= ab_models(abs0).update(
                            i as int,
                            ab.model(),
                        ));
                    }
                    (Cooldown { abilities, modifiers, cooldown_value: Option::None }, true)
                } else {
                    let ab = Ability { card: c2, keybind, is_keybind_selected, cached_recovery };
                    abilities.insert(i, ab);
                    proof {
                        assert(abilities@ =~= abs0.update(i as int, ab));
                        assert(ab_models(abilities@) =~= ab_models(abs0));
                    }
                    (Cooldown { abilities, modifiers, cooldown_value }, false)
                }
            }
        } else {
            (Cooldown { abilities, modifiers, cooldown_value }, false)
        }
    }
}

impl Deck {
    /// Run the cleanup pass along the (already reversed) path `path[..n]`;
    /// root slot 1 is the passive card, 2 and up the cooldowns.
    pub fn cleanup(self, path: &Vec<usize>, n: usize) -> (res: (Self, bool))
        requires
            n <= path@.len(),
        ensures
            match self.model().cleanup(path@.take(n as int)) {
                Some(m2) => res.1 && res.0.model() == m2,
                None => !res.1 && res.0.model() == self.model(),
            },
        decreases n,
    {
        let Deck { mut cooldowns, passive } = self;
        if n == 0 {
            return (Deck { cooldowns, passive }, false);
        }
        proof {
            lemma_take_drop_last(path@, n as int);
        }
        let root = path[n - 1];
        if root == 1 {
            let (p2, ok) = passive.cleanup(path, n - 1);
            (Deck { cooldowns, passive: p2 }, ok)
        } else if root >= 2 {
            let i = root - 2;
            if i >= cooldowns.len() {
                return (Deck { cooldowns, passive }, false);
            }
            let ghost cds0 = cooldowns@;
            let c = cooldowns.remove(i);
            let (c2, ok) = c.cleanup(path, n - 1);
            cooldowns.insert(i, c2);
            proof {
                assert(cooldowns@ =~= cds0.update(i as int, c2));
                if ok {
                    assert(cd_models(cooldowns@) =~= cd_models(cds0).update(i as int, c2.model()));
                } else {
                    assert(cd_models(cooldowns@) =~= cd_models(cds0));
                }
            }
            (Deck { cooldowns, passive }, ok)
        } else {
            (Deck { cooldowns, passive }, false)
        }
    }
}

} // verus!
