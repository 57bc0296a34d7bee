use vstd::prelude::*;

use crate::cards::{
    Ability, BaseCard, Cooldown, CooldownModifier, Deck, DirectionCard, Effect,
    MultiCastModifier, PassiveCard, ProjectileModifier, SimpleStatusEffectType, StatusEffect,
    DragableCard,
};
use crate::model::{
    ab_models, bc_models, cd_models, lemma_ab_models, lemma_bc_models, lemma_cd_models,
    lemma_dc_models, lemma_pm_models, lemma_se_models, pm_models, se_models, BaseCardM,
};
use crate::semantics::lemma_take_drop_last;

verus! {

broadcast use lemma_pm_models, lemma_se_models, lemma_bc_models, lemma_dc_models, lemma_ab_models, lemma_cd_models;

// The take (detach) operation: the subtree addressed by the remaining path
// `path[..n]` is removed, its slot is left holding the type's empty value,
// and the subtree comes back as the transported item. Taking a palette
// entry copies the template and leaves the palette unchanged. `None` as the
// returned item reports an illegal path; the node then comes back
// unchanged.

impl DirectionCard {
    pub fn take_from_path(self, path: &Vec<usize>, n: usize) -> (res: (
        Self,
        Option<DragableCard>,
    ))
        requires
            n <= path@.len(),
        ensures
            match self.take(path@.take(n as int)) {
                Some(r2) => res.1 matches Some(it) && res.0 == r2.0 && it.model() == r2.1,
                None => res.1 is None && res.0 == self,
            },
    {
        if n == 0 {
            (DirectionCard::Empty, Some(DragableCard::Direction(self)))
        } else {
            (self, None)
        }
    }
}

impl CooldownModifier {
    pub fn take_from_path(self, path: &Vec<usize>, n: usize) -> (res: (
        Self,
        Option<DragableCard>,
    ))
        requires
            n <= path@.len(),
        ensures
            match self.take(path@.take(n as int)) {
                Some(r2) => res.1 matches Some(it) && res.0 == r2.0 && it.model() == r2.1,
                None => res.1 is None && res.0 == self,
            },
    {
        if n == 0 {
            (CooldownModifier::Empty, Some(DragableCard::CooldownModifier(self)))
        } else {
            (self, None)
        }
    }
}

impl MultiCastModifier {
    pub fn take_from_path(self, path: &Vec<usize>, n: usize) -> (res: (
        Self,
        Option<DragableCard>,
    ))
        requires
            n <= path@.len(),
        ensures
            match self.take(path@.take(n as int)) {
                Some(r2) => res.1 matches Some(it) && res.0 == r2.0 && it.model() == r2.1,
                None => res.1 is None && res.0 == self,
            },
    {
        if n == 0 {
            (MultiCastModifier::Empty, Some(DragableCard::MultiCastModifier(self)))
        } else {
            (self, None)
        }
    }
}

impl ProjectileModifier {
    pub fn take_from_path(self, path: &Vec<usize>, n: usize) -> (res: (
        Self,
        Option<DragableCard>,
    ))
        requires
            n <= path@.len(),
        ensures
            match self.model().take(path@.take(n as int)) {
                Some(r2) => res.1 matches Some(it) && res.0.model() == r2.0 && it.model() == r2.1,
                None => res.1 is None && res.0.model() == self.model(),
            },
        decreases n, self,
    {
        if n == 0 {
            return (ProjectileModifier::Empty, Some(DragableCard::ProjectileModifier(self)));
        }
        proof {
            lemma_take_drop_last(path@, n as int);
        }
        if path[n - 1] != 0 {
            return (self, None);
        }
        match self {
            ProjectileModifier::LockToOwner(d) => {
                let (d2, it) = d.take_from_path(path, n - 1);
                (ProjectileModifier::LockToOwner(d2), it)
            },
            ProjectileModifier::OnHit(c) => {
                let (c2, it) = c.take_from_path(path, n - 1);
                (ProjectileModifier::OnHit(c2), it)
            },
            ProjectileModifier::OnHeadshot(c) => {
                let (c2, it) = c.take_from_path(path, n - 1);
                (ProjectileModifier::OnHeadshot(c2), it)
            },
            ProjectileModifier::OnExpiry(c) => {
                let (c2, it) = c.take_from_path(path, n - 1);
                (ProjectileModifier::OnExpiry(c2), it)
            },
            ProjectileModifier::OnTrigger(id, c) => {
                let (c2, it) = c.take_from_path(path, n - 1);
                (ProjectileModifier::OnTrigger(id, c2), it)
            },
            ProjectileModifier::Trail(f, c) => {
                let (c2, it) = c.take_from_path(path, n - 1);
                (ProjectileModifier::Trail(f, c2), it)
            },
            other => (other, None),
        }
    }
}

impl StatusEffect {
    pub fn take_from_path(self, path: &Vec<usize>, n: usize) -> (res: (
        Self,
        Option<DragableCard>,
    ))
        requires
            n <= path@.len(),
        ensures
            match self.model().take(path@.take(n as int)) {
                Some(r2) => res.1 matches Some(it) && res.0.model() == r2.0 && it.model() == r2.1,
                None => res.1 is None && res.0.model() == self.model(),
            },
        decreases n, self,
    {
        if n == 0 {
            return (self, None);
        }
        proof {
            lemma_take_drop_last(path@, n as int);
        }
        if path[n - 1] != 0 {
            return (self, None);
        }
        match self {
            StatusEffect::OnHit(c) => {
                let (c2, it) = c.take_from_path(path, n - 1);
                (StatusEffect::OnHit(c2), it)
            },
            StatusEffect::SimpleStatusEffect(SimpleStatusEffectType::IncreaseGravity(d), v) => {
                let (d2, it) = d.take_from_path(path, n - 1);
                (
                    StatusEffect::SimpleStatusEffect(
                        SimpleStatusEffectType::IncreaseGravity(d2),
                        v,
                    ),
                    it,
                )
            },
            other => (other, None),
        }
    }
}

impl BaseCard {
    #[verifier::rlimit(50)]
    pub fn take_from_path(self, path: &Vec<usize>, n: usize) -> (res: (
        Self,
        Option<DragableCard>,
    ))
        requires
            n <= path@.len(),
        ensures
            match self.model().take(path@.take(n as int)) {
                Some(r2) => res.1 matches Some(it) && res.0.model() == r2.0 && it.model() == r2.1,
                None => res.1 is None && res.0.model() == self.model(),
            },
        decreases n, self,
    {
        if n == 0 {
            return (BaseCard::Empty, Some(DragableCard::BaseCard(self)));
        }
        proof {
            lemma_take_drop_last(path@, n as int);
        }
        match self {
            BaseCard::Projectile(mut mods) => {
                let i = path[n - 1];
                if i >= mods.len() {
                    proof {
                        assert(self.model() == BaseCardM::Projectile(pm_models(mods@)));
                    }
                    return (BaseCard::Projectile(mods), None);
                }
                let ghost mods0 = mods@;
                let m = mods.remove(i);
                let (m2, it) = m.take_from_path(path, n - 1);
                mods.insert(i, m2);
                proof {
                    assert(m.model() == pm_models(mods0)[i as int]);
                    assert(mods@ =~= mods0.update(i as int, m2));
                    if it is Some {
                        assert(pm_models(mods@) =~= pm_models(mods0).update(i as int, m2.model()));
                    } else {
                        assert(pm_models(mods@) =~= pm_models(mods0));
                    }
                }
                (BaseCard::Projectile(mods), it)
            },
            BaseCard::MultiCast(mut cards, mut mods) => {
                let ti = path[n - 1];
                if ti == 0 {
                    if n == 1 {
                        return (BaseCard::MultiCast(cards, mods), None);
                    }
                    proof {
                        lemma_take_drop_last(path@, n as int - 1);
                    }
                    let i = path[n - 2];
                    if i >= mods.len() {
                        return (BaseCard::MultiCast(cards, mods), None);
                    }
                    let ghost mods0 = mods@;
                    let m = mods.remove(i);
                    let (m2, it) = m.take_from_path(path, n - 2);
                    mods.insert(i, m2);
                    proof {
                        if it is Some {
                            assert(mods@ =~= mods0.update(i as int, m2));
                        } else {
                            assert(mods@ =~= mods0);
                        }
                    }
                    (BaseCard::MultiCast(cards, mods), it)
                } else if ti == 1 {
                    if n == 1 {
                        return (BaseCard::MultiCast(cards, mods), None);
                    }
                    proof {
                        lemma_take_drop_last(path@, n as int - 1);
                    }
                    let i = path[n - 2];
                    if i >= cards.len() {
                        proof {
                            assert(self.model() == BaseCardM::MultiCast(bc_models(cards@), mods@));
                        }
                        return (BaseCard::MultiCast(cards, mods), None);
                    }
                    let ghost cards0 = cards@;
                    if n == 2 {
                        let c = cards.remove(i);
                        cards.insert(i, BaseCard::Empty);
                        proof {
                            assert(cards@ =~= cards0.update(i as int, BaseCard::Empty));
                            assert(bc_models(cards@) =~= bc_models(cards0).update(
                                i as int,
                                BaseCardM::Empty,
                            ));
                        }
                        (BaseCard::MultiCast(cards, mods), Some(DragableCard::BaseCard(c)))
                    } else {
                        let c = cards.remove(i);
                        let (c2, it) = c.take_from_path(path, n - 2);
                        cards.insert(i, c2);
                        proof {
                            assert(cards@ =~= cards0.update(i as int, c2));
                            if it is Some {
                                assert(bc_models(cards@) =~= bc_models(cards0).update(
                                    i as int,
                                    c2.model(),
                                ));
                            } else {
                                assert(bc_models(cards@) =~= bc_models(cards0));
                            }
                        }
                        (BaseCard::MultiCast(cards, mods), it)
                    }
                } else {
                    (BaseCard::MultiCast(cards, mods), None)
                }
            },
            BaseCard::StatusEffects(dur, mut effs) => {
                let i = path[n - 1];
                if i >= effs.len() {
                    proof {
                        assert(self.model() == BaseCardM::StatusEffects(dur, se_models(effs@)));
                    }
                    return (BaseCard::StatusEffects(dur, effs), None);
                }
                let ghost effs0 = effs@;
                if n == 1 {
                    let e = effs.remove(i);
                    effs.insert(i, StatusEffect::Empty);
                    proof {
                        assert(effs@ =~= effs0.update(i as int, StatusEffect::Empty));
                        assert(se_models(effs@) =~= se_models(effs0).update(
                            i as int,
                            crate::model::StatusEffectM::Empty,
                        ));
                    }
                    (BaseCard::StatusEffects(dur, effs), Some(DragableCard::StatusEffect(e)))
                } else {
                    let e = effs.remove(i);
                    let (e2, it) = e.take_from_path(path, n - 1);
                    effs.insert(i, e2);
                    proof {
                        assert(effs@ =~= effs0.update(i as int, e2));
                        if it is Some {
                            assert(se_models(effs@) =~= se_models(effs0).update(
                                i as int,
                                e2.model(),
                            ));
                        } else {
                            assert(se_models(effs@) =~= se_models(effs0));
                        }
                    }
                    (BaseCard::StatusEffects(dur, effs), it)
                }
            },
            BaseCard::Palette(items) => {
                let i = path[n - 1];
                if n == 1 && i < items.len() {
                    let it = items[i].deep_clone();
                    proof {
                        assert(crate::model::dc_models(items@)[i as int] == items@[i as int].model());
                        assert(it.model() == crate::model::dc_models(items@)[i as int]);
                    }
                    (BaseCard::Palette(items), Some(it))
                } else {
                    (BaseCard::Palette(items), None)
                }
            },
            BaseCard::Effect(Effect::Knockback(v, d)) => {
                if path[n - 1] == 0 && n == 1 {
                    (
                        BaseCard::Effect(Effect::Knockback(v, DirectionCard::Empty)),
                        Some(DragableCard::Direction(d)),
                    )
                } else {
                    (BaseCard::Effect(Effect::Knockback(v, d)), None)
                }
            },
            other => (other, None),
        }
    }
}

impl PassiveCard {
    pub fn take_from_path(self, path: &Vec<usize>, n: usize) -> (res: (
        Self,
        Option<DragableCard>,
    ))
        requires
            n <= path@.len(),
        ensures
            match self.model().take(path@.take(n as int)) {
                Some(r2) => res.1 matches Some(it) && res.0.model() == r2.0 && it.model() == r2.1,
                None => res.1 is None && res.0.model() == self.model(),
            },
        decreases n,
    {
        let PassiveCard { mut passive_effects } = self;
        if n == 0 {
            return (PassiveCard { passive_effects }, None);
        }
        proof {
            lemma_take_drop_last(path@, n as int);
        }
        let i = path[n - 1];
        if i >= passive_effects.len() {
            return (PassiveCard { passive_effects }, None);
        }
        let ghost effs0 = passive_effects@;
        if n == 1 {
            let e = passive_effects.remove(i);
            passive_effects.insert(i, StatusEffect::Empty);
            proof {
                assert(passive_effects@ =~= effs0.update(i as int, StatusEffect::Empty));
                assert(se_models(passive_effects@) =~= se_models(effs0).update(
                    i as int,
                    crate::model::StatusEffectM::Empty,
                ));
            }
            (PassiveCard { passive_effects }, Some(DragableCard::StatusEffect(e)))
        } else {
            let e = passive_effects.remove(i);
            let (e2, it) = e.take_from_path(path, n - 1);
            passive_effects.insert(i, e2);
            proof {
                assert(passive_effects@ =~= effs0.update(i as int, e2));
                if it is Some {
                    assert(se_models(passive_effects@) =~= se_models(effs0).update(
                        i as int,
                        e2.model(),
                    ));
                } else {
                    assert(se_models(passive_effects@) =~= se_models(effs0));
                }
            }
            (PassiveCard { passive_effects }, it)
        }
    }
}

impl Cooldown {
    pub fn take_from_path(self, path: &Vec<usize>, n: usize) -> (res: (
        Self,
        Option<DragableCard>,
    ))
        requires
            n <= path@.len(),
        ensures
            match self.model().take(path@.take(n as int)) {
                Some(r2) => res.1 matches Some(it) && res.0.model() == r2.0 && it.model() == r2.1,
                None => res.1 is None && res.0.model() == self.model(),
            },
        decreases n,
    {
        let Cooldown { mut abilities, mut modifiers, cooldown_value } = self;
        if n == 0 {
            return (Cooldown { abilities, modifiers, cooldown_value }, None);
        }
        proof {
            lemma_take_drop_last(path@, n as int);
        }
        let ti = path[n - 1];
        if ti == 0 {
            if n == 1 {
                return (Cooldown { abilities, modifiers, cooldown_value }, None);
            }
            proof {
                lemma_take_drop_last(path@, n as int - 1);
            }
            let i = path[n - 2];
            if i >= modifiers.len() {
                return (Cooldown { abilities, modifiers, cooldown_value }, None);
            }
            let ghost mods0 = modifiers@;
            let m = modifiers.remove(i);
            let (m2, it) = m.take_from_path(path, n - 2);
            modifiers.insert(i, m2);
            proof {
                if it is Some {
                    assert(modifiers@ =~= mods0.update(i as int, m2));
                } else {
                    assert(modifiers@ =~= mods0);
                }
            }
            if it.is_some() {
                (Cooldown { abilities, modifiers, cooldown_value: Option::None }, it)
            } else {
                (Cooldown { abilities, modifiers, cooldown_value }, it)
            }
        } else if ti == 1 {
            if n == 1 {
                return (Cooldown { abilities, modifiers, cooldown_value }, None);
            }
            proof {
                lemma_take_drop_last(path@, n as int - 1);
            }
            let i = path[n - 2];
            if i >= abilities.len() {
                return (Cooldown { abilities, modifiers, cooldown_value }, None);
            }
            let ghost abs0 = abilities@;
            let Ability { card, keybind, is_keybind_selected, cached_recovery } = abilities.remove(
                i,
            );
            if n == 2 {
                let ab = Ability {
                    card: BaseCard::Empty,
                    keybind,
                    is_keybind_selected,
                    cached_recovery: Option::None,
                };
                abilities.insert(i, ab);
                proof {
                    assert(abilities@ =~= abs0.update(i as int, ab));
                    assert(ab_models(abilities@) =~= ab_models(abs0).update(i as int, ab.model()));
                }
                (
                    Cooldown { abilities, modifiers, cooldown_value: Option::None },
                    Some(DragableCard::BaseCard(card)),
                )
            } else {
                let (c2, it) = card.take_from_path(path, n - 2);
                if it.is_some() {
                    let ab = Ability {
                        card: c2,
                        keybind,
                        is_keybind_selected,
                        cached_recovery: Option::None,
                    };
                    abilities.insert(i, ab);
                    proof {
                        assert(abilities@ =~= abs0.update(i as int, ab));
                        assert(ab_models(abilities@) =~= ab_models(abs0).update(
                            i as int,
                            ab.model(),
                        ));
                    }
                    (Cooldown { abilities, modifiers, cooldown_value: Option::None }, it)
                } else {
                    let ab = Ability { card: c2, keybind, is_keybind_selected, cached_recovery };
                    abilities.insert(i, ab);
                    proof {
                        assert(abilities@ =~= abs0.update(i as int, ab));
                        assert(ab_models(abilities@) =~= ab_models(abs0));
                    }
                    (Cooldown { abilities, modifiers, cooldown_value }, it)
                }
            }
        } else {
            (Cooldown { abilities, modifiers, cooldown_value }, None)
        }
    }
}

impl Deck {
    /// Detach the subtree addressed by the (already reversed) path
    /// `path[..n]`; root slot 1 is the passive card, 2 and up the
    /// cooldowns.
    pub fn take_from_path(self, path: &Vec<usize>, n: usize) -> (res: (
        Self,
        Option<DragableCard>,
    ))
        requires
            n <= path@.len(),
        ensures
            match self.model().take(path@.take(n as int)) {
                Some(r2) => res.1 matches Some(it) && res.0.model() == r2.0 && it.model() == r2.1,
                None => res.1 is None && res.0.model() == self.model(),
            },
        decreases n,
    {
        let Deck { mut cooldowns, passive } = self;
        if n == 0 {
            return (Deck { cooldowns, passive }, None);
        }
        proof {
            lemma_take_drop_last(path@, n as int);
        }
        let root = path[n - 1];
        if root == 1 {
            let (p2, it) = passive.take_from_path(path, n - 1);
            (Deck { cooldowns, passive: p2 }, it)
        } else if root >= 2 {
            let i = root - 2;
            if i >= cooldowns.len() {
                return (Deck { cooldowns, passive }, None);
            }
            let ghost cds0 = cooldowns@;
            let c = cooldowns.remove(i);
            let (c2, it) = c.take_from_path(path, n - 1);
            cooldowns.insert(i, c2);
            proof {
                assert(cooldowns@ =~= cds0.update(i as int, c2));
                if it is Some {
                    assert(cd_models(cooldowns@) =~= cd_models(cds0).update(i as int, c2.model()));
                } else {
                    assert(cd_models(cooldowns@) =~= cd_models(cds0));
                }
            }
            (Deck { cooldowns, passive }, it)
        } else {
            (Deck { cooldowns, passive }, None)
        }
    }
}

} // verus!
