use vstd::prelude::*;

use crate::cards::{
    Ability, BaseCard, Cooldown, Deck, DragableCard, PassiveCard, ProjectileModifier,
    RecoveryValue, StatusEffect,
};
use crate::model::{
    ab_models, bc_models, cd_models, dc_models, lemma_ab_models, lemma_bc_models, lemma_cd_models,
    lemma_dc_models, lemma_pm_models, lemma_se_models, pm_models, se_models,
};

verus! {

broadcast use lemma_pm_models, lemma_se_models, lemma_bc_models, lemma_dc_models, lemma_ab_models, lemma_cd_models;

// Structural copies of the card tree, proved to preserve the model. The
// palette hands out copies of its template entries, and the drag protocol
// copies the deck so an aborted transaction leaves the original untouched.

impl ProjectileModifier {
    pub fn deep_clone(&self) -> (res: Self)
        ensures
            res.model() == self.model(),
        decreases self,
    {
        match self {
            ProjectileModifier::Empty => ProjectileModifier::Empty,
            ProjectileModifier::SimpleModify(k, v) => ProjectileModifier::SimpleModify(*k, *v),
            ProjectileModifier::NoEnemyFire => ProjectileModifier::NoEnemyFire,
            ProjectileModifier::FriendlyFire => ProjectileModifier::FriendlyFire,
            ProjectileModifier::PiercePlayers => ProjectileModifier::PiercePlayers,
            ProjectileModifier::WallBounce => ProjectileModifier::WallBounce,
            ProjectileModifier::LockToOwner(d) => ProjectileModifier::LockToOwner(*d),
            ProjectileModifier::OnHit(c) => ProjectileModifier::OnHit(c.deep_clone()),
            ProjectileModifier::OnHeadshot(c) => ProjectileModifier::OnHeadshot(c.deep_clone()),
            ProjectileModifier::OnExpiry(c) => ProjectileModifier::OnExpiry(c.deep_clone()),
            ProjectileModifier::OnTrigger(n, c) => ProjectileModifier::OnTrigger(*n, c.deep_clone()),
            ProjectileModifier::Trail(n, c) => ProjectileModifier::Trail(*n, c.deep_clone()),
        }
    }
}

impl StatusEffect {
    pub fn deep_clone(&self) -> (res: Self)
        ensures
            res.model() == self.model(),
        decreases self,
    {
        match self {
            StatusEffect::Empty => StatusEffect::Empty,
            StatusEffect::Invincibility => StatusEffect::Invincibility,
            StatusEffect::Lockout => StatusEffect::Lockout,
            StatusEffect::Trapped => StatusEffect::Trapped,
            StatusEffect::Stun => StatusEffect::Stun,
            StatusEffect::SimpleStatusEffect(k, v) => StatusEffect::SimpleStatusEffect(*k, *v),
            StatusEffect::UnsignedSimpleStatusEffect(k, v) => StatusEffect::UnsignedSimpleStatusEffect(
                *k,
                *v,
            ),
            StatusEffect::OnHit(c) => StatusEffect::OnHit(c.deep_clone()),
        }
    }
}

fn clone_pm_vec(v: &Vec<ProjectileModifier>) -> (res: Vec<ProjectileModifier>)
    ensures
        pm_models(res@) == pm_models(v@),
    decreases v,
{
    let mut out: Vec<ProjectileModifier> = Vec::new();
    let mut i: usize = 0;
    while i < v.len()
        invariant
            i <= v@.len(),
            out@.len() == i,
            forall|j: int| 0 <= j < i ==> out@[j].model() == v@[j].model(),
        decreases v@.len() - i,
    {
        out.push(v[i].deep_clone());
        i += 1;
    }
    proof {
        assert(pm_models(out@) =~= pm_models(v@));
    }
    out
}

fn clone_se_vec(v: &Vec<StatusEffect>) -> (res: Vec<StatusEffect>)
    ensures
        se_models(res@) == se_models(v@),
    decreases v,
{
    let mut out: Vec<StatusEffect> = Vec::new();
    let mut i: usize = 0;
    while i < v.len()
        invariant
            i <= v@.len(),
            out@.len() == i,
            forall|j: int| 0 <= j < i ==> out@[j].model() == v@[j].model(),
        decreases v@.len() - i,
    {
        out.push(v[i].deep_clone());
        i += 1;
    }
    proof {
        assert(se_models(out@) =~= se_models(v@));
    }
    out
}

fn clone_bc_vec(v: &Vec<BaseCard>) -> (res: Vec<BaseCard>)
    ensures
        bc_models(res@) == bc_models(v@),
    decreases v,
{
    let mut out: Vec<BaseCard> = Vec::new();
    let mut i: usize = 0;
    while i < v.len()
        invariant
            i <= v@.len(),
            out@.len() == i,
            forall|j: int| 0 <= j < i ==> out@[j].model() == v@[j].model(),
        decreases v@.len() - i,
    {
        out.push(v[i].deep_clone());
        i += 1;
    }
    proof {
        assert(bc_models(out@) =~= bc_models(v@));
    }
    out
}

fn clone_dc_vec(v: &Vec<DragableCard>) -> (res: Vec<DragableCard>)
    ensures
        dc_models(res@) == dc_models(v@),
    decreases v,
{
    let mut out: Vec<DragableCard> = Vec::new();
    let mut i: usize = 0;
    while i < v.len()
        invariant
            i <= v@.len(),
            out@.len() == i,
            forall|j: int| 0 <= j < i ==> out@[j].model() == v@[j].model(),
        decreases v@.len() - i,
    {
        out.push(v[i].deep_clone());
        i += 1;
    }
    proof {
        assert(dc_models(out@) =~= dc_models(v@));
    }
    out
}

impl BaseCard {
    pub fn deep_clone(&self) -> (res: Self)
        ensures
            res.model() == self.model(),
        decreases self,
    {
        match self {
            BaseCard::Empty => BaseCard::Empty,
            BaseCard::Projectile(mods) => BaseCard::Projectile(clone_pm_vec(mods)),
            BaseCard::MultiCast(cards, mods) => {
                let mut ms: Vec<crate::cards::MultiCastModifier> = Vec::new();
                let mut i: usize = 0;
                while i < mods.len()
                    invariant
                        i <= mods@.len(),
                        ms@.len() == i,
                        forall|j: int| 0 <= j < i ==> ms@[j] == mods@[j],
                    decreases mods@.len() - i,
                {
                    ms.push(mods[i]);
                    i += 1;
                }
                proof {
                    assert(ms@ =~= mods@);
                }
                BaseCard::MultiCast(clone_bc_vec(cards), ms)
            },
            BaseCard::CreateMaterial(m) => BaseCard::CreateMaterial(*m),
            BaseCard::Effect(e) => BaseCard::Effect(*e),
            BaseCard::StatusEffects(dur, effs) => BaseCard::StatusEffects(*dur, clone_se_vec(effs)),
            BaseCard::Trigger(id) => BaseCard::Trigger(*id),
            BaseCard::Palette(items) => BaseCard::Palette(clone_dc_vec(items)),
        }
    }
}

impl DragableCard {
    pub fn deep_clone(&self) -> (res: Self)
        ensures
            res.model() == self.model(),
        decreases self,
    {
        match self {
            DragableCard::BaseCard(c) => DragableCard::BaseCard(c.deep_clone()),
            DragableCard::ProjectileModifier(m) => DragableCard::ProjectileModifier(m.deep_clone()),
            DragableCard::MultiCastModifier(m) => DragableCard::MultiCastModifier(*m),
            DragableCard::CooldownModifier(m) => DragableCard::CooldownModifier(*m),
            DragableCard::StatusEffect(e) => DragableCard::StatusEffect(e.deep_clone()),
            DragableCard::Direction(d) => DragableCard::Direction(*d),
        }
    }
}

impl RecoveryValue {
    pub fn deep_clone(&self) -> (res: Self)
        ensures
            res.model() == self.model(),
    {
        let mut charge: Vec<u64> = Vec::new();
        let mut i: usize = 0;
        while i < self.charge_ms.len()
            invariant
                i <= self.charge_ms@.len(),
                charge@.len() == i,
                forall|j: int| 0 <= j < i ==> charge@[j] == self.charge_ms@[j],
            decreases self.charge_ms@.len() - i,
        {
            charge.push(self.charge_ms[i]);
            i += 1;
        }
        proof {
            assert(charge@ =~= self.charge_ms@);
        }
        RecoveryValue { base_ms: self.base_ms, charge_ms: charge }
    }
}

fn clone_recovery(o: &Option<RecoveryValue>) -> (res: Option<RecoveryValue>)
    ensures
        crate::model::recovery_model(res) == crate::model::recovery_model(*o),
{
    match o {
        Option::Some(r) => Option::Some(r.deep_clone()),
        Option::None => Option::None,
    }
}

impl Ability {
    pub fn deep_clone(&self) -> (res: Self)
        ensures
            res.model() == self.model(),
    {
        Ability {
            card: self.card.deep_clone(),
            keybind: self.keybind,
            is_keybind_selected: self.is_keybind_selected,
            cached_recovery: clone_recovery(&self.cached_recovery),
        }
    }
}

impl Cooldown {
    pub fn deep_clone(&self) -> (res: Self)
        ensures
            res.model() == self.model(),
    {
        let mut abilities: Vec<Ability> = Vec::new();
        let mut i: usize = 0;
        while i < self.abilities.len()
            invariant
                i <= self.abilities@.len(),
                abilities@.len() == i,
                forall|j: int| 0 <= j < i ==> abilities@[j].model() == self.abilities@[j].model(),
            decreases self.abilities@.len() - i,
        {
            abilities.push(self.abilities[i].deep_clone());
            i += 1;
        }
        let mut modifiers: Vec<crate::cards::CooldownModifier> = Vec::new();
        let mut k: usize = 0;
        while k < self.modifiers.len()
            invariant
                k <= self.modifiers@.len(),
                modifiers@.len() == k,
                forall|j: int| 0 <= j < k ==> modifiers@[j] == self.modifiers@[j],
            decreases self.modifiers@.len() - k,
        {
            modifiers.push(self.modifiers[k]);
            k += 1;
        }
        proof {
            assert(ab_models(abilities@) =~= ab_models(self.abilities@));
            assert(modifiers@ =~= self.modifiers@);
        }
        Cooldown {
            abilities,
            modifiers,
            cooldown_value: clone_recovery(&self.cooldown_value),
        }
    }
}

impl PassiveCard {
    pub fn deep_clone(&self) -> (res: Self)
        ensures
            res.model() == self.model(),
    {
        PassiveCard { passive_effects: clone_se_vec(&self.passive_effects) }
    }
}

impl Deck {
    pub fn deep_clone(&self) -> (res: Self)
        ensures
            res.model() == self.model(),
    {
        let mut cooldowns: Vec<Cooldown> = Vec::new();
        let mut i: usize = 0;
        while i < self.cooldowns.len()
            invariant
                i <= self.cooldowns@.len(),
                cooldowns@.len() == i,
                forall|j: int| 0 <= j < i ==> cooldowns@[j].model() == self.cooldowns@[j].model(),
            decreases self.cooldowns@.len() - i,
        {
            cooldowns.push(self.cooldowns[i].deep_clone());
            i += 1;
        }
        proof {
            assert(cd_models(cooldowns@) =~= cd_models(self.cooldowns@));
        }
        Deck { cooldowns, passive: self.passive.deep_clone() }
    }
}

impl Clone for BaseCard {
    /// A clone preserves the card's model.
    fn clone(&self) -> (res: Self)
        ensures
            res.model() == self.model(),
    {
        self.deep_clone()
    }
}

impl Clone for DragableCard {
    /// A clone preserves the card's model.
    fn clone(&self) -> (res: Self)
        ensures
            res.model() == self.model(),
    {
        self.deep_clone()
    }
}

impl Clone for Deck {
    /// A clone preserves the deck's model.
    fn clone(&self) -> (res: Self)
        ensures
            res.model() == self.model(),
    {
        self.deep_clone()
    }
}

} // verus!
