use vstd::prelude::*;

use crate::cards::{
    Ability, BaseCard, Control, Cooldown, CooldownModifier, Deck, DirectionCard, DragableCard,
    Effect, Keybind, MultiCastModifier, PassiveCard, ProjectileModifier, RecoveryValue,
    SignedSimpleCooldownModifier, SimpleCooldownModifier, SimpleProjectileModifierType,
    SimpleStatusEffectType, StatusEffect, UnsignedSimpleStatusEffectType, VoxelMaterial,
};

verus! {

// The mathematical model of the card tree: the same shape as the
// executable types, with every `Vec` replaced by a `Seq`. Leaf types that
// hold no `Vec` (directions, kinds, `Effect`, the cooldown and multicast
// modifiers, keybinds) stand for themselves in the model.

#[verifier::ext_equal]
pub enum ProjectileModifierM {
    Empty,
    SimpleModify(SimpleProjectileModifierType, i32),
    NoEnemyFire,
    FriendlyFire,
    PiercePlayers,
    WallBounce,
    LockToOwner(DirectionCard),
    OnHit(BaseCardM),
    OnHeadshot(BaseCardM),
    OnExpiry(BaseCardM),
    OnTrigger(u32, BaseCardM),
    Trail(u32, BaseCardM),
}

#[verifier::ext_equal]
pub enum StatusEffectM {
    Empty,
    Invincibility,
    Lockout,
    Trapped,
    Stun,
    SimpleStatusEffect(SimpleStatusEffectType, i32),
    UnsignedSimpleStatusEffect(UnsignedSimpleStatusEffectType, u32),
    OnHit(BaseCardM),
}

#[verifier::ext_equal]
pub enum BaseCardM {
    Empty,
    Projectile(Seq<ProjectileModifierM>),
    MultiCast(Seq<BaseCardM>, Seq<MultiCastModifier>),
    CreateMaterial(VoxelMaterial),
    Effect(Effect),
    StatusEffects(u32, Seq<StatusEffectM>),
    Trigger(u32),
    Palette(Seq<DragableCardM>),
}

#[verifier::ext_equal]
pub enum DragableCardM {
    BaseCard(BaseCardM),
    ProjectileModifier(ProjectileModifierM),
    MultiCastModifier(MultiCastModifier),
    CooldownModifier(CooldownModifier),
    StatusEffect(StatusEffectM),
    Direction(DirectionCard),
}

#[verifier::ext_equal]
pub struct RecoveryM {
    pub base_ms: u64,
    pub charge_ms: Seq<u64>,
}

#[verifier::ext_equal]
pub struct AbilityM {
    pub card: BaseCardM,
    pub keybind: Keybind,
    pub is_keybind_selected: bool,
    pub cached_recovery: Option<RecoveryM>,
}

#[verifier::ext_equal]
pub struct CooldownM {
    pub abilities: Seq<AbilityM>,
    pub modifiers: Seq<CooldownModifier>,
    pub cooldown_value: Option<RecoveryM>,
}

#[verifier::ext_equal]
pub struct PassiveCardM {
    pub passive_effects: Seq<StatusEffectM>,
}

#[verifier::ext_equal]
pub struct DeckM {
    pub cooldowns: Seq<CooldownM>,
    pub passive: PassiveCardM,
}

impl ProjectileModifier {
    pub open spec fn model(&self) -> ProjectileModifierM
        decreases self,
    {
        match self {
            ProjectileModifier::Empty => ProjectileModifierM::Empty,
            ProjectileModifier::SimpleModify(k, v) => ProjectileModifierM::SimpleModify(*k, *v),
            ProjectileModifier::NoEnemyFire => ProjectileModifierM::NoEnemyFire,
            ProjectileModifier::FriendlyFire => ProjectileModifierM::FriendlyFire,
            ProjectileModifier::PiercePlayers => ProjectileModifierM::PiercePlayers,
            ProjectileModifier::WallBounce => ProjectileModifierM::WallBounce,
            ProjectileModifier::LockToOwner(d) => ProjectileModifierM::LockToOwner(*d),
            ProjectileModifier::OnHit(c) => ProjectileModifierM::OnHit(c.model()),
            ProjectileModifier::OnHeadshot(c) => ProjectileModifierM::OnHeadshot(c.model()),
            ProjectileModifier::OnExpiry(c) => ProjectileModifierM::OnExpiry(c.model()),
            ProjectileModifier::OnTrigger(n, c) => ProjectileModifierM::OnTrigger(*n, c.model()),
            ProjectileModifier::Trail(n, c) => ProjectileModifierM::Trail(*n, c.model()),
        }
    }
}

impl StatusEffect {
    pub open spec fn model(&self) -> StatusEffectM
        decreases self,
    {
        match self {
            StatusEffect::Empty => StatusEffectM::Empty,
            StatusEffect::Invincibility => StatusEffectM::Invincibility,
            StatusEffect::Lockout => StatusEffectM::Lockout,
            StatusEffect::Trapped => StatusEffectM::Trapped,
            StatusEffect::Stun => StatusEffectM::Stun,
            StatusEffect::SimpleStatusEffect(k, v) => StatusEffectM::SimpleStatusEffect(*k, *v),
            StatusEffect::UnsignedSimpleStatusEffect(k, v) => StatusEffectM::UnsignedSimpleStatusEffect(
                *k,
                *v,
            ),
            StatusEffect::OnHit(c) => StatusEffectM::OnHit(c.model()),
        }
    }
}

impl BaseCard {
    pub open spec fn model(&self) -> BaseCardM
        decreases self,
    {
        match self {
            BaseCard::Empty => BaseCardM::Empty,
            BaseCard::Projectile(mods) => BaseCardM::Projectile(pm_models(mods@)),
            BaseCard::MultiCast(cards, mods) => BaseCardM::MultiCast(bc_models(cards@), mods@),
            BaseCard::CreateMaterial(m) => BaseCardM::CreateMaterial(*m),
            BaseCard::Effect(e) => BaseCardM::Effect(*e),
            BaseCard::StatusEffects(dur, effs) => BaseCardM::StatusEffects(*dur, se_models(effs@)),
            BaseCard::Trigger(id) => BaseCardM::Trigger(*id),
            BaseCard::Palette(items) => BaseCardM::Palette(dc_models(items@)),
        }
    }
}

impl DragableCard {
    pub open spec fn model(&self) -> DragableCardM
        decreases self,
    {
        match self {
            DragableCard::BaseCard(c) => DragableCardM::BaseCard(c.model()),
            DragableCard::ProjectileModifier(m) => DragableCardM::ProjectileModifier(m.model()),
            DragableCard::MultiCastModifier(m) => DragableCardM::MultiCastModifier(*m),
            DragableCard::CooldownModifier(m) => DragableCardM::CooldownModifier(*m),
            DragableCard::StatusEffect(e) => DragableCardM::StatusEffect(e.model()),
            DragableCard::Direction(d) => DragableCardM::Direction(*d),
        }
    }
}

pub open spec fn pm_models(s: Seq<ProjectileModifier>) -> Seq<ProjectileModifierM>
    decreases s,
{
    if s.len() == 0 {
        Seq::empty()
    } else {
        pm_models(s.drop_last()).push(s.last().model())
    }
}

pub open spec fn se_models(s: Seq<StatusEffect>) -> Seq<StatusEffectM>
    decreases s,
{
    if s.len() == 0 {
        Seq::empty()
    } else {
        se_models(s.drop_last()).push(s.last().model())
    }
}

pub open spec fn bc_models(s: Seq<BaseCard>) -> Seq<BaseCardM>
    decreases s,
{
    if s.len() == 0 {
        Seq::empty()
    } else {
        bc_models(s.drop_last()).push(s.last().model())
    }
}

pub open spec fn dc_models(s: Seq<DragableCard>) -> Seq<DragableCardM>
    decreases s,
{
    if s.len() == 0 {
        Seq::empty()
    } else {
        dc_models(s.drop_last()).push(s.last().model())
    }
}

impl RecoveryValue {
    pub open spec fn model(&self) -> RecoveryM {
        RecoveryM { base_ms: self.base_ms, charge_ms: self.charge_ms@ }
    }
}

pub open spec fn recovery_model(o: Option<RecoveryValue>) -> Option<RecoveryM> {
    match o {
        Option::Some(r) => Option::Some(r.model()),
        Option::None => Option::None,
    }
}

impl Ability {
    pub open spec fn model(&self) -> AbilityM {
        AbilityM {
            card: self.card.model(),
            keybind: self.keybind,
            is_keybind_selected: self.is_keybind_selected,
            cached_recovery: recovery_model(self.cached_recovery),
        }
    }
}

pub open spec fn ab_models(s: Seq<Ability>) -> Seq<AbilityM>
    decreases s,
{
    if s.len() == 0 {
        Seq::empty()
    } else {
        ab_models(s.drop_last()).push(s.last().model())
    }
}

impl Cooldown {
    pub open spec fn model(&self) -> CooldownM {
        CooldownM {
            abilities: ab_models(self.abilities@),
            modifiers: self.modifiers@,
            cooldown_value: recovery_model(self.cooldown_value),
        }
    }
}

pub open spec fn cd_models(s: Seq<Cooldown>) -> Seq<CooldownM>
    decreases s,
{
    if s.len() == 0 {
        Seq::empty()
    } else {
        cd_models(s.drop_last()).push(s.last().model())
    }
}

impl PassiveCard {
    pub open spec fn model(&self) -> PassiveCardM {
        PassiveCardM { passive_effects: se_models(self.passive_effects@) }
    }
}

impl Deck {
    pub open spec fn model(&self) -> DeckM {
        DeckM { cooldowns: cd_models(self.cooldowns@), passive: self.passive.model() }
    }
}

// Pointwise characterisations of the sequence views: the view has the same
// length, and each element is the view of the element.

pub broadcast proof fn lemma_pm_models(s: Seq<ProjectileModifier>)
    ensures
        #![trigger pm_models(s)]
        pm_models(s).len() == s.len() && (forall|i: int|
            0 <= i < s.len() ==> pm_models(s)[i] == s[i].model()),
    decreases s.len(),
{
    if s.len() > 0 {
        lemma_pm_models(s.drop_last());
    }
}

pub broadcast proof fn lemma_se_models(s: Seq<StatusEffect>)
    ensures
        #![trigger se_models(s)]
        se_models(s).len() == s.len() && (forall|i: int|
            0 <= i < s.len() ==> se_models(s)[i] == s[i].model()),
    decreases s.len(),
{
    if s.len() > 0 {
        lemma_se_models(s.drop_last());
    }
}

pub broadcast proof fn lemma_bc_models(s: Seq<BaseCard>)
    ensures
        #![trigger bc_models(s)]
        bc_models(s).len() == s.len() && (forall|i: int|
            0 <= i < s.len() ==> bc_models(s)[i] == s[i].model()),
    decreases s.len(),
{
    if s.len() > 0 {
        lemma_bc_models(s.drop_last());
    }
}

pub broadcast proof fn lemma_dc_models(s: Seq<DragableCard>)
    ensures
        #![trigger dc_models(s)]
        dc_models(s).len() == s.len() && (forall|i: int|
            0 <= i < s.len() ==> dc_models(s)[i] == s[i].model()),
    decreases s.len(),
{
    if s.len() > 0 {
        lemma_dc_models(s.drop_last());
    }
}

pub broadcast proof fn lemma_ab_models(s: Seq<Ability>)
    ensures
        #![trigger ab_models(s)]
        ab_models(s).len() == s.len() && (forall|i: int|
            0 <= i < s.len() ==> ab_models(s)[i] == s[i].model()),
    decreases s.len(),
{
    if s.len() > 0 {
        lemma_ab_models(s.drop_last());
    }
}

pub broadcast proof fn lemma_cd_models(s: Seq<Cooldown>)
    ensures
        #![trigger cd_models(s)]
        cd_models(s).len() == s.len() && (forall|i: int|
            0 <= i < s.len() ==> cd_models(s)[i] == s[i].model()),
    decreases s.len(),
{
    if s.len() > 0 {
        lemma_cd_models(s.drop_last());
    }
}

} // verus!
