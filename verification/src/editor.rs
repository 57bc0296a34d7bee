use vstd::prelude::*;

use crate::cards::{
    BaseCard, CooldownModifier, Deck, DirectionCard, DragableCard, Effect, ModificationType,
    MultiCastModifier, ProjectileModifier, SignedSimpleCooldownModifier, SimpleCooldownModifier,
    SimpleProjectileModifierType, SimpleStatusEffectType, StatusEffect,
    UnsignedSimpleStatusEffectType, VoxelMaterial,
};
use crate::model::{
    dc_models, lemma_dc_models, BaseCardM, DeckM, DragableCardM, ProjectileModifierM,
    StatusEffectM,
};
use crate::modify::{clear_all_caches, reversed};
use crate::semantics::clear_cd_caches;

verus! {

broadcast use lemma_dc_models;

// The drag-and-drop transaction protocol: at most one modify and one drag
// commit per frame, each validated before any mutation, with every cooldown
// cache cleared by a committed transaction.

/// Whether the editor allows edits and drags.
pub enum EditMode {
    FullEditing,
    Readonly,
}

impl EditMode {
    pub fn can_edit_modifiers(&self) -> (r: bool)
        ensures
            r == (self is FullEditing),
    {
        match self {
            EditMode::FullEditing => true,
            EditMode::Readonly => false,
        }
    }

    pub fn can_drag_modifiers(&self) -> (r: bool)
        ensures
            r == (self is FullEditing),
    {
        match self {
            EditMode::FullEditing => true,
            EditMode::Readonly => false,
        }
    }

    pub fn can_drag_base_cards(&self) -> (r: bool)
        ensures
            r == (self is FullEditing),
    {
        match self {
            EditMode::FullEditing => true,
            EditMode::Readonly => false,
        }
    }
}

/// Which catalog of templates the palette is showing.
#[derive(Clone, Copy, Debug, PartialEq, Eq, Hash, Structural)]
pub enum PaletteState {
    ProjectileModifiers,
    BaseCards,
    AdvancedProjectileModifiers,
    MultiCastModifiers,
    CooldownModifiers,
    Materials,
    StatusEffects,
    Directions,
    Dock,
}

/// The kind of node a drag carries.
#[derive(Clone, Copy, Debug, PartialEq, Eq, Structural)]
pub enum DragableType {
    ProjectileModifier,
    MultiCastModifier,
    CooldownModifier,
    StatusEffect,
    BaseCard,
    Direction,
}

/// The kind of slot a drop lands on.
#[derive(Clone, Copy, Debug, PartialEq, Eq, Structural)]
pub enum DropableType {
    MultiCastBaseCard,
    BaseNone,
    BaseProjectile,
    BaseStatusEffects,
    Cooldown,
    Direction,
    Palette,
}

/// The compatibility matrix: which source kinds a destination slot
/// accepts. The palette (and its dock page) accepts anything.
pub open spec fn is_valid_drag_spec(from: DragableType, to: DropableType) -> bool {
    match (from, to) {
        (DragableType::ProjectileModifier, DropableType::BaseProjectile) => true,
        (DragableType::StatusEffect, DropableType::BaseStatusEffects) => true,
        (DragableType::MultiCastModifier, DropableType::MultiCastBaseCard) => true,
        (DragableType::BaseCard, DropableType::MultiCastBaseCard) => true,
        (DragableType::BaseCard, DropableType::BaseNone) => true,
        (DragableType::CooldownModifier, DropableType::Cooldown) => true,
        (DragableType::BaseCard, DropableType::Cooldown) => true,
        (DragableType::Direction, DropableType::Direction) => true,
        (_, DropableType::Palette) => true,
        _ => false,
    }
}

pub fn is_valid_drag(from: &DragableType, to: &DropableType) -> (r: bool)
    ensures
        r == is_valid_drag_spec(*from, *to),
{
    match (from, to) {
        (DragableType::ProjectileModifier, DropableType::BaseProjectile) => true,
        (DragableType::StatusEffect, DropableType::BaseStatusEffects) => true,
        (DragableType::MultiCastModifier, DropableType::MultiCastBaseCard) => true,
        (DragableType::BaseCard, DropableType::MultiCastBaseCard) => true,
        (DragableType::BaseCard, DropableType::BaseNone) => true,
        (DragableType::CooldownModifier, DropableType::Cooldown) => true,
        (DragableType::BaseCard, DropableType::Cooldown) => true,
        (DragableType::Direction, DropableType::Direction) => true,
        (_, DropableType::Palette) => true,
        _ => false,
    }
}

impl DragableCard {
    pub open spec fn get_type_spec(&self) -> DragableType {
        match self {
            DragableCard::BaseCard(_) => DragableType::BaseCard,
            DragableCard::CooldownModifier(_) => DragableType::CooldownModifier,
            DragableCard::MultiCastModifier(_) => DragableType::MultiCastModifier,
            DragableCard::ProjectileModifier(_) => DragableType::ProjectileModifier,
            DragableCard::StatusEffect(_) => DragableType::StatusEffect,
            DragableCard::Direction(_) => DragableType::Direction,
        }
    }

    /// The drag kind of a transported card.
    pub fn get_type(&self) -> (r: DragableType)
        ensures
            r == self.get_type_spec(),
    {
        match self {
            DragableCard::BaseCard(_) => DragableType::BaseCard,
            DragableCard::CooldownModifier(_) => DragableType::CooldownModifier,
            DragableCard::MultiCastModifier(_) => DragableType::MultiCastModifier,
            DragableCard::ProjectileModifier(_) => DragableType::ProjectileModifier,
            DragableCard::StatusEffect(_) => DragableType::StatusEffect,
            DragableCard::Direction(_) => DragableType::Direction,
        }
    }
}

/// The templates each palette page offers; the dock page offers the cards
/// parked in the dock.
pub open spec fn palette_items_spec(state: PaletteState, dock: Seq<DragableCardM>) -> Seq<
    DragableCardM,
> {
    match state {
        PaletteState::ProjectileModifiers => seq![
            DragableCardM::ProjectileModifier(
                ProjectileModifierM::SimpleModify(SimpleProjectileModifierType::Gravity, 1),
            ),
            DragableCardM::ProjectileModifier(
                ProjectileModifierM::SimpleModify(SimpleProjectileModifierType::Health, 1),
            ),
            DragableCardM::ProjectileModifier(
                ProjectileModifierM::SimpleModify(SimpleProjectileModifierType::Length, 1),
            ),
            DragableCardM::ProjectileModifier(
                ProjectileModifierM::SimpleModify(SimpleProjectileModifierType::Width, 1),
            ),
            DragableCardM::ProjectileModifier(
                ProjectileModifierM::SimpleModify(SimpleProjectileModifierType::Height, 1),
            ),
            DragableCardM::ProjectileModifier(
                ProjectileModifierM::SimpleModify(SimpleProjectileModifierType::Size, 1),
            ),
            DragableCardM::ProjectileModifier(
                ProjectileModifierM::SimpleModify(SimpleProjectileModifierType::Speed, 1),
            ),
            DragableCardM::ProjectileModifier(
                ProjectileModifierM::SimpleModify(SimpleProjectileModifierType::Lifetime, 1),
            ),
            DragableCardM::ProjectileModifier(ProjectileModifierM::NoEnemyFire),
            DragableCardM::ProjectileModifier(ProjectileModifierM::FriendlyFire),
            DragableCardM::ProjectileModifier(
                ProjectileModifierM::LockToOwner(DirectionCard::Empty),
            ),
            DragableCardM::ProjectileModifier(ProjectileModifierM::PiercePlayers),
        ],
        PaletteState::BaseCards => seq![
            DragableCardM::BaseCard(BaseCardM::Projectile(Seq::empty())),
            DragableCardM::BaseCard(BaseCardM::MultiCast(Seq::empty(), Seq::empty())),
            DragableCardM::BaseCard(BaseCardM::Trigger(0)),
            DragableCardM::BaseCard(BaseCardM::Effect(Effect::Damage(1))),
            DragableCardM::BaseCard(
                BaseCardM::Effect(Effect::Knockback(1, DirectionCard::Empty)),
            ),
            DragableCardM::BaseCard(BaseCardM::Effect(Effect::Cleanse)),
            DragableCardM::BaseCard(BaseCardM::Effect(Effect::Teleport)),
            DragableCardM::BaseCard(BaseCardM::StatusEffects(1, Seq::empty())),
        ],
        PaletteState::AdvancedProjectileModifiers => seq![
            DragableCardM::ProjectileModifier(ProjectileModifierM::OnHit(BaseCardM::Empty)),
            DragableCardM::ProjectileModifier(ProjectileModifierM::OnHeadshot(BaseCardM::Empty)),
            DragableCardM::ProjectileModifier(ProjectileModifierM::OnExpiry(BaseCardM::Empty)),
            DragableCardM::ProjectileModifier(ProjectileModifierM::OnTrigger(0, BaseCardM::Empty)),
            DragableCardM::ProjectileModifier(ProjectileModifierM::Trail(1, BaseCardM::Empty)),
        ],
        PaletteState::MultiCastModifiers => seq![
            DragableCardM::MultiCastModifier(MultiCastModifier::Spread(1)),
            DragableCardM::MultiCastModifier(MultiCastModifier::Duplication(1)),
        ],
        PaletteState::CooldownModifiers => seq![
            DragableCardM::CooldownModifier(
                CooldownModifier::SimpleCooldownModifier(SimpleCooldownModifier::AddCharge, 1),
            ),
            DragableCardM::CooldownModifier(
                CooldownModifier::SimpleCooldownModifier(SimpleCooldownModifier::AddCooldown, 1),
            ),
            DragableCardM::CooldownModifier(
                CooldownModifier::SignedSimpleCooldownModifier(
                    SignedSimpleCooldownModifier::DecreaseCooldown,
                    1,
                ),
            ),
            DragableCardM::CooldownModifier(CooldownModifier::Reloading),
        ],
        PaletteState::StatusEffects => seq![
            DragableCardM::StatusEffect(
                StatusEffectM::SimpleStatusEffect(SimpleStatusEffectType::DamageOverTime, 1),
            ),
            DragableCardM::StatusEffect(
                StatusEffectM::SimpleStatusEffect(SimpleStatusEffectType::IncreaseDamageTaken, 1),
            ),
            DragableCardM::StatusEffect(
                StatusEffectM::SimpleStatusEffect(
                    SimpleStatusEffectType::IncreaseGravity(DirectionCard::Empty),
                    1,
                ),
            ),
            DragableCardM::StatusEffect(
                StatusEffectM::SimpleStatusEffect(SimpleStatusEffectType::Speed, 1),
            ),
            DragableCardM::StatusEffect(
                StatusEffectM::UnsignedSimpleStatusEffect(
                    UnsignedSimpleStatusEffectType::Overheal,
                    1,
                ),
            ),
            DragableCardM::StatusEffect(
                StatusEffectM::SimpleStatusEffect(SimpleStatusEffectType::Grow, 1),
            ),
            DragableCardM::StatusEffect(
                StatusEffectM::SimpleStatusEffect(SimpleStatusEffectType::IncreaseMaxHealth, 1),
            ),
            DragableCardM::StatusEffect(StatusEffectM::Invincibility),
            DragableCardM::StatusEffect(StatusEffectM::Trapped),
            DragableCardM::StatusEffect(StatusEffectM::Lockout),
            DragableCardM::StatusEffect(StatusEffectM::Stun),
            DragableCardM::StatusEffect(StatusEffectM::OnHit(BaseCardM::Empty)),
        ],
        PaletteState::Materials => seq![
            DragableCardM::BaseCard(BaseCardM::CreateMaterial(VoxelMaterial::Grass)),
            DragableCardM::BaseCard(BaseCardM::CreateMaterial(VoxelMaterial::Dirt)),
            DragableCardM::BaseCard(BaseCardM::CreateMaterial(VoxelMaterial::Stone)),
            DragableCardM::BaseCard(BaseCardM::CreateMaterial(VoxelMaterial::Ice)),
            DragableCardM::BaseCard(BaseCardM::CreateMaterial(VoxelMaterial::Water)),
        ],
        PaletteState::Directions => seq![
            DragableCardM::Direction(DirectionCard::Up),
            DragableCardM::Direction(DirectionCard::Forward),
            DragableCardM::Direction(DirectionCard::Movement),
        ],
        PaletteState::Dock => dock,
    }
}

/// Build the palette card for one page.
pub fn build_palette(state: PaletteState, dock: &Vec<DragableCard>) -> (r: BaseCard)
    ensures
        r.model() == BaseCardM::Palette(palette_items_spec(state, dc_models(dock@))),
{
    let mut items: Vec<DragableCard> = Vec::new();
    match state {
        PaletteState::ProjectileModifiers => {
            items.push(DragableCard::ProjectileModifier(ProjectileModifier::SimpleModify(
                SimpleProjectileModifierType::Gravity,
                1,
            )));
            items.push(DragableCard::ProjectileModifier(ProjectileModifier::SimpleModify(
                SimpleProjectileModifierType::Health,
                1,
            )));
            items.push(DragableCard::ProjectileModifier(ProjectileModifier::SimpleModify(
                SimpleProjectileModifierType::Length,
                1,
            )));
            items.push(DragableCard::ProjectileModifier(ProjectileModifier::SimpleModify(
                SimpleProjectileModifierType::Width,
                1,
            )));
            items.push(DragableCard::ProjectileModifier(ProjectileModifier::SimpleModify(
                SimpleProjectileModifierType::Height,
                1,
            )));
            items.push(DragableCard::ProjectileModifier(ProjectileModifier::SimpleModify(
                SimpleProjectileModifierType::Size,
                1,
            )));
            items.push(DragableCard::ProjectileModifier(ProjectileModifier::SimpleModify(
                SimpleProjectileModifierType::Speed,
                1,
            )));
            items.push(DragableCard::ProjectileModifier(ProjectileModifier::SimpleModify(
                SimpleProjectileModifierType::Lifetime,
                1,
            )));
            items.push(DragableCard::ProjectileModifier(ProjectileModifier::NoEnemyFire));
            items.push(DragableCard::ProjectileModifier(ProjectileModifier::FriendlyFire));
            items.push(DragableCard::ProjectileModifier(ProjectileModifier::LockToOwner(
                DirectionCard::Empty,
            )));
            items.push(DragableCard::ProjectileModifier(ProjectileModifier::PiercePlayers));
        },
        PaletteState::BaseCards => {
            items.push(DragableCard::BaseCard(BaseCard::Projectile(Vec::new())));
            items.push(DragableCard::BaseCard(BaseCard::MultiCast(Vec::new(), Vec::new())));
            items.push(DragableCard::BaseCard(BaseCard::Trigger(0)));
            items.push(DragableCard::BaseCard(BaseCard::Effect(Effect::Damage(1))));
            items.push(DragableCard::BaseCard(BaseCard::Effect(Effect::Knockback(
                1,
                DirectionCard::Empty,
            ))));
            items.push(DragableCard::BaseCard(BaseCard::Effect(Effect::Cleanse)));
            items.push(DragableCard::BaseCard(BaseCard::Effect(Effect::Teleport)));
            items.push(DragableCard::BaseCard(BaseCard::StatusEffects(1, Vec::new())));
        },
        PaletteState::AdvancedProjectileModifiers => {
            items.push(DragableCard::ProjectileModifier(ProjectileModifier::OnHit(
                BaseCard::Empty,
            )));
            items.push(DragableCard::ProjectileModifier(ProjectileModifier::OnHeadshot(
                BaseCard::Empty,
            )));
            items.push(DragableCard::ProjectileModifier(ProjectileModifier::OnExpiry(
                BaseCard::Empty,
            )));
            items.push(DragableCard::ProjectileModifier(ProjectileModifier::OnTrigger(
                0,
                BaseCard::Empty,
            )));
            items.push(DragableCard::ProjectileModifier(ProjectileModifier::Trail(
                1,
                BaseCard::Empty,
            )));
        },
        PaletteState::MultiCastModifiers => {
            items.push(DragableCard::MultiCastModifier(MultiCastModifier::Spread(1)));
            items.push(DragableCard::MultiCastModifier(MultiCastModifier::Duplication(1)));
        },
        PaletteState::CooldownModifiers => {
            items.push(DragableCard::CooldownModifier(CooldownModifier::SimpleCooldownModifier(
                SimpleCooldownModifier::AddCharge,
                1,
            )));
            items.push(DragableCard::CooldownModifier(CooldownModifier::SimpleCooldownModifier(
                SimpleCooldownModifier::AddCooldown,
                1,
            )));
            items.push(DragableCard::CooldownModifier(
                CooldownModifier::SignedSimpleCooldownModifier(
                    SignedSimpleCooldownModifier::DecreaseCooldown,
                    1,
                ),
            ));
            items.push(DragableCard::CooldownModifier(CooldownModifier::Reloading));
        },
        PaletteState::StatusEffects => {
            items.push(DragableCard::StatusEffect(StatusEffect::SimpleStatusEffect(
                SimpleStatusEffectType::DamageOverTime,
                1,
            )));
            items.push(DragableCard::StatusEffect(StatusEffect::SimpleStatusEffect(
                SimpleStatusEffectType::IncreaseDamageTaken,
                1,
            )));
            items.push(DragableCard::StatusEffect(StatusEffect::SimpleStatusEffect(
                SimpleStatusEffectType::IncreaseGravity(DirectionCard::Empty),
                1,
            )));
            items.push(DragableCard::StatusEffect(StatusEffect::SimpleStatusEffect(
                SimpleStatusEffectType::Speed,
                1,
            )));
            items.push(DragableCard::StatusEffect(StatusEffect::UnsignedSimpleStatusEffect(
                UnsignedSimpleStatusEffectType::Overheal,
                1,
            )));
            items.push(DragableCard::StatusEffect(StatusEffect::SimpleStatusEffect(
                SimpleStatusEffectType::Grow,
                1,
            )));
            items.push(DragableCard::StatusEffect(StatusEffect::SimpleStatusEffect(
                SimpleStatusEffectType::IncreaseMaxHealth,
                1,
            )));
            items.push(DragableCard::StatusEffect(StatusEffect::Invincibility));
            items.push(DragableCard::StatusEffect(StatusEffect::Trapped));
            items.push(DragableCard::StatusEffect(StatusEffect::Lockout));
            items.push(DragableCard::StatusEffect(StatusEffect::Stun));
            items.push(DragableCard::StatusEffect(StatusEffect::OnHit(BaseCard::Empty)));
        },
        PaletteState::Materials => {
            items.push(DragableCard::BaseCard(BaseCard::CreateMaterial(VoxelMaterial::Grass)));
            items.push(DragableCard::BaseCard(BaseCard::CreateMaterial(VoxelMaterial::Dirt)));
            items.push(DragableCard::BaseCard(BaseCard::CreateMaterial(VoxelMaterial::Stone)));
            items.push(DragableCard::BaseCard(BaseCard::CreateMaterial(VoxelMaterial::Ice)));
            items.push(DragableCard::BaseCard(BaseCard::CreateMaterial(VoxelMaterial::Water)));
        },
        PaletteState::Directions => {
            items.push(DragableCard::Direction(DirectionCard::Up));
            items.push(DragableCard::Direction(DirectionCard::Forward));
            items.push(DragableCard::Direction(DirectionCard::Movement));
        },
        PaletteState::Dock => {
            let mut i: usize = 0;
            while i < dock.len()
                invariant
                    i <= dock@.len(),
                    items@.len() == i,
                    forall|j: int| 0 <= j < i ==> items@[j].model() == dock@[j].model(),
                decreases dock@.len() - i,
            {
                items.push(dock[i].deep_clone());
                i += 1;
            }
        },
    }
    proof {
        assert(dc_models(items@) =~= palette_items_spec(state, dc_models(dock@)));
    }
    BaseCard::Palette(items)
}

/// A labelled box of further boxes, dragged as one unit.
#[derive(Debug, PartialEq, Eq)]
pub struct DndBox {
    pub label: String,
    pub items: Vec<DndBox>,
}

#[verifier::ext_equal]
pub struct DndBoxM {
    pub label: Seq<char>,
    pub items: Seq<DndBoxM>,
}

impl DndBox {
    pub open spec fn model(&self) -> DndBoxM
        decreases self,
    {
        DndBoxM { label: self.label@, items: box_models(self.items@) }
    }
}

pub open spec fn box_models(s: Seq<DndBox>) -> Seq<DndBoxM>
    decreases s,
{
    if s.len() == 0 {
        Seq::empty()
    } else {
        box_models(s.drop_last()).push(s.last().model())
    }
}

/// One editor session: the deck being edited, the dock's parked cards, and
/// which palette page is showing.
pub struct EditorState {
    pub deck: Deck,
    pub dock_cards: Vec<DragableCard>,
    pub palette_state: PaletteState,
}

/// What a committed drag transaction does: detach at the source (the
/// palette hands out a copy instead), attach at the destination (the dock
/// page of the palette parks the item; any other palette page discards it),
/// run the cleanup pass over the source container, and clear every cooldown
/// cache. `None` is a contract violation: the tree is left untouched.
pub open spec fn drag_commit(
    deck: DeckM,
    pal: Seq<DragableCardM>,
    dock: Seq<DragableCardM>,
    src: Seq<usize>,
    dst: Seq<usize>,
    dock_dest: bool,
) -> Option<(DeckM, Seq<DragableCardM>)> {
    if src.len() == 0 || dst.len() == 0 {
        None
    } else {
        let sroot = src.last();
        let taken = if sroot == 0 {
            match BaseCardM::Palette(pal).take(src.drop_last()) {
                Some((_, it)) => Some((deck, it)),
                None => None,
            }
        } else {
            deck.take(src)
        };
        match taken {
            None => None,
            Some((deck1, item)) => {
                let droot = dst.last();
                let placed = if droot == 0 {
                    if dock_dest {
                        Some((deck1, dock.push(item)))
                    } else {
                        Some((deck1, dock))
                    }
                } else {
                    match deck1.insert(dst, item) {
                        Some(d2) => Some((d2, dock)),
                        None => None,
                    }
                };
                match placed {
                    None => None,
                    Some((deck2, dock2)) => {
                        let cleaned = if sroot == 0 {
                            Some(deck2)
                        } else {
                            deck2.cleanup(src)
                        };
                        match cleaned {
                            None => None,
                            Some(deck3) => Some(
                                (
                                    DeckM {
                                        cooldowns: clear_cd_caches(deck3.cooldowns),
                                        passive: deck3.passive,
                                    },
                                    dock2,
                                ),
                            ),
                        }
                    },
                }
            },
        }
    }
}

impl EditorState {
    /// The palette card for the current page.
    pub fn palette_card(&self) -> (r: BaseCard)
        ensures
            r.model() == BaseCardM::Palette(
                palette_items_spec(self.palette_state, dc_models(self.dock_cards@)),
            ),
    {
        build_palette(self.palette_state, &self.dock_cards)
    }

    /// Apply one pending modify event to the deck. The path is root-to-leaf
    /// as the frame's traversal built it.
    pub fn apply_modify(self, path: &Vec<usize>, t: ModificationType) -> (res: (Self, bool))
        ensures
            match self.deck.model().modify(path@.reverse(), t) {
                Some(d2) => res.1 && res.0.deck.model() == d2,
                None => !res.1 && res.0.deck.model() == self.deck.model(),
            },
            res.0.dock_cards == self.dock_cards,
            res.0.palette_state == self.palette_state,
    {
        let EditorState { deck, dock_cards, palette_state } = self;
        let (deck2, ok) = deck.modify_from_path(path, t);
        (EditorState { deck: deck2, dock_cards, palette_state }, ok)
    }

    /// Apply one pending drag event. Nothing happens unless the pointer was
    /// released over a destination whose kind accepts the source kind; a
    /// committed transaction takes from the source path, inserts at the
    /// destination path, cleans up the source container and clears every
    /// cooldown cache. An illegal pair of paths aborts with the session
    /// unchanged.
    pub fn apply_drag(
        self,
        source: &Vec<usize>,
        dest: &Vec<usize>,
        source_kind: DragableType,
        dest_kind: DropableType,
        released: bool,
    ) -> (res: (Self, bool))
        ensures
            res.0.palette_state == self.palette_state,
            ({
                let commit = drag_commit(
                    self.deck.model(),
                    palette_items_spec(self.palette_state, dc_models(self.dock_cards@)),
                    dc_models(self.dock_cards@),
                    source@.reverse(),
                    dest@.reverse(),
                    self.palette_state is Dock,
                );
                if !released || !is_valid_drag_spec(source_kind, dest_kind) {
                    !res.1 && res.0.deck.model() == self.deck.model() && res.0.dock_cards
                        == self.dock_cards
                } else {
                    match commit {
                        Some(r2) => res.1 && res.0.deck.model() == r2.0 && dc_models(
                            res.0.dock_cards@,
                        ) == r2.1,
                        None => !res.1 && res.0.deck.model() == self.deck.model()
                            && res.0.dock_cards == self.dock_cards,
                    }
                }
            }),
    {
        if !released || !is_valid_drag(&source_kind, &dest_kind) {
            return (self, false);
        }
        let EditorState { deck, dock_cards, palette_state } = self;
        let srev = reversed(source);
        let drev = reversed(dest);
        let sn = srev.len();
        let dn = drev.len();
        if sn == 0 || dn == 0 {
            return (EditorState { deck, dock_cards, palette_state }, false);
        }
        let sroot = srev[sn - 1];
        let droot = drev[dn - 1];
        proof {
            assert(srev@.take(sn as int) =~= srev@);
            assert(drev@.take(dn as int) =~= drev@);
            crate::semantics::lemma_take_drop_last(srev@, sn as int);
            crate::semantics::lemma_take_drop_last(drev@, dn as int);
        }
        let saved = deck.deep_clone();
        let ghost dock0 = dock_cards@;
        let (deck1, item_opt) = if sroot == 0 {
            let pal = build_palette(palette_state, &dock_cards);
            let (_, it) = pal.take_from_path(&srev, sn - 1);
            proof {
                assert(srev@.take(sn as int - 1) =~= srev@.drop_last());
            }
            (deck, it)
        } else {
            deck.take_from_path(&srev, sn)
        };
        let item = match item_opt {
            Some(it) => it,
            Option::None => {
                return (EditorState { deck: deck1, dock_cards, palette_state }, false);
            },
        };
        if droot == 0 {
            let (deck3, ok) = if sroot == 0 {
                (deck1, true)
            } else {
                deck1.cleanup(&srev, sn)
            };
            if !ok {
                return (EditorState { deck: saved, dock_cards, palette_state }, false);
            }
            let mut dock2 = dock_cards;
            let is_dock = matches!(palette_state, PaletteState::Dock);
            if is_dock {
                let ghost itm = item.model();
                dock2.push(item);
                proof {
                    assert(dc_models(dock2@) =~= dc_models(dock0).push(itm));
                }
            }
            let Deck { cooldowns, passive } = deck3;
            let cleared = clear_all_caches(cooldowns);
            (
                EditorState {
                    deck: Deck { cooldowns: cleared, passive },
                    dock_cards: dock2,
                    palette_state,
                },
                true,
            )
        } else {
            let (deck2, back) = deck1.insert_to_path(&drev, dn, item);
            if back.is_some() {
                return (EditorState { deck: saved, dock_cards, palette_state }, false);
            }
            let (deck3, ok) = if sroot == 0 {
                (deck2, true)
            } else {
                deck2.cleanup(&srev, sn)
            };
            if !ok {
                return (EditorState { deck: saved, dock_cards, palette_state }, false);
            }
            let Deck { cooldowns, passive } = deck3;
            let cleared = clear_all_caches(cooldowns);
            (
                EditorState {
                    deck: Deck { cooldowns: cleared, passive },
                    dock_cards,
                    palette_state,
                },
                true,
            )
        }
    }
}

/// One frame's worth of mutation: at most one modify and at most one drag
/// commit, the modify applied first so the commit sees the post-modify
/// tree. Each step that fails leaves the tree as the step before it.
pub open spec fn frame_spec(
    deck: DeckM,
    pal: Seq<DragableCardM>,
    dock: Seq<DragableCardM>,
    dock_dest: bool,
    pending_modify: Option<(Seq<usize>, ModificationType)>,
    pending_drag: Option<(Seq<usize>, Seq<usize>, DragableType, DropableType, bool)>,
) -> (DeckM, Seq<DragableCardM>, bool, bool) {
    let step1 = match pending_modify {
        Some(req) => match deck.modify(req.0.reverse(), req.1) {
            Some(d1) => (d1, true),
            None => (deck, false),
        },
        None => (deck, false),
    };
    let step2 = match pending_drag {
        Some(req) => if req.4 && is_valid_drag_spec(req.2, req.3) {
            match drag_commit(step1.0, pal, dock, req.0.reverse(), req.1.reverse(), dock_dest) {
                Some(r2) => (r2.0, r2.1, true),
                None => (step1.0, dock, false),
            }
        } else {
            (step1.0, dock, false)
        },
        None => (step1.0, dock, false),
    };
    (step2.0, step2.1, step1.1, step2.2)
}

impl EditorState {
    /// Apply one frame's pending events: the modify first, then the drag
    /// commit, as `frame_spec` lays down. Returns whether each was applied.
    pub fn apply_frame(
        self,
        pending_modify: Option<(Vec<usize>, ModificationType)>,
        pending_drag: Option<(Vec<usize>, Vec<usize>, DragableType, DropableType, bool)>,
    ) -> (res: (Self, bool, bool))
        ensures
            res.0.palette_state == self.palette_state,
            ({
                let spec_r = frame_spec(
                    self.deck.model(),
                    palette_items_spec(self.palette_state, dc_models(self.dock_cards@)),
                    dc_models(self.dock_cards@),
                    self.palette_state is Dock,
                    match pending_modify {
                        Some(req) => Some((req.0@, req.1)),
                        None => None,
                    },
                    match pending_drag {
                        Some(req) => Some((req.0@, req.1@, req.2, req.3, req.4)),
                        None => None,
                    },
                );
                &&& res.0.deck.model() == spec_r.0
                &&& dc_models(res.0.dock_cards@) == spec_r.1
                &&& res.1 == spec_r.2
                &&& res.2 == spec_r.3
            }),
    {
        let (mid, applied) = match pending_modify {
            Some((path, t)) => self.apply_modify(&path, t),
            Option::None => (self, false),
        };
        let (fin, committed) = match pending_drag {
            Some((src, dst, sk, dk, released)) => mid.apply_drag(&src, &dst, sk, dk, released),
            Option::None => (mid, false),
        };
        (fin, applied, committed)
    }
}

} // verus!
