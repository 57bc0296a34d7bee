use vstd::prelude::*;

verus! {

/// The direction of a pending numeric modification: increment, decrement,
/// or already applied through direct numeric input.
#[derive(Clone, Copy, Debug, PartialEq, Eq, Structural)]
pub enum ModificationType {
    Increase,
    Decrease,
    Other,
}

/// A direction value carried by cards that aim something.
#[derive(Clone, Copy, Debug, PartialEq, Eq, Structural)]
pub enum DirectionCard {
    Empty,
    Up,
    Forward,
    Movement,
}

/// The numeric projectile attributes a `SimpleModify` can scale.
#[derive(Clone, Copy, Debug, PartialEq, Eq, Structural)]
pub enum SimpleProjectileModifierType {
    Gravity,
    Health,
    Length,
    Width,
    Height,
    Size,
    Speed,
    Lifetime,
}

/// Unsigned cooldown modifier kinds; their stack count stays at least 1.
#[derive(Clone, Copy, Debug, PartialEq, Eq, Structural)]
pub enum SimpleCooldownModifier {
    AddCharge,
    AddCooldown,
}

/// Signed cooldown modifier kinds; their count may go negative.
#[derive(Clone, Copy, Debug, PartialEq, Eq, Structural)]
pub enum SignedSimpleCooldownModifier {
    DecreaseCooldown,
}

/// Signed status effect kinds. `IncreaseGravity` carries the direction the
/// extra gravity pulls toward.
#[derive(Clone, Copy, Debug, PartialEq, Eq, Structural)]
pub enum SimpleStatusEffectType {
    DamageOverTime,
    IncreaseDamageTaken,
    IncreaseGravity(DirectionCard),
    Speed,
    Grow,
    IncreaseMaxHealth,
}

/// Unsigned status effect kinds; a count of 0 means the effect is spent.
#[derive(Clone, Copy, Debug, PartialEq, Eq, Structural)]
pub enum UnsignedSimpleStatusEffectType {
    Overheal,
}

/// The materials a `CreateMaterial` card can place.
#[derive(Clone, Copy, Debug, PartialEq, Eq, Structural)]
pub enum VoxelMaterial {
    Grass,
    Dirt,
    Stone,
    Ice,
    Water,
}

/// An instant effect applied by a card.
#[derive(Clone, Copy, Debug, PartialEq, Eq, Structural)]
pub enum Effect {
    Damage(i32),
    Knockback(i32, DirectionCard),
    Cleanse,
    Teleport,
}

/// A modifier attached to a whole cooldown.
#[derive(Clone, Copy, Debug, PartialEq, Eq, Structural)]
pub enum CooldownModifier {
    Empty,
    Reloading,
    SimpleCooldownModifier(SimpleCooldownModifier, u32),
    SignedSimpleCooldownModifier(SignedSimpleCooldownModifier, i32),
}

/// A modifier attached to a multicast card.
#[derive(Clone, Copy, Debug, PartialEq, Eq, Structural)]
pub enum MultiCastModifier {
    Empty,
    Spread(u32),
    Duplication(u32),
}

/// A modifier attached to a projectile. The last five variants carry a
/// nested card subtree and are called "advanced" modifiers.
#[derive(Debug, PartialEq, Eq)]
pub enum ProjectileModifier {
    Empty,
    SimpleModify(SimpleProjectileModifierType, i32),
    NoEnemyFire,
    FriendlyFire,
    PiercePlayers,
    WallBounce,
    LockToOwner(DirectionCard),
    OnHit(BaseCard),
    OnHeadshot(BaseCard),
    OnExpiry(BaseCard),
    OnTrigger(u32, BaseCard),
    Trail(u32, BaseCard),
}

/// A status effect; `OnHit` carries a nested card subtree.
#[derive(Debug, PartialEq, Eq)]
pub enum StatusEffect {
    Empty,
    Invincibility,
    Lockout,
    Trapped,
    Stun,
    SimpleStatusEffect(SimpleStatusEffectType, i32),
    UnsignedSimpleStatusEffect(UnsignedSimpleStatusEffectType, u32),
    OnHit(BaseCard),
}

/// A node of the card composition tree. `Empty` is the canonical empty
/// slot; `Palette` is the read-only catalog the editor drags templates from.
#[derive(Debug, PartialEq, Eq)]
pub enum BaseCard {
    Empty,
    Projectile(Vec<ProjectileModifier>),
    MultiCast(Vec<BaseCard>, Vec<MultiCastModifier>),
    CreateMaterial(VoxelMaterial),
    Effect(Effect),
    StatusEffects(u32, Vec<StatusEffect>),
    Trigger(u32),
    Palette(Vec<DragableCard>),
}

/// The transport union holding a detached node while a drag is in flight.
#[derive(Debug, PartialEq, Eq)]
pub enum DragableCard {
    BaseCard(BaseCard),
    ProjectileModifier(ProjectileModifier),
    MultiCastModifier(MultiCastModifier),
    CooldownModifier(CooldownModifier),
    StatusEffect(StatusEffect),
    Direction(DirectionCard),
}

/// A key the keybind editor can capture.
#[derive(Clone, Copy, Debug, PartialEq, Eq, Structural)]
pub enum KeyId {
    Escape,
    Tab,
    Enter,
    Space,
    ArrowUp,
    ArrowDown,
    ArrowLeft,
    ArrowRight,
}

/// A mouse button the keybind editor can capture.
#[derive(Clone, Copy, Debug, PartialEq, Eq, Structural)]
pub enum MouseId {
    Left,
    Middle,
    Right,
}

/// A captured input control: a key or a mouse button.
#[derive(Clone, Copy, Debug, PartialEq, Eq, Structural)]
pub enum Control {
    Key(KeyId),
    Mouse(MouseId),
}

/// The binding an ability is triggered by.
#[derive(Clone, Copy, Debug, PartialEq, Eq, Structural)]
pub enum Keybind {
    Unbound,
    Pressed(Control),
}

/// A cached cooldown recovery value: the base wait and the per-charge
/// recovery times, both in milliseconds.
#[derive(Debug, PartialEq, Eq)]
pub struct RecoveryValue {
    pub base_ms: u64,
    pub charge_ms: Vec<u64>,
}

/// One ability slot of a cooldown: a card, the keybind that fires it, and a
/// lazily cached recovery value.
#[derive(Debug, PartialEq, Eq)]
pub struct Ability {
    pub card: BaseCard,
    pub keybind: Keybind,
    pub is_keybind_selected: bool,
    pub cached_recovery: Option<RecoveryValue>,
}

/// A set of abilities sharing one cooldown timer, with its modifiers and a
/// lazily cached recovery value.
#[derive(Debug, PartialEq, Eq)]
pub struct Cooldown {
    pub abilities: Vec<Ability>,
    pub modifiers: Vec<CooldownModifier>,
    pub cooldown_value: Option<RecoveryValue>,
}

/// The deck's passive slot: status effects applied permanently.
#[derive(Debug, PartialEq, Eq)]
pub struct PassiveCard {
    pub passive_effects: Vec<StatusEffect>,
}

/// The root of the tree: the deck's cooldowns and its passive card.
#[derive(Debug, PartialEq, Eq)]
pub struct Deck {
    pub cooldowns: Vec<Cooldown>,
    pub passive: PassiveCard,
}

impl ProjectileModifier {
    /// An advanced modifier carries a nested card subtree.
    pub fn is_advanced(&self) -> (r: bool)
        ensures
            r == self.is_advanced_spec(),
    {
        match self {
            ProjectileModifier::OnHit(_)
            | ProjectileModifier::OnHeadshot(_)
            | ProjectileModifier::OnExpiry(_)
            | ProjectileModifier::OnTrigger(_, _)
            | ProjectileModifier::Trail(_, _) => true,
            _ => false,
        }
    }

    pub open spec fn is_advanced_spec(&self) -> bool {
        match self {
            ProjectileModifier::OnHit(_)
            | ProjectileModifier::OnHeadshot(_)
            | ProjectileModifier::OnExpiry(_)
            | ProjectileModifier::OnTrigger(_, _)
            | ProjectileModifier::Trail(_, _) => true,
            _ => false,
        }
    }
}

impl StatusEffect {
    /// An advanced effect carries a nested card subtree.
    pub fn is_advanced(&self) -> (r: bool)
        ensures
            r == self.is_advanced_spec(),
    {
        match self {
            StatusEffect::OnHit(_) => true,
            _ => false,
        }
    }

    pub open spec fn is_advanced_spec(&self) -> bool {
        match self {
            StatusEffect::OnHit(_) => true,
            _ => false,
        }
    }
}

impl Default for Ability {
    /// A fresh ability slot: an empty card, no keybind, no cached recovery.
    fn default() -> (r: Self)
        ensures
            r.card == BaseCard::Empty,
            r.keybind == Keybind::Unbound,
            !r.is_keybind_selected,
            r.cached_recovery is None,
    {
        Ability {
            card: BaseCard::Empty,
            keybind: Keybind::Unbound,
            is_keybind_selected: false,
            cached_recovery: Option::None,
        }
    }
}

impl Cooldown {
    /// A fresh cooldown holding its single mandatory empty ability.
    pub fn empty() -> (r: Self)
        ensures
            r.abilities@.len() == 1,
            r.abilities@[0].card == BaseCard::Empty,
            r.abilities@[0].cached_recovery is None,
            r.modifiers@.len() == 0,
            r.cooldown_value is None,
    {
        let mut abilities: Vec<Ability> = Vec::new();
        abilities.push(Ability::default());
        Cooldown { abilities, modifiers: Vec::new(), cooldown_value: Option::None }
    }
}

} // verus!
