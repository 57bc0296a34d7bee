use vstd::prelude::*;

use crate::arith::{
    dec_floor_u32_spec, dec_i32_spec, inc_i32_spec, inc_u32_spec, sat_add_i32_spec,
    sat_add_u32_spec,
};
use crate::cards::{
    CooldownModifier, DirectionCard, Effect, Keybind, ModificationType, MultiCastModifier,
    SimpleCooldownModifier, SimpleProjectileModifierType, SimpleStatusEffectType,
};
use crate::model::{
    AbilityM, BaseCardM, CooldownM, DeckM, DragableCardM, PassiveCardM, ProjectileModifierM,
    StatusEffectM,
};

verus! {

// The mathematical semantics of the four path-addressed tree operations.
//
// A path is consumed from its last element: each operation reads `p.last()`
// to choose a slot and recurses on `p.drop_last()`. Every operation returns
// `None` when the path does not address a legal slot for it (a mismatched
// sentinel, an index out of range, a descent into a leaf, an item of the
// wrong kind): such a call is a contract violation and the tree must be
// left untouched.

/// Consuming the tail of a truncated path: the element read and what is
/// left over.
pub proof fn lemma_take_drop_last(s: Seq<usize>, n: int)
    requires
        0 < n <= s.len(),
    ensures
        s.take(n).drop_last() == s.take(n - 1),
        s.take(n).last() == s[n - 1],
        s.take(n).len() == n,
{
    assert(s.take(n).drop_last() =~= s.take(n - 1));
}

// ---------------------------------------------------------------------------
// Finding the first element of a sequence satisfying a predicate.

pub open spec fn first_where<T>(s: Seq<T>, f: spec_fn(T) -> bool) -> Option<int>
    decreases s.len(),
{
    if s.len() == 0 {
        None
    } else if f(s[0]) {
        Some(0int)
    } else {
        match first_where(s.subrange(1, s.len() as int), f) {
            Some(i) => Some(i + 1),
            None => None,
        }
    }
}

pub proof fn lemma_first_where<T>(s: Seq<T>, f: spec_fn(T) -> bool)
    ensures
        match first_where(s, f) {
            Some(i) => 0 <= i < s.len() && f(s[i]) && (forall|j: int| 0 <= j < i ==> !f(s[j])),
            None => forall|j: int| 0 <= j < s.len() ==> !f(s[j]),
        },
    decreases s.len(),
{
    if s.len() > 0 && !f(s[0]) {
        let s2 = s.subrange(1, s.len() as int);
        lemma_first_where(s2, f);
        match first_where(s2, f) {
            Some(i2) => {
                assert(s[i2 + 1] == s2[i2]);
                assert forall|j: int| 0 <= j < i2 + 1 implies !f(s[j]) by {
                    if j > 0 {
                        assert(s2[j - 1] == s[j]);
                    }
                }
            },
            None => {
                assert forall|j: int| 0 <= j < s.len() implies !f(s[j]) by {
                    if j > 0 {
                        assert(s2[j - 1] == s[j]);
                    }
                }
            },
        }
    }
}

/// If the prefix before `i` has no hit and `s[i]` is a hit, then `i` is the
/// first hit.
pub proof fn lemma_first_where_at<T>(s: Seq<T>, f: spec_fn(T) -> bool, i: int)
    requires
        0 <= i < s.len(),
        f(s[i]),
        forall|j: int| 0 <= j < i ==> !f(s[j]),
    ensures
        first_where(s, f) == Some(i),
    decreases s.len(),
{
    if i > 0 {
        let s2 = s.subrange(1, s.len() as int);
        assert(forall|j: int| 0 <= j < s2.len() ==> s2[j] == s[j + 1]);
        lemma_first_where_at(s2, f, i - 1);
    }
}

pub proof fn lemma_first_where_none<T>(s: Seq<T>, f: spec_fn(T) -> bool)
    requires
        forall|j: int| 0 <= j < s.len() ==> !f(s[j]),
    ensures
        first_where(s, f) is None,
    decreases s.len(),
{
    if s.len() > 0 {
        let s2 = s.subrange(1, s.len() as int);
        assert(forall|j: int| 0 <= j < s2.len() ==> s2[j] == s[j + 1]);
        lemma_first_where_none(s2, f);
    }
}

// ---------------------------------------------------------------------------
// Merging and pruning inside the sibling sequences.
//
// Inserting a counted "simple" item merges its count into the first sibling
// of the same kind instead of appending a duplicate; afterwards every
// sibling of a prunable kind whose count is exactly 0 is dropped.

pub open spec fn pm_is_simple_kind(m: ProjectileModifierM, k: SimpleProjectileModifierType) -> bool {
    m matches ProjectileModifierM::SimpleModify(k2, _) && k2 == k
}

pub open spec fn pm_simple_value(m: ProjectileModifierM) -> i32 {
    match m {
        ProjectileModifierM::SimpleModify(_, v) => v,
        _ => 0,
    }
}

/// A projectile modifier that insertion prunes: a simple modifier whose
/// count reached exactly 0.
pub open spec fn pm_prunable(m: ProjectileModifierM) -> bool {
    m matches ProjectileModifierM::SimpleModify(_, v) && v == 0
}

/// The sibling a `SimpleModify` of kind `k` merges into.
pub open spec fn pm_kind_pred(k: SimpleProjectileModifierType) -> spec_fn(
    ProjectileModifierM,
) -> bool {
    |m: ProjectileModifierM| pm_is_simple_kind(m, k)
}

/// What insertion keeps in a projectile's modifier list.
pub open spec fn pm_keep_pred() -> spec_fn(ProjectileModifierM) -> bool {
    |m: ProjectileModifierM| !pm_prunable(m)
}

pub open spec fn pm_merged(s: Seq<ProjectileModifierM>, item: ProjectileModifierM) -> Seq<
    ProjectileModifierM,
> {
    match item {
        ProjectileModifierM::SimpleModify(k, n) => match first_where(s, pm_kind_pred(k)) {
            Some(j) => s.update(
                j,
                ProjectileModifierM::SimpleModify(k, sat_add_i32_spec(pm_simple_value(s[j]), n)),
            ),
            None => s.push(item),
        },
        _ => s.push(item),
    }
}

pub open spec fn pm_insert_seq(s: Seq<ProjectileModifierM>, item: ProjectileModifierM) -> Seq<
    ProjectileModifierM,
> {
    pm_merged(s, item).filter(pm_keep_pred())
}

/// What cleanup keeps in a projectile's modifier list: everything but empty
/// slots and zero-count simple modifiers.
pub open spec fn pm_cleanup_keep(m: ProjectileModifierM) -> bool {
    !(m is Empty) && !pm_prunable(m)
}

pub open spec fn pm_cleanup_pred() -> spec_fn(ProjectileModifierM) -> bool {
    |m: ProjectileModifierM| pm_cleanup_keep(m)
}

pub open spec fn se_is_simple_kind(e: StatusEffectM, k: SimpleStatusEffectType) -> bool {
    e matches StatusEffectM::SimpleStatusEffect(k2, _) && k2 == k
}

pub open spec fn se_simple_value(e: StatusEffectM) -> i32 {
    match e {
        StatusEffectM::SimpleStatusEffect(_, v) => v,
        _ => 0,
    }
}

/// A status effect that insertion prunes: a counted effect whose count
/// reached exactly 0.
pub open spec fn se_prunable(e: StatusEffectM) -> bool {
    ||| e matches StatusEffectM::SimpleStatusEffect(_, v) && v == 0
    ||| e matches StatusEffectM::UnsignedSimpleStatusEffect(_, v) && v == 0
}

/// The sibling a `SimpleStatusEffect` of kind `k` merges into.
pub open spec fn se_kind_pred(k: SimpleStatusEffectType) -> spec_fn(StatusEffectM) -> bool {
    |e: StatusEffectM| se_is_simple_kind(e, k)
}

/// What insertion keeps in a status effect list.
pub open spec fn se_keep_pred() -> spec_fn(StatusEffectM) -> bool {
    |e: StatusEffectM| !se_prunable(e)
}

pub open spec fn se_merged(s: Seq<StatusEffectM>, item: StatusEffectM) -> Seq<StatusEffectM> {
    match item {
        StatusEffectM::SimpleStatusEffect(k, n) => match first_where(s, se_kind_pred(k)) {
            Some(j) => s.update(
                j,
                StatusEffectM::SimpleStatusEffect(k, sat_add_i32_spec(se_simple_value(s[j]), n)),
            ),
            None => s.push(item),
        },
        _ => s.push(item),
    }
}

pub open spec fn se_insert_seq(s: Seq<StatusEffectM>, item: StatusEffectM) -> Seq<StatusEffectM> {
    se_merged(s, item).filter(se_keep_pred())
}

pub open spec fn se_cleanup_keep(e: StatusEffectM) -> bool {
    !(e is Empty) && !se_prunable(e)
}

pub open spec fn se_cleanup_pred() -> spec_fn(StatusEffectM) -> bool {
    |e: StatusEffectM| se_cleanup_keep(e)
}

pub open spec fn cdm_is_simple_kind(m: CooldownModifier, k: SimpleCooldownModifier) -> bool {
    m matches CooldownModifier::SimpleCooldownModifier(k2, _) && k2 == k
}

pub open spec fn cdm_is_signed_kind(
    m: CooldownModifier,
    k: crate::cards::SignedSimpleCooldownModifier,
) -> bool {
    m matches CooldownModifier::SignedSimpleCooldownModifier(k2, _) && k2 == k
}

pub open spec fn cdm_simple_value(m: CooldownModifier) -> u32 {
    match m {
        CooldownModifier::SimpleCooldownModifier(_, v) => v,
        _ => 0,
    }
}

pub open spec fn cdm_signed_value(m: CooldownModifier) -> i32 {
    match m {
        CooldownModifier::SignedSimpleCooldownModifier(_, v) => v,
        _ => 0,
    }
}

/// A cooldown modifier whose count reached exactly 0.
pub open spec fn cdm_prunable(m: CooldownModifier) -> bool {
    ||| m matches CooldownModifier::SimpleCooldownModifier(_, v) && v == 0
    ||| m matches CooldownModifier::SignedSimpleCooldownModifier(_, v) && v == 0
}

pub open spec fn cdm_simple_pred(k: SimpleCooldownModifier) -> spec_fn(CooldownModifier) -> bool {
    |m: CooldownModifier| cdm_is_simple_kind(m, k)
}

pub open spec fn cdm_signed_pred(
    k: crate::cards::SignedSimpleCooldownModifier,
) -> spec_fn(CooldownModifier) -> bool {
    |m: CooldownModifier| cdm_is_signed_kind(m, k)
}

/// What insertion keeps in a cooldown's modifier list.
pub open spec fn cdm_keep_pred() -> spec_fn(CooldownModifier) -> bool {
    |m: CooldownModifier| !cdm_prunable(m)
}

pub open spec fn cdm_merged(s: Seq<CooldownModifier>, item: CooldownModifier) -> Seq<
    CooldownModifier,
> {
    match item {
        CooldownModifier::SimpleCooldownModifier(k, n) => match first_where(
            s,
            cdm_simple_pred(k),
        ) {
            Some(j) => s.update(
                j,
                CooldownModifier::SimpleCooldownModifier(
                    k,
                    sat_add_u32_spec(cdm_simple_value(s[j]), n),
                ),
            ),
            None => s.push(item),
        },
        CooldownModifier::SignedSimpleCooldownModifier(k, n) => match first_where(
            s,
            cdm_signed_pred(k),
        ) {
            Some(j) => s.update(
                j,
                CooldownModifier::SignedSimpleCooldownModifier(
                    k,
                    sat_add_i32_spec(cdm_signed_value(s[j]), n),
                ),
            ),
            None => s.push(item),
        },
        _ => s.push(item),
    }
}

pub open spec fn cdm_insert_seq(s: Seq<CooldownModifier>, item: CooldownModifier) -> Seq<
    CooldownModifier,
> {
    cdm_merged(s, item).filter(cdm_keep_pred())
}

/// What cleanup drops from a cooldown's modifier list: empty slots and
/// zero-count modifiers.
pub open spec fn cdm_cleanup_prunable(m: CooldownModifier) -> bool {
    m is Empty || cdm_prunable(m)
}

/// A multicast modifier whose count reached exactly 0.
pub open spec fn mcm_prunable(m: MultiCastModifier) -> bool {
    ||| m matches MultiCastModifier::Spread(v) && v == 0
    ||| m matches MultiCastModifier::Duplication(v) && v == 0
}

pub open spec fn mcm_spread_value(m: MultiCastModifier) -> u32 {
    match m {
        MultiCastModifier::Spread(v) => v,
        _ => 0,
    }
}

pub open spec fn mcm_dup_value(m: MultiCastModifier) -> u32 {
    match m {
        MultiCastModifier::Duplication(v) => v,
        _ => 0,
    }
}

pub open spec fn mcm_spread_pred() -> spec_fn(MultiCastModifier) -> bool {
    |m: MultiCastModifier| m is Spread
}

pub open spec fn mcm_dup_pred() -> spec_fn(MultiCastModifier) -> bool {
    |m: MultiCastModifier| m is Duplication
}

/// What insertion keeps in a multicast's modifier list.
pub open spec fn mcm_keep_pred() -> spec_fn(MultiCastModifier) -> bool {
    |m: MultiCastModifier| !mcm_prunable(m)
}

pub open spec fn mcm_merged(s: Seq<MultiCastModifier>, item: MultiCastModifier) -> Seq<
    MultiCastModifier,
> {
    match item {
        MultiCastModifier::Spread(n) => match first_where(s, mcm_spread_pred()) {
            Some(j) => s.update(j, MultiCastModifier::Spread(sat_add_u32_spec(mcm_spread_value(s[j]), n))),
            None => s.push(item),
        },
        MultiCastModifier::Duplication(n) => match first_where(s, mcm_dup_pred()) {
            Some(j) => s.update(
                j,
                MultiCastModifier::Duplication(sat_add_u32_spec(mcm_dup_value(s[j]), n)),
            ),
            None => s.push(item),
        },
        MultiCastModifier::Empty => s.push(item),
    }
}

pub open spec fn mcm_insert_seq(s: Seq<MultiCastModifier>, item: MultiCastModifier) -> Seq<
    MultiCastModifier,
> {
    mcm_merged(s, item).filter(mcm_keep_pred())
}

/// What cleanup keeps in a multicast's card list.
pub open spec fn bc_keep_pred() -> spec_fn(BaseCardM) -> bool {
    |c: BaseCardM| !(c is Empty)
}

pub open spec fn mcm_cleanup_prunable(m: MultiCastModifier) -> bool {
    m is Empty || mcm_prunable(m)
}

// ---------------------------------------------------------------------------
// Leaf nodes: directions and the cooldown / multicast modifiers.

impl DirectionCard {
    /// A direction carries no count: an empty path is a no-op, anything
    /// deeper is a violation.
    pub open spec fn modify(self, p: Seq<usize>, t: ModificationType) -> Option<DirectionCard> {
        if p.len() == 0 {
            Some(self)
        } else {
            None
        }
    }

    pub open spec fn take(self, p: Seq<usize>) -> Option<(DirectionCard, DragableCardM)> {
        if p.len() == 0 {
            Some((DirectionCard::Empty, DragableCardM::Direction(self)))
        } else {
            None
        }
    }

    /// A direction slot accepts a direction only while it is empty.
    pub open spec fn insert(self, p: Seq<usize>, item: DragableCardM) -> Option<DirectionCard> {
        if p.len() == 0 && self is Empty {
            match item {
                DragableCardM::Direction(d) => Some(d),
                _ => None,
            }
        } else {
            None
        }
    }

    pub open spec fn cleanup_spec(self, p: Seq<usize>) -> Option<DirectionCard> {
        if p.len() == 0 {
            Some(self)
        } else {
            None
        }
    }
}

impl CooldownModifier {
    pub open spec fn modify(self, p: Seq<usize>, t: ModificationType) -> Option<CooldownModifier> {
        if p.len() != 0 {
            None
        } else {
            Some(
                match self {
                    CooldownModifier::SimpleCooldownModifier(k, v) => match t {
                        ModificationType::Increase => CooldownModifier::SimpleCooldownModifier(
                            k,
                            inc_u32_spec(v),
                        ),
                        ModificationType::Decrease => CooldownModifier::SimpleCooldownModifier(
                            k,
                            dec_floor_u32_spec(v, 1),
                        ),
                        ModificationType::Other => self,
                    },
                    CooldownModifier::SignedSimpleCooldownModifier(k, v) => match t {
                        ModificationType::Increase => CooldownModifier::SignedSimpleCooldownModifier(
                            k,
                            inc_i32_spec(v),
                        ),
                        ModificationType::Decrease => CooldownModifier::SignedSimpleCooldownModifier(
                            k,
                            dec_i32_spec(v),
                        ),
                        ModificationType::Other => self,
                    },
                    _ => self,
                },
            )
        }
    }

    pub open spec fn take(self, p: Seq<usize>) -> Option<(CooldownModifier, DragableCardM)> {
        if p.len() == 0 {
            Some((CooldownModifier::Empty, DragableCardM::CooldownModifier(self)))
        } else {
            None
        }
    }
}

impl MultiCastModifier {
    pub open spec fn modify(self, p: Seq<usize>, t: ModificationType) -> Option<MultiCastModifier> {
        if p.len() != 0 {
            None
        } else {
            Some(
                match self {
                    MultiCastModifier::Spread(v) => match t {
                        ModificationType::Increase => MultiCastModifier::Spread(inc_u32_spec(v)),
                        ModificationType::Decrease => MultiCastModifier::Spread(
                            dec_floor_u32_spec(v, 1),
                        ),
                        ModificationType::Other => self,
                    },
                    MultiCastModifier::Duplication(v) => match t {
                        ModificationType::Increase => MultiCastModifier::Duplication(
                            inc_u32_spec(v),
                        ),
                        ModificationType::Decrease => MultiCastModifier::Duplication(
                            dec_floor_u32_spec(v, 1),
                        ),
                        ModificationType::Other => self,
                    },
                    MultiCastModifier::Empty => self,
                },
            )
        }
    }

    pub open spec fn take(self, p: Seq<usize>) -> Option<(MultiCastModifier, DragableCardM)> {
        if p.len() == 0 {
            Some((MultiCastModifier::Empty, DragableCardM::MultiCastModifier(self)))
        } else {
            None
        }
    }
}

// ---------------------------------------------------------------------------
// Projectile modifiers.

impl ProjectileModifierM {
    pub open spec fn modify(self, p: Seq<usize>, t: ModificationType) -> Option<
        ProjectileModifierM,
    >
        decreases p.len(), self,
    {
        if p.len() == 0 {
            match self {
                ProjectileModifierM::SimpleModify(k, v) => Some(
                    ProjectileModifierM::SimpleModify(
                        k,
                        match t {
                            ModificationType::Increase => inc_i32_spec(v),
                            ModificationType::Decrease => dec_i32_spec(v),
                            ModificationType::Other => v,
                        },
                    ),
                ),
                ProjectileModifierM::Trail(f, c) => Some(
                    ProjectileModifierM::Trail(
                        match t {
                            ModificationType::Increase => inc_u32_spec(f),
                            ModificationType::Decrease => dec_floor_u32_spec(f, 1),
                            ModificationType::Other => f,
                        },
                        c,
                    ),
                ),
                ProjectileModifierM::OnTrigger(id, c) => Some(
                    ProjectileModifierM::OnTrigger(
                        match t {
                            ModificationType::Increase => inc_u32_spec(id),
                            ModificationType::Decrease => dec_floor_u32_spec(id, 0),
                            ModificationType::Other => id,
                        },
                        c,
                    ),
                ),
                _ => Some(self),
            }
        } else if p.last() != 0 {
            None
        } else {
            let q = p.drop_last();
            match self {
                ProjectileModifierM::OnHit(c) => match c.modify(q, t) {
                    Some(c2) => Some(ProjectileModifierM::OnHit(c2)),
                    None => None,
                },
                ProjectileModifierM::OnHeadshot(c) => match c.modify(q, t) {
                    Some(c2) => Some(ProjectileModifierM::OnHeadshot(c2)),
                    None => None,
                },
                ProjectileModifierM::OnExpiry(c) => match c.modify(q, t) {
                    Some(c2) => Some(ProjectileModifierM::OnExpiry(c2)),
                    None => None,
                },
                ProjectileModifierM::OnTrigger(id, c) => match c.modify(q, t) {
                    Some(c2) => Some(ProjectileModifierM::OnTrigger(id, c2)),
                    None => None,
                },
                ProjectileModifierM::Trail(f, c) => match c.modify(q, t) {
                    Some(c2) => Some(ProjectileModifierM::Trail(f, c2)),
                    None => None,
                },
                _ => None,
            }
        }
    }

    pub open spec fn take(self, p: Seq<usize>) -> Option<(ProjectileModifierM, DragableCardM)>
        decreases p.len(), self,
    {
        if p.len() == 0 {
            Some((ProjectileModifierM::Empty, DragableCardM::ProjectileModifier(self)))
        } else if p.last() != 0 {
            None
        } else {
            let q = p.drop_last();
            if q.len() == 0 {
                match self {
                    ProjectileModifierM::LockToOwner(d) => match d.take(q) {
                        Some((d2, item)) => Some((ProjectileModifierM::LockToOwner(d2), item)),
                        None => None,
                    },
                    ProjectileModifierM::OnHit(c) => Some(
                        (ProjectileModifierM::OnHit(BaseCardM::Empty), DragableCardM::BaseCard(c)),
                    ),
                    ProjectileModifierM::OnHeadshot(c) => Some(
                        (
                            ProjectileModifierM::OnHeadshot(BaseCardM::Empty),
                            DragableCardM::BaseCard(c),
                        ),
                    ),
                    ProjectileModifierM::OnExpiry(c) => Some(
                        (
                            ProjectileModifierM::OnExpiry(BaseCardM::Empty),
                            DragableCardM::BaseCard(c),
                        ),
                    ),
                    ProjectileModifierM::OnTrigger(id, c) => Some(
                        (
                            ProjectileModifierM::OnTrigger(id, BaseCardM::Empty),
                            DragableCardM::BaseCard(c),
                        ),
                    ),
                    ProjectileModifierM::Trail(f, c) => Some(
                        (
                            ProjectileModifierM::Trail(f, BaseCardM::Empty),
                            DragableCardM::BaseCard(c),
                        ),
                    ),
                    _ => None,
                }
            } else {
                match self {
                    ProjectileModifierM::OnHit(c) => match c.take(q) {
                        Some((c2, item)) => Some((ProjectileModifierM::OnHit(c2), item)),
                        None => None,
                    },
                    ProjectileModifierM::OnHeadshot(c) => match c.take(q) {
                        Some((c2, item)) => Some((ProjectileModifierM::OnHeadshot(c2), item)),
                        None => None,
                    },
                    ProjectileModifierM::OnExpiry(c) => match c.take(q) {
                        Some((c2, item)) => Some((ProjectileModifierM::OnExpiry(c2), item)),
                        None => None,
                    },
                    ProjectileModifierM::OnTrigger(id, c) => match c.take(q) {
                        Some((c2, item)) => Some((ProjectileModifierM::OnTrigger(id, c2), item)),
                        None => None,
                    },
                    ProjectileModifierM::Trail(f, c) => match c.take(q) {
                        Some((c2, item)) => Some((ProjectileModifierM::Trail(f, c2), item)),
                        None => None,
                    },
                    _ => None,
                }
            }
        }
    }

    pub open spec fn insert(self, p: Seq<usize>, item: DragableCardM) -> Option<
        ProjectileModifierM,
    >
        decreases p.len(), self,
    {
        if p.len() == 0 || p.last() != 0 {
            None
        } else {
            let q = p.drop_last();
            match self {
                ProjectileModifierM::OnHit(c) => match c.insert(q, item) {
                    Some(c2) => Some(ProjectileModifierM::OnHit(c2)),
                    None => None,
                },
                ProjectileModifierM::OnHeadshot(c) => match c.insert(q, item) {
                    Some(c2) => Some(ProjectileModifierM::OnHeadshot(c2)),
                    None => None,
                },
                ProjectileModifierM::OnExpiry(c) => match c.insert(q, item) {
                    Some(c2) => Some(ProjectileModifierM::OnExpiry(c2)),
                    None => None,
                },
                ProjectileModifierM::OnTrigger(id, c) => match c.insert(q, item) {
                    Some(c2) => Some(ProjectileModifierM::OnTrigger(id, c2)),
                    None => None,
                },
                ProjectileModifierM::Trail(f, c) => match c.insert(q, item) {
                    Some(c2) => Some(ProjectileModifierM::Trail(f, c2)),
                    None => None,
                },
                ProjectileModifierM::LockToOwner(d) => match d.insert(q, item) {
                    Some(d2) => Some(ProjectileModifierM::LockToOwner(d2)),
                    None => None,
                },
                _ => None,
            }
        }
    }

    pub open spec fn cleanup(self, p: Seq<usize>) -> Option<ProjectileModifierM>
        decreases p.len(), self,
    {
        if p.len() == 0 || p.last() != 0 {
            None
        } else {
            let q = p.drop_last();
            match self {
                ProjectileModifierM::OnHit(c) => match c.cleanup(q) {
                    Some(c2) => Some(ProjectileModifierM::OnHit(c2)),
                    None => None,
                },
                ProjectileModifierM::OnHeadshot(c) => match c.cleanup(q) {
                    Some(c2) => Some(ProjectileModifierM::OnHeadshot(c2)),
                    None => None,
                },
                ProjectileModifierM::OnExpiry(c) => match c.cleanup(q) {
                    Some(c2) => Some(ProjectileModifierM::OnExpiry(c2)),
                    None => None,
                },
                ProjectileModifierM::OnTrigger(id, c) => match c.cleanup(q) {
                    Some(c2) => Some(ProjectileModifierM::OnTrigger(id, c2)),
                    None => None,
                },
                ProjectileModifierM::Trail(f, c) => match c.cleanup(q) {
                    Some(c2) => Some(ProjectileModifierM::Trail(f, c2)),
                    None => None,
                },
                ProjectileModifierM::LockToOwner(d) => match d.cleanup_spec(q) {
                    Some(d2) => Some(ProjectileModifierM::LockToOwner(d2)),
                    None => None,
                },
                _ => None,
            }
        }
    }
}

// ---------------------------------------------------------------------------
// Status effects.

impl StatusEffectM {
    pub open spec fn modify(self, p: Seq<usize>, t: ModificationType) -> Option<StatusEffectM>
        decreases p.len(), self,
    {
        match self {
            StatusEffectM::OnHit(c) => if p.len() > 0 && p.last() == 0 {
                match c.modify(p.drop_last(), t) {
                    Some(c2) => Some(StatusEffectM::OnHit(c2)),
                    None => None,
                }
            } else {
                None
            },
            StatusEffectM::SimpleStatusEffect(k, v) => if p.len() == 0 {
                Some(
                    StatusEffectM::SimpleStatusEffect(
                        k,
                        match t {
                            ModificationType::Increase => inc_i32_spec(v),
                            ModificationType::Decrease => dec_i32_spec(v),
                            ModificationType::Other => v,
                        },
                    ),
                )
            } else {
                None
            },
            StatusEffectM::UnsignedSimpleStatusEffect(k, v) => if p.len() == 0 {
                Some(
                    StatusEffectM::UnsignedSimpleStatusEffect(
                        k,
                        match t {
                            ModificationType::Increase => inc_u32_spec(v),
                            ModificationType::Decrease => dec_floor_u32_spec(v, 0),
                            ModificationType::Other => v,
                        },
                    ),
                )
            } else {
                None
            },
            _ => if p.len() == 0 {
                Some(self)
            } else {
                None
            },
        }
    }

    pub open spec fn take(self, p: Seq<usize>) -> Option<(StatusEffectM, DragableCardM)>
        decreases p.len(), self,
    {
        if p.len() == 0 || p.last() != 0 {
            None
        } else {
            let q = p.drop_last();
            match self {
                StatusEffectM::OnHit(c) => match c.take(q) {
                    Some((c2, item)) => Some((StatusEffectM::OnHit(c2), item)),
                    None => None,
                },
                StatusEffectM::SimpleStatusEffect(
                    SimpleStatusEffectType::IncreaseGravity(d),
                    v,
                ) => match d.take(q) {
                    Some((d2, item)) => Some(
                        (
                            StatusEffectM::SimpleStatusEffect(
                                SimpleStatusEffectType::IncreaseGravity(d2),
                                v,
                            ),
                            item,
                        ),
                    ),
                    None => None,
                },
                _ => None,
            }
        }
    }

    /// The containing sequence consumes both the element index and the `0`
    /// sentinel before an insert reaches a status effect, so the remaining
    /// path is handed on as it is.
    pub open spec fn insert(self, p: Seq<usize>, item: DragableCardM) -> Option<StatusEffectM>
        decreases p.len(), self,
    {
        match self {
            StatusEffectM::OnHit(c) => match c.insert(p, item) {
                Some(c2) => Some(StatusEffectM::OnHit(c2)),
                None => None,
            },
            StatusEffectM::SimpleStatusEffect(
                SimpleStatusEffectType::IncreaseGravity(d),
                v,
            ) => match d.insert(p, item) {
                Some(d2) => Some(
                    StatusEffectM::SimpleStatusEffect(
                        SimpleStatusEffectType::IncreaseGravity(d2),
                        v,
                    ),
                ),
                None => None,
            },
            _ => None,
        }
    }

    pub open spec fn cleanup(self, p: Seq<usize>) -> Option<StatusEffectM>
        decreases p.len(), self,
    {
        if p.len() == 0 || p.last() != 0 {
            None
        } else {
            let q = p.drop_last();
            match self {
                StatusEffectM::OnHit(c) => match c.cleanup(q) {
                    Some(c2) => Some(StatusEffectM::OnHit(c2)),
                    None => None,
                },
                StatusEffectM::SimpleStatusEffect(
                    SimpleStatusEffectType::IncreaseGravity(d),
                    v,
                ) => match d.cleanup_spec(q) {
                    Some(d2) => Some(
                        StatusEffectM::SimpleStatusEffect(
                            SimpleStatusEffectType::IncreaseGravity(d2),
                            v,
                        ),
                    ),
                    None => None,
                },
                _ => Some(self),
            }
        }
    }
}

// ---------------------------------------------------------------------------
// Base cards.

impl BaseCardM {
    pub open spec fn modify(self, p: Seq<usize>, t: ModificationType) -> Option<BaseCardM>
        decreases p.len(), self,
    {
        match self {
            BaseCardM::Projectile(mods) => if p.len() == 0 {
                None
            } else {
                let i = p.last() as int;
                let q = p.drop_last();
                if i < mods.len() {
                    match mods[i].modify(q, t) {
                        Some(m2) => Some(BaseCardM::Projectile(mods.update(i, m2))),
                        None => None,
                    }
                } else {
                    None
                }
            },
            BaseCardM::MultiCast(cards, mods) => if p.len() == 0 {
                None
            } else {
                let ti = p.last();
                let q = p.drop_last();
                if ti == 0 {
                    if q.len() == 0 {
                        None
                    } else {
                        let i = q.last() as int;
                        let r = q.drop_last();
                        if i < mods.len() {
                            match mods[i].modify(r, t) {
                                Some(m2) => Some(BaseCardM::MultiCast(cards, mods.update(i, m2))),
                                None => None,
                            }
                        } else {
                            None
                        }
                    }
                } else if ti == 1 {
                    if q.len() == 0 {
                        None
                    } else {
                        let i = q.last() as int;
                        let r = q.drop_last();
                        if i < cards.len() {
                            match cards[i].modify(r, t) {
                                Some(c2) => Some(BaseCardM::MultiCast(cards.update(i, c2), mods)),
                                None => None,
                            }
                        } else {
                            None
                        }
                    }
                } else {
                    None
                }
            },
            BaseCardM::StatusEffects(dur, effs) => if p.len() == 0 {
                Some(
                    BaseCardM::StatusEffects(
                        match t {
                            ModificationType::Increase => inc_u32_spec(dur),
                            ModificationType::Decrease => dec_floor_u32_spec(dur, 1),
                            ModificationType::Other => dur,
                        },
                        effs,
                    ),
                )
            } else {
                let i = p.last() as int;
                let q = p.drop_last();
                if i < effs.len() {
                    match effs[i].modify(q, t) {
                        Some(e2) => Some(BaseCardM::StatusEffects(dur, effs.update(i, e2))),
                        None => None,
                    }
                } else {
                    None
                }
            },
            BaseCardM::Effect(e) => if p.len() == 0 {
                Some(
                    BaseCardM::Effect(
                        match e {
                            Effect::Damage(v) => Effect::Damage(
                                match t {
                                    ModificationType::Increase => inc_i32_spec(v),
                                    ModificationType::Decrease => dec_i32_spec(v),
                                    ModificationType::Other => v,
                                },
                            ),
                            Effect::Knockback(v, d) => Effect::Knockback(
                                match t {
                                    ModificationType::Increase => inc_i32_spec(v),
                                    ModificationType::Decrease => dec_i32_spec(v),
                                    ModificationType::Other => v,
                                },
                                d,
                            ),
                            _ => e,
                        },
                    ),
                )
            } else {
                None
            },
            BaseCardM::Trigger(id) => if p.len() == 0 {
                Some(
                    BaseCardM::Trigger(
                        match t {
                            ModificationType::Increase => inc_u32_spec(id),
                            ModificationType::Decrease => dec_floor_u32_spec(id, 0),
                            ModificationType::Other => id,
                        },
                    ),
                )
            } else {
                None
            },
            BaseCardM::Palette(_) => if p.len() == 0 {
                Some(self)
            } else {
                None
            },
            _ => None,
        }
    }

    pub open spec fn take(self, p: Seq<usize>) -> Option<(BaseCardM, DragableCardM)>
        decreases p.len(), self,
    {
        if p.len() == 0 {
            Some((BaseCardM::Empty, DragableCardM::BaseCard(self)))
        } else {
            match self {
                BaseCardM::Projectile(mods) => {
                    let i = p.last() as int;
                    let q = p.drop_last();
                    if i < mods.len() {
                        match mods[i].take(q) {
                            Some((m2, item)) => Some(
                                (BaseCardM::Projectile(mods.update(i, m2)), item),
                            ),
                            None => None,
                        }
                    } else {
                        None
                    }
                },
                BaseCardM::MultiCast(cards, mods) => {
                    let ti = p.last();
                    let q = p.drop_last();
                    if ti == 0 {
                        if q.len() == 0 {
                            None
                        } else {
                            let i = q.last() as int;
                            let r = q.drop_last();
                            if i < mods.len() {
                                match mods[i].take(r) {
                                    Some((m2, item)) => Some(
                                        (BaseCardM::MultiCast(cards, mods.update(i, m2)), item),
                                    ),
                                    None => None,
                                }
                            } else {
                                None
                            }
                        }
                    } else if ti == 1 {
                        if q.len() == 0 {
                            None
                        } else {
                            let i = q.last() as int;
                            let r = q.drop_last();
                            if i < cards.len() {
                                if r.len() == 0 {
                                    Some(
                                        (
                                            BaseCardM::MultiCast(
                                                cards.update(i, BaseCardM::Empty),
                                                mods,
                                            ),
                                            DragableCardM::BaseCard(cards[i]),
                                        ),
                                    )
                                } else {
                                    match cards[i].take(r) {
                                        Some((c2, item)) => Some(
                                            (BaseCardM::MultiCast(cards.update(i, c2), mods), item),
                                        ),
                                        None => None,
                                    }
                                }
                            } else {
                                None
                            }
                        }
                    } else {
                        None
                    }
                },
                BaseCardM::StatusEffects(dur, effs) => {
                    let i = p.last() as int;
                    let q = p.drop_last();
                    if i < effs.len() {
                        if q.len() == 0 {
                            Some(
                                (
                                    BaseCardM::StatusEffects(
                                        dur,
                                        effs.update(i, StatusEffectM::Empty),
                                    ),
                                    DragableCardM::StatusEffect(effs[i]),
                                ),
                            )
                        } else {
                            match effs[i].take(q) {
                                Some((e2, item)) => Some(
                                    (BaseCardM::StatusEffects(dur, effs.update(i, e2)), item),
                                ),
                                None => None,
                            }
                        }
                    } else {
                        None
                    }
                },
                BaseCardM::Palette(items) => {
                    let i = p.last() as int;
                    let q = p.drop_last();
                    if q.len() == 0 && i < items.len() {
                        Some((BaseCardM::Palette(items), items[i]))
                    } else {
                        None
                    }
                },
                BaseCardM::Effect(Effect::Knockback(v, d)) => {
                    if p.last() == 0 && p.drop_last().len() == 0 {
                        Some(
                            (
                                BaseCardM::Effect(Effect::Knockback(v, DirectionCard::Empty)),
                                DragableCardM::Direction(d),
                            ),
                        )
                    } else {
                        None
                    }
                },
                _ => None,
            }
        }
    }

    pub open spec fn insert(self, p: Seq<usize>, item: DragableCardM) -> Option<BaseCardM>
        decreases p.len(), self,
    {
        match self {
            BaseCardM::Projectile(mods) => if p.len() == 0 {
                match item {
                    DragableCardM::ProjectileModifier(m) => Some(
                        BaseCardM::Projectile(pm_insert_seq(mods, m)),
                    ),
                    _ => None,
                }
            } else {
                let i = p.last() as int;
                let q = p.drop_last();
                if i < mods.len() {
                    match mods[i].insert(q, item) {
                        Some(m2) => Some(BaseCardM::Projectile(mods.update(i, m2))),
                        None => None,
                    }
                } else {
                    None
                }
            },
            BaseCardM::MultiCast(cards, mods) => if p.len() == 0 {
                match item {
                    DragableCardM::BaseCard(c) => Some(BaseCardM::MultiCast(cards.push(c), mods)),
                    DragableCardM::MultiCastModifier(m) => Some(
                        BaseCardM::MultiCast(cards, mcm_insert_seq(mods, m)),
                    ),
                    _ => None,
                }
            } else if p.last() == 1 {
                let q = p.drop_last();
                if q.len() == 0 {
                    None
                } else {
                    let i = q.last() as int;
                    let r = q.drop_last();
                    if i < cards.len() {
                        match cards[i].insert(r, item) {
                            Some(c2) => Some(BaseCardM::MultiCast(cards.update(i, c2), mods)),
                            None => None,
                        }
                    } else {
                        None
                    }
                }
            } else {
                None
            },
            BaseCardM::StatusEffects(dur, effs) => if p.len() == 0 {
                match item {
                    DragableCardM::StatusEffect(e) => Some(
                        BaseCardM::StatusEffects(dur, se_insert_seq(effs, e)),
                    ),
                    _ => None,
                }
            } else {
                let i = p.last() as int;
                let q = p.drop_last();
                if q.len() > 0 && q.last() == 0 && i < effs.len() {
                    match effs[i].insert(q.drop_last(), item) {
                        Some(e2) => Some(BaseCardM::StatusEffects(dur, effs.update(i, e2))),
                        None => None,
                    }
                } else {
                    None
                }
            },
            BaseCardM::Effect(Effect::Knockback(v, d)) => if p.len() > 0 && p.last() == 0 {
                match d.insert(p.drop_last(), item) {
                    Some(d2) => Some(BaseCardM::Effect(Effect::Knockback(v, d2))),
                    None => None,
                }
            } else {
                None
            },
            BaseCardM::Empty => if p.len() == 0 {
                match item {
                    DragableCardM::BaseCard(c) => Some(c),
                    _ => None,
                }
            } else {
                None
            },
            _ => None,
        }
    }

    pub open spec fn cleanup(self, p: Seq<usize>) -> Option<BaseCardM>
        decreases p.len(), self,
    {
        match self {
            BaseCardM::Projectile(mods) => if p.len() <= 1 {
                Some(BaseCardM::Projectile(mods.filter(pm_cleanup_pred())))
            } else {
                let i = p.last() as int;
                let q = p.drop_last();
                if i < mods.len() {
                    match mods[i].cleanup(q) {
                        Some(m2) => Some(BaseCardM::Projectile(mods.update(i, m2))),
                        None => None,
                    }
                } else {
                    None
                }
            },
            BaseCardM::MultiCast(cards, mods) => if p.len() == 0 {
                Some(BaseCardM::MultiCast(cards.filter(bc_keep_pred()), mods))
            } else {
                let ti = p.last();
                let q = p.drop_last();
                if ti == 0 {
                    if q.len() == 1 {
                        let i = q.last() as int;
                        if i < mods.len() {
                            Some(
                                BaseCardM::MultiCast(
                                    cards,
                                    if mcm_cleanup_prunable(mods[i]) {
                                        mods.remove(i)
                                    } else {
                                        mods
                                    },
                                ),
                            )
                        } else {
                            None
                        }
                    } else {
                        None
                    }
                } else if ti == 1 {
                    if q.len() == 0 {
                        None
                    } else {
                        let i = q.last() as int;
                        let r = q.drop_last();
                        if i < cards.len() {
                            if r.len() == 0 {
                                Some(
                                    BaseCardM::MultiCast(
                                        if cards[i] is Empty {
                                            cards.remove(i)
                                        } else {
                                            cards
                                        },
                                        mods,
                                    ),
                                )
                            } else {
                                match cards[i].cleanup(r) {
                                    Some(c2) => Some(
                                        BaseCardM::MultiCast(cards.update(i, c2), mods),
                                    ),
                                    None => None,
                                }
                            }
                        } else {
                            None
                        }
                    }
                } else {
                    None
                }
            },
            BaseCardM::StatusEffects(dur, effs) => if p.len() <= 1 {
                Some(
                    BaseCardM::StatusEffects(
                        dur,
                        effs.filter(se_cleanup_pred()),
                    ),
                )
            } else {
                let i = p.last() as int;
                let q = p.drop_last();
                if q.len() > 0 && q.last() == 0 && i < effs.len() {
                    let r = q.drop_last();
                    match effs[i] {
                        StatusEffectM::OnHit(c) => match c.cleanup(r) {
                            Some(c2) => Some(
                                BaseCardM::StatusEffects(
                                    dur,
                                    effs.update(i, StatusEffectM::OnHit(c2)),
                                ),
                            ),
                            None => None,
                        },
                        StatusEffectM::SimpleStatusEffect(
                            SimpleStatusEffectType::IncreaseGravity(_),
                            _,
                        ) => if r.len() == 0 {
                            Some(self)
                        } else {
                            None
                        },
                        _ => None,
                    }
                } else {
                    None
                }
            },
            BaseCardM::Empty => if p.len() == 0 {
                Some(self)
            } else {
                None
            },
            BaseCardM::Effect(Effect::Knockback(_, _)) => if p.len() == 1 && p.last() == 0 {
                Some(self)
            } else {
                None
            },
            _ => None,
        }
    }
}

// ---------------------------------------------------------------------------
// The passive card, cooldowns and the deck.

impl PassiveCardM {
    pub open spec fn modify(self, p: Seq<usize>, t: ModificationType) -> Option<PassiveCardM>
        decreases p.len(),
    {
        if p.len() == 0 {
            Some(self)
        } else {
            let i = p.last() as int;
            let q = p.drop_last();
            if i < self.passive_effects.len() {
                match self.passive_effects[i].modify(q, t) {
                    Some(e2) => Some(
                        PassiveCardM { passive_effects: self.passive_effects.update(i, e2) },
                    ),
                    None => None,
                }
            } else {
                None
            }
        }
    }

    pub open spec fn take(self, p: Seq<usize>) -> Option<(PassiveCardM, DragableCardM)>
        decreases p.len(),
    {
        if p.len() == 0 {
            None
        } else {
            let i = p.last() as int;
            let q = p.drop_last();
            if i < self.passive_effects.len() {
                if q.len() == 0 {
                    Some(
                        (
                            PassiveCardM {
                                passive_effects: self.passive_effects.update(
                                    i,
                                    StatusEffectM::Empty,
                                ),
                            },
                            DragableCardM::StatusEffect(self.passive_effects[i]),
                        ),
                    )
                } else {
                    match self.passive_effects[i].take(q) {
                        Some((e2, item)) => Some(
                            (
                                PassiveCardM {
                                    passive_effects: self.passive_effects.update(i, e2),
                                },
                                item,
                            ),
                        ),
                        None => None,
                    }
                }
            } else {
                None
            }
        }
    }

    pub open spec fn insert(self, p: Seq<usize>, item: DragableCardM) -> Option<PassiveCardM>
        decreases p.len(),
    {
        if p.len() == 0 {
            match item {
                DragableCardM::StatusEffect(e) => Some(
                    PassiveCardM { passive_effects: se_insert_seq(self.passive_effects, e) },
                ),
                _ => None,
            }
        } else {
            let i = p.last() as int;
            let q = p.drop_last();
            if q.len() > 0 && q.last() == 0 && i < self.passive_effects.len() {
                match self.passive_effects[i].insert(q.drop_last(), item) {
                    Some(e2) => Some(
                        PassiveCardM { passive_effects: self.passive_effects.update(i, e2) },
                    ),
                    None => None,
                }
            } else {
                None
            }
        }
    }

    pub open spec fn cleanup(self, p: Seq<usize>) -> Option<PassiveCardM>
        decreases p.len(),
    {
        if p.len() <= 1 {
            Some(
                PassiveCardM {
                    passive_effects: self.passive_effects.filter(se_cleanup_pred()),
                },
            )
        } else {
            let i = p.last() as int;
            let q = p.drop_last();
            if q.len() > 0 && q.last() == 0 && i < self.passive_effects.len() {
                let r = q.drop_last();
                match self.passive_effects[i] {
                    StatusEffectM::OnHit(c) => match c.cleanup(r) {
                        Some(c2) => Some(
                            PassiveCardM {
                                passive_effects: self.passive_effects.update(
                                    i,
                                    StatusEffectM::OnHit(c2),
                                ),
                            },
                        ),
                        None => None,
                    },
                    StatusEffectM::SimpleStatusEffect(
                        SimpleStatusEffectType::IncreaseGravity(_),
                        _,
                    ) => if r.len() == 0 {
                        Some(self)
                    } else {
                        None
                    },
                    _ => None,
                }
            } else {
                None
            }
        }
    }
}

impl CooldownM {
    /// Every operation that reaches into a cooldown clears its cached value,
    /// and the cached recovery of any ability it descends into.
    pub open spec fn modify(self, p: Seq<usize>, t: ModificationType) -> Option<CooldownM>
        decreases p.len(),
    {
        if p.len() == 0 {
            None
        } else {
            let ti = p.last();
            let q = p.drop_last();
            if ti == 0 {
                if q.len() == 0 {
                    None
                } else {
                    let i = q.last() as int;
                    let r = q.drop_last();
                    if i < self.modifiers.len() {
                        match self.modifiers[i].modify(r, t) {
                            Some(m2) => Some(
                                CooldownM {
                                    abilities: self.abilities,
                                    modifiers: self.modifiers.update(i, m2),
                                    cooldown_value: None,
                                },
                            ),
                            None => None,
                        }
                    } else {
                        None
                    }
                }
            } else if ti == 1 {
                if q.len() == 0 {
                    None
                } else {
                    let i = q.last() as int;
                    let r = q.drop_last();
                    if i < self.abilities.len() {
                        let ab = self.abilities[i];
                        match ab.card.modify(r, t) {
                            Some(c2) => Some(
                                CooldownM {
                                    abilities: self.abilities.update(
                                        i,
                                        AbilityM {
                                            card: c2,
                                            keybind: ab.keybind,
                                            is_keybind_selected: ab.is_keybind_selected,
                                            cached_recovery: None,
                                        },
                                    ),
                                    modifiers: self.modifiers,
                                    cooldown_value: None,
                                },
                            ),
                            None => None,
                        }
                    } else {
                        None
                    }
                }
            } else {
                None
            }
        }
    }

    pub open spec fn take(self, p: Seq<usize>) -> Option<(CooldownM, DragableCardM)>
        decreases p.len(),
    {
        if p.len() == 0 {
            None
        } else {
            let ti = p.last();
            let q = p.drop_last();
            if ti == 0 {
                if q.len() == 0 {
                    None
                } else {
                    let i = q.last() as int;
                    let r = q.drop_last();
                    if i < self.modifiers.len() {
                        match self.modifiers[i].take(r) {
                            Some((m2, item)) => Some(
                                (
                                    CooldownM {
                                        abilities: self.abilities,
                                        modifiers: self.modifiers.update(i, m2),
                                        cooldown_value: None,
                                    },
                                    item,
                                ),
                            ),
                            None => None,
                        }
                    } else {
                        None
                    }
                }
            } else if ti == 1 {
                if q.len() == 0 {
                    None
                } else {
                    let i = q.last() as int;
                    let r = q.drop_last();
                    if i < self.abilities.len() {
                        let ab = self.abilities[i];
                        if r.len() == 0 {
                            Some(
                                (
                                    CooldownM {
                                        abilities: self.abilities.update(
                                            i,
                                            AbilityM {
                                                card: BaseCardM::Empty,
                                                keybind: ab.keybind,
                                                is_keybind_selected: ab.is_keybind_selected,
                                                cached_recovery: None,
                                            },
                                        ),
                                        modifiers: self.modifiers,
                                        cooldown_value: None,
                                    },
                                    DragableCardM::BaseCard(ab.card),
                                ),
                            )
                        } else {
                            match ab.card.take(r) {
                                Some((c2, item)) => Some(
                                    (
                                        CooldownM {
                                            abilities: self.abilities.update(
                                                i,
                                                AbilityM {
                                                    card: c2,
                                                    keybind: ab.keybind,
                                                    is_keybind_selected: ab.is_keybind_selected,
                                                    cached_recovery: None,
                                                },
                                            ),
                                            modifiers: self.modifiers,
                                            cooldown_value: None,
                                        },
                                        item,
                                    ),
                                ),
                                None => None,
                            }
                        }
                    } else {
                        None
                    }
                }
            } else {
                None
            }
        }
    }

    /// An empty path inserts into the cooldown itself: a base card becomes a
    /// fresh ability, a cooldown modifier merges into the modifier list.
    pub open spec fn insert(self, p: Seq<usize>, item: DragableCardM) -> Option<CooldownM>
        decreases p.len(),
    {
        if p.len() == 0 {
            match item {
                DragableCardM::BaseCard(c) => Some(
                    CooldownM {
                        abilities: self.abilities.push(
                            AbilityM {
                                card: c,
                                keybind: Keybind::Unbound,
                                is_keybind_selected: false,
                                cached_recovery: None,
                            },
                        ),
                        modifiers: self.modifiers,
                        cooldown_value: None,
                    },
                ),
                DragableCardM::CooldownModifier(m) => Some(
                    CooldownM {
                        abilities: self.abilities,
                        modifiers: cdm_insert_seq(self.modifiers, m),
                        cooldown_value: None,
                    },
                ),
                _ => None,
            }
        } else if p.last() == 1 {
            let q = p.drop_last();
            if q.len() == 0 {
                None
            } else {
                let i = q.last() as int;
                let r = q.drop_last();
                if i < self.abilities.len() {
                    let ab = self.abilities[i];
                    match ab.card.insert(r, item) {
                        Some(c2) => Some(
                            CooldownM {
                                abilities: self.abilities.update(
                                    i,
                                    AbilityM {
                                        card: c2,
                                        keybind: ab.keybind,
                                        is_keybind_selected: ab.is_keybind_selected,
                                        cached_recovery: None,
                                    },
                                ),
                                modifiers: self.modifiers,
                                cooldown_value: None,
                            },
                        ),
                        None => None,
                    }
                } else {
                    None
                }
            }
        } else {
            None
        }
    }

    /// Cleanup prunes one addressed modifier slot, or one emptied ability —
    /// never the last one — or recurses into an ability's card.
    pub open spec fn cleanup(self, p: Seq<usize>) -> Option<CooldownM>
        decreases p.len(),
    {
        if p.len() == 0 {
            Some(self)
        } else {
            let ti = p.last();
            let q = p.drop_last();
            if ti == 0 {
                if q.len() == 1 {
                    let i = q.last() as int;
                    if i < self.modifiers.len() {
                        Some(
                            CooldownM {
                                abilities: self.abilities,
                                modifiers: if cdm_cleanup_prunable(self.modifiers[i]) {
                                    self.modifiers.remove(i)
                                } else {
                                    self.modifiers
                                },
                                cooldown_value: None,
                            },
                        )
                    } else {
                        None
                    }
                } else {
                    None
                }
            } else if ti == 1 {
                if q.len() == 0 {
                    None
                } else {
                    let i = q.last() as int;
                    let r = q.drop_last();
                    if i < self.abilities.len() {
                        let ab = self.abilities[i];
                        if r.len() == 0 {
                            Some(
                                CooldownM {
                                    abilities: if ab.card is Empty && self.abilities.len() > 1 {
                                        self.abilities.remove(i)
                                    } else {
                                        self.abilities
                                    },
                                    modifiers: self.modifiers,
                                    cooldown_value: None,
                                },
                            )
                        } else {
                            match ab.card.cleanup(r) {
                                Some(c2) => Some(
                                    CooldownM {
                                        abilities: self.abilities.update(
                                            i,
                                            AbilityM {
                                                card: c2,
                                                keybind: ab.keybind,
                                                is_keybind_selected: ab.is_keybind_selected,
                                                cached_recovery: None,
                                            },
                                        ),
                                        modifiers: self.modifiers,
                                        cooldown_value: None,
                                    },
                                ),
                                None => None,
                            }
                        }
                    } else {
                        None
                    }
                }
            } else {
                None
            }
        }
    }
}

/// All cooldown caches cleared, as the editor does before it applies a
/// frame's pending mutation.
pub open spec fn clear_cd_caches(s: Seq<CooldownM>) -> Seq<CooldownM> {
    Seq::new(
        s.len(),
        |i: int|
            CooldownM {
                abilities: s[i].abilities,
                modifiers: s[i].modifiers,
                cooldown_value: None,
            },
    )
}

impl DeckM {
    /// The root index of a (reversed) path: 1 is the passive card, 2 and up
    /// are the cooldowns. A modify event also clears every cooldown cache.
    /// An exhausted path with a `Decrease` removes the addressed cooldown.
    pub open spec fn modify(self, p: Seq<usize>, t: ModificationType) -> Option<DeckM>
        decreases p.len(),
    {
        if p.len() == 0 {
            None
        } else {
            let root = p.last();
            let q = p.drop_last();
            let cleared = clear_cd_caches(self.cooldowns);
            if root == 1 {
                match self.passive.modify(q, t) {
                    Some(p2) => Some(DeckM { cooldowns: cleared, passive: p2 }),
                    None => None,
                }
            } else if root >= 2 {
                let i = root - 2;
                if q.len() == 0 {
                    if t is Decrease {
                        if i < self.cooldowns.len() {
                            Some(DeckM { cooldowns: cleared.remove(i as int), passive: self.passive })
                        } else {
                            None
                        }
                    } else {
                        Some(DeckM { cooldowns: cleared, passive: self.passive })
                    }
                } else if i < self.cooldowns.len() {
                    match self.cooldowns[i as int].modify(q, t) {
                        Some(c2) => Some(
                            DeckM { cooldowns: cleared.update(i as int, c2), passive: self.passive },
                        ),
                        None => None,
                    }
                } else {
                    None
                }
            } else {
                None
            }
        }
    }

    pub open spec fn take(self, p: Seq<usize>) -> Option<(DeckM, DragableCardM)>
        decreases p.len(),
    {
        if p.len() == 0 {
            None
        } else {
            let root = p.last();
            let q = p.drop_last();
            if root == 1 {
                match self.passive.take(q) {
                    Some((p2, item)) => Some((DeckM { cooldowns: self.cooldowns, passive: p2 }, item)),
                    None => None,
                }
            } else if root >= 2 && root - 2 < self.cooldowns.len() {
                let i = (root - 2) as int;
                match self.cooldowns[i].take(q) {
                    Some((c2, item)) => Some(
                        (
                            DeckM { cooldowns: self.cooldowns.update(i, c2), passive: self.passive },
                            item,
                        ),
                    ),
                    None => None,
                }
            } else {
                None
            }
        }
    }

    pub open spec fn insert(self, p: Seq<usize>, item: DragableCardM) -> Option<DeckM>
        decreases p.len(),
    {
        if p.len() == 0 {
            None
        } else {
            let root = p.last();
            let q = p.drop_last();
            if root == 1 {
                match self.passive.insert(q, item) {
                    Some(p2) => Some(DeckM { cooldowns: self.cooldowns, passive: p2 }),
                    None => None,
                }
            } else if root >= 2 && root - 2 < self.cooldowns.len() {
                let i = (root - 2) as int;
                match self.cooldowns[i].insert(q, item) {
                    Some(c2) => Some(
                        DeckM { cooldowns: self.cooldowns.update(i, c2), passive: self.passive },
                    ),
                    None => None,
                }
            } else {
                None
            }
        }
    }

    pub open spec fn cleanup(self, p: Seq<usize>) -> Option<DeckM>
        decreases p.len(),
    {
        if p.len() == 0 {
            None
        } else {
            let root = p.last();
            let q = p.drop_last();
            if root == 1 {
                match self.passive.cleanup(q) {
                    Some(p2) => Some(DeckM { cooldowns: self.cooldowns, passive: p2 }),
                    None => None,
                }
            } else if root >= 2 && root - 2 < self.cooldowns.len() {
                let i = (root - 2) as int;
                match self.cooldowns[i].cleanup(q) {
                    Some(c2) => Some(
                        DeckM { cooldowns: self.cooldowns.update(i, c2), passive: self.passive },
                    ),
                    None => None,
                }
            } else {
                None
            }
        }
    }
}

} // verus!
