use card_system::cards::{
    Ability, BaseCard, Cooldown, CooldownModifier, Deck, DirectionCard, DragableCard, Effect,
    ModificationType, MultiCastModifier, PassiveCard, ProjectileModifier, RecoveryValue,
    SimpleCooldownModifier, SimpleProjectileModifierType, SimpleStatusEffectType, StatusEffect,
    UnsignedSimpleStatusEffectType,
};

fn empty_cooldown() -> Cooldown {
    Cooldown {
        abilities: vec![Ability::default()],
        modifiers: vec![],
        cooldown_value: None,
    }
}

#[test]
fn cooldown_modifier_merge_scenario() {
    // Inserting AddCharge stacks into a cooldown merges instead of
    // duplicating: 1 then 2 leaves a single entry holding 3.
    let cd = empty_cooldown();
    let path: Vec<usize> = vec![];
    let (cd, back) = cd.insert_to_path(
        &path,
        0,
        DragableCard::CooldownModifier(CooldownModifier::SimpleCooldownModifier(
            SimpleCooldownModifier::AddCharge,
            1,
        )),
    );
    assert!(back.is_none());
    assert_eq!(
        cd.modifiers,
        vec![CooldownModifier::SimpleCooldownModifier(SimpleCooldownModifier::AddCharge, 1)]
    );
    let (cd, back) = cd.insert_to_path(
        &path,
        0,
        DragableCard::CooldownModifier(CooldownModifier::SimpleCooldownModifier(
            SimpleCooldownModifier::AddCharge,
            2,
        )),
    );
    assert!(back.is_none());
    assert_eq!(
        cd.modifiers,
        vec![CooldownModifier::SimpleCooldownModifier(SimpleCooldownModifier::AddCharge, 3)]
    );
}

#[test]
fn decrement_then_cleanup_prunes_scenario() {
    // A simple projectile modifier decremented to 0 is removed by the next
    // cleanup pass over its sequence.
    let card = BaseCard::Projectile(vec![ProjectileModifier::SimpleModify(
        SimpleProjectileModifierType::Speed,
        1,
    )]);
    let path: Vec<usize> = vec![0];
    let (card, ok) = card.modify_from_path(&path, 1, ModificationType::Decrease);
    assert!(ok);
    assert_eq!(
        card,
        BaseCard::Projectile(vec![ProjectileModifier::SimpleModify(
            SimpleProjectileModifierType::Speed,
            0,
        )])
    );
    let (card, ok) = card.cleanup(&path, 1);
    assert!(ok);
    assert_eq!(card, BaseCard::Projectile(vec![]));
}

#[test]
fn projectile_merge_same_kind() {
    let card = BaseCard::Projectile(vec![
        ProjectileModifier::NoEnemyFire,
        ProjectileModifier::SimpleModify(SimpleProjectileModifierType::Speed, 2),
    ]);
    let path: Vec<usize> = vec![];
    let (card, back) = card.insert_to_path(
        &path,
        0,
        DragableCard::ProjectileModifier(ProjectileModifier::SimpleModify(
            SimpleProjectileModifierType::Speed,
            3,
        )),
    );
    assert!(back.is_none());
    assert_eq!(
        card,
        BaseCard::Projectile(vec![
            ProjectileModifier::NoEnemyFire,
            ProjectileModifier::SimpleModify(SimpleProjectileModifierType::Speed, 5),
        ])
    );
}

#[test]
fn projectile_merge_to_zero_prunes() {
    // Merging -1 into an existing 1 reaches exactly 0, which insertion
    // prunes from the sequence.
    let card = BaseCard::Projectile(vec![ProjectileModifier::SimpleModify(
        SimpleProjectileModifierType::Gravity,
        1,
    )]);
    let path: Vec<usize> = vec![];
    let (card, back) = card.insert_to_path(
        &path,
        0,
        DragableCard::ProjectileModifier(ProjectileModifier::SimpleModify(
            SimpleProjectileModifierType::Gravity,
            -1,
        )),
    );
    assert!(back.is_none());
    assert_eq!(card, BaseCard::Projectile(vec![]));
}

#[test]
fn projectile_different_kind_appends() {
    let card = BaseCard::Projectile(vec![ProjectileModifier::SimpleModify(
        SimpleProjectileModifierType::Speed,
        1,
    )]);
    let path: Vec<usize> = vec![];
    let (card, back) = card.insert_to_path(
        &path,
        0,
        DragableCard::ProjectileModifier(ProjectileModifier::SimpleModify(
            SimpleProjectileModifierType::Width,
            4,
        )),
    );
    assert!(back.is_none());
    assert_eq!(
        card,
        BaseCard::Projectile(vec![
            ProjectileModifier::SimpleModify(SimpleProjectileModifierType::Speed, 1),
            ProjectileModifier::SimpleModify(SimpleProjectileModifierType::Width, 4),
        ])
    );
}

#[test]
fn status_effect_merge_and_unsigned_prune() {
    // A status effect list merges counted kinds and drops spent unsigned
    // entries after the insert.
    let card = BaseCard::StatusEffects(
        2,
        vec![
            StatusEffect::UnsignedSimpleStatusEffect(UnsignedSimpleStatusEffectType::Overheal, 0),
            StatusEffect::SimpleStatusEffect(SimpleStatusEffectType::Speed, 2),
        ],
    );
    let path: Vec<usize> = vec![];
    let (card, back) = card.insert_to_path(
        &path,
        0,
        DragableCard::StatusEffect(StatusEffect::SimpleStatusEffect(
            SimpleStatusEffectType::Speed,
            1,
        )),
    );
    assert!(back.is_none());
    assert_eq!(
        card,
        BaseCard::StatusEffects(
            2,
            vec![StatusEffect::SimpleStatusEffect(SimpleStatusEffectType::Speed, 3)],
        )
    );
}

#[test]
fn gravity_kinds_with_different_directions_do_not_merge() {
    // IncreaseGravity carries its direction in the kind: two different
    // directions are different kinds and stay separate entries.
    let card = BaseCard::StatusEffects(
        1,
        vec![StatusEffect::SimpleStatusEffect(
            SimpleStatusEffectType::IncreaseGravity(DirectionCard::Up),
            1,
        )],
    );
    let path: Vec<usize> = vec![];
    let (card, back) = card.insert_to_path(
        &path,
        0,
        DragableCard::StatusEffect(StatusEffect::SimpleStatusEffect(
            SimpleStatusEffectType::IncreaseGravity(DirectionCard::Forward),
            1,
        )),
    );
    assert!(back.is_none());
    match card {
        BaseCard::StatusEffects(_, effects) => assert_eq!(effects.len(), 2),
        other => panic!("unexpected card {:?}", other),
    }
}

#[test]
fn floor_stack_modifier_stays_at_one() {
    let m = CooldownModifier::SimpleCooldownModifier(SimpleCooldownModifier::AddCharge, 1);
    let path: Vec<usize> = vec![];
    let (m, ok) = m.modify_from_path(&path, 0, ModificationType::Decrease);
    assert!(ok);
    assert_eq!(
        m,
        CooldownModifier::SimpleCooldownModifier(SimpleCooldownModifier::AddCharge, 1)
    );
}

#[test]
fn signed_modifier_goes_below_zero() {
    let m = ProjectileModifier::SimpleModify(SimpleProjectileModifierType::Speed, 0);
    let path: Vec<usize> = vec![];
    let (m, ok) = m.modify_from_path(&path, 0, ModificationType::Decrease);
    assert!(ok);
    assert_eq!(
        m,
        ProjectileModifier::SimpleModify(SimpleProjectileModifierType::Speed, -1)
    );
}

#[test]
fn unsigned_status_stops_at_zero() {
    let e = StatusEffect::UnsignedSimpleStatusEffect(UnsignedSimpleStatusEffectType::Overheal, 0);
    let path: Vec<usize> = vec![];
    let (e, ok) = e.modify_from_path(&path, 0, ModificationType::Decrease);
    assert!(ok);
    assert_eq!(
        e,
        StatusEffect::UnsignedSimpleStatusEffect(UnsignedSimpleStatusEffectType::Overheal, 0)
    );
}

#[test]
fn trail_frequency_floor_is_one() {
    let m = ProjectileModifier::Trail(1, BaseCard::Empty);
    let path: Vec<usize> = vec![];
    let (m, ok) = m.modify_from_path(&path, 0, ModificationType::Decrease);
    assert!(ok);
    assert_eq!(m, ProjectileModifier::Trail(1, BaseCard::Empty));
    let (m, ok) = m.modify_from_path(&path, 0, ModificationType::Increase);
    assert!(ok);
    assert_eq!(m, ProjectileModifier::Trail(2, BaseCard::Empty));
}

#[test]
fn take_whole_card_leaves_empty_slot() {
    let card = BaseCard::Trigger(7);
    let path: Vec<usize> = vec![];
    let (card, item) = card.take_from_path(&path, 0);
    assert_eq!(card, BaseCard::Empty);
    assert_eq!(item, Some(DragableCard::BaseCard(BaseCard::Trigger(7))));
}

#[test]
fn take_nested_card_and_reinsert_restores() {
    // Round trip: detaching the card nested under an advanced modifier and
    // inserting it back at the same path restores the original tree.
    let original = BaseCard::Projectile(vec![ProjectileModifier::OnHit(BaseCard::Trigger(3))]);
    let copy = original.deep_clone();
    // Path, tail first: sentinel 0 under modifier index 0.
    let path: Vec<usize> = vec![0, 0];
    let (card, item) = copy.take_from_path(&path, 2);
    assert_eq!(
        card,
        BaseCard::Projectile(vec![ProjectileModifier::OnHit(BaseCard::Empty)])
    );
    let item = item.expect("take must succeed");
    assert_eq!(item, DragableCard::BaseCard(BaseCard::Trigger(3)));
    let (card, back) = card.insert_to_path(&path, 2, item);
    assert!(back.is_none());
    assert_eq!(card, original);
}

#[test]
fn take_direction_from_knockback_and_reinsert() {
    let original = BaseCard::Effect(Effect::Knockback(2, DirectionCard::Movement));
    let path: Vec<usize> = vec![0];
    let (card, item) = original.deep_clone().take_from_path(&path, 1);
    assert_eq!(card, BaseCard::Effect(Effect::Knockback(2, DirectionCard::Empty)));
    let item = item.expect("take must succeed");
    assert_eq!(item, DragableCard::Direction(DirectionCard::Movement));
    let (card, back) = card.insert_to_path(&path, 1, item);
    assert!(back.is_none());
    assert_eq!(card, original);
}

#[test]
fn direction_slot_must_be_empty_for_insert() {
    // A direction slot that is already filled rejects a second direction;
    // the item comes back and the tree is unchanged.
    let card = BaseCard::Effect(Effect::Knockback(2, DirectionCard::Up));
    let path: Vec<usize> = vec![0];
    let (card, back) = card.insert_to_path(&path, 1, DragableCard::Direction(DirectionCard::Forward));
    assert_eq!(back, Some(DragableCard::Direction(DirectionCard::Forward)));
    assert_eq!(card, BaseCard::Effect(Effect::Knockback(2, DirectionCard::Up)));
}

#[test]
fn invalid_path_leaves_tree_unchanged() {
    // An out-of-range index is a contract violation: the operation reports
    // failure and leaves the tree exactly as it was.
    let card = BaseCard::Projectile(vec![ProjectileModifier::WallBounce]);
    let path: Vec<usize> = vec![5];
    let (card, ok) = card.modify_from_path(&path, 1, ModificationType::Increase);
    assert!(!ok);
    assert_eq!(card, BaseCard::Projectile(vec![ProjectileModifier::WallBounce]));
    let (card, item) = card.take_from_path(&path, 1);
    assert!(item.is_none());
    let (card, ok) = card.cleanup(&vec![5, 9], 2);
    assert!(!ok);
    assert_eq!(card, BaseCard::Projectile(vec![ProjectileModifier::WallBounce]));
}

#[test]
fn wrong_item_kind_is_handed_back() {
    let card = BaseCard::Projectile(vec![]);
    let path: Vec<usize> = vec![];
    let (card, back) = card.insert_to_path(&path, 0, DragableCard::Direction(DirectionCard::Up));
    assert_eq!(back, Some(DragableCard::Direction(DirectionCard::Up)));
    assert_eq!(card, BaseCard::Projectile(vec![]));
}

#[test]
fn cleanup_never_removes_last_ability() {
    // The only ability of a cooldown survives cleanup even when its card
    // slot is empty.
    let cd = empty_cooldown();
    // Path, tail first: ability index 0, then type slot 1.
    let path: Vec<usize> = vec![0, 1];
    let (cd, ok) = cd.cleanup(&path, 2);
    assert!(ok);
    assert_eq!(cd.abilities.len(), 1);
    assert_eq!(cd.abilities[0].card, BaseCard::Empty);
}

#[test]
fn cleanup_removes_emptied_ability_when_not_last() {
    let mut cd = empty_cooldown();
    cd.abilities.push(Ability {
        card: BaseCard::Trigger(1),
        ..Ability::default()
    });
    let path: Vec<usize> = vec![0, 1];
    let (cd, ok) = cd.cleanup(&path, 2);
    assert!(ok);
    assert_eq!(cd.abilities.len(), 1);
    assert_eq!(cd.abilities[0].card, BaseCard::Trigger(1));
}

#[test]
fn operations_clear_cooldown_cache() {
    // Any mutation reaching into a cooldown clears its cached value and the
    // touched ability's cached recovery.
    let mut cd = empty_cooldown();
    cd.abilities[0].card = BaseCard::Trigger(0);
    cd.abilities[0].cached_recovery = Some(RecoveryValue { base_ms: 1500, charge_ms: vec![500] });
    cd.cooldown_value = Some(RecoveryValue { base_ms: 2500, charge_ms: vec![2500] });
    // Path, tail first: empty remainder at the ability card, index 0,
    // type slot 1.
    let path: Vec<usize> = vec![0, 1];
    let (cd, ok) = cd.modify_from_path(&path, 2, ModificationType::Increase);
    assert!(ok);
    assert!(cd.cooldown_value.is_none());
    assert!(cd.abilities[0].cached_recovery.is_none());
    assert_eq!(cd.abilities[0].card, BaseCard::Trigger(1));
}

#[test]
fn deck_modify_reverses_caller_path() {
    // The caller builds paths root-to-leaf; the deck reverses them before
    // the tail-first traversal. Root slot 2 is the first cooldown.
    let deck = Deck {
        cooldowns: vec![Cooldown {
            abilities: vec![Ability {
                card: BaseCard::Trigger(4),
                ..Ability::default()
            }],
            modifiers: vec![],
            cooldown_value: None,
        }],
        passive: PassiveCard { passive_effects: vec![] },
    };
    let path: Vec<usize> = vec![2, 1, 0];
    let (deck, ok) = deck.modify_from_path(&path, ModificationType::Increase);
    assert!(ok);
    assert_eq!(deck.cooldowns[0].abilities[0].card, BaseCard::Trigger(5));
}

#[test]
fn deck_modify_removes_cooldown_on_exhausted_decrease() {
    let deck = Deck {
        cooldowns: vec![empty_cooldown(), empty_cooldown()],
        passive: PassiveCard { passive_effects: vec![] },
    };
    let path: Vec<usize> = vec![3];
    let (deck, ok) = deck.modify_from_path(&path, ModificationType::Decrease);
    assert!(ok);
    assert_eq!(deck.cooldowns.len(), 1);
}

#[test]
fn passive_insert_merges_effects() {
    let pc = PassiveCard {
        passive_effects: vec![StatusEffect::SimpleStatusEffect(
            SimpleStatusEffectType::DamageOverTime,
            2,
        )],
    };
    let path: Vec<usize> = vec![];
    let (pc, back) = pc.insert_to_path(
        &path,
        0,
        DragableCard::StatusEffect(StatusEffect::SimpleStatusEffect(
            SimpleStatusEffectType::DamageOverTime,
            3,
        )),
    );
    assert!(back.is_none());
    assert_eq!(
        pc.passive_effects,
        vec![StatusEffect::SimpleStatusEffect(SimpleStatusEffectType::DamageOverTime, 5)]
    );
}

#[test]
fn multicast_insert_card_appends() {
    let card = BaseCard::MultiCast(vec![], vec![]);
    let path: Vec<usize> = vec![];
    let (card, back) = card.insert_to_path(
        &path,
        0,
        DragableCard::BaseCard(BaseCard::Projectile(vec![])),
    );
    assert!(back.is_none());
    assert_eq!(
        card,
        BaseCard::MultiCast(vec![BaseCard::Projectile(vec![])], vec![])
    );
}

#[test]
fn multicast_modifier_merges_spread() {
    let card = BaseCard::MultiCast(vec![], vec![MultiCastModifier::Spread(1)]);
    let path: Vec<usize> = vec![];
    let (card, back) = card.insert_to_path(
        &path,
        0,
        DragableCard::MultiCastModifier(MultiCastModifier::Spread(2)),
    );
    assert!(back.is_none());
    assert_eq!(
        card,
        BaseCard::MultiCast(vec![], vec![MultiCastModifier::Spread(3)])
    );
}

#[test]
fn saturating_increment_at_type_bound() {
    // Counters saturate at the type bound instead of wrapping.
    let m = ProjectileModifier::SimpleModify(SimpleProjectileModifierType::Speed, i32::MAX);
    let path: Vec<usize> = vec![];
    let (m, ok) = m.modify_from_path(&path, 0, ModificationType::Increase);
    assert!(ok);
    assert_eq!(
        m,
        ProjectileModifier::SimpleModify(SimpleProjectileModifierType::Speed, i32::MAX)
    );
}

#[test]
fn deck_take_and_reinsert_restores() {
    // Deck-level round trip: detach an ability's card and insert it back at
    // the same (tail-first) path; with no cached values the deck is
    // restored exactly.
    let deck = Deck {
        cooldowns: vec![Cooldown {
            abilities: vec![Ability {
                card: BaseCard::StatusEffects(3, vec![StatusEffect::Stun]),
                ..Ability::default()
            }],
            modifiers: vec![],
            cooldown_value: None,
        }],
        passive: PassiveCard { passive_effects: vec![] },
    };
    let copy = deck.deep_clone();
    // Tail-first: ability 0, type slot 1, root slot 2 (the first cooldown).
    let path: Vec<usize> = vec![0, 1, 2];
    let (mid, item) = copy.take_from_path(&path, 3);
    let item = item.expect("take must succeed");
    assert_eq!(mid.cooldowns[0].abilities[0].card, BaseCard::Empty);
    let (back, rejected) = mid.insert_to_path(&path, 3, item);
    assert!(rejected.is_none());
    assert_eq!(back, deck);
}
