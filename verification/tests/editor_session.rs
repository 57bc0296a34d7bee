use card_system::cards::{
    Ability, BaseCard, Cooldown, Deck, DirectionCard, DragableCard, ModificationType, PassiveCard,
    ProjectileModifier, RecoveryValue,
};
use card_system::editor::{
    is_valid_drag, DragableType, DropableType, EditMode, EditorState, PaletteState,
};

fn one_projectile_deck() -> Deck {
    Deck {
        cooldowns: vec![Cooldown {
            abilities: vec![Ability {
                card: BaseCard::Projectile(vec![]),
                ..Ability::default()
            }],
            modifiers: vec![],
            cooldown_value: None,
        }],
        passive: PassiveCard { passive_effects: vec![] },
    }
}

#[test]
fn drag_on_hit_from_palette_commits() {
    // Dragging an advanced modifier template from the palette onto a
    // projectile body commits: the projectile gains the modifier and the
    // palette is untouched.
    let state = EditorState {
        deck: one_projectile_deck(),
        dock_cards: vec![],
        palette_state: PaletteState::AdvancedProjectileModifiers,
    };
    // Source: palette root 0, template 0 (the on-hit modifier). Dest: the
    // projectile body at cooldown 0, ability 0.
    let source: Vec<usize> = vec![0, 0];
    let dest: Vec<usize> = vec![2, 1, 0];
    let (state, committed) = state.apply_drag(
        &source,
        &dest,
        DragableType::ProjectileModifier,
        DropableType::BaseProjectile,
        true,
    );
    assert!(committed);
    assert_eq!(
        state.deck.cooldowns[0].abilities[0].card,
        BaseCard::Projectile(vec![ProjectileModifier::OnHit(BaseCard::Empty)])
    );
}

#[test]
fn invalid_pair_is_discarded() {
    // A direction dropped on a projectile body is not a valid pair: the
    // release is discarded and the tree is unchanged.
    let state = EditorState {
        deck: one_projectile_deck(),
        dock_cards: vec![],
        palette_state: PaletteState::Directions,
    };
    let source: Vec<usize> = vec![0, 0];
    let dest: Vec<usize> = vec![2, 1, 0];
    let (state, committed) = state.apply_drag(
        &source,
        &dest,
        DragableType::Direction,
        DropableType::BaseProjectile,
        true,
    );
    assert!(!committed);
    assert_eq!(
        state.deck.cooldowns[0].abilities[0].card,
        BaseCard::Projectile(vec![])
    );
}

#[test]
fn no_release_means_no_mutation() {
    let state = EditorState {
        deck: one_projectile_deck(),
        dock_cards: vec![],
        palette_state: PaletteState::AdvancedProjectileModifiers,
    };
    let source: Vec<usize> = vec![0, 0];
    let dest: Vec<usize> = vec![2, 1, 0];
    let (state, committed) = state.apply_drag(
        &source,
        &dest,
        DragableType::ProjectileModifier,
        DropableType::BaseProjectile,
        false,
    );
    assert!(!committed);
    assert_eq!(
        state.deck.cooldowns[0].abilities[0].card,
        BaseCard::Projectile(vec![])
    );
}

#[test]
fn drag_within_deck_take_insert_cleanup() {
    // Moving a whole ability card into a multicast body: the source slot is
    // emptied, the card lands in the multicast, and cleanup prunes the
    // emptied slot's ability (it was not the last one).
    let deck = Deck {
        cooldowns: vec![Cooldown {
            abilities: vec![
                Ability {
                    card: BaseCard::MultiCast(vec![], vec![]),
                    ..Ability::default()
                },
                Ability {
                    card: BaseCard::Trigger(9),
                    ..Ability::default()
                },
            ],
            modifiers: vec![],
            cooldown_value: None,
        }],
        passive: PassiveCard { passive_effects: vec![] },
    };
    let state = EditorState {
        deck,
        dock_cards: vec![],
        palette_state: PaletteState::BaseCards,
    };
    // Source: cooldown 0, ability slot 1 (the trigger card). Dest: the
    // multicast body of ability 0.
    let source: Vec<usize> = vec![2, 1, 1];
    let dest: Vec<usize> = vec![2, 1, 0];
    let (state, committed) = state.apply_drag(
        &source,
        &dest,
        DragableType::BaseCard,
        DropableType::MultiCastBaseCard,
        true,
    );
    assert!(committed);
    assert_eq!(state.deck.cooldowns[0].abilities.len(), 1);
    assert_eq!(
        state.deck.cooldowns[0].abilities[0].card,
        BaseCard::MultiCast(vec![BaseCard::Trigger(9)], vec![])
    );
}

#[test]
fn drop_on_dock_parks_the_item() {
    let state = EditorState {
        deck: one_projectile_deck(),
        dock_cards: vec![],
        palette_state: PaletteState::Dock,
    };
    // Source: the projectile card itself; dest: the palette root while the
    // dock page is showing.
    let source: Vec<usize> = vec![2, 1, 0];
    let dest: Vec<usize> = vec![0];
    let (state, committed) = state.apply_drag(
        &source,
        &dest,
        DragableType::BaseCard,
        DropableType::Palette,
        true,
    );
    assert!(committed);
    assert_eq!(state.dock_cards, vec![DragableCard::BaseCard(BaseCard::Projectile(vec![]))]);
    // The emptied ability was the cooldown's last one, so it stays.
    assert_eq!(state.deck.cooldowns[0].abilities.len(), 1);
    assert_eq!(state.deck.cooldowns[0].abilities[0].card, BaseCard::Empty);
}

#[test]
fn drop_on_other_palette_page_discards_item() {
    let state = EditorState {
        deck: one_projectile_deck(),
        dock_cards: vec![],
        palette_state: PaletteState::BaseCards,
    };
    let source: Vec<usize> = vec![2, 1, 0];
    let dest: Vec<usize> = vec![0];
    let (state, committed) = state.apply_drag(
        &source,
        &dest,
        DragableType::BaseCard,
        DropableType::Palette,
        true,
    );
    assert!(committed);
    assert!(state.dock_cards.is_empty());
    assert_eq!(state.deck.cooldowns[0].abilities[0].card, BaseCard::Empty);
}

#[test]
fn commit_clears_every_cooldown_cache() {
    let mut deck = one_projectile_deck();
    deck.cooldowns[0].cooldown_value = Some(RecoveryValue { base_ms: 900, charge_ms: vec![300] });
    let state = EditorState {
        deck,
        dock_cards: vec![],
        palette_state: PaletteState::AdvancedProjectileModifiers,
    };
    let source: Vec<usize> = vec![0, 1];
    let dest: Vec<usize> = vec![2, 1, 0];
    let (state, committed) = state.apply_drag(
        &source,
        &dest,
        DragableType::ProjectileModifier,
        DropableType::BaseProjectile,
        true,
    );
    assert!(committed);
    assert!(state.deck.cooldowns[0].cooldown_value.is_none());
}

#[test]
fn frame_applies_modify_before_drag() {
    // Both a modify and a drag pending in one frame: the modify lands
    // first, and the drag commit sees the post-modify tree.
    let state = EditorState {
        deck: one_projectile_deck(),
        dock_cards: vec![],
        palette_state: PaletteState::AdvancedProjectileModifiers,
    };
    // Pending modify: refused (the projectile card has no count), pending
    // drag: valid; both are reported separately.
    let modify_path: Vec<usize> = vec![2, 1, 0];
    let source: Vec<usize> = vec![0, 0];
    let dest: Vec<usize> = vec![2, 1, 0];
    let (state, applied, committed) = state.apply_frame(
        Some((modify_path, ModificationType::Increase)),
        Some((
            source,
            dest,
            DragableType::ProjectileModifier,
            DropableType::BaseProjectile,
            true,
        )),
    );
    assert!(!applied);
    assert!(committed);
    assert_eq!(
        state.deck.cooldowns[0].abilities[0].card,
        BaseCard::Projectile(vec![ProjectileModifier::OnHit(BaseCard::Empty)])
    );
}

#[test]
fn compatibility_matrix() {
    assert!(is_valid_drag(&DragableType::ProjectileModifier, &DropableType::BaseProjectile));
    assert!(is_valid_drag(&DragableType::StatusEffect, &DropableType::BaseStatusEffects));
    assert!(is_valid_drag(&DragableType::MultiCastModifier, &DropableType::MultiCastBaseCard));
    assert!(is_valid_drag(&DragableType::BaseCard, &DropableType::MultiCastBaseCard));
    assert!(is_valid_drag(&DragableType::BaseCard, &DropableType::BaseNone));
    assert!(is_valid_drag(&DragableType::CooldownModifier, &DropableType::Cooldown));
    assert!(is_valid_drag(&DragableType::BaseCard, &DropableType::Cooldown));
    assert!(is_valid_drag(&DragableType::Direction, &DropableType::Direction));
    assert!(is_valid_drag(&DragableType::Direction, &DropableType::Palette));
    assert!(!is_valid_drag(&DragableType::Direction, &DropableType::BaseProjectile));
    assert!(!is_valid_drag(&DragableType::CooldownModifier, &DropableType::BaseProjectile));
    assert!(!is_valid_drag(&DragableType::ProjectileModifier, &DropableType::Cooldown));
}

#[test]
fn get_type_reports_the_kind() {
    assert_eq!(
        DragableCard::BaseCard(BaseCard::Empty).get_type(),
        DragableType::BaseCard
    );
    assert_eq!(
        DragableCard::Direction(DirectionCard::Up).get_type(),
        DragableType::Direction
    );
    assert_eq!(
        DragableCard::ProjectileModifier(ProjectileModifier::WallBounce).get_type(),
        DragableType::ProjectileModifier
    );
}

#[test]
fn edit_mode_gates_editing() {
    assert!(EditMode::FullEditing.can_edit_modifiers());
    assert!(EditMode::FullEditing.can_drag_modifiers());
    assert!(EditMode::FullEditing.can_drag_base_cards());
    assert!(!EditMode::Readonly.can_edit_modifiers());
    assert!(!EditMode::Readonly.can_drag_modifiers());
    assert!(!EditMode::Readonly.can_drag_base_cards());
}

#[test]
fn palette_pages_offer_templates() {
    let state = EditorState {
        deck: one_projectile_deck(),
        dock_cards: vec![DragableCard::Direction(DirectionCard::Up)],
        palette_state: PaletteState::Directions,
    };
    match state.palette_card() {
        BaseCard::Palette(items) => {
            assert_eq!(
                items,
                vec![
                    DragableCard::Direction(DirectionCard::Up),
                    DragableCard::Direction(DirectionCard::Forward),
                    DragableCard::Direction(DirectionCard::Movement),
                ]
            );
        },
        other => panic!("palette expected, got {:?}", other),
    }
    let state = EditorState { palette_state: PaletteState::Dock, ..state };
    match state.palette_card() {
        BaseCard::Palette(items) => {
            assert_eq!(items, vec![DragableCard::Direction(DirectionCard::Up)]);
        },
        other => panic!("palette expected, got {:?}", other),
    }
}

#[test]
fn palette_take_is_a_copy() {
    // Palette templates are stamps: taking one hands out a copy and leaves
    // the palette unchanged.
    let dock: Vec<DragableCard> = vec![];
    let pal = card_system::editor::build_palette(PaletteState::MultiCastModifiers, &dock);
    let path: Vec<usize> = vec![0];
    let (pal_after, item) = pal.take_from_path(&path, 1);
    assert_eq!(
        item,
        Some(DragableCard::MultiCastModifier(
            card_system::cards::MultiCastModifier::Spread(1)
        ))
    );
    match pal_after {
        BaseCard::Palette(items) => assert_eq!(items.len(), 2),
        other => panic!("palette expected, got {:?}", other),
    }
}

#[test]
fn modify_through_session_clears_caches() {
    let mut deck = one_projectile_deck();
    deck.cooldowns[0].cooldown_value = Some(RecoveryValue { base_ms: 100, charge_ms: vec![] });
    let state = EditorState {
        deck,
        dock_cards: vec![],
        palette_state: PaletteState::BaseCards,
    };
    // Root-to-leaf: cooldown 0, abilities, slot 0: addresses the projectile
    // card, which has no number, so the modify is refused.
    let path: Vec<usize> = vec![2, 1, 0];
    let (state, ok) = state.apply_modify(&path, ModificationType::Increase);
    assert!(!ok);
    // The refused modify left the deck untouched, cache included.
    assert!(state.deck.cooldowns[0].cooldown_value.is_some());
}
