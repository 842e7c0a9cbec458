use draft_claw::models::card::{
    card_to_text_opt_default, card_to_text_opt_no_rarity, no_card_text, Card, CardInfluence,
    CardRarity, CardType, CardTypeEnum, Influence,
};

fn card(name: &str, cost: u32, influence: &str, kind: &str, attack: i32, health: i32) -> Card {
    Card {
        set_number: 1,
        name: name.to_string(),
        card_text: no_card_text(),
        cost,
        influence: CardInfluence::parse(influence),
        attack,
        health,
        rarity: CardRarity::Rare,
        card_type: CardType::parse(kind),
        image_url: "http://example.org/card.png".to_string(),
        details_url: "http://example.org/card".to_string(),
        deck_buildable: true,
        set_name: "Set".to_string(),
    }
}

#[test]
fn influence_is_read_from_groups_of_three() {
    let influence = CardInfluence::parse("{F}{F}{T}");
    assert_eq!(influence.influences, vec![Influence::Fire, Influence::Fire, Influence::Time]);
    assert_eq!(influence.count(), 3);
    assert_eq!(influence.to_text(), "FFT");
    assert_eq!(influence.to_padded_text(), "FFT   ");
    assert_eq!(CardInfluence::parse("").count(), 0);
    assert_eq!(CardInfluence::parse("{").count(), 0);
    assert_eq!(CardInfluence::parse("{J").influences, vec![Influence::Justice]);
    assert_eq!(
        CardInfluence::parse("{P}{S}{?}{x}").influences,
        vec![
            Influence::Primal,
            Influence::Shadow,
            Influence::NoInfluence,
            Influence::NoInfluence
        ]
    );
    assert_eq!(CardInfluence::parse("{F}{T}{J}{P}{S}{F}{T}").to_padded_text(), "FTJPSFT");
}

#[test]
fn influence_symbols_round_trip() {
    for influence in [
        Influence::Fire,
        Influence::Time,
        Influence::Justice,
        Influence::Primal,
        Influence::Shadow,
        Influence::NoInfluence,
    ] {
        assert_eq!(Influence::from_symbol(influence.symbol()), influence);
    }
    assert_eq!(Influence::from_symbol('?'), Influence::NoInfluence);
}

#[test]
fn card_type_is_read_word_by_word() {
    let fast = CardType::parse("Fast Spell");
    assert!(fast.is_fast);
    assert_eq!(fast.card_type, vec![CardTypeEnum::Spell]);
    let unit = CardType::parse("Unit  Weapon Something");
    assert!(!unit.is_fast);
    assert_eq!(unit.card_type, vec![CardTypeEnum::Unit, CardTypeEnum::Weapon]);
    let none = CardType::parse("");
    assert!(!none.is_fast);
    assert!(none.card_type.is_empty());
    assert_eq!(CardTypeEnum::from_name("Curse"), Some(CardTypeEnum::Curse));
    assert_eq!(CardTypeEnum::from_name("None"), Some(CardTypeEnum::NoType));
    assert_eq!(CardTypeEnum::from_name("curse"), None);
}

#[test]
fn rarity_ranks_from_legendary_down() {
    let order = [
        CardRarity::Legendary,
        CardRarity::Rare,
        CardRarity::Uncommon,
        CardRarity::Common,
        CardRarity::Promo,
        CardRarity::NoRarity,
    ];
    for pair in order.windows(2) {
        assert!(pair[0].rank() > pair[1].rank());
    }
    assert_eq!(CardRarity::Legendary.symbol(), 'L');
    assert_eq!(CardRarity::NoRarity.symbol(), 'x');
}

#[test]
fn card_line_of_a_unit() {
    let unit = card("Oni Ronin", 1, "{F}", "Unit", 2, 1);
    assert_eq!(
        unit.to_text(card_to_text_opt_default()),
        format!("R 1{:<6} {:30}{:>7}", "F", "Oni Ronin", " 2/ 1")
    );
    assert_eq!(
        unit.to_text(card_to_text_opt_default()),
        "R 1F      Oni Ronin                        2/ 1"
    );
    assert_eq!(
        unit.to_text(card_to_text_opt_no_rarity()),
        format!("1{:<6} {:30}{:>7}", "F", "Oni Ronin", " 2/ 1")
    );
}

#[test]
fn card_line_endings() {
    assert!(card("a", 3, "{T}{T}", "Fast Spell", 0, 0)
        .to_text(card_to_text_opt_no_rarity())
        .ends_with(" FSpell"));
    assert!(card("a", 3, "", "Spell", 0, 0)
        .to_text(card_to_text_opt_no_rarity())
        .ends_with("  Spell"));
    assert!(card("a", 3, "", "Relic", 0, 0)
        .to_text(card_to_text_opt_no_rarity())
        .ends_with("  Relic"));
    assert!(card("a", 3, "", "Site", 0, 0)
        .to_text(card_to_text_opt_no_rarity())
        .ends_with("   Site"));
    assert!(card("a", 3, "", "Curse", 0, 0)
        .to_text(card_to_text_opt_no_rarity())
        .ends_with("  Curse"));
    assert!(card("a", 3, "", "Power", 0, 0)
        .to_text(card_to_text_opt_no_rarity())
        .ends_with("       "));
    assert!(card("a", 12, "", "Relic Weapon", -1, 10)
        .to_text(card_to_text_opt_no_rarity())
        .ends_with("  -1/10"));
    assert_eq!(
        card("a", 0, "", "", 0, 0).to_text(card_to_text_opt_no_rarity()),
        format!("0{:<6} {:30}{:>7}", "", "a", "")
    );
}

#[test]
fn long_names_are_not_cut() {
    let name = "A name that is longer than thirty characters";
    let line = card(name, 2, "{S}", "Unit", 100, 100).to_text(card_to_text_opt_default());
    assert_eq!(line, format!("R 2S      {}100/100", name));
}

#[test]
fn card_clone_keeps_everything() {
    let first = card("Oni Ronin", 1, "{F}", "Fast Unit", 2, 1);
    let copy = first.clone();
    assert_eq!(copy.name, first.name);
    assert_eq!(copy.influence.influences, first.influence.influences);
    assert_eq!(copy.card_type.card_type, first.card_type.card_type);
    assert_eq!(copy.card_type.is_fast, first.card_type.is_fast);
    assert_eq!(copy.rarity, first.rarity);
    assert_eq!(copy.card_text, "No card text");
}

#[test]
fn rarity_names_are_centred() {
    assert_eq!(CardRarity::Legendary.to_text(), format!("{:^10}", "Legendary"));
    assert_eq!(CardRarity::Rare.to_text(), "   Rare   ");
    assert_eq!(CardRarity::Uncommon.to_text(), " Uncommon ");
    assert_eq!(CardRarity::Common.to_text(), "  Common  ");
    assert_eq!(CardRarity::Promo.to_text(), format!("{:^10}", "Promo"));
    assert_eq!(CardRarity::Promo.to_text(), "  Promo   ");
    assert_eq!(CardRarity::NoRarity.to_text(), "   None   ");
}
