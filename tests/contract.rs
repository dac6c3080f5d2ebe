use nearmon::contract::{
    refund_deposit, select_index_from_seed, stage_label_string, MINIMUM_EARLY_DEPOSIT,
};
use nearmon::decimal::{parse_u64, u64_to_decimal};
use nearmon::metadata::NFT_METADATA_SPEC;
use nearmon::{Contract, ContractError, ContractMetadata, TokenMetadata};

const DATA_IMAGE_SVG_PARAS_ICON: &str = "data:image/svg+xml,%3Csvg width='1080' height='1080' viewBox='0 0 1080 1080' fill='none' xmlns='http://www.w3.org/2000/svg'%3E%3Crect width='1080' height='1080' rx='10' fill='%230000BA'/%3E%3Cpath fill-rule='evenodd' clip-rule='evenodd' d='M335.238 896.881L240 184L642.381 255.288C659.486 259.781 675.323 263.392 689.906 266.718C744.744 279.224 781.843 287.684 801.905 323.725C827.302 369.032 840 424.795 840 491.014C840 557.55 827.302 613.471 801.905 658.779C776.508 704.087 723.333 726.74 642.381 726.74H468.095L501.429 896.881H335.238ZM387.619 331.329L604.777 369.407C614.008 371.807 622.555 373.736 630.426 375.513C660.02 382.193 680.042 386.712 690.869 405.963C704.575 430.164 711.428 459.95 711.428 495.321C711.428 530.861 704.575 560.731 690.869 584.932C677.163 609.133 648.466 621.234 604.777 621.234H505.578L445.798 616.481L387.619 331.329Z' fill='white'/%3E%3C/svg%3E";

const ONE_NEAR: u128 = 1_000_000_000_000_000_000_000_000;
const COOLDOWN: u64 = 300000;

fn template(title: &str) -> TokenMetadata {
    TokenMetadata {
        title: Some(title.to_string()),
        description: Some("The tallest mountain in the charted solar system".to_string()),
        media: None,
        media_hash: None,
        copies: Some(1u64),
        issued_at: None,
        expires_at: None,
        starts_at: None,
        updated_at: None,
        extra: None,
        reference: None,
        reference_hash: None,
    }
}

fn owner() -> String {
    "alice".to_string()
}

fn fresh() -> Contract {
    Contract::new_default_meta(owner(), false).unwrap()
}

/// A contract with three egg templates and `n` templates for each later stage.
fn stocked(n: usize) -> Contract {
    let mut c = fresh();
    for t in ["egg-a", "egg-b", "egg-c"] {
        c.add_metadata(&owner(), &"egg".to_string(), template(t)).unwrap();
    }
    for stage in 1..=3u64 {
        for k in 0..n {
            let title = format!("stage{}-{}", stage, k + 1);
            c.add_metadata(&owner(), &stage_label_string(stage), template(&title)).unwrap();
        }
    }
    c
}

#[test]
fn test_new() {
    let contract = Contract::new(
        "bob".to_string(),
        ContractMetadata {
            spec: NFT_METADATA_SPEC.to_string(),
            name: "Triple Triad".to_string(),
            symbol: "TRIAD".to_string(),
            icon: Some(DATA_IMAGE_SVG_PARAS_ICON.to_string()),
            base_uri: Some("https://ipfs.fleek.co/ipfs/".to_string()),
            reference: None,
            reference_hash: None,
        },
        false,
    )
    .unwrap();
    assert_eq!(contract.get_owner(), "bob".to_string());
    assert_eq!(contract.nft_metadata().base_uri.unwrap(), "https://ipfs.fleek.co/ipfs/".to_string());
    assert_eq!(contract.nft_metadata().icon.unwrap(), DATA_IMAGE_SVG_PARAS_ICON.to_string());
}

#[test]
fn default_meta_names_the_collection() {
    let c = fresh();
    let m = c.nft_metadata();
    assert_eq!(m.spec, "nft-1.0.0");
    assert_eq!(m.name, "Nearmon");
    assert_eq!(m.symbol, "NMON");
    assert_eq!(m.icon, None);
    assert_eq!(c.current_token_id(), 0);
    assert_eq!(c.get_owner(), "alice");
}

#[test]
fn second_initialization_is_refused() {
    assert_eq!(Contract::new_default_meta(owner(), true).err(), Some(ContractError::Initialization));
}

#[test]
fn invalid_contract_metadata_is_refused() {
    let base = ContractMetadata {
        spec: "nft-2.0.0".to_string(),
        name: "X".to_string(),
        symbol: "X".to_string(),
        icon: None,
        base_uri: None,
        reference: None,
        reference_hash: None,
    };
    assert_eq!(Contract::new(owner(), base.clone(), false).err(), Some(ContractError::InvalidMetadata));
    let mut no_hash = base.clone();
    no_hash.spec = NFT_METADATA_SPEC.to_string();
    no_hash.reference = Some("https://example.org/ref.json".to_string());
    assert_eq!(Contract::new(owner(), no_hash.clone(), false).err(), Some(ContractError::InvalidMetadata));
    let mut short_hash = no_hash.clone();
    short_hash.reference_hash = Some(vec![7u8; 31]);
    assert_eq!(Contract::new(owner(), short_hash.clone(), false).err(), Some(ContractError::InvalidMetadata));
    let mut good = short_hash;
    good.reference_hash = Some(vec![7u8; 32]);
    assert!(Contract::new(owner(), good, false).is_ok());
}

#[test]
fn only_the_owner_curates_the_catalog() {
    let mut c = fresh();
    let r = c.add_metadata(&"mallory".to_string(), &"egg".to_string(), template("egg-a"));
    assert_eq!(r, Err(ContractError::Authorization));
    assert!(c.metadata_type_list().is_empty());
}

#[test]
fn type_labels_are_lowercased() {
    let mut c = fresh();
    c.add_metadata(&owner(), &"EgG".to_string(), template("egg-a")).unwrap();
    assert_eq!(c.metadata_type_list(), vec!["egg".to_string()]);
    assert_eq!(c.metadata_per_type_list(&"egg".to_string()), vec![template("egg-a")]);
    assert!(c.metadata_per_type_list(&"EgG".to_string()).is_empty());
}

#[test]
fn adding_the_same_template_twice_keeps_one() {
    let mut c = fresh();
    c.add_metadata(&owner(), &"egg".to_string(), template("egg-a")).unwrap();
    c.add_metadata(&owner(), &"egg".to_string(), template("egg-b")).unwrap();
    assert_eq!(c.metadata_per_type_list(&"egg".to_string()).len(), 2);
    c.add_metadata(&owner(), &"EGG".to_string(), template("egg-b")).unwrap();
    assert_eq!(c.metadata_per_type_list(&"egg".to_string()).len(), 2);
    assert_eq!(
        c.metadata_per_type_list(&"egg".to_string()),
        vec![template("egg-a"), template("egg-b")]
    );
}

#[test]
fn mint_ids_are_unique_and_increasing() {
    let mut c = stocked(0);
    let mut last = 0u64;
    for seed in [0u8, 7, 255, 3] {
        let r = c.nft_mint_egg("carol".to_string(), seed, 1_000, ONE_NEAR).unwrap();
        assert!(r.token_id > last);
        last = r.token_id;
    }
    assert_eq!(last, 4);
    assert_eq!(c.current_token_id(), 4);
    let ids: Vec<u64> = c
        .nft_tokens_for_owner(&"carol".to_string(), None, Some(10))
        .iter()
        .map(|t| t.token_id)
        .collect();
    assert_eq!(ids, vec![1, 2, 3, 4]);
}

#[test]
fn mint_from_empty_catalog_is_not_found() {
    let mut c = fresh();
    let r = c.nft_mint_egg("carol".to_string(), 1, 1_000, ONE_NEAR);
    assert_eq!(r, Err(ContractError::NotFound));
    assert_eq!(c.current_token_id(), 0);
    assert_eq!(c.mint_with_species("carol".to_string(), 1, 1_000, ONE_NEAR), Err(ContractError::NotFound));
}

#[test]
fn explicit_species_out_of_range_is_not_found() {
    let mut c = stocked(0);
    assert_eq!(c.mint_with_species("carol".to_string(), 0, 1_000, ONE_NEAR), Err(ContractError::NotFound));
    assert_eq!(c.mint_with_species("carol".to_string(), 4, 1_000, ONE_NEAR), Err(ContractError::NotFound));
    let r = c.mint_with_species("carol".to_string(), 3, 1_000, ONE_NEAR).unwrap();
    assert_eq!(c.nft_token(r.token_id).unwrap().metadata.title, Some("egg-c".to_string()));
}

#[test]
fn underpaid_mint_changes_nothing() {
    let mut c = stocked(1);
    let before_types = c.metadata_type_list();
    let r = c.nft_mint_egg("carol".to_string(), 1, 1_000, ONE_NEAR - 1);
    assert_eq!(r, Err(ContractError::Payment));
    assert_eq!(c.current_token_id(), 0);
    assert!(c.nft_token(1).is_none());
    assert!(c.nft_tokens_for_owner(&"carol".to_string(), None, Some(10)).is_empty());
    assert_eq!(c.metadata_type_list(), before_types);
    assert_eq!(c.metadata_per_type_list(&"egg".to_string()).len(), 3);
}

#[test]
fn refund_is_the_excess_over_one_unit() {
    assert_eq!(MINIMUM_EARLY_DEPOSIT, ONE_NEAR);
    assert_eq!(refund_deposit(ONE_NEAR - 1), Err(ContractError::Payment));
    assert_eq!(refund_deposit(ONE_NEAR), Ok(0));
    assert_eq!(refund_deposit(ONE_NEAR + 1), Ok(0));
    assert_eq!(refund_deposit(ONE_NEAR + 2), Ok(2));
    assert_eq!(refund_deposit(3 * ONE_NEAR), Ok(2 * ONE_NEAR));
    let mut c = stocked(0);
    let r = c.nft_mint_egg("carol".to_string(), 0, 5, ONE_NEAR + 500).unwrap();
    assert_eq!(r.refund, 500);
}

#[test]
fn seed_selects_a_one_based_position() {
    assert_eq!(select_index_from_seed(1, 3), 2);
    assert_eq!(select_index_from_seed(0, 3), 1);
    assert_eq!(select_index_from_seed(255, 16), 16);
    assert_eq!(select_index_from_seed(200, 1), 1);
}

#[test]
fn scenario_mint_then_evolve() {
    let mut c = stocked(3);
    let t0 = 10_000u64;
    let a = "account_a".to_string();
    let minted = c.nft_mint_egg(a.clone(), 1, t0, ONE_NEAR).unwrap();
    let tok = c.nft_token(minted.token_id).unwrap();
    assert_eq!(tok.owner_id, a);
    let mut expected = template("egg-b");
    expected.issued_at = Some(t0.to_string());
    expected.copies = Some(1);
    expected.extra = Some((t0 + COOLDOWN).to_string());
    assert_eq!(tok.metadata, expected);
    assert_eq!(c.level_per_token(minted.token_id), Ok(0));
    assert_eq!(c.species_per_token(minted.token_id), Ok(2));

    let early = c.nft_evolve(minted.token_id, a.clone(), a.clone(), t0 + COOLDOWN - 1, ONE_NEAR);
    assert_eq!(early, Err(ContractError::Cooldown));
    assert_eq!(c.current_token_id(), minted.token_id);

    let t1 = t0 + COOLDOWN;
    let evolved = c.nft_evolve(minted.token_id, a.clone(), a.clone(), t1, ONE_NEAR).unwrap();
    assert_ne!(evolved.token_id, minted.token_id);
    assert!(c.nft_token(minted.token_id).is_none());
    assert_eq!(c.level_per_token(minted.token_id), Err(ContractError::NotFound));
    let tok = c.nft_token(evolved.token_id).unwrap();
    assert_eq!(tok.owner_id, a);
    assert_eq!(tok.metadata.title, Some("stage1-2".to_string()));
    assert_eq!(tok.metadata.extra, Some((t1 + COOLDOWN).to_string()));
    assert_eq!(c.level_per_token(evolved.token_id), Ok(1));
    assert_eq!(c.species_per_token(evolved.token_id), Ok(2));
    let ids: Vec<u64> = c.nft_tokens_for_owner(&a, None, Some(10)).iter().map(|t| t.token_id).collect();
    assert_eq!(ids, vec![evolved.token_id]);
}

#[test]
fn evolve_by_non_owner_changes_nothing() {
    let mut c = stocked(3);
    let a = "account_a".to_string();
    let m = c.nft_mint_egg(a.clone(), 0, 0, ONE_NEAR).unwrap();
    let thief = "mallory".to_string();
    assert_eq!(c.nft_evolve(m.token_id, thief.clone(), thief.clone(), COOLDOWN, ONE_NEAR), Err(ContractError::Ownership));
    assert_eq!(c.nft_evolve(m.token_id, thief.clone(), a.clone(), COOLDOWN, ONE_NEAR), Err(ContractError::Ownership));
    assert_eq!(c.nft_evolve(m.token_id, a.clone(), thief, COOLDOWN, ONE_NEAR), Err(ContractError::Ownership));
    assert_eq!(c.current_token_id(), 1);
    assert_eq!(c.nft_token(1).unwrap().owner_id, a);
    assert_eq!(c.level_per_token(1), Ok(0));
}

#[test]
fn evolve_unknown_token_is_not_found() {
    let mut c = stocked(3);
    let a = "account_a".to_string();
    assert_eq!(c.nft_evolve(9, a.clone(), a, COOLDOWN, ONE_NEAR), Err(ContractError::NotFound));
    assert_eq!(c.level_per_token(9), Err(ContractError::NotFound));
}

#[test]
fn evolve_without_next_stage_template_is_not_found() {
    let mut c = stocked(1);
    let a = "account_a".to_string();
    let m = c.nft_mint_egg(a.clone(), 2, 0, ONE_NEAR).unwrap();
    assert_eq!(c.species_per_token(m.token_id), Ok(3));
    assert_eq!(c.nft_evolve(m.token_id, a.clone(), a, COOLDOWN, ONE_NEAR), Err(ContractError::NotFound));
}

#[test]
fn underpaid_evolve_changes_nothing() {
    let mut c = stocked(3);
    let a = "account_a".to_string();
    let m = c.nft_mint_egg(a.clone(), 0, 0, ONE_NEAR).unwrap();
    assert_eq!(c.nft_evolve(m.token_id, a.clone(), a.clone(), COOLDOWN, ONE_NEAR / 2), Err(ContractError::Payment));
    assert_eq!(c.current_token_id(), 1);
    assert_eq!(c.level_per_token(1), Ok(0));
    assert!(c.nft_token(1).is_some());
}

#[test]
fn terminal_stage_cannot_evolve() {
    let mut c = stocked(3);
    let a = "account_a".to_string();
    let mut id = c.nft_mint_egg(a.clone(), 0, 0, ONE_NEAR).unwrap().token_id;
    let mut now = 0u64;
    for stage in 1..=3u64 {
        now += COOLDOWN;
        id = c.nft_evolve(id, a.clone(), a.clone(), now, ONE_NEAR).unwrap().token_id;
        assert_eq!(c.level_per_token(id), Ok(stage));
        assert_eq!(c.species_per_token(id), Ok(1));
    }
    assert_eq!(id, 4);
    assert_eq!(c.nft_token(id).unwrap().metadata.title, Some("stage3-1".to_string()));
    now += COOLDOWN;
    assert_eq!(c.nft_evolve(id, a.clone(), a.clone(), now, ONE_NEAR), Err(ContractError::MaxStage));
    assert_eq!(c.nft_evolve(id, "zed".to_string(), a.clone(), now, ONE_NEAR), Err(ContractError::MaxStage));
    assert_eq!(c.nft_evolve(id, a.clone(), a.clone(), now, 0), Err(ContractError::MaxStage));
    assert_eq!(c.current_token_id(), 4);
    assert_eq!(c.level_per_token(id), Ok(3));
}

#[test]
fn tokens_for_owner_pages() {
    let mut c = stocked(0);
    for _ in 0..5 {
        c.nft_mint_egg("dave".to_string(), 0, 0, ONE_NEAR).unwrap();
    }
    c.nft_mint_egg("erin".to_string(), 0, 0, ONE_NEAR).unwrap();
    let dave = "dave".to_string();
    let page = |from: Option<u128>, limit: Option<u64>| -> Vec<u64> {
        c.nft_tokens_for_owner(&dave, from, limit).iter().map(|t| t.token_id).collect()
    };
    assert_eq!(page(None, None), Vec::<u64>::new());
    assert_eq!(page(Some(1), Some(2)), vec![2, 3]);
    assert_eq!(page(Some(3), Some(10)), vec![4, 5]);
    assert_eq!(page(Some(5), Some(1)), Vec::<u64>::new());
    assert_eq!(page(Some(u128::MAX), Some(u64::MAX)), Vec::<u64>::new());
    assert_eq!(page(Some(0), Some(u64::MAX)), vec![1, 2, 3, 4, 5]);
    assert!(c.nft_tokens_for_owner(&"nobody".to_string(), None, Some(3)).is_empty());
    let erin = c.nft_tokens_for_owner(&"erin".to_string(), None, Some(3));
    assert_eq!(erin.len(), 1);
    assert_eq!(erin[0].owner_id, "erin");
    assert_eq!(erin[0].token_id, 6);
}

#[test]
fn decimal_text_round_trips() {
    assert_eq!(u64_to_decimal(0), "0");
    assert_eq!(u64_to_decimal(9), "9");
    assert_eq!(u64_to_decimal(10), "10");
    assert_eq!(u64_to_decimal(1234567890), "1234567890");
    assert_eq!(u64_to_decimal(u64::MAX), u64::MAX.to_string());
    assert_eq!(parse_u64(&"0".to_string()), Some(0));
    assert_eq!(parse_u64(&"007".to_string()), Some(7));
    assert_eq!(parse_u64(&"18446744073709551615".to_string()), Some(u64::MAX));
    assert_eq!(parse_u64(&"18446744073709551616".to_string()), None);
    assert_eq!(parse_u64(&"".to_string()), None);
    assert_eq!(parse_u64(&"12a".to_string()), None);
    assert_eq!(parse_u64(&"-1".to_string()), None);
}

#[test]
fn stage_labels() {
    assert_eq!(stage_label_string(0), "egg");
    assert_eq!(stage_label_string(1), "monster_1");
    assert_eq!(stage_label_string(3), "monster_3");
}

#[test]
fn catalog_listings_hold_no_repeats() {
    let mut c = fresh();
    for label in ["egg", "EGG", "monster_1", "Egg", "monster_1"] {
        c.add_metadata(&owner(), &label.to_string(), template("same")).unwrap();
    }
    assert_eq!(c.metadata_type_list(), vec!["egg".to_string(), "monster_1".to_string()]);
    assert_eq!(c.metadata_per_type_list(&"egg".to_string()), vec![template("same")]);
    assert_eq!(c.metadata_per_type_list(&"monster_1".to_string()), vec![template("same")]);
}
