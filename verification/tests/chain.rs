use circular_chain::{ChainError, CircularChain, Settlement};

const DEPOSIT: u128 = 1_000_000_000_000_000_000_000_000;
const UNIT_PRICE: u128 = 10_000_000_000_000_000_000;

fn params() -> (
    String,
    String,
    String,
    u8,
    u8,
    u8,
    String,
    String,
    String,
    String,
    String,
    String,
) {
    let title: String = String::from("Production");
    let summary: String = String::from("Palm Oil processing plant stage in Sumatra, Indonesia");
    let location: String = String::from("Sumatra, Indonesia");
    let climate: u8 = 4;
    let community: u8 = 4;
    let nature: u8 = 4;

    let product_id = String::from("Nestle Cooking Oil");
    let product_brand_title: String = String::from("Nestle");
    let product_image: String = String::from(
        "https://financialtribune.com/sites/default/files/field/image/17january/12_oil.jpg",
    );
    let product_title: String = String::from("Nestle ");
    let product_summary: String = String::from("Nestle Cooking Oil from Palm Oil");
    let product_category: String = String::from("Food");

    (
        title,
        summary,
        location,
        climate,
        community,
        nature,
        product_id,
        product_brand_title,
        product_image,
        product_title,
        product_summary,
        product_category,
    )
}

fn add_stage_with(contract: &mut CircularChain, caller: &str) -> Result<Settlement, ChainError> {
    let p = params();
    contract.add_stage(
        caller.to_string(),
        DEPOSIT,
        UNIT_PRICE,
        0,
        p.0,
        p.1,
        p.2,
        p.3,
        p.4,
        p.5,
        p.6,
        p.7,
        p.8,
        p.9,
        p.10,
        p.11,
    )
}

#[test]
fn add_to_stage() {
    let mut contract = CircularChain::default();
    add_stage_with(&mut contract, "bob_near").unwrap();

    let product_id = String::from("Nestle Cooking Oil");

    if let Some(stages) = contract.read_stages(product_id, 0, 3) {
        assert_eq!(1, stages.len());
        let test_params = params();
        assert_eq!(&stages[0].title, &test_params.0);
    } else {
        panic!("Error in the code");
    }
}

#[test]
fn remove_from_stages() {
    let mut contract = CircularChain::default();
    add_stage_with(&mut contract, "bob_near").unwrap();

    let product_id = String::from("Nestle Cooking Oil");
    if let Some(stages) = contract.read_stages(product_id, 0, 3) {
        assert_eq!(1, stages.len());
    } else {
        panic!("Error reading stages");
    }

    let id = String::from("Nestle Cooking Oil");

    contract
        .delete_stage("bob_near".to_string(), UNIT_PRICE, id, 0)
        .unwrap();

    let index = String::from("Nestle Cooking Oil");

    if let Some(stages) = contract.read_stages(index, 0, 3) {
        assert_eq!(0, stages.len());
    } else {
        panic!("Error reading stages");
    }
}

#[test]
fn update_esg_score() {
    let mut contract = CircularChain::default();
    add_stage_with(&mut contract, "bob_near").unwrap();

    let product_id = String::from("Nestle Cooking Oil");

    contract
        .update_esg_score("bob_near".to_string(), product_id)
        .unwrap();

    let index = String::from("Nestle Cooking Oil");
    if let Some(product) = contract.read_product(index) {
        let score = product.esg_score.points as f64 / (3.0 * product.esg_score.count as f64);
        assert_eq!(score, 4.0);
    } else {
        panic!("Error in the code");
    }
}

#[test]
fn stage_mutation_needs_stakeholder() {
    let mut contract = CircularChain::default();
    add_stage_with(&mut contract, "s1_near").unwrap();

    let r = add_stage_with(&mut contract, "s2_near");
    assert!(matches!(r, Err(ChainError::Unauthorized)));
    let stages = contract
        .read_stages(String::from("Nestle Cooking Oil"), 0, 10)
        .unwrap();
    assert_eq!(1, stages.len());

    add_stage_with(&mut contract, "s1_near").unwrap();
    let stages = contract
        .read_stages(String::from("Nestle Cooking Oil"), 0, 10)
        .unwrap();
    assert_eq!(2, stages.len());
}

#[test]
fn delete_stage_needs_stakeholder() {
    let mut contract = CircularChain::default();
    add_stage_with(&mut contract, "s1_near").unwrap();

    let r = contract.delete_stage(
        "s2_near".to_string(),
        UNIT_PRICE,
        String::from("Nestle Cooking Oil"),
        0,
    );
    assert!(matches!(r, Err(ChainError::Unauthorized)));
    let stages = contract
        .read_stages(String::from("Nestle Cooking Oil"), 0, 10)
        .unwrap();
    assert_eq!(1, stages.len());
}

#[test]
fn esg_score_three_stage_mean() {
    let mut contract = CircularChain::default();
    let p = params();
    let product_id = String::from("Nestle Cooking Oil");
    contract
        .add_stage(
            "admin_near".to_string(),
            DEPOSIT,
            UNIT_PRICE,
            0,
            String::from("Harvest"),
            String::from("s1"),
            String::from("l1"),
            6,
            6,
            6,
            product_id.clone(),
            p.7.clone(),
            p.8.clone(),
            p.9.clone(),
            p.10.clone(),
            p.11.clone(),
        )
        .unwrap();
    contract
        .add_stage(
            "admin_near".to_string(),
            DEPOSIT,
            UNIT_PRICE,
            1,
            String::from("Transport"),
            String::from("s2"),
            String::from("l2"),
            3,
            3,
            3,
            product_id.clone(),
            p.7.clone(),
            p.8.clone(),
            p.9.clone(),
            p.10.clone(),
            p.11.clone(),
        )
        .unwrap();
    contract
        .add_stage(
            "admin_near".to_string(),
            DEPOSIT,
            UNIT_PRICE,
            2,
            String::from("Retail"),
            String::from("s3"),
            String::from("l3"),
            0,
            0,
            0,
            product_id.clone(),
            p.7,
            p.8,
            p.9,
            p.10,
            p.11,
        )
        .unwrap();

    contract
        .update_esg_score("admin_near".to_string(), product_id.clone())
        .unwrap();
    let product = contract.read_product(product_id).unwrap();
    assert_eq!(product.esg_score.points, 27);
    assert_eq!(product.esg_score.count, 3);
    let score = product.esg_score.points as f64 / (3.0 * product.esg_score.count as f64);
    assert_eq!(score, 3.0);
}

#[test]
fn esg_score_needs_administrator() {
    let mut contract = CircularChain::default();
    add_stage_with(&mut contract, "admin_near").unwrap();
    let r = contract.update_esg_score(
        "someone_else".to_string(),
        String::from("Nestle Cooking Oil"),
    );
    assert!(matches!(r, Err(ChainError::Unauthorized)));
}

#[test]
fn esg_score_empty_ledger_is_refused() {
    let mut contract = CircularChain::default();
    add_stage_with(&mut contract, "bob_near").unwrap();
    contract
        .delete_stage(
            "bob_near".to_string(),
            UNIT_PRICE,
            String::from("Nestle Cooking Oil"),
            0,
        )
        .unwrap();
    let r = contract.update_esg_score("bob_near".to_string(), String::from("Nestle Cooking Oil"));
    assert!(matches!(r, Err(ChainError::EmptyStageSet)));
}

#[test]
fn delete_stage_bad_index_is_out_of_range() {
    let mut contract = CircularChain::default();
    add_stage_with(&mut contract, "bob_near").unwrap();
    let r = contract.delete_stage(
        "bob_near".to_string(),
        UNIT_PRICE,
        String::from("Nestle Cooking Oil"),
        5,
    );
    assert!(matches!(r, Err(ChainError::OutOfRange)));
    let stages = contract
        .read_stages(String::from("Nestle Cooking Oil"), 0, 10)
        .unwrap();
    assert_eq!(1, stages.len());
}

#[test]
fn insufficient_deposit_rolls_back() {
    let mut contract = CircularChain::default();
    let p = params();
    let r = contract.add_stage(
        "bob_near".to_string(),
        0,
        UNIT_PRICE,
        0,
        p.0,
        p.1,
        p.2,
        p.3,
        p.4,
        p.5,
        p.6,
        p.7,
        p.8,
        p.9,
        p.10,
        p.11,
    );
    assert!(matches!(r, Err(ChainError::InsufficientDeposit)));
    assert!(contract
        .read_product(String::from("Nestle Cooking Oil"))
        .is_none());
    assert_eq!(contract.storage_usage, 0);
}

#[test]
fn pricing_overflow_rolls_back() {
    let mut contract = CircularChain::default();
    let p = params();
    let r = contract.add_stage(
        "bob_near".to_string(),
        DEPOSIT,
        u128::MAX,
        0,
        p.0,
        p.1,
        p.2,
        p.3,
        p.4,
        p.5,
        p.6,
        p.7,
        p.8,
        p.9,
        p.10,
        p.11,
    );
    assert!(matches!(r, Err(ChainError::StorageCostOverflow)));
    assert!(contract
        .read_product(String::from("Nestle Cooking Oil"))
        .is_none());
}

#[test]
fn settlement_conserves_deposit() {
    let mut contract = CircularChain::default();
    let usage_before = contract.storage_usage;
    let s = add_stage_with(&mut contract, "bob_near").unwrap();
    let usage_after = contract.storage_usage;
    match s {
        Settlement::Charged { cost, refund } => {
            assert_eq!(cost, (usage_after - usage_before) as u128 * UNIT_PRICE);
            assert_eq!(cost + refund, DEPOSIT);
        }
        Settlement::Refunded { .. } => panic!("growth must charge"),
    }
}

#[test]
fn delete_refunds_freed_bytes_exactly() {
    let mut contract = CircularChain::default();
    add_stage_with(&mut contract, "bob_near").unwrap();
    let usage_before = contract.storage_usage;
    let (_stage, s) = contract
        .delete_stage(
            "bob_near".to_string(),
            UNIT_PRICE,
            String::from("Nestle Cooking Oil"),
            0,
        )
        .unwrap()
        .unwrap();
    let usage_after = contract.storage_usage;
    match s {
        Settlement::Refunded { amount } => {
            assert_eq!(amount, (usage_before - usage_after) as u128 * UNIT_PRICE);
        }
        Settlement::Charged { .. } => panic!("shrink must refund"),
    }
}

#[test]
fn reads_are_idempotent() {
    let mut contract = CircularChain::default();
    add_stage_with(&mut contract, "bob_near").unwrap();
    let a = contract
        .read_product(String::from("Nestle Cooking Oil"))
        .unwrap();
    let b = contract
        .read_product(String::from("Nestle Cooking Oil"))
        .unwrap();
    assert_eq!(a.title, b.title);
    assert_eq!(a.brand, b.brand);
    assert_eq!(a.administrator, b.administrator);
    assert_eq!(a.esg_score, b.esg_score);
    assert_eq!(a.stakeholders, b.stakeholders);
    assert_eq!(a.stages.len(), b.stages.len());
}

#[test]
fn windowed_read_bounds() {
    let mut contract = CircularChain::default();
    add_stage_with(&mut contract, "bob_near").unwrap();
    add_stage_with(&mut contract, "bob_near").unwrap();
    add_stage_with(&mut contract, "bob_near").unwrap();

    let empty = contract
        .read_stages(String::from("Nestle Cooking Oil"), 3, 10)
        .unwrap();
    assert_eq!(0, empty.len());
    let empty = contract
        .read_stages(String::from("Nestle Cooking Oil"), 100, 1)
        .unwrap();
    assert_eq!(0, empty.len());

    let all = contract
        .read_stages(String::from("Nestle Cooking Oil"), 0, 3)
        .unwrap();
    assert_eq!(3, all.len());

    let tail = contract
        .read_stages(String::from("Nestle Cooking Oil"), 1, 10)
        .unwrap();
    assert_eq!(2, tail.len());
}

#[test]
fn product_snapshot_lists_all() {
    let mut contract = CircularChain::default();
    let p = params();
    for key in ["first product", "second product"] {
        contract
            .add_stage(
                "bob_near".to_string(),
                DEPOSIT,
                UNIT_PRICE,
                0,
                p.0.clone(),
                p.1.clone(),
                p.2.clone(),
                p.3,
                p.4,
                p.5,
                key.to_string(),
                p.7.clone(),
                p.8.clone(),
                p.9.clone(),
                p.10.clone(),
                p.11.clone(),
            )
            .unwrap();
    }
    let all = contract.read_products();
    assert_eq!(2, all.len());
    assert_eq!(all[0].product_id, String::from("first product"));
    assert_eq!(all[1].product_id, String::from("second product"));
    assert_eq!(all[0].product.administrator, String::from("bob_near"));
}

#[test]
fn missing_product_reads_degrade() {
    let contract = CircularChain::default();
    let stages = contract
        .read_stages(String::from("no such key"), 0, 10)
        .unwrap();
    assert_eq!(0, stages.len());
    assert!(contract.read_product(String::from("no such key")).is_none());
}
