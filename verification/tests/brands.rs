use circular_chain::{Brand, ChainError, CircularChain, EsgScore, Product, Settlement};

const DEPOSIT: u128 = 1_000_000;
const UNIT_PRICE: u128 = 100;

fn create_brand(
    contract: &mut CircularChain,
    caller: &str,
    brand_id: &str,
    title: &str,
) -> Result<Settlement, ChainError> {
    contract.create_or_update_brand(
        caller.to_string(),
        DEPOSIT,
        UNIT_PRICE,
        brand_id.to_string(),
        String::from("img"),
        title.to_string(),
        String::from("sum"),
        String::from("ind"),
        String::from("reg"),
    )
}

#[test]
fn brand_update_needs_publisher() {
    let mut contract = CircularChain::default();
    create_brand(&mut contract, "p1_near", "B1", "T1").unwrap();

    let r = create_brand(&mut contract, "p2_near", "B1", "T2");
    assert!(matches!(r, Err(ChainError::Unauthorized)));
    let b = contract.read_brand(String::from("B1")).unwrap();
    assert_eq!(b.title, String::from("T1"));
    assert_eq!(b.publisher, String::from("p1_near"));

    create_brand(&mut contract, "p1_near", "B1", "T2").unwrap();
    let b = contract.read_brand(String::from("B1")).unwrap();
    assert_eq!(b.title, String::from("T2"));
    assert_eq!(b.publisher, String::from("p1_near"));
}

#[test]
fn brand_delete_needs_publisher() {
    let mut contract = CircularChain::default();
    create_brand(&mut contract, "p1_near", "B1", "T1").unwrap();

    let r = contract.delete_brand("p2_near".to_string(), UNIT_PRICE, String::from("B1"));
    assert!(matches!(r, Err(ChainError::Unauthorized)));
    assert!(contract.read_brand(String::from("B1")).is_some());

    let usage_before = contract.storage_usage;
    let (removed, s) = contract
        .delete_brand("p1_near".to_string(), UNIT_PRICE, String::from("B1"))
        .unwrap()
        .unwrap();
    assert_eq!(removed.title, String::from("T1"));
    assert!(contract.read_brand(String::from("B1")).is_none());
    match s {
        Settlement::Refunded { amount } => {
            assert_eq!(
                amount,
                (usage_before - contract.storage_usage) as u128 * UNIT_PRICE
            );
        }
        Settlement::Charged { .. } => panic!("a delete refunds"),
    }
}

#[test]
fn brand_delete_missing_yields_nothing() {
    let mut contract = CircularChain::default();
    let r = contract
        .delete_brand("p1_near".to_string(), UNIT_PRICE, String::from("B1"))
        .unwrap();
    assert!(r.is_none());
}

#[test]
fn brand_create_settles_exactly() {
    let mut contract = CircularChain::default();
    let usage_before = contract.storage_usage;
    let s = create_brand(&mut contract, "p1_near", "B1", "T1").unwrap();
    match s {
        Settlement::Charged { cost, refund } => {
            assert_eq!(
                cost,
                (contract.storage_usage - usage_before) as u128 * UNIT_PRICE
            );
            assert_eq!(cost + refund, DEPOSIT);
        }
        Settlement::Refunded { .. } => panic!("a create charges"),
    }
}

#[test]
fn brand_snapshot_lists_all() {
    let mut contract = CircularChain::default();
    create_brand(&mut contract, "p1_near", "B1", "T1").unwrap();
    create_brand(&mut contract, "p1_near", "B2", "T2").unwrap();
    let all = contract.read_brands();
    assert_eq!(2, all.len());
    assert_eq!(all[0].brand_id, String::from("B1"));
    assert_eq!(all[1].brand_id, String::from("B2"));
}

#[test]
fn brand_equality_is_by_title() {
    let a = Brand::new(
        String::from("i1"),
        String::from("T"),
        String::from("s1"),
        String::from("in1"),
        String::from("r1"),
        String::from("p1"),
    );
    let b = Brand::new(
        String::from("i2"),
        String::from("T"),
        String::from("s2"),
        String::from("in2"),
        String::from("r2"),
        String::from("p2"),
    );
    assert!(a == b);
    let c = Brand::new(
        String::from("i1"),
        String::from("U"),
        String::from("s1"),
        String::from("in1"),
        String::from("r1"),
        String::from("p1"),
    );
    assert!(a != c);
}

#[test]
fn positional_removal_shifts_later_stages() {
    let mut p = Product::new_product(
        String::from("brand"),
        String::from("title"),
        String::from("img"),
        String::from("sum"),
        String::from("cat"),
        EsgScore { points: 0, count: 0 },
        String::from("admin"),
        vec![String::from("admin")],
    );
    p.add(
        String::from("A"),
        String::from("sa"),
        String::from("la"),
        0,
        String::from("admin"),
        1,
        1,
        1,
    );
    p.add(
        String::from("B"),
        String::from("sb"),
        String::from("lb"),
        1,
        String::from("admin"),
        2,
        2,
        2,
    );
    p.add(
        String::from("C"),
        String::from("sc"),
        String::from("lc"),
        2,
        String::from("admin"),
        3,
        3,
        3,
    );

    let removed = p.remove(1).unwrap();
    assert_eq!(removed.title, String::from("B"));
    assert_eq!(p.stages.len(), 2);
    assert_eq!(p.stages[0].title, String::from("A"));
    assert_eq!(p.stages[1].title, String::from("C"));

    let r = p.remove(2);
    assert!(matches!(r, Err(ChainError::OutOfRange)));

    let window = p.show(0, 2);
    assert_eq!(window.len(), 2);
    assert_eq!(window[0].title, String::from("A"));

    let empty = p.show(9, 4);
    assert_eq!(empty.len(), 0);
}
