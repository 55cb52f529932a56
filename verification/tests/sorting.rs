use yalter_bot::sorting::sort;
use yalter_bot::speedrun::{RunTime, PB};

fn best(category: &str, place: u64) -> PB {
    PB {
        category: category.to_string(),
        subcategories: vec![],
        time: RunTime { seconds: 0, nanoseconds: 0 },
        place,
    }
}

fn listed(bests: &Vec<PB>) -> Vec<(String, u64)> {
    bests.iter().map(|b| (b.category.clone(), b.place)).collect()
}

#[test]
fn sort_orders_by_category_and_keeps_equal_ones_in_order() {
    let mut bests = vec![
        best("b", 1),
        best("a", 2),
        best("c", 3),
        best("a", 4),
        best("B", 5),
        best("b", 6),
        best("", 7),
        best("ab", 8),
    ];
    sort(&mut bests);
    let expected: Vec<(String, u64)> =
        [("", 7), ("B", 5), ("a", 2), ("a", 4), ("ab", 8), ("b", 1), ("b", 6), ("c", 3)]
            .iter()
            .map(|(c, p)| (c.to_string(), *p))
            .collect();
    assert_eq!(expected, listed(&bests));
}

#[test]
fn sort_agrees_with_the_stable_sort_of_the_standard_library() {
    let mut seed: u64 = 12345;
    let mut bests = Vec::new();
    for place in 0..200u64 {
        seed = seed.wrapping_mul(6364136223846793005).wrapping_add(1442695040888963407);
        let category = format!("c{}", (seed >> 33) % 17);
        bests.push(best(&category, place));
    }
    let mut expected = listed(&bests);
    expected.sort_by_key(|x| x.0.clone());
    sort(&mut bests);
    assert_eq!(expected, listed(&bests));
}

#[test]
fn sort_of_nothing_and_of_one() {
    let mut none: Vec<PB> = vec![];
    sort(&mut none);
    assert!(none.is_empty());
    let mut one = vec![best("x", 1)];
    sort(&mut one);
    assert_eq!(vec![("x".to_string(), 1)], listed(&one));
}
