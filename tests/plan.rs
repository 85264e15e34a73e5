use s4::plan::{plan, PartRange};

fn check_plan(total: u64, part_size: u64) -> Vec<PartRange> {
    let p = plan(total, part_size);
    assert_eq!(p.part_size, part_size);
    let expected = if total == 0 { 1 } else { (total - 1) / part_size + 1 };
    assert_eq!(p.parts.len() as u64, expected);
    let mut next = 0;
    for (i, part) in p.parts.iter().enumerate() {
        assert_eq!(part.part_number, i as u64 + 1);
        assert_eq!(part.start, next);
        assert!(part.end > part.start || total == 0);
        if i + 1 < p.parts.len() {
            assert_eq!(part.end - part.start, part_size);
        }
        next = part.end;
    }
    assert_eq!(next, total);
    let last = p.parts.last().unwrap();
    assert_eq!(last.end - last.start, total - (expected - 1) * part_size);
    p.parts
}

#[test]
fn plan_one_below_part_size() {
    let parts = check_plan(99, 100);
    assert_eq!(parts, vec![PartRange { part_number: 1, start: 0, end: 99 }]);
}

#[test]
fn plan_exactly_part_size() {
    let parts = check_plan(100, 100);
    assert_eq!(parts, vec![PartRange { part_number: 1, start: 0, end: 100 }]);
}

#[test]
fn plan_one_above_part_size() {
    let parts = check_plan(101, 100);
    assert_eq!(
        parts,
        vec![
            PartRange { part_number: 1, start: 0, end: 100 },
            PartRange { part_number: 2, start: 100, end: 101 },
        ]
    );
}

#[test]
fn plan_multiples_of_part_size() {
    for k in 1..=4u64 {
        let parts = check_plan(k * 100, 100);
        assert_eq!(parts.len() as u64, k);
        assert_eq!(parts.last().unwrap().end - parts.last().unwrap().start, 100);
    }
}

#[test]
fn plan_empty_object_has_one_empty_part() {
    let parts = check_plan(0, 100);
    assert_eq!(parts, vec![PartRange { part_number: 1, start: 0, end: 0 }]);
}

#[test]
fn plan_large_object() {
    let part_size = 5 * 1024 * 1024 + 1;
    for k in 1..5u64 {
        check_plan(part_size * k - 1, part_size);
        check_plan(part_size * k, part_size);
        check_plan(part_size * k + 1, part_size);
    }
    check_plan(u64::MAX, u64::MAX / 3);
}
