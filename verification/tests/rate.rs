use glassvis::error::DiffError;
use glassvis::rate::defect_rate;
use glassvis::rate::DefectRate;

fn percent(rate: DefectRate) -> f32 {
    rate.defects as f32 / rate.divisor as f32
}

#[test]
fn defect_rate_of_fifty_in_ten_thousand() {
    let rate = defect_rate(100, 100, 50).unwrap();
    assert_eq!(rate, DefectRate { defects: 50, divisor: 100 });
    assert_eq!(percent(rate), 0.5);
}

#[test]
fn defect_rate_rounds_the_divisor_down() {
    assert_eq!(defect_rate(15, 7, 3), Ok(DefectRate { defects: 3, divisor: 1 }));
    assert_eq!(defect_rate(10, 10, 0), Ok(DefectRate { defects: 0, divisor: 1 }));
    assert_eq!(defect_rate(600, 800, 4800), Ok(DefectRate { defects: 4800, divisor: 4800 }));
    assert_eq!(defect_rate(199, 1, 7), Ok(DefectRate { defects: 7, divisor: 1 }));
    assert_eq!(defect_rate(200, 1, 7), Ok(DefectRate { defects: 7, divisor: 2 }));
}

#[test]
fn defect_rate_of_a_small_image_is_refused() {
    assert_eq!(defect_rate(9, 11, 5), Err(DiffError::AreaTooSmall));
    assert_eq!(defect_rate(0, 0, 0), Err(DiffError::AreaTooSmall));
    assert_eq!(defect_rate(99, 1, 1), Err(DiffError::AreaTooSmall));
    assert_eq!(defect_rate(1000, 0, 1), Err(DiffError::AreaTooSmall));
}

#[test]
fn defect_rate_of_the_largest_image() {
    let rate = defect_rate(u32::MAX, u32::MAX, 1).unwrap();
    assert_eq!(rate.divisor, 184467440651196170);
    assert_eq!(rate.defects, 1);
}
