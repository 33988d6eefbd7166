use protoviz::counts::VarCounts;
use protoviz::template::create_position_sub;

#[test]
fn position_sub_is_zero_without_names() {
    let counts = VarCounts::new();
    assert_eq!(create_position_sub(&counts, 0), "0");
}

#[test]
fn position_sub_counts_repeated_names() {
    let mut counts = VarCounts::new();
    counts.add("N".to_string());
    counts.add("M".to_string());
    counts.add("N".to_string());
    assert_eq!(create_position_sub(&counts, 0), "2N+M");
    assert_eq!(create_position_sub(&counts, 12), "12+2N+M");
}
