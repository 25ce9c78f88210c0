use aegis_agent::retention::RetentionPolicy;

#[test]
fn to_forget_args_disabled_returns_empty() {
    let p = RetentionPolicy {
        enabled: false,
        keep_last: 5,
        keep_daily: 7,
        ..Default::default()
    };
    assert!(p.to_forget_args().is_empty());
}

#[test]
fn to_forget_args_keep_last_and_min_snapshots() {
    let p = RetentionPolicy {
        enabled: true,
        keep_last: 2,
        min_snapshots: 5,
        ..Default::default()
    };
    let args = p.to_forget_args();
    assert!(args.contains(&"--keep-last".to_string()));
    assert_eq!(
        args[args.iter().position(|a| a == "--keep-last").unwrap() + 1],
        "5"
    );
}

#[test]
fn to_forget_args_keep_daily_weekly_monthly_yearly() {
    let p = RetentionPolicy {
        enabled: true,
        keep_last: 1,
        keep_daily: 7,
        keep_weekly: 4,
        keep_monthly: 12,
        keep_yearly: 2,
        min_snapshots: 0,
    };
    let args = p.to_forget_args();
    assert_eq!(
        args,
        &[
            "--keep-last",
            "1",
            "--keep-daily",
            "7",
            "--keep-weekly",
            "4",
            "--keep-monthly",
            "12",
            "--keep-yearly",
            "2",
        ]
        .map(String::from)
    );
}

#[test]
fn to_forget_args_only_keep_last_when_others_zero() {
    let p = RetentionPolicy {
        enabled: true,
        keep_last: 3,
        keep_daily: 0,
        keep_weekly: 0,
        keep_monthly: 0,
        keep_yearly: 0,
        min_snapshots: 2,
    };
    let args = p.to_forget_args();
    assert_eq!(args, &["--keep-last".to_string(), "3".to_string()]);
}

#[test]
fn disabled_policy_with_every_value_set_gives_nothing() {
    let p = RetentionPolicy {
        enabled: false,
        keep_last: 9,
        keep_daily: 9,
        keep_weekly: 9,
        keep_monthly: 9,
        keep_yearly: 9,
        min_snapshots: 9,
    };
    assert!(p.to_forget_args().is_empty());
}

#[test]
fn keep_last_floor_applies_and_zero_values_are_left_out() {
    let p = RetentionPolicy {
        enabled: true,
        keep_last: 0,
        keep_daily: 0,
        keep_weekly: 3,
        keep_monthly: 0,
        keep_yearly: 1,
        min_snapshots: 4,
    };
    assert_eq!(
        p.to_forget_args(),
        vec!["--keep-last", "4", "--keep-weekly", "3", "--keep-yearly", "1"]
    );
}

#[test]
fn all_zero_enabled_policy_still_keeps_last_zero() {
    let p = RetentionPolicy {
        enabled: true,
        keep_last: 0,
        keep_daily: 0,
        keep_weekly: 0,
        keep_monthly: 0,
        keep_yearly: 0,
        min_snapshots: 0,
    };
    assert_eq!(p.to_forget_args(), vec!["--keep-last", "0"]);
}

#[test]
fn largest_values_render_in_decimal() {
    let p = RetentionPolicy {
        enabled: true,
        keep_last: u32::MAX,
        keep_daily: 10,
        keep_weekly: 0,
        keep_monthly: 0,
        keep_yearly: 0,
        min_snapshots: 0,
    };
    assert_eq!(
        p.to_forget_args(),
        vec!["--keep-last", "4294967295", "--keep-daily", "10"]
    );
}

#[test]
fn default_policy_is_disabled_with_floor_three() {
    let p = RetentionPolicy::default();
    assert!(!p.enabled);
    assert_eq!(p.min_snapshots, 3);
}
