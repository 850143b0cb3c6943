use audio_pipeline::negotiate::negotiate_buffer_size;
use audio_pipeline::negotiate::BufferSizePolicy;
use audio_pipeline::negotiate::FALLBACK_BUFFER_SIZE;

#[test]
fn strict_containment_returns_preferred() {
    let configs = vec![BufferSizePolicy::Range { min: 512, max: 2048 }];
    assert_eq!(negotiate_buffer_size(Some(&configs), 1024), 1024);
}

#[test]
fn no_containment_returns_last_range_min() {
    // 1024 is below the range, so the remembered minimum wins.
    let configs = vec![BufferSizePolicy::Range { min: 1200, max: 4096 }];
    assert_eq!(negotiate_buffer_size(Some(&configs), 1024), 1200);
}

#[test]
fn no_ranged_config_returns_fallback() {
    let configs = vec![BufferSizePolicy::Unknown, BufferSizePolicy::Unknown];
    assert_eq!(negotiate_buffer_size(Some(&configs), 1024), FALLBACK_BUFFER_SIZE);
}

#[test]
fn empty_config_list_returns_fallback() {
    let configs: Vec<BufferSizePolicy> = Vec::new();
    assert_eq!(negotiate_buffer_size(Some(&configs), 1024), 1024);
}

#[test]
fn enumeration_failure_returns_fallback() {
    assert_eq!(negotiate_buffer_size(None, 1024), FALLBACK_BUFFER_SIZE);
}

#[test]
fn last_ranged_minimum_wins_without_containment() {
    let configs = vec![
        BufferSizePolicy::Range { min: 300, max: 400 },
        BufferSizePolicy::Range { min: 700, max: 800 },
    ];
    assert_eq!(negotiate_buffer_size(Some(&configs), 1024), 700);
}

#[test]
fn trailing_unknown_does_not_hide_last_range() {
    let configs = vec![
        BufferSizePolicy::Unknown,
        BufferSizePolicy::Range { min: 1200, max: 4096 },
        BufferSizePolicy::Unknown,
    ];
    assert_eq!(negotiate_buffer_size(Some(&configs), 1024), 1200);
}

#[test]
fn containment_is_strict_at_both_bounds() {
    // preferred == min and preferred == max are not strictly contained.
    let at_min = vec![BufferSizePolicy::Range { min: 1024, max: 2048 }];
    assert_eq!(negotiate_buffer_size(Some(&at_min), 1024), 1024); // via the minimum, not the match
    let at_max = vec![BufferSizePolicy::Range { min: 512, max: 1024 }];
    assert_eq!(negotiate_buffer_size(Some(&at_max), 1024), 512);
}

#[test]
fn any_strict_match_returns_preferred() {
    let configs = vec![
        BufferSizePolicy::Range { min: 2000, max: 3000 },
        BufferSizePolicy::Range { min: 512, max: 2048 },
        BufferSizePolicy::Range { min: 100, max: 5000 },
    ];
    assert_eq!(negotiate_buffer_size(Some(&configs), 1024), 1024);
}

#[test]
fn negotiated_size_is_positive() {
    let cases: Vec<(Option<Vec<BufferSizePolicy>>, u32)> = vec![
        (None, 1024),
        (Some(vec![]), 1024),
        (Some(vec![BufferSizePolicy::Range { min: 1, max: 2 }]), 1024),
        (Some(vec![BufferSizePolicy::Range { min: 512, max: 2048 }]), 1024),
        (Some(vec![BufferSizePolicy::Unknown]), 7),
    ];
    for (configs, preferred) in cases {
        assert!(negotiate_buffer_size(configs.as_ref(), preferred) >= 1);
    }
}
