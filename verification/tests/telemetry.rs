use sentryx::server_config::{
    percent, sys_info, Disk, Interface, Readings, ServerConfig, ServerStats,
};

fn readings() -> Readings {
    Readings {
        used_memory: 3 * 1024,
        total_memory: 8 * 1024,
        cores: vec![10, 20, 45],
        disks: vec![
            Disk { total: 1000, available: 400 },
            Disk { total: 3000, available: 600 },
        ],
        interfaces: vec![
            Interface { received: 100, transmitted: 50 },
            Interface { received: 7, transmitted: 0 },
        ],
    }
}

#[test]
fn percent_rounds_down_and_stops_at_100() {
    assert_eq!(percent(1, 3), 33);
    assert_eq!(percent(2, 3), 66);
    assert_eq!(percent(0, 5), 0);
    assert_eq!(percent(5, 5), 100);
    assert_eq!(percent(6, 5), 100);
    assert_eq!(percent(u64::MAX, 1), 100);
    assert_eq!(percent(u64::MAX, u64::MAX), 100);
    assert_eq!(percent(u64::MAX - 1, u64::MAX), 99);
    assert_eq!(percent(29, 100), 29);
}

#[test]
fn percent_of_nothing_is_zero() {
    assert_eq!(percent(0, 0), 0);
    assert_eq!(percent(17, 0), 0);
}

#[test]
fn sample_of_readings() {
    assert_eq!(
        sys_info(&readings()),
        ServerStats { memory: 37, cpu: 25, disk: 75, network: 157 }
    );
}

#[test]
fn host_without_disk_capacity_uses_zero_percent() {
    let mut r = readings();
    r.disks = Vec::new();
    assert_eq!(sys_info(&r).disk, 0);
    r.disks = vec![Disk { total: 0, available: 0 }, Disk { total: 0, available: 10 }];
    assert_eq!(sys_info(&r).disk, 0);
}

#[test]
fn host_without_memory_or_cores_reports_zero() {
    let r = Readings {
        used_memory: 5,
        total_memory: 0,
        cores: Vec::new(),
        disks: Vec::new(),
        interfaces: Vec::new(),
    };
    assert_eq!(sys_info(&r), ServerStats { memory: 0, cpu: 0, disk: 0, network: 0 });
}

#[test]
fn percentages_stop_at_100() {
    let r = Readings {
        used_memory: 9,
        total_memory: 8,
        cores: vec![255, 255],
        disks: vec![Disk { total: 10, available: 0 }],
        interfaces: Vec::new(),
    };
    assert_eq!(sys_info(&r), ServerStats { memory: 100, cpu: 100, disk: 100, network: 0 });
}

#[test]
fn more_free_than_there_is_counts_as_nothing_used() {
    let mut r = readings();
    r.disks = vec![Disk { total: 10, available: 25 }];
    assert_eq!(sys_info(&r).disk, 0);
}

#[test]
fn sums_stop_at_the_greatest_number() {
    let mut r = readings();
    r.interfaces = vec![
        Interface { received: u64::MAX, transmitted: 1 },
        Interface { received: 5, transmitted: 5 },
    ];
    r.disks = vec![
        Disk { total: u64::MAX, available: u64::MAX / 2 },
        Disk { total: u64::MAX, available: 0 },
    ];
    let stats = sys_info(&r);
    assert_eq!(stats.network, u64::MAX);
    assert_eq!(stats.disk, 50);
}

#[test]
fn configuration_with_and_without_a_stored_secret() {
    assert_eq!(ServerConfig::new(None).master_key, "master_key");
    assert_eq!(ServerConfig::new(Some("s3cret".to_string())).master_key, "s3cret");
}

#[test]
fn only_the_secret_is_valid() {
    let config = ServerConfig::new(Some("s3cret".to_string()));
    assert!(config.validate_master_key("s3cret"));
    assert!(!config.validate_master_key("s3cre"));
    assert!(!config.validate_master_key("s3cret "));
    assert!(!config.validate_master_key(""));
    assert!(ServerConfig::new(None).validate_master_key("master_key"));
}
