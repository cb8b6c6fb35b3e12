use cyber_ninja_monitor::ai_personality::AIPersonality;
use cyber_ninja_monitor::network_stats::{InterfaceTraffic, NetworkStats};
use cyber_ninja_monitor::system_info::{
    check_system_requirements, get_available_disk_space, get_available_disk_space_gb,
    get_cpu_cores, get_memory_info, get_total_memory_gb, SystemResources, GIBIBYTE,
    MIN_CPU_CORES, MIN_DISK_GB, MIN_MEMORY_GB,
};
use cyber_ninja_monitor::warnings::{Announcements, LoadReading, WarningSchedule};

fn machine(memory: u64, cores: usize, disks: Vec<u64>) -> SystemResources {
    SystemResources { total_memory: memory, used_memory: memory / 2, cpu_cores: cores, disks_available: disks }
}

#[test]
fn test_memory_allocation() {
    // Allocate some memory
    let mut block = vec![0u8; 1024];
    assert_eq!(block.len(), 1024);

    // Write some data
    block[0] = 42;
    assert_eq!(block[0], 42);
}

#[test]
fn requirements_are_met_exactly_at_the_minimum() {
    assert_eq!(MIN_MEMORY_GB, 4);
    assert_eq!(MIN_CPU_CORES, 2);
    assert_eq!(MIN_DISK_GB, 10);
    let ok = machine(4 * GIBIBYTE, 2, vec![6 * GIBIBYTE, 4 * GIBIBYTE]);
    assert!(check_system_requirements(&ok));
    assert!(!check_system_requirements(&machine(4 * GIBIBYTE - 1, 2, vec![10 * GIBIBYTE])));
    assert!(!check_system_requirements(&machine(4 * GIBIBYTE, 1, vec![10 * GIBIBYTE])));
    assert!(!check_system_requirements(&machine(4 * GIBIBYTE, 2, vec![10 * GIBIBYTE - 1])));
    assert!(!check_system_requirements(&machine(4 * GIBIBYTE, 2, vec![])));
    assert!(check_system_requirements(&machine(u64::MAX, 64, vec![u64::MAX, u64::MAX])));
}

#[test]
fn resource_readings() {
    let sys = machine(16 * GIBIBYTE + 5, 8, vec![GIBIBYTE / 2, GIBIBYTE / 2, u64::MAX]);
    assert_eq!(get_total_memory_gb(&sys), 16);
    assert_eq!(get_cpu_cores(&sys), 8);
    assert_eq!(get_available_disk_space(&sys), GIBIBYTE as u128 + u64::MAX as u128);
    assert_eq!(get_available_disk_space_gb(&sys), 1 + (u64::MAX / GIBIBYTE) as u128);
    assert_eq!(get_memory_info(&sys), (16 * GIBIBYTE + 5, 8 * GIBIBYTE + 2, 499));
    let none = SystemResources { total_memory: 0, used_memory: 7, cpu_cores: 0, disks_available: vec![] };
    assert_eq!(get_memory_info(&none), (0, 7, 0));
    let full = SystemResources { total_memory: 3, used_memory: 3, cpu_cores: 1, disks_available: vec![] };
    assert_eq!(get_memory_info(&full).2, 1000);
    let third = SystemResources { total_memory: 3, used_memory: 1, cpu_cores: 1, disks_available: vec![] };
    assert_eq!(get_memory_info(&third).2, 333);
}

#[test]
fn network_totals() {
    let interfaces = vec![
        InterfaceTraffic { received: 1000, transmitted: 500 },
        InterfaceTraffic { received: 2000, transmitted: 0 },
        InterfaceTraffic { received: 0, transmitted: 7 },
    ];
    assert!(NetworkStats::fits(&interfaces));
    let mut stats = NetworkStats::new(&interfaces);
    assert_eq!(stats.received_bytes, 3000);
    assert_eq!(stats.transmitted_bytes, 507);
    assert_eq!(stats.total_networks, 3);

    stats.update(&vec![]);
    assert_eq!(stats.received_bytes, 0);
    assert_eq!(stats.transmitted_bytes, 0);
    assert_eq!(stats.total_networks, 0);

    let heavy = vec![
        InterfaceTraffic { received: u64::MAX, transmitted: 1 },
        InterfaceTraffic { received: 1, transmitted: 1 },
    ];
    assert!(!NetworkStats::fits(&heavy));
    let edge = vec![
        InterfaceTraffic { received: u64::MAX - 1, transmitted: 1 },
        InterfaceTraffic { received: 1, transmitted: u64::MAX - 1 },
    ];
    assert!(NetworkStats::fits(&edge));
    stats.update(&edge);
    assert_eq!(stats.received_bytes, u64::MAX);
    assert_eq!(stats.transmitted_bytes, u64::MAX);
}

#[test]
fn warnings_are_held_back_for_the_pause() {
    let hot = LoadReading { cpu_usage: 801, memory_used: 5, memory_total: 10 };
    let mut schedule = WarningSchedule::new(1_000);
    let quiet = Announcements { cpu_warning: false, memory_warning: false, status_update: false };

    // above the threshold and never warned before
    assert_eq!(
        schedule.check_system_warnings(1_000, hot, 800, 300),
        Announcements { cpu_warning: true, ..quiet }
    );
    assert_eq!(schedule.last_cpu_warning, Some(1_000));
    // thirty seconds later: still held back
    assert_eq!(schedule.check_system_warnings(1_030, hot, 800, 300), quiet);
    // thirty-one seconds later: again
    assert_eq!(
        schedule.check_system_warnings(1_031, hot, 800, 300),
        Announcements { cpu_warning: true, ..quiet }
    );
    // exactly at the threshold: no warning
    let warm = LoadReading { cpu_usage: 800, ..hot };
    assert_eq!(schedule.check_system_warnings(2_000, warm, 800, 3_000), quiet);
}

#[test]
fn memory_warning_needs_more_than_nine_tenths() {
    let quiet = Announcements { cpu_warning: false, memory_warning: false, status_update: false };
    let mut schedule = WarningSchedule::new(0);
    let at = LoadReading { cpu_usage: 0, memory_used: 9, memory_total: 10 };
    assert_eq!(schedule.check_system_warnings(1, at, 800, 300), quiet);
    let above = LoadReading { cpu_usage: 0, memory_used: 901, memory_total: 1000 };
    assert_eq!(
        schedule.check_system_warnings(2, above, 800, 300),
        Announcements { memory_warning: true, ..quiet }
    );
    assert_eq!(schedule.last_memory_warning, Some(2));
    assert_eq!(schedule.check_system_warnings(32, above, 800, 300), quiet);
    let huge = LoadReading { cpu_usage: 0, memory_used: u64::MAX, memory_total: u64::MAX };
    assert_eq!(
        schedule.check_system_warnings(33, huge, 800, 300),
        Announcements { memory_warning: true, ..quiet }
    );
}

#[test]
fn status_updates_come_once_per_interval() {
    let calm = LoadReading { cpu_usage: 0, memory_used: 0, memory_total: 10 };
    let quiet = Announcements { cpu_warning: false, memory_warning: false, status_update: false };
    let mut schedule = WarningSchedule::new(100);
    assert_eq!(schedule.check_system_warnings(399, calm, 800, 300), quiet);
    assert_eq!(
        schedule.check_system_warnings(400, calm, 800, 300),
        Announcements { status_update: true, ..quiet }
    );
    assert_eq!(schedule.last_status_update, 400);
    assert_eq!(schedule.check_system_warnings(699, calm, 800, 300), quiet);
    // a clock reading from before the last update counts as no time passed
    assert_eq!(schedule.check_system_warnings(50, calm, 800, 300), quiet);
    assert_eq!(
        schedule.check_system_warnings(50, calm, 800, 0),
        Announcements { status_update: true, ..quiet }
    );
}

#[test]
fn voice_test_sentence_follows_the_strongest_listed_trait() {
    let mut p = AIPersonality::default();
    assert_eq!(p.audio_test_message(), "WOW! Time to test these AMAZING voice settings!");
    p.enthusiasm = 5_000;
    assert_eq!(p.audio_test_message(), "Testing personality and voice settings.");
    p.anxiety_level = 5_001;
    assert_eq!(p.audio_test_message(), "Um... testing the voice settings... if that's okay?");
    p.sass_level = 5_001;
    assert_eq!(p.audio_test_message(), "Oh great, another test? Fine, let's do this.");
    p.drunk_level = 5_001;
    assert_eq!(p.audio_test_message(), "Hey there, let's test these awesome settings!");
}

#[test]
fn test_memory_info_validity() {
    let sys = machine(16 * GIBIBYTE, 8, vec![]);
    let (total, used, usage) = get_memory_info(&sys);

    // Basic bounds checking
    assert!(total > 0, "Total memory should be greater than 0");
    assert!(used <= total, "Used memory cannot exceed total memory");
    assert!(usage <= 1000, "Memory usage percentage must be between 0 and 100");

    // Alignment check (most systems use 4KB pages)
    const PAGE_SIZE: u64 = 4096;
    assert!(total % PAGE_SIZE == 0, "Total memory should be page-aligned");

    // Reasonable minimum memory check (most modern systems have at least 1GB)
    const MIN_MEMORY: u64 = 1024 * 1024 * 1024; // 1GB
    assert!(total >= MIN_MEMORY, "System should have at least 1GB memory");
    assert_eq!(usage, 500);
}
