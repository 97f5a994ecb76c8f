use photoos::agent_transport::{agent_base_url, agent_url};
use photoos::storage_history::{range_seconds, temperature_alerts};
use photoos::storage_monitor::{bytes_of_sectors, diskstats_counters, to_i64};
use photoos::system_info::{read_cpu_cores, read_cpu_snapshot, read_hostname, read_memory, read_network};

#[test]
fn agent_urls_join_base_and_path() {
    assert_eq!(agent_base_url("http://127.0.0.1:8091///"), "http://127.0.0.1:8091");
    assert_eq!(agent_url("http://127.0.0.1:8091", "//status"), "http://127.0.0.1:8091/status");
}

#[test]
fn history_windows_and_temperature_alerts() {
    assert_eq!(range_seconds("1h"), 3600);
    assert_eq!(range_seconds("24h"), 86400);
    assert_eq!(range_seconds("7d"), 604800);
    assert_eq!(range_seconds("bogus"), 3600);
    let (critical, warning) = temperature_alerts(56);
    assert!(critical.active);
    assert!(!warning.active);
    let (critical, warning) = temperature_alerts(51);
    assert!(!critical.active);
    assert!(warning.active);
    let (critical, warning) = temperature_alerts(40);
    assert!(!critical.active);
    assert!(!warning.active);
}

#[test]
fn diskstats_lines_and_sector_bytes() {
    let (name, c) =
        diskstats_counters("   8       0 sda 100 0 2000 0 50 0 4000 0 0 300 0").unwrap();
    assert_eq!(name, "sda");
    assert_eq!(c.reads_completed, 100);
    assert_eq!(c.sectors_read, 2000);
    assert_eq!(c.writes_completed, 50);
    assert_eq!(c.sectors_written, 4000);
    assert_eq!(c.io_milliseconds, 300);
    assert!(diskstats_counters("8 0").is_none());
    assert_eq!(bytes_of_sectors(2), 1024);
    assert_eq!(to_i64(u64::MAX), i64::MAX);
}

#[test]
fn proc_files_are_read() {
    let cpu = read_cpu_snapshot("cpu  100 0 50 850 0 0 0 0\ncpu0 1 2 3 4\n").unwrap();
    assert_eq!(cpu.idle, 850);
    assert_eq!(cpu.total, 1000);
    let memory = read_memory("MemTotal:       1000 kB\nMemAvailable:    250 kB\n");
    assert_eq!(memory.total_bytes, 1_024_000);
    assert_eq!(memory.available_bytes, 256_000);
    assert_eq!(memory.used_bytes, 768_000);
    let net = read_network(
        "Inter-|   Receive |  Transmit\n face |bytes packets|bytes\n    lo: 10 1 0 0 0 0 0 0 20 2 0 0 0 0 0 0\n  eth0: 300 3 0 0 0 0 0 0 400 4 0 0 0 0 0 0\n  wlan0: 5 1 0 0\n",
    );
    assert_eq!(net.len(), 1);
    assert_eq!(net[0].interface, "eth0");
    assert_eq!(net[0].received_bytes, 300);
    assert_eq!(net[0].transmitted_bytes, 400);
    assert_eq!(read_cpu_cores("processor\t: 0\nprocessor\t: 1\n"), 2);
    assert_eq!(read_hostname(Some(" nas \n")), "nas");
}
