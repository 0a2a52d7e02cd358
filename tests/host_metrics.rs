use vector::host_metrics::{
    add_collector, add_host, default_scrape_interval, vec_contains_path, vec_contains_str, Collector,
    HostMetricsConfig, Metric, Namespace, PatternWrapper, Tags,
};

fn patterns(ps: &[&str]) -> Option<Vec<PatternWrapper>> {
    Some(ps.iter().map(|p| PatternWrapper::new(p).unwrap()).collect())
}

fn metric(name: &str) -> Metric {
    Metric { name: name.to_string(), tags: Tags::new() }
}

fn tag<'a>(m: &'a Metric, key: &str) -> Option<&'a str> {
    m.tags.get(key).map(|s| s.as_str())
}

fn config(collectors: Option<Vec<Collector>>) -> HostMetricsConfig {
    HostMetricsConfig {
        scrape_interval_secs: default_scrape_interval(),
        collectors,
        namespace: Namespace::default(),
        disk_devices: None,
        filesystem_devices: None,
        filesystem_filesystems: None,
        filesystem_mountpoints: None,
        network_devices: None,
    }
}

#[test]
fn namespace_encoding() {
    assert_eq!(Namespace::default().encode("load1"), "host_load1");
    assert_eq!(Namespace("other".into()).encode("load1"), "other_load1");
    assert_eq!(Namespace(String::new()).encode("load1"), "load1");
}

#[test]
fn scrape_interval_default() {
    assert_eq!(default_scrape_interval(), 15);
}

#[test]
fn collectors_selection() {
    let all = config(None);
    assert!(all.has_collector(Collector::Cpu));
    assert!(all.has_collector(Collector::Network));
    let some = config(Some(vec![Collector::Disk, Collector::Load]));
    assert!(some.has_collector(Collector::Load));
    assert!(!some.has_collector(Collector::Cpu));
    let none = config(Some(vec![]));
    assert!(!none.has_collector(Collector::Memory));
}

#[test]
fn patterns_match_and_negate() {
    let p = PatternWrapper::new("sd*").unwrap();
    assert!(p.matches("sda"));
    assert!(!p.matches("nvme0"));
    let n = PatternWrapper::new("!sd*").unwrap();
    assert!(!n.matches("sda"));
    assert!(n.matches("nvme0"));
    assert_eq!(n.to_config_string(), "!sd*");
    assert_eq!(p.to_config_string(), "sd*");
    let nn = PatternWrapper::new("!!lo").unwrap();
    assert_eq!(nn.to_config_string(), "!lo");
    assert!(nn.matches("eth0"));
}

#[test]
fn invalid_pattern_is_rejected() {
    assert!(PatternWrapper::new("a[").is_err());
    assert!(PatternWrapper::new("!***").is_err());
}

#[test]
fn pattern_lists() {
    assert_eq!(vec_contains_str(&None, "anything"), Some(()));
    let list = Some(vec![
        PatternWrapper::new("eth*").unwrap(),
        PatternWrapper::new("lo").unwrap(),
    ]);
    assert_eq!(vec_contains_str(&list, "eth1"), Some(()));
    assert_eq!(vec_contains_str(&list, "lo"), Some(()));
    assert_eq!(vec_contains_str(&list, "wlan0"), None);
    assert_eq!(vec_contains_str(&Some(vec![]), "lo"), None);
}

#[test]
fn collector_tag_is_added_and_replaced() {
    let mut tags = Tags::new();
    tags.insert("device", "sda");
    tags.insert("collector", "old");
    let m1 = Metric { name: "host_disk_read_bytes_total".into(), tags };
    let m2 = Metric { name: "host_load1".into(), tags: Tags::new() };
    let out = add_collector("disk", vec![m1, m2]);
    assert_eq!(out.len(), 2);
    assert_eq!(out[0].name, "host_disk_read_bytes_total");
    assert_eq!(out[0].tags.get("collector").map(|s| s.as_str()), Some("disk"));
    assert_eq!(out[0].tags.get("device").map(|s| s.as_str()), Some("sda"));
    assert_eq!(out[0].tags.len(), 2);
    assert_eq!(out[1].tags.get("collector").map(|s| s.as_str()), Some("disk"));
    assert_eq!(out[1].tags.len(), 1);
    assert_eq!(out[1].tags.get("host"), None);
}

#[test]
fn collectors_run_in_scrape_order() {
    assert_eq!(
        config(None).collectors_to_run(),
        vec![
            Collector::Cpu,
            Collector::Disk,
            Collector::Filesystem,
            Collector::Load,
            Collector::Memory,
            Collector::Network
        ]
    );
    assert_eq!(
        config(Some(vec![Collector::Network, Collector::Cpu])).collectors_to_run(),
        vec![Collector::Cpu, Collector::Network]
    );
    assert_eq!(Collector::Filesystem.name(), "filesystem");
    assert_eq!(Collector::Load.name(), "load");
}

#[test]
fn device_filters() {
    let mut c = config(None);
    assert!(c.accepts_disk(Some("sda")));
    assert!(c.accepts_interface("lo"));
    c.disk_devices = patterns(&["sd*"]);
    c.network_devices = patterns(&["!lo"]);
    assert!(c.accepts_disk(Some("sda")));
    assert!(!c.accepts_disk(Some("nvme0n1")));
    assert!(!c.accepts_disk(None));
    assert!(c.accepts_interface("eth0"));
    assert!(!c.accepts_interface("lo"));
}

#[test]
fn partition_filters() {
    let mut c = config(None);
    assert!(c.accepts_partition(Some("/"), None, "ext4"));
    c.filesystem_devices = patterns(&["/dev/sd*"]);
    assert!(!c.accepts_partition(Some("/"), None, "ext4"));
    assert!(c.accepts_partition(Some("/"), Some(Some("/dev/sda1")), "ext4"));
    assert!(!c.accepts_partition(Some("/"), Some(Some("/dev/loop0")), "ext4"));
    c.filesystem_filesystems = patterns(&["ext*"]);
    assert!(!c.accepts_partition(Some("/"), Some(Some("/dev/sda1")), "tmpfs"));
    c.filesystem_mountpoints = patterns(&["/home"]);
    assert!(!c.accepts_partition(Some("/"), Some(Some("/dev/sda1")), "ext4"));
    assert!(c.accepts_partition(Some("/home"), Some(Some("/dev/sda2")), "ext4"));
    assert!(!c.accepts_partition(None, Some(Some("/dev/sda2")), "ext4"));
}

#[test]
fn metric_names_use_namespace() {
    let mut c = config(None);
    assert_eq!(c.metric_name("cpu_seconds_total"), "host_cpu_seconds_total");
    c.namespace = Namespace("other".into());
    assert_eq!(c.metric_name("load5"), "other_load5");
}

#[test]
fn host_tag_on_every_metric() {
    let out = add_host("box", vec![metric("a"), metric("b")]);
    assert_eq!(tag(&out[0], "host"), Some("box"));
    assert_eq!(tag(&out[1], "host"), Some("box"));
}

#[test]
fn capture_tags_and_filters_batches() {
    let c = config(Some(vec![Collector::Cpu, Collector::Memory]));
    let batches = vec![
        (Collector::Cpu, vec![metric("host_cpu_seconds_total")]),
        (Collector::Disk, vec![metric("host_disk_read_bytes_total")]),
        (Collector::Memory, vec![metric("host_memory_free_bytes"), metric("host_memory_swap_free_bytes")]),
    ];
    let out = c.capture_metrics(batches, Some("myhost"));
    let names: Vec<&str> = out.iter().map(|m| m.name.as_str()).collect();
    assert_eq!(
        names,
        vec!["host_cpu_seconds_total", "host_memory_free_bytes", "host_memory_swap_free_bytes"]
    );
    assert_eq!(tag(&out[0], "collector"), Some("cpu"));
    assert_eq!(tag(&out[2], "collector"), Some("memory"));
    assert!(out.iter().all(|m| tag(m, "host") == Some("myhost")));

    let out = config(None).capture_metrics(vec![(Collector::Load, vec![metric("host_load1")])], None);
    assert_eq!(out.len(), 1);
    assert_eq!(tag(&out[0], "collector"), Some("load"));
    assert_eq!(tag(&out[0], "host"), None);
}

#[test]
fn path_patterns_and_non_utf8_paths() {
    assert_eq!(vec_contains_path(&None, None), Some(()));
    let plain = patterns(&["/mnt/*"]);
    assert_eq!(vec_contains_path(&plain, Some("/mnt/data")), Some(()));
    assert_eq!(vec_contains_path(&plain, Some("/srv")), None);
    assert_eq!(vec_contains_path(&plain, None), None);
    let negated = patterns(&["!/mnt/*"]);
    assert_eq!(vec_contains_path(&negated, None), Some(()));
    assert_eq!(vec_contains_path(&negated, Some("/mnt/data")), None);
    let p = PatternWrapper::new("!/boot").unwrap();
    assert!(p.matches_path(None));
    assert!(!p.matches_path(Some("/boot")));
}
