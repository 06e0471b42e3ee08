use lunasched::config::{default_log_level, default_socket_path};
use lunasched::notifier::Notifier;
use lunasched::store::{decode_schedule, every_from_text, pending_migrations, schedule_kind, schedule_value};
use lunasched::{
    CalendarParams, Config, ConfigError, ConfigFormat, LoggingConfig, RetentionConfig,
    ScheduleConfig, ServerConfig,
};

#[test]
fn config_defaults() {
    let c = Config::default();
    assert_eq!(c.server.tick_interval_ms, 1000);
    assert_eq!(c.server.max_concurrent_jobs, 10);
    assert_eq!(c.server.data_dir, "/var/lib/lunasched");
    assert_eq!(c.server.socket_path, "/var/run/lunasched/lunasched.sock");
    assert_eq!(c.logging.level, "info");
    assert_eq!(c.logging.format, "text");
    assert_eq!(c.retention.history_days, 30);
    assert_eq!(c.retention.max_history_per_job, 100);
    assert_eq!(default_log_level(), "info");
    assert_eq!(default_socket_path(), "/var/run/lunasched/lunasched.sock");
}

#[test]
fn config_formats_by_extension() {
    assert_eq!(Config::format_of("/etc/lunasched/config.yaml"), Ok(ConfigFormat::Yaml));
    assert_eq!(Config::format_of("c.yml"), Ok(ConfigFormat::Yaml));
    assert_eq!(Config::format_of("dir.d/c.toml"), Ok(ConfigFormat::Toml));
    assert_eq!(Config::format_of("c.json"), Err(ConfigError::UnsupportedFormat));
    assert_eq!(Config::format_of("config"), Err(ConfigError::UnsupportedFormat));
    assert_eq!(Config::format_of("dir.yaml/config"), Err(ConfigError::UnsupportedFormat));
    assert_eq!(Config::format_of(".yaml"), Err(ConfigError::UnsupportedFormat));
}

#[test]
fn merge_prefers_the_other_config() {
    let mut a = Config::default();
    a.logging.output = Some("/var/log/a.log".to_string());
    let b = Config {
        server: ServerConfig {
            tick_interval_ms: 500,
            max_concurrent_jobs: 3,
            data_dir: "/data".to_string(),
            socket_path: "/tmp/s.sock".to_string(),
        },
        logging: LoggingConfig { level: "debug".to_string(), format: "json".to_string(), output: None },
        retention: RetentionConfig { history_days: 7, max_history_per_job: 10 },
        jobs: vec![],
    };
    a.merge(b);
    assert_eq!(a.server.tick_interval_ms, 500);
    assert_eq!(a.server.socket_path, "/tmp/s.sock");
    assert_eq!(a.logging.level, "debug");
    assert_eq!(a.logging.output, Some("/var/log/a.log".to_string()));
    assert_eq!(a.retention, RetentionConfig { history_days: 7, max_history_per_job: 10 });
}

#[test]
fn stored_schedules_round_trip() {
    let every = ScheduleConfig::Every(86_400);
    assert_eq!(schedule_kind(&every), "every");
    let text = schedule_value(&every).unwrap();
    assert_eq!(text, "86400");
    assert_eq!(decode_schedule("every", text, None), Some(every));
    let cron = ScheduleConfig::Cron("0 * * * * *".to_string());
    assert_eq!(schedule_kind(&cron), "cron");
    assert_eq!(decode_schedule("cron", schedule_value(&cron).unwrap(), None), Some(cron));
    let p = CalendarParams { days_of_week: None, nth_weekday: Some((1, 2)), time: (1, 2, 3) };
    let cal = ScheduleConfig::Calendar(p.clone());
    assert_eq!(schedule_kind(&cal), "calendar");
    assert_eq!(schedule_value(&cal), None);
    assert_eq!(decode_schedule("calendar", String::new(), Some(p)), Some(cal));
    assert_eq!(decode_schedule("calendar", String::new(), None), None);
    assert_eq!(decode_schedule("other", "x".to_string(), None), Some(ScheduleConfig::Cron("x".to_string())));
    assert_eq!(every_from_text("garbage"), 0);
}

#[test]
fn migrations_run_forward_only() {
    assert_eq!(pending_migrations(0), vec![1, 2, 3]);
    assert_eq!(pending_migrations(2), vec![3]);
    assert!(pending_migrations(3).is_empty());
}

#[test]
fn notification_presentation() {
    let n = Notifier::new();
    assert_eq!(n.event_color("success"), 0x00ff00);
    assert_eq!(n.event_color("failure"), 0xff0000);
    assert_eq!(n.event_color("start"), 0x0000ff);
    assert_eq!(n.event_color("other"), 0x808080);
    assert_eq!(n.event_emoji("failure"), ":x:");
    assert_eq!(n.default_subject("backup", "success"), "Lunasched: Job backup - success");
}
