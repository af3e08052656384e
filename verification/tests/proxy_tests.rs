use bookparsers::proxy::{
    Country, ProxyConfig, ProxyHealth, ProxyManager, ProxyMetrics, ProxyMetricsEntry, ProxyState,
};
use std::time::Duration;

fn rate(entry: &ProxyMetricsEntry) -> f64 {
    let total = entry.success_count as u64 + entry.fail_count as u64;
    if total == 0 {
        1.0
    } else {
        entry.success_count as f64 / total as f64
    }
}

fn avg_success_rate(manager: &ProxyManager) -> f64 {
    let metrics = manager.get_proxy_metrics();
    if metrics.is_empty() {
        return 1.0;
    }
    metrics.iter().map(rate).sum::<f64>() / metrics.len() as f64
}

#[test]
fn proxy_config_with_country() {
    let config = ProxyConfig::http("proxy.example.com:8080").with_country(Country::RU);
    assert_eq!(config.country, Country::RU);
}

#[test]
fn proxy_config_with_credentials() {
    let config = ProxyConfig::http("proxy.example.com:8080")
        .with_credentials("user".to_string(), "pass".to_string());
    assert_eq!(config.username, Some("user".to_string()));
    assert_eq!(config.password, Some("pass".to_string()));
}

#[test]
fn country_from_code() {
    assert_eq!(Country::from_code("RU"), Country::RU);
    assert_eq!(Country::from_code("us"), Country::US);
    assert_eq!(Country::from_code("DE"), Country::DE);
    assert_eq!(Country::from_code("XX"), Country::Other);
}

#[test]
fn proxy_health_check_intervals() {
    assert_eq!(ProxyHealth::Healthy.health_check_interval(), Duration::from_secs(10));
    assert_eq!(ProxyHealth::Degraded.health_check_interval(), Duration::from_secs(3));
    assert_eq!(ProxyHealth::Unhealthy.health_check_interval(), Duration::from_millis(500));
    assert_eq!(ProxyHealth::Banned.health_check_interval(), Duration::from_secs(300));
}

#[test]
fn proxy_metrics_success_rate() {
    let mut metrics = ProxyMetrics::new();
    metrics.success_count = 90;
    metrics.fail_count = 10;
    let (n, d) = metrics.success_rate();
    assert_eq!(n as f64 / d as f64, 0.9);
}

#[test]
fn proxy_metrics_empty_success_rate() {
    let metrics = ProxyMetrics::new();
    let (n, d) = metrics.success_rate();
    assert_eq!(n as f64 / d as f64, 1.0);
}

#[test]
fn proxy_metrics_avg_response_time() {
    let mut metrics = ProxyMetrics::new();
    metrics.response_times = vec![100, 200, 300];
    assert_eq!(metrics.avg_response_time(), 200);
}

#[test]
fn proxy_metrics_add_response_time_limits() {
    let mut metrics = ProxyMetrics::new();
    for i in 0..150 {
        metrics.add_response_time(100 + i);
    }
    assert_eq!(metrics.response_times.len(), 100);
    assert_eq!(metrics.response_times[0], 150);
}

#[test]
fn proxy_metrics_determine_health() {
    let mut metrics = ProxyMetrics::new();
    metrics.response_times.push(100);
    metrics.success_count = 90;
    metrics.fail_count = 10;
    assert_eq!(metrics.determine_health(), ProxyHealth::Healthy);

    metrics.success_count = 70;
    metrics.fail_count = 30;
    assert_eq!(metrics.determine_health(), ProxyHealth::Degraded);

    metrics.success_count = 30;
    metrics.fail_count = 70;
    assert_eq!(metrics.determine_health(), ProxyHealth::Unhealthy);
}

#[test]
fn proxy_state_new_starts_warming_up() {
    let config = ProxyConfig::http("proxy1:8080");
    let state = ProxyState::new(config);
    assert!(state.warming_up);
}

#[test]
fn proxy_state_mark_success() {
    let config = ProxyConfig::http("proxy1:8080");
    let mut state = ProxyState::new(config);

    state.mark_success(150);
    assert_eq!(state.metrics.success_count, 1);
    assert!(!state.warming_up);
    assert_eq!(state.metrics.avg_response_time(), 150);
}

#[test]
fn proxy_state_mark_failure() {
    let config = ProxyConfig::http("proxy1:8080");
    let mut state = ProxyState::new(config);

    state.mark_failure();
    assert_eq!(state.metrics.fail_count, 1);
}

#[test]
fn proxy_state_mark_banned() {
    let config = ProxyConfig::http("proxy1:8080");
    let mut state = ProxyState::new(config);

    state.mark_banned(Duration::from_secs(300).as_millis() as u64);
    assert!(state.is_banned);
    assert!(state.banned_until.is_some());
}

#[test]
fn proxy_state_health() {
    let config = ProxyConfig::http("proxy1:8080");
    let mut state = ProxyState::new(config);
    state.metrics.response_times.push(100);
    state.metrics.success_count = 90;
    state.metrics.fail_count = 10;
    assert_eq!(state.health(), ProxyHealth::Healthy);
}

#[test]
fn proxy_manager_initialization() {
    let manager = ProxyManager::new(vec![
        ProxyConfig::http("proxy1:8080").with_country(Country::RU),
        ProxyConfig::http("proxy2:8080").with_country(Country::US),
        ProxyConfig::http("proxy3:8080").with_country(Country::DE),
    ]);

    assert_eq!(manager.healthy_count(), 3);
}

#[test]
fn proxy_manager_mark_success_with_response_time() {
    let mut manager = ProxyManager::new(vec![ProxyConfig::http("proxy1:8080")]);

    manager.mark_success("proxy1:8080", 250);

    let metrics = manager.get_proxy_metrics();
    assert_eq!(metrics.len(), 1);
    assert!(rate(&metrics[0]) > 0.0);
}

#[test]
fn proxy_manager_geolocation_selection() {
    let manager = ProxyManager::new(vec![
        ProxyConfig::http("ru1:8080").with_country(Country::RU),
        ProxyConfig::http("ru2:8080").with_country(Country::RU),
        ProxyConfig::http("us1:8080").with_country(Country::US),
    ]);

    let ru_proxies = manager.get_proxies_for_country(Country::RU);
    assert_eq!(ru_proxies.len(), 2);

    let us_proxies = manager.get_proxies_for_country(Country::US);
    assert_eq!(us_proxies.len(), 1);
}

#[test]
fn proxy_manager_get_next_proxy_for_country() {
    let manager = ProxyManager::new(vec![
        ProxyConfig::http("ru1:8080").with_country(Country::RU),
        ProxyConfig::http("us1:8080").with_country(Country::US),
    ]);

    let ru_proxy = manager.get_next_proxy_for_country(Some(Country::RU));
    assert!(ru_proxy.is_some());
    assert_eq!(ru_proxy.unwrap().country, Country::RU);
}

#[test]
fn proxy_manager_adaptive_health_check() {
    let manager = ProxyManager::new(vec![ProxyConfig::http("proxy1:8080")]);

    let proxies_needing_check = manager.get_proxies_needing_health_check();
    assert_eq!(proxies_needing_check.len(), 1);
}

#[test]
fn proxy_manager_mark_health_checked() {
    let mut manager = ProxyManager::new(vec![ProxyConfig::http("proxy1:8080")]);

    manager.mark_health_checked("proxy1:8080");

    let proxies_needing_check = manager.get_proxies_needing_health_check();
    assert!(proxies_needing_check.is_empty() || proxies_needing_check.len() == 1);
}

#[test]
fn proxy_manager_get_statistics() {
    let manager = ProxyManager::new(vec![
        ProxyConfig::http("proxy1:8080"),
        ProxyConfig::http("proxy2:8080"),
        ProxyConfig::http("proxy3:8080"),
    ]);

    let stats = manager.get_statistics();
    assert_eq!(stats.total_proxies, 3);
    assert_eq!(stats.healthy_proxies, 3);
    assert_eq!(stats.degraded_proxies, 0);
    assert_eq!(stats.unhealthy_proxies, 0);
    assert_eq!(stats.banned_proxies, 0);
}

#[test]
fn proxy_manager_statistics_after_failures() {
    let mut manager = ProxyManager::new(vec![
        ProxyConfig::http("proxy1:8080"),
        ProxyConfig::http("proxy2:8080"),
    ]);

    manager.mark_success("proxy1:8080", 100);
    for _ in 0..20 {
        manager.mark_failure("proxy2:8080");
    }

    assert!(avg_success_rate(&manager) < 1.0);
}

#[test]
fn proxy_manager_healthy_count_by_country() {
    let manager = ProxyManager::new(vec![
        ProxyConfig::http("ru1:8080").with_country(Country::RU),
        ProxyConfig::http("ru2:8080").with_country(Country::RU),
        ProxyConfig::http("us1:8080").with_country(Country::US),
    ]);

    assert_eq!(manager.healthy_count_by_country(Country::RU), 2);
    assert_eq!(manager.healthy_count_by_country(Country::US), 1);
    assert_eq!(manager.healthy_count_by_country(Country::DE), 0);
}

#[test]
fn proxy_manager_get_represented_countries() {
    let manager = ProxyManager::new(vec![
        ProxyConfig::http("ru1:8080").with_country(Country::RU),
        ProxyConfig::http("ru2:8080").with_country(Country::RU),
        ProxyConfig::http("us1:8080").with_country(Country::US),
        ProxyConfig::http("de1:8080").with_country(Country::DE),
    ]);

    let countries = manager.get_represented_countries();
    assert_eq!(countries.len(), 3);
    assert!(countries.contains(&Country::RU));
    assert!(countries.contains(&Country::US));
    assert!(countries.contains(&Country::DE));
}

#[test]
fn proxy_manager_warming_pool() {
    let mut manager = ProxyManager::new(vec![ProxyConfig::http("proxy1:8080")]);

    manager.start_warming_pool();
    assert!(!manager.is_warming_complete());
    assert!(!manager.is_warming_complete());
}

#[test]
fn proxy_manager_reset_stats() {
    let mut manager = ProxyManager::new(vec![ProxyConfig::http("proxy1:8080")]);

    manager.mark_success("proxy1:8080", 150);
    manager.mark_failure("proxy1:8080");

    assert!(avg_success_rate(&manager) < 1.0);

    manager.reset_stats();

    assert_eq!(avg_success_rate(&manager), 1.0);
}

#[test]
fn proxy_manager_response_time_weighting() {
    let mut manager = ProxyManager::new(vec![
        ProxyConfig::http("slow:8080"),
        ProxyConfig::http("fast:8080"),
    ]);

    manager.mark_success("slow:8080", 5000);
    manager.mark_success("slow:8080", 5100);
    manager.mark_success("fast:8080", 100);
    manager.mark_success("fast:8080", 150);

    let metrics = manager.get_proxy_metrics();
    assert_eq!(metrics.len(), 2);
    assert_eq!(rate(&metrics[0]), 1.0);
    assert_eq!(rate(&metrics[1]), 1.0);
}

#[test]
fn proxy_manager_get_proxy_metrics_details() {
    let mut manager = ProxyManager::new(vec![ProxyConfig::http("proxy1:8080")]);

    manager.mark_success("proxy1:8080", 200);
    manager.mark_success("proxy1:8080", 300);

    let metrics = manager.get_proxy_metrics();
    assert_eq!(metrics.len(), 1);
    assert_eq!(metrics[0].url, "proxy1:8080");
    assert_eq!(rate(&metrics[0]), 1.0);
    assert_eq!(metrics[0].avg_response_time, 250);
}

#[test]
fn proxy_manager_ban_and_recovery() {
    let mut manager = ProxyManager::new(vec![ProxyConfig::http("proxy1:8080")]);

    manager.mark_banned("proxy1:8080", Duration::from_secs(1).as_millis() as u64);
    assert_eq!(manager.healthy_count(), 0);

    let metrics = manager.get_proxy_metrics();
    assert_eq!(metrics[0].health, ProxyHealth::Banned);
}

#[test]
fn fresh_pool_is_healthy_at_any_time() {
    let manager = ProxyManager::new(vec![
        ProxyConfig::http("a:1"),
        ProxyConfig::socks5("b:2"),
    ]);
    assert_eq!(manager.healthy_count_at(0), 2);
    assert_eq!(manager.healthy_count_at(u64::MAX), 2);
}

#[test]
fn ban_lasts_until_its_end_and_success_lifts_it() {
    let mut manager = ProxyManager::new(vec![ProxyConfig::http("a:1")]);
    manager.mark_banned_at("a:1", 1_000, 5_000);
    assert_eq!(manager.healthy_count_at(5_999), 0);
    assert_eq!(manager.healthy_count_at(6_000), 1);
    manager.mark_success_at("a:1", 10, 5_500);
    // The ban's five failures stay counted: one success in five is unhealthy.
    assert_eq!(manager.healthy_count_at(5_600), 0);
}

#[test]
fn statistics_partition_the_pool() {
    let mut manager = ProxyManager::new(vec![
        ProxyConfig::http("a:1"),
        ProxyConfig::http("b:2"),
        ProxyConfig::http("c:3"),
    ]);
    manager.mark_banned_at("a:1", 10_000, 0);
    manager.mark_success_at("b:2", 10, 0);
    for _ in 0..10 {
        manager.mark_failure("b:2");
    }
    let stats = manager.get_statistics_at(100);
    assert_eq!(stats.total_proxies, 3);
    assert_eq!(
        stats.healthy_proxies + stats.degraded_proxies + stats.unhealthy_proxies + stats.banned_proxies,
        3
    );
    assert_eq!(stats.banned_proxies, 1);
    assert_eq!(stats.unhealthy_proxies, 1);
    assert_eq!(stats.healthy_proxies, 1);
}

#[test]
fn unknown_country_codes_map_to_other() {
    assert_eq!(Country::from_code("kz"), Country::KZ);
    assert_eq!(Country::from_code(""), Country::Other);
    assert_eq!(Country::BY.code(), "BY");
    assert_eq!(Country::Other.code(), "OTHER");
}

#[test]
fn proxy_address_carries_scheme_and_credentials() {
    let c = bookparsers::proxy::ProxyConfig::http("10.0.0.1:8080");
    assert_eq!(c.proxy_address(), "http://10.0.0.1:8080");
    let c = bookparsers::proxy::ProxyConfig::socks5("10.0.0.2:1080").with_credentials("u".to_string(), "p".to_string());
    assert_eq!(c.proxy_address(), "socks5://u:p@10.0.0.2:1080");
}

#[test]
fn country_codes_read_back_whatever_their_ascii_case() {
    use_country();
}

fn use_country() {
    use_country_inner(bookparsers::proxy::Country::RU, "ru");
    use_country_inner(bookparsers::proxy::Country::KZ, "Kz");
    use_country_inner(bookparsers::proxy::Country::Other, "other");
}

fn use_country_inner(c: bookparsers::proxy::Country, lower: &str) {
    assert_eq!(bookparsers::proxy::Country::from_code(c.code()), c);
    assert_eq!(bookparsers::proxy::Country::from_code(lower), c);
}
