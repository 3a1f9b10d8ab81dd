use std::collections::BTreeMap;

use turn_control::metrics::turn_memory_metric;
use turn_control::metrics::turn_network_proxy_metric;
use turn_control::metrics::CounterPoint;

fn metric_point(point: CounterPoint) -> (BTreeMap<String, String>, u64) {
    let count = point.attributes.len();
    let attributes: BTreeMap<String, String> = point.attributes.into_iter().collect();
    assert_eq!(attributes.len(), count);
    (attributes, point.value)
}

#[test]
fn emit_turn_network_proxy_metric_records_active_turn() {
    let point = turn_network_proxy_metric(
        /*network_proxy_active*/ true,
        ("tmp_mem_enabled", "true"),
    );
    let (attrs, value) = metric_point(point);

    assert_eq!(value, 1);
    assert_eq!(
        attrs,
        BTreeMap::from([
            ("active".to_string(), "true".to_string()),
            ("tmp_mem_enabled".to_string(), "true".to_string()),
        ])
    );
}

#[test]
fn emit_turn_network_proxy_metric_records_inactive_turn() {
    let point = turn_network_proxy_metric(
        /*network_proxy_active*/ false,
        ("tmp_mem_enabled", "false"),
    );
    let (attrs, value) = metric_point(point);

    assert_eq!(value, 1);
    assert_eq!(
        attrs,
        BTreeMap::from([
            ("active".to_string(), "false".to_string()),
            ("tmp_mem_enabled".to_string(), "false".to_string()),
        ])
    );
}

#[test]
fn emit_turn_memory_metric_records_read_allowed_with_citations() {
    let point = turn_memory_metric(
        /*feature_enabled*/ true, /*config_enabled*/ true, /*has_citations*/ true,
    );
    let (attrs, value) = metric_point(point);

    assert_eq!(value, 1);
    assert_eq!(
        attrs,
        BTreeMap::from([
            ("config_use_memories".to_string(), "true".to_string()),
            ("feature_enabled".to_string(), "true".to_string()),
            ("has_citations".to_string(), "true".to_string()),
            ("read_allowed".to_string(), "true".to_string()),
        ])
    );
}

#[test]
fn emit_turn_memory_metric_records_config_disabled_without_citations() {
    let point = turn_memory_metric(
        /*feature_enabled*/ true, /*config_enabled*/ false, /*has_citations*/ false,
    );
    let (attrs, value) = metric_point(point);

    assert_eq!(value, 1);
    assert_eq!(
        attrs,
        BTreeMap::from([
            ("config_use_memories".to_string(), "false".to_string()),
            ("feature_enabled".to_string(), "true".to_string()),
            ("has_citations".to_string(), "false".to_string()),
            ("read_allowed".to_string(), "false".to_string()),
        ])
    );
}
