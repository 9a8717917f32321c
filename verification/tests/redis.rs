use cello::redis::{MockRedisClient, RedisConfig, RedisError, RedisPoolMetrics, RedisValue};
use cello::time::Duration;

#[test]
fn test_redis_config() {
    let config = RedisConfig::new("redis://localhost:6379")
        .pool_size(20)
        .cluster_mode(false)
        .default_ttl(3600)
        .database(1)
        .key_prefix("myapp");

    assert_eq!(config.url, "redis://localhost:6379");
    assert_eq!(config.pool_size, 20);
    assert!(!config.cluster_mode);
    assert_eq!(config.default_ttl, Some(3600));
    assert_eq!(config.database, 1);
    assert_eq!(config.key_prefix, Some("myapp".to_string()));
}

#[test]
fn pool_metrics_track_peak() {
    let mut m = RedisPoolMetrics::default();
    m.record_connection();
    m.record_connection();
    m.release_connection();
    m.record_connection();
    assert_eq!(m.total_connections, 3);
    assert_eq!(m.active_connections, 2);
    assert_eq!(m.idle_connections, 1);
    assert_eq!(m.peak_active, 2);
    m.record_command(7, true);
    m.record_get(false);
    assert_eq!(m.total_errors, 1);
    assert_eq!(m.command_time_sum_ms, 7);
    assert_eq!(m.cache_misses, 1);
}

#[test]
fn redis_error_messages() {
    assert_eq!(RedisError::NotFound("k".to_string()).to_string(), "Redis key not found: k");
    assert_eq!(RedisError::Timeout.to_string(), "Redis connection timeout");
}

#[test]
fn test_mock_redis_basic_ops() {
    let mut client = MockRedisClient::new(RedisConfig::default());

    // Set and get
    client.set("key1", RedisValue::String("value1".to_string()), None).unwrap();
    let result = client.get("key1").unwrap();
    assert!(result.is_some());
    assert_eq!(result.unwrap().as_str(), Some("value1"));

    // Delete
    assert!(client.delete("key1").unwrap());
    assert!(client.get("key1").unwrap().is_none());

    // Exists
    client.set("key2", RedisValue::Integer(42), None).unwrap();
    assert!(client.key_exists("key2").unwrap());
    assert!(!client.key_exists("key3").unwrap());
}

#[test]
fn test_mock_redis_incr_decr() {
    let mut client = MockRedisClient::new(RedisConfig::default());

    assert_eq!(client.incr("counter").unwrap(), 1);
    assert_eq!(client.incr("counter").unwrap(), 2);
    assert_eq!(client.decr("counter").unwrap(), 1);
}

#[test]
fn test_mock_redis_hash() {
    let mut client = MockRedisClient::new(RedisConfig::default());

    client.hset("user:1", "name", RedisValue::String("Alice".to_string())).unwrap();
    client.hset("user:1", "age", RedisValue::Integer(30)).unwrap();

    let name = client.hget("user:1", "name").unwrap();
    assert_eq!(name.unwrap().as_str(), Some("Alice"));

    let all = client.hgetall("user:1").unwrap();
    assert_eq!(all.len(), 2);
}

#[test]
fn test_mock_redis_list() {
    let mut client = MockRedisClient::new(RedisConfig::default());

    client.rpush("queue", RedisValue::String("first".to_string())).unwrap();
    client.rpush("queue", RedisValue::String("second".to_string())).unwrap();
    client.lpush("queue", RedisValue::String("zero".to_string())).unwrap();

    let range = client.lrange("queue", 0, -1).unwrap();
    assert_eq!(range.len(), 3);

    let popped = client.lpop("queue").unwrap();
    assert_eq!(popped.unwrap().as_str(), Some("zero"));
}

#[test]
fn test_mock_redis_stats() {
    let mut client = MockRedisClient::new(RedisConfig::default());

    client.set("k1", RedisValue::String("v1".to_string()), None).unwrap();
    client.get("k1").unwrap();
    client.get("missing").unwrap();

    let stats = client.stats();
    assert_eq!(stats.total_keys_set, 1);
    assert_eq!(stats.total_keys_get, 2);
    let ratio = stats.cache_hits as f64 / (stats.cache_hits + stats.cache_misses) as f64;
    assert!(ratio > 0.0);
}

#[test]
fn mock_redis_expiry_and_kinds() {
    let mut client = MockRedisClient::new(RedisConfig::default());
    client.set_at("s", RedisValue::String("x".to_string()), Some(Duration::from_secs(1)), 0, 0).unwrap();
    assert!(client.exists_at("s", 1_000_000_000).unwrap());
    assert!(!client.exists_at("s", 1_000_000_001).unwrap());
    assert!(client.get_at("s", 0, 0).unwrap().is_none());
    // a string key is no list and no set
    client.set_at("t", RedisValue::String("x".to_string()), None, 0, 0).unwrap();
    assert_eq!(client.rpush("t", RedisValue::Nil).unwrap_err().to_string(), "Redis command error: Key is not a list");
    assert_eq!(client.sadd("t", RedisValue::Nil).unwrap_err().to_string(), "Redis command error: Key is not a set");
    // sets keep one copy of a string
    assert!(client.sadd("tags", RedisValue::String("a".to_string())).unwrap());
    assert!(!client.sadd("tags", RedisValue::String("a".to_string())).unwrap());
    assert_eq!(client.smembers("tags").unwrap().len(), 1);
    // ranges count from the end with negative bounds
    for i in 0..5 {
        client.rpush("l", RedisValue::Integer(i)).unwrap();
    }
    let mid: Vec<Option<i64>> = client.lrange("l", 1, -2).unwrap().iter().map(|v| v.as_i64()).collect();
    assert_eq!(mid, vec![Some(1), Some(2), Some(3)]);
    assert!(client.lrange("l", 4, 2).unwrap().is_empty());
    assert!(client.lrange("missing", 0, -1).unwrap().is_empty());
    // several keys at once
    client.mset(&[("a", RedisValue::Integer(1)), ("b", RedisValue::Bytes(vec![7]))]).unwrap();
    let got = client.mget(&["a", "b", "c"]).unwrap();
    assert_eq!(got[0].as_ref().and_then(|v| v.as_i64()), Some(1));
    assert_eq!(got[1].as_ref().and_then(|v| v.as_bytes()), Some(&[7u8][..]));
    assert!(got[2].is_none());
    assert_eq!(RedisValue::String("hi".to_string()).as_bytes(), Some(&b"hi"[..]));
    assert!(RedisValue::Nil.is_nil());
    assert!(client.expire_at("a", Duration::from_secs(5), 0).unwrap());
    assert!(!client.expire_at("zzz", Duration::from_secs(5), 0).unwrap());
    assert_eq!(client.publish("ch", "m").unwrap(), 0);
}
