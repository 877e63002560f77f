use bge_embed_rs::server::{
    batch_permits_from_env, headless, indices_form_a_permutation, skips_batch_limit, listen_address, order_by_index, parallel_from_env, position_ids, truncation_limit, worker_count,
    EmbeddingInput,
};
use bge_embed_rs::text::{decimal_string, parse_usize_str};

#[test]
fn keeps_input_order_under_parallelism() {
    let inputs: Vec<String> = (0..40).map(|i| i.to_string()).collect();
    let workers = worker_count(4, inputs.len());
    assert_eq!(workers, 4);
    // Worker w takes inputs w, w + workers, ...; their results arrive worker by worker.
    let mut parts: Vec<(usize, Vec<u64>)> = Vec::new();
    for w in (0..workers).rev() {
        for i in (w..inputs.len()).step_by(workers) {
            let n: u64 = inputs[i].parse().unwrap();
            parts.push((i, vec![n]));
        }
    }
    let out = order_by_index(parts);
    let got: Vec<u64> = out.iter().map(|v| v[0]).collect();
    assert_eq!(got, (0..40).collect::<Vec<u64>>());
}

#[test]
fn order_by_index_empty() {
    let out: Vec<u8> = order_by_index(Vec::new());
    assert!(out.is_empty());
}

#[test]
fn worker_count_bounds() {
    assert_eq!(worker_count(4, 0), 1);
    assert_eq!(worker_count(4, 2), 2);
    assert_eq!(worker_count(0, 5), 1);
    assert_eq!(worker_count(3, 10), 3);
}

#[test]
fn into_vec_keeps_order() {
    assert_eq!(EmbeddingInput::One("a".into()).into_vec(), vec!["a".to_string()]);
    assert_eq!(
        EmbeddingInput::Many(vec!["x".into(), "y".into()]).into_vec(),
        vec!["x".to_string(), "y".to_string()]
    );
}

#[test]
fn parallel_setting() {
    assert_eq!(parallel_from_env(None), 4);
    assert_eq!(parallel_from_env(Some("6")), 6);
    assert_eq!(parallel_from_env(Some("+2")), 2);
    assert_eq!(parallel_from_env(Some("0")), 4);
    assert_eq!(parallel_from_env(Some("four")), 4);
    assert_eq!(parallel_from_env(Some("")), 4);
    assert_eq!(parallel_from_env(Some(" 3")), 4);
    assert_eq!(parallel_from_env(Some("99999999999999999999999")), 4);
}

#[test]
fn parse_matches_std() {
    for s in ["0", "12", "+7", "+", "-1", "", "1a", "18446744073709551615", "18446744073709551616", "007"] {
        assert_eq!(parse_usize_str(s), s.parse::<usize>().ok(), "{s}");
    }
}

#[test]
fn decimal_matches_to_string() {
    for n in [0u64, 7, 10, 99, 100, 1234567890, u64::MAX] {
        assert_eq!(decimal_string(n), n.to_string());
    }
}

#[test]
fn listen_address_defaults() {
    assert_eq!(listen_address(None, None), "127.0.0.1:11435");
    assert_eq!(listen_address(Some("0.0.0.0"), Some("8000")), "0.0.0.0:8000");
}

#[test]
fn positions_follow_padding() {
    assert_eq!(position_ids(3, 1), vec![2, 3, 4]);
    assert!(position_ids(0, 1).is_empty());
    assert_eq!(truncation_limit(8194), 8192);
    let ids = position_ids(truncation_limit(8194), 1);
    assert_eq!(*ids.last().unwrap(), 8193);
}

#[test]
fn short_single_queries_skip_the_batch_limit() {
    assert!(skips_batch_limit(&vec!["kisa metin".to_string()]));
    assert!(!skips_batch_limit(&vec!["a".to_string(), "b".to_string()]));
    assert!(!skips_batch_limit(&vec!["x".repeat(512)]));
    assert!(skips_batch_limit(&vec!["\u{e7}".repeat(511)]));
    assert!(!skips_batch_limit(&Vec::new()));
}

#[test]
fn batch_permits_default_one() {
    assert_eq!(batch_permits_from_env(None), 1);
    assert_eq!(batch_permits_from_env(Some("999")), 999);
    assert_eq!(batch_permits_from_env(Some("0")), 1);
    assert_eq!(batch_permits_from_env(Some("x")), 1);
}

#[test]
fn headless_by_flag_or_env() {
    let args = vec!["bge-embed-rs".to_string(), "--headless".to_string()];
    assert!(headless(&args, None));
    let plain = vec!["bge-embed-rs".to_string()];
    assert!(!headless(&plain, None));
    assert!(headless(&plain, Some("1")));
    assert!(!headless(&plain, Some("0")));
}

#[test]
fn permutation_check_accepts_each_index_once() {
    let parts: Vec<(usize, u8)> = vec![(2, 20), (0, 0), (1, 10)];
    assert!(indices_form_a_permutation(&parts));
    assert_eq!(order_by_index(parts), vec![0, 10, 20]);
    let empty: Vec<(usize, u8)> = Vec::new();
    assert!(indices_form_a_permutation(&empty));
    assert!(!indices_form_a_permutation(&vec![(0usize, 1u8), (0, 2)]));
    assert!(!indices_form_a_permutation(&vec![(0usize, 1u8), (2, 2)]));
}
