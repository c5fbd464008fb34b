use murk::request::RequestStore;
use murk::sampling::sample_index;
use murk::specification::{Data, Operation, PathItem, Specification, TestBody};
use murk::request::FileSet;

fn two_path_spec(w0: u64, w1: u64) -> Specification {
    let entry = |name: &str, weight: u64, body: &str| {
        (
            String::from(name),
            PathItem {
                get: None,
                post: Some(Operation {
                    request_data: vec![(
                        String::from("d"),
                        Data {
                            parameters: Vec::new(),
                            body: Some(TestBody::Constant(String::from(body))),
                            weight: 1,
                        },
                    )],
                    weight,
                }),
            },
        )
    };
    Specification {
        paths: vec![entry("a", w0, "p"), entry("b", w1, "q")],
    }
}

fn compile(spec: &Specification) -> RequestStore {
    RequestStore::create_from_spec(
        String::from("http://x.test"),
        spec,
        &FileSet { entries: Vec::new() },
    )
    .unwrap()
}

#[test]
fn sample_index_picks_the_interval_of_the_draw() {
    let ws: Vec<u64> = vec![1, 3];
    assert_eq!(sample_index(&ws, 0), 0);
    assert_eq!(sample_index(&ws, 1), 1);
    assert_eq!(sample_index(&ws, 2), 1);
    assert_eq!(sample_index(&ws, 3), 1);

    let ws2: Vec<u64> = vec![2, 1, 4];
    assert_eq!(sample_index(&ws2, 0), 0);
    assert_eq!(sample_index(&ws2, 1), 0);
    assert_eq!(sample_index(&ws2, 2), 1);
    assert_eq!(sample_index(&ws2, 3), 2);
    assert_eq!(sample_index(&ws2, 6), 2);
}

#[test]
fn weighted_sampling_matches_the_distribution() {
    let store = compile(&two_path_spec(1, 3));
    let draws = 1_000_000usize;
    let picks = store.get_requests(draws);
    assert_eq!(picks.len(), draws);
    let first = picks
        .iter()
        .filter(|t| t.url.ends_with("/a"))
        .count();
    let freq = first as f64 / draws as f64;
    assert!(
        (freq - 0.25).abs() < 0.005,
        "frequency of the weight-1 template was {}",
        freq
    );
}

#[test]
fn two_to_one_weights_sample_two_thirds() {
    let store = compile(&two_path_spec(2, 1));
    let draws = 100_000usize;
    let picks = store.get_requests(draws);
    let first = picks
        .iter()
        .filter(|t| t.url.ends_with("/a"))
        .count();
    let freq = first as f64 / draws as f64;
    assert!(
        (freq - 2.0 / 3.0).abs() < 0.01,
        "frequency of the weight-2 template was {}",
        freq
    );
}

#[test]
fn single_draws_come_from_the_corpus() {
    let store = compile(&two_path_spec(1, 1));
    for _ in 0..100 {
        let t = store.get_request();
        assert!(t.url.ends_with("/a") || t.url.ends_with("/b"));
    }
}
