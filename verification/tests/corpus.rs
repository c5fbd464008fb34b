use bytes::Bytes;
use murk::request::{CompileError, FileSet, Method, RequestStore};
use murk::specification::{one, Data, Operation, PathItem, Specification, TestBody, TestParameter};

fn empty_files() -> FileSet {
    FileSet { entries: Vec::new() }
}

fn data_with_body(body: Option<TestBody>, weight: u64) -> Data {
    Data {
        parameters: Vec::new(),
        body,
        weight,
    }
}

fn post_only(op: Operation) -> PathItem {
    PathItem {
        get: None,
        post: Some(op),
    }
}

#[test]
fn fallback_corpus_is_single_get() {
    let store = RequestStore::fallback("http://x.test").unwrap();
    assert_eq!(store.len(), 1);
    let t = store.template_at(0);
    assert_eq!(t.method, Method::Get);
    assert_eq!(t.url, "http://x.test/");
    assert!(t.headers.is_empty());
    assert_eq!(t.body_len(), 0);
    assert_eq!(store.weight_at(0), 1);
}

#[test]
fn fallback_rejects_invalid_url() {
    assert_eq!(
        RequestStore::fallback("definitely not a url").unwrap_err(),
        CompileError::InvalidUrl
    );
}

#[test]
fn default_weight_is_one() {
    assert_eq!(one(), 1);
}

#[test]
fn two_paths_give_two_weighted_templates() {
    let spec = Specification {
        paths: vec![
            (
                String::from("a"),
                post_only(Operation {
                    request_data: vec![(
                        String::from("d"),
                        data_with_body(Some(TestBody::Constant(String::from("p"))), 1),
                    )],
                    weight: 2,
                }),
            ),
            (
                String::from("b"),
                post_only(Operation {
                    request_data: vec![(
                        String::from("d"),
                        data_with_body(Some(TestBody::Constant(String::from("q"))), 1),
                    )],
                    weight: 1,
                }),
            ),
        ],
    };
    let store =
        RequestStore::create_from_spec(String::from("http://x.test"), &spec, &empty_files())
            .unwrap();
    assert_eq!(store.len(), 2);
    assert_eq!(store.weight_at(0), 2);
    assert_eq!(store.weight_at(1), 1);
    assert_eq!(store.template_at(0).url, "http://x.test/a");
    assert_eq!(store.template_at(1).url, "http://x.test/b");
    assert_eq!(store.template_at(0).method, Method::Post);
    assert_eq!(store.template_at(0).body, Bytes::from("p".as_bytes().to_vec()));
    assert_eq!(store.template_at(1).body, Bytes::from("q".as_bytes().to_vec()));
    assert_eq!(store.template_at(0).body_len(), 1);
}

#[test]
fn external_directory_gives_one_template_per_file() {
    let spec = Specification {
        paths: vec![(
            String::from("upload"),
            post_only(Operation {
                request_data: vec![(
                    String::from("corpus"),
                    data_with_body(Some(TestBody::External(String::from("/tmp/corpus"))), 1),
                )],
                weight: 1,
            }),
        )],
    };
    let files = FileSet {
        entries: vec![(
            String::from("/tmp/corpus"),
            vec![
                Bytes::from(vec![1u8; 10]),
                Bytes::from(vec![2u8; 20]),
                Bytes::from(vec![3u8; 30]),
            ],
        )],
    };
    let store =
        RequestStore::create_from_spec(String::from("http://x.test"), &spec, &files).unwrap();
    assert_eq!(store.len(), 3);
    assert_eq!(store.weight_at(0), 1);
    assert_eq!(store.weight_at(1), 1);
    assert_eq!(store.weight_at(2), 1);
    let mut lens = vec![
        store.template_at(0).body_len(),
        store.template_at(1).body_len(),
        store.template_at(2).body_len(),
    ];
    lens.sort();
    assert_eq!(lens, vec![10, 20, 30]);
}

#[test]
fn missing_external_body_is_reported() {
    let spec = Specification {
        paths: vec![(
            String::from("upload"),
            post_only(Operation {
                request_data: vec![(
                    String::from("corpus"),
                    data_with_body(Some(TestBody::External(String::from("/tmp/absent"))), 1),
                )],
                weight: 1,
            }),
        )],
    };
    let r = RequestStore::create_from_spec(String::from("http://x.test"), &spec, &empty_files());
    assert_eq!(r.unwrap_err(), CompileError::MissingBody);
}

#[test]
fn empty_specification_is_rejected() {
    let spec = Specification { paths: Vec::new() };
    let r = RequestStore::create_from_spec(String::from("http://x.test"), &spec, &empty_files());
    assert_eq!(r.unwrap_err(), CompileError::EmptyCorpus);
}

#[test]
fn operation_without_data_gives_empty_corpus() {
    let spec = Specification {
        paths: vec![(
            String::from("a"),
            post_only(Operation {
                request_data: Vec::new(),
                weight: 1,
            }),
        )],
    };
    let r = RequestStore::create_from_spec(String::from("http://x.test"), &spec, &empty_files());
    assert_eq!(r.unwrap_err(), CompileError::EmptyCorpus);
}

#[test]
fn invalid_base_url_is_rejected() {
    let spec = Specification { paths: Vec::new() };
    let r = RequestStore::create_from_spec(String::from("no scheme here"), &spec, &empty_files());
    assert_eq!(r.unwrap_err(), CompileError::InvalidUrl);
}

#[test]
fn header_parameters_are_applied_in_order() {
    let spec = Specification {
        paths: vec![(
            String::from("a"),
            post_only(Operation {
                request_data: vec![(
                    String::from("d"),
                    Data {
                        parameters: vec![
                            TestParameter::Header {
                                name: String::from("x-first"),
                                value: String::from("1"),
                            },
                            TestParameter::Header {
                                name: String::from("x-second"),
                                value: String::from("2"),
                            },
                        ],
                        body: None,
                        weight: 1,
                    },
                )],
                weight: 1,
            }),
        )],
    };
    let store =
        RequestStore::create_from_spec(String::from("http://x.test"), &spec, &empty_files())
            .unwrap();
    let t = store.template_at(0);
    assert_eq!(t.headers.len(), 2);
    assert_eq!(t.headers[0], (String::from("x-first"), String::from("1")));
    assert_eq!(t.headers[1], (String::from("x-second"), String::from("2")));
    assert_eq!(t.body_len(), 0);
}

#[test]
fn invalid_header_name_aborts_compilation() {
    let spec = Specification {
        paths: vec![(
            String::from("a"),
            post_only(Operation {
                request_data: vec![(
                    String::from("d"),
                    Data {
                        parameters: vec![TestParameter::Header {
                            name: String::from("bad header name"),
                            value: String::from("v"),
                        }],
                        body: None,
                        weight: 1,
                    },
                )],
                weight: 1,
            }),
        )],
    };
    let r = RequestStore::create_from_spec(String::from("http://x.test"), &spec, &empty_files());
    assert_eq!(r.unwrap_err(), CompileError::InvalidHeaderName);
}

#[test]
fn invalid_header_value_aborts_compilation() {
    let spec = Specification {
        paths: vec![(
            String::from("a"),
            post_only(Operation {
                request_data: vec![(
                    String::from("d"),
                    Data {
                        parameters: vec![TestParameter::Header {
                            name: String::from("x-ok"),
                            value: String::from("bad\nvalue"),
                        }],
                        body: None,
                        weight: 1,
                    },
                )],
                weight: 1,
            }),
        )],
    };
    let r = RequestStore::create_from_spec(String::from("http://x.test"), &spec, &empty_files());
    assert_eq!(r.unwrap_err(), CompileError::InvalidHeaderValue);
}

#[test]
fn path_parameter_extends_the_url() {
    let spec = Specification {
        paths: vec![(
            String::from("api"),
            post_only(Operation {
                request_data: vec![(
                    String::from("d"),
                    Data {
                        parameters: vec![TestParameter::Path(String::from("v1"))],
                        body: None,
                        weight: 1,
                    },
                )],
                weight: 1,
            }),
        )],
    };
    let store =
        RequestStore::create_from_spec(String::from("http://x.test"), &spec, &empty_files())
            .unwrap();
    assert_eq!(store.template_at(0).url, "http://x.test/api/v1");
}

#[test]
fn path_parameter_on_cannot_be_a_base_url_is_rejected() {
    let spec = Specification {
        paths: vec![(
            String::from("mailto:someone@x.test"),
            post_only(Operation {
                request_data: vec![(
                    String::from("d"),
                    Data {
                        parameters: vec![TestParameter::Path(String::from("seg"))],
                        body: None,
                        weight: 1,
                    },
                )],
                weight: 1,
            }),
        )],
    };
    let r = RequestStore::create_from_spec(String::from("http://x.test"), &spec, &empty_files());
    assert_eq!(r.unwrap_err(), CompileError::CannotBeBase);
}

#[test]
fn query_parameter_extends_the_query_string() {
    let spec = Specification {
        paths: vec![(
            String::from("search"),
            post_only(Operation {
                request_data: vec![(
                    String::from("d"),
                    Data {
                        parameters: vec![TestParameter::Query {
                            name: String::from("q"),
                            value: String::from("abc"),
                        }],
                        body: None,
                        weight: 1,
                    },
                )],
                weight: 1,
            }),
        )],
    };
    let store =
        RequestStore::create_from_spec(String::from("http://x.test"), &spec, &empty_files())
            .unwrap();
    assert_eq!(store.template_at(0).url, "http://x.test/search?q=abc");
}

#[test]
fn zero_weight_is_rejected() {
    let spec = Specification {
        paths: vec![(
            String::from("a"),
            post_only(Operation {
                request_data: vec![(String::from("d"), data_with_body(None, 0))],
                weight: 1,
            }),
        )],
    };
    let r = RequestStore::create_from_spec(String::from("http://x.test"), &spec, &empty_files());
    assert_eq!(r.unwrap_err(), CompileError::InvalidWeight);
}

#[test]
fn weight_product_overflow_is_rejected() {
    let spec = Specification {
        paths: vec![(
            String::from("a"),
            post_only(Operation {
                request_data: vec![(String::from("d"), data_with_body(None, u64::MAX))],
                weight: 2,
            }),
        )],
    };
    let r = RequestStore::create_from_spec(String::from("http://x.test"), &spec, &empty_files());
    assert_eq!(r.unwrap_err(), CompileError::WeightOverflow);
}

#[test]
fn get_and_post_both_contribute_in_order() {
    let item = PathItem {
        get: Some(Operation {
            request_data: vec![(String::from("g"), data_with_body(None, 1))],
            weight: 3,
        }),
        post: Some(Operation {
            request_data: vec![(String::from("p"), data_with_body(None, 1))],
            weight: 5,
        }),
    };
    let spec = Specification {
        paths: vec![(String::from("a"), item)],
    };
    let store =
        RequestStore::create_from_spec(String::from("http://x.test"), &spec, &empty_files())
            .unwrap();
    assert_eq!(store.len(), 2);
    assert_eq!(store.template_at(0).method, Method::Get);
    assert_eq!(store.weight_at(0), 3);
    assert_eq!(store.template_at(1).method, Method::Post);
    assert_eq!(store.weight_at(1), 5);
}

#[test]
fn external_paths_are_collected_in_order() {
    let spec = Specification {
        paths: vec![(
            String::from("a"),
            PathItem {
                get: Some(Operation {
                    request_data: vec![(
                        String::from("g"),
                        data_with_body(Some(TestBody::External(String::from("/one"))), 1),
                    )],
                    weight: 1,
                }),
                post: Some(Operation {
                    request_data: vec![
                        (
                            String::from("p1"),
                            data_with_body(Some(TestBody::Constant(String::from("c"))), 1),
                        ),
                        (
                            String::from("p2"),
                            data_with_body(Some(TestBody::External(String::from("/two"))), 1),
                        ),
                    ],
                    weight: 1,
                }),
            },
        )],
    };
    assert_eq!(
        spec.external_paths(),
        vec![String::from("/one"), String::from("/two")]
    );
}

#[test]
fn shared_body_buffer_is_not_copied() {
    let body = Bytes::from(vec![9u8; 64]);
    let files = FileSet {
        entries: vec![(String::from("/blob"), vec![body.clone()])],
    };
    let spec = Specification {
        paths: vec![(
            String::from("a"),
            post_only(Operation {
                request_data: vec![(
                    String::from("d"),
                    data_with_body(Some(TestBody::External(String::from("/blob"))), 1),
                )],
                weight: 1,
            }),
        )],
    };
    let store =
        RequestStore::create_from_spec(String::from("http://x.test"), &spec, &files).unwrap();
    assert_eq!(store.template_at(0).body, body);
    assert_eq!(store.template_at(0).body_len(), 64);
}
