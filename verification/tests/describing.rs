use aws_ecs_exporter::describer::{
    DescribeResponse, DescribeStep, Described, Describer, Failure, BATCH_LIMIT,
};

fn ids(count: usize) -> Vec<String> {
    (0..count).map(|i| format!("id-{}", i)).collect()
}

fn named_failure(arn: &str) -> Failure {
    Failure {
        arn: Some(arn.to_string()),
        reason: Some("MISSING".to_string()),
        detail: None,
    }
}

/// Describes `identifiers` with a call that resolves every identifier to
/// itself, except those in `missing`, which it names as failed, and that
/// fails as a whole on the call numbered `failing`. Returns the batches asked
/// for and the outcome.
fn run(
    identifiers: Vec<String>,
    missing: &[&str],
    failing: Option<usize>,
) -> (Vec<Vec<String>>, Result<Described<String>, String>) {
    let mut batches = Vec::new();
    let mut step = Describer::<String>::begin(identifiers);
    loop {
        let describer = match step {
            DescribeStep::Continue(describer) => describer,
            DescribeStep::Finished(described) => return (batches, Ok(described)),
        };
        let batch = describer.batch();
        let call = batches.len();
        batches.push(batch.clone());
        let response = if failing == Some(call) {
            Err(format!("call {} failed", call))
        } else {
            let mut records = Vec::new();
            let mut failures = Vec::new();
            for id in batch {
                if missing.contains(&id.as_str()) {
                    failures.push(named_failure(&id));
                } else {
                    records.push(id);
                }
            }
            Ok(DescribeResponse { records, failures })
        };
        match describer.accept(response) {
            Ok(next) => step = next,
            Err(error) => return (batches, Err(error)),
        }
    }
}

#[test]
fn batch_limit_is_ten() {
    assert_eq!(BATCH_LIMIT, 10);
}

#[test]
fn no_identifier_takes_no_call() {
    let (batches, outcome) = run(vec![], &[], None);
    assert!(batches.is_empty());
    let described = outcome.unwrap();
    assert!(described.records.is_empty());
    assert!(described.failures.is_empty());
}

#[test]
fn one_identifier_takes_one_call() {
    let (batches, outcome) = run(ids(1), &[], None);
    assert_eq!(batches, vec![ids(1)]);
    assert_eq!(outcome.unwrap().records, ids(1));
}

#[test]
fn ten_identifiers_take_one_call() {
    let (batches, outcome) = run(ids(10), &[], None);
    assert_eq!(batches, vec![ids(10)]);
    assert_eq!(outcome.unwrap().records, ids(10));
}

#[test]
fn eleven_identifiers_take_two_calls() {
    let (batches, outcome) = run(ids(11), &[], None);
    assert_eq!(batches.len(), 2);
    assert_eq!(batches[0], ids(10));
    assert_eq!(batches[1], vec!["id-10".to_string()]);
    assert_eq!(outcome.unwrap().records, ids(11));
}

#[test]
fn twenty_five_identifiers_take_three_calls_in_order() {
    let all = ids(25);
    let (batches, outcome) = run(all.clone(), &[], None);
    assert_eq!(batches.len(), 3);
    assert_eq!(batches[0], all[0..10].to_vec());
    assert_eq!(batches[1], all[10..20].to_vec());
    assert_eq!(batches[2], all[20..25].to_vec());
    assert_eq!(outcome.unwrap().records, all);
}

#[test]
fn call_count_is_the_count_over_ten_rounded_up() {
    for count in 0..45usize {
        let (batches, outcome) = run(ids(count), &[], None);
        assert_eq!(batches.len(), (count + 9) / 10);
        assert!(batches.iter().all(|b| !b.is_empty() && b.len() <= 10));
        assert_eq!(batches.concat(), ids(count));
        assert_eq!(outcome.unwrap().records, ids(count));
    }
}

#[test]
fn eight_successes_and_two_named_failures_give_eight_records() {
    let (batches, outcome) = run(ids(10), &["id-3", "id-7"], None);
    assert_eq!(batches.len(), 1);
    let described = outcome.unwrap();
    let expected: Vec<String> =
        ids(10).into_iter().filter(|id| id != "id-3" && id != "id-7").collect();
    assert_eq!(described.records.len(), 8);
    assert_eq!(described.records, expected);
    assert_eq!(described.failures.len(), 2);
    assert_eq!(described.failures[0].arn.as_deref(), Some("id-3"));
    assert_eq!(described.failures[1].arn.as_deref(), Some("id-7"));
    assert_eq!(described.failures[0].reason.as_deref(), Some("MISSING"));
    assert_eq!(described.failures[0].detail, None);
}

#[test]
fn named_failures_of_every_batch_are_set_aside() {
    let (batches, outcome) = run(ids(12), &["id-0", "id-11"], None);
    assert_eq!(batches.len(), 2);
    let described = outcome.unwrap();
    assert_eq!(described.records, ids(12)[1..11].to_vec());
    assert_eq!(described.failures.len(), 2);
    assert_eq!(described.failures[1].arn.as_deref(), Some("id-11"));
}

#[test]
fn a_batch_of_only_named_failures_does_not_fail() {
    let (_, outcome) = run(vec!["x".to_string()], &["x"], None);
    let described = outcome.unwrap();
    assert!(described.records.is_empty());
    assert_eq!(described.failures.len(), 1);
}

#[test]
fn failed_first_call_fails_the_description() {
    let (batches, outcome) = run(ids(5), &[], Some(0));
    assert_eq!(batches.len(), 1);
    assert_eq!(outcome.unwrap_err(), "call 0 failed");
}

#[test]
fn failed_later_call_returns_no_record_of_earlier_batches() {
    let (batches, outcome) = run(ids(25), &[], Some(1));
    assert_eq!(batches.len(), 2);
    match outcome {
        Ok(_) => panic!("the description must fail"),
        Err(error) => assert_eq!(error, "call 1 failed"),
    }
}

#[test]
fn records_may_differ_in_number_from_identifiers() {
    let step = Describer::<u32>::begin(ids(2));
    let describer = match step {
        DescribeStep::Continue(describer) => describer,
        DescribeStep::Finished(_) => panic!("two identifiers need a call"),
    };
    assert_eq!(describer.batch(), ids(2));
    let next = describer
        .accept::<String>(Ok(DescribeResponse { records: vec![7, 8, 9], failures: vec![] }))
        .unwrap();
    match next {
        DescribeStep::Finished(described) => assert_eq!(described.records, vec![7, 8, 9]),
        DescribeStep::Continue(_) => panic!("one batch was all"),
    }
}
