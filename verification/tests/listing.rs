use aws_ecs_exporter::lister::{ListStep, Lister, Page};

fn ids(from: usize, to: usize) -> Vec<String> {
    (from..to).map(|i| format!("arn:service/{}", i)).collect()
}

fn page(identifiers: Vec<String>, next_token: Option<&str>) -> Page {
    Page { identifiers, next_token: next_token.map(|t| t.to_string()) }
}

/// Runs a lister over the responses and returns the tokens it asked with and
/// how it ended.
fn run(responses: Vec<Result<Page, String>>) -> (Vec<Option<String>>, Result<Vec<String>, String>) {
    let mut tokens = Vec::new();
    let mut lister = Lister::new();
    for response in responses {
        tokens.push(lister.next_token());
        match lister.accept(response) {
            Ok(ListStep::Continue(next)) => lister = next,
            Ok(ListStep::Finished(identifiers)) => return (tokens, Ok(identifiers)),
            Err(error) => return (tokens, Err(error)),
        }
    }
    panic!("the responses ran out before the listing ended");
}

#[test]
fn first_call_carries_no_token() {
    let lister = Lister::new();
    assert_eq!(lister.next_token(), None);
}

#[test]
fn single_page_finishes_after_one_call() {
    let (tokens, result) = run(vec![Ok(page(ids(0, 3), None)), Ok(page(ids(3, 6), None))]);
    assert_eq!(tokens, vec![None]);
    assert_eq!(result, Ok(ids(0, 3)));
}

#[test]
fn pages_are_joined_in_page_order() {
    let (tokens, result) = run(vec![
        Ok(page(ids(0, 10), Some("t1"))),
        Ok(page(ids(10, 20), Some("t2"))),
        Ok(page(ids(20, 22), None)),
    ]);
    assert_eq!(tokens, vec![None, Some("t1".to_string()), Some("t2".to_string())]);
    assert_eq!(result, Ok(ids(0, 22)));
}

#[test]
fn empty_page_with_token_goes_on() {
    let (tokens, result) = run(vec![
        Ok(page(vec![], Some("a"))),
        Ok(page(ids(0, 2), Some("b"))),
        Ok(page(vec![], None)),
    ]);
    assert_eq!(tokens.len(), 3);
    assert_eq!(tokens[1], Some("a".to_string()));
    assert_eq!(tokens[2], Some("b".to_string()));
    assert_eq!(result, Ok(ids(0, 2)));
}

#[test]
fn empty_last_page_gives_empty_listing() {
    let (tokens, result) = run(vec![Ok(page(vec![], None))]);
    assert_eq!(tokens, vec![None]);
    assert_eq!(result, Ok(vec![]));
}

#[test]
fn failure_on_first_page_fails_the_listing() {
    let (tokens, result) = run(vec![Err("denied".to_string())]);
    assert_eq!(tokens, vec![None]);
    assert_eq!(result, Err("denied".to_string()));
}

#[test]
fn failure_on_later_page_returns_no_partial_listing() {
    let (tokens, result) = run(vec![
        Ok(page(ids(0, 10), Some("t1"))),
        Err("throttled".to_string()),
        Ok(page(ids(10, 12), None)),
    ]);
    assert_eq!(tokens, vec![None, Some("t1".to_string())]);
    assert_eq!(result, Err("throttled".to_string()));
}

#[test]
fn duplicate_identifiers_are_kept() {
    let (_, result) = run(vec![
        Ok(page(vec!["a".to_string(), "b".to_string()], Some("t"))),
        Ok(page(vec!["a".to_string()], None)),
    ]);
    assert_eq!(result, Ok(vec!["a".to_string(), "b".to_string(), "a".to_string()]));
}
