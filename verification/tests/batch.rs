use opc_da_client::connector::batch::{BatchedNames, NameBatchSource};
use opc_da_client::error::{OpcErrorOf, OpcResult};

/// An enumeration of `items` that reports `extra_nulls` empty entries after each
/// non-empty batch, as some servers do.
struct Enumeration {
    items: Vec<String>,
    index: usize,
    extra_nulls: usize,
    fail_after: Option<usize>,
}

impl NameBatchSource for Enumeration {
    fn fetch(&mut self, capacity: usize) -> OpcResult<Vec<Option<OpcResult<String>>>> {
        if let Some(limit) = self.fail_after {
            if self.index >= limit {
                return Err(OpcErrorOf::Com { hresult: 0x8000_4005 });
            }
        }
        let mut batch: Vec<Option<OpcResult<String>>> = Vec::new();
        while batch.len() < capacity && self.index < self.items.len() {
            batch.push(Some(Ok(self.items[self.index].clone())));
            self.index += 1;
        }
        if !batch.is_empty() {
            for _ in 0..self.extra_nulls {
                if batch.len() < capacity {
                    batch.push(None);
                }
            }
        }
        Ok(batch)
    }
}

fn drain(mut names: BatchedNames<Enumeration>) -> Vec<OpcResult<String>> {
    let mut out = Vec::new();
    while let Some(r) = names.next_id() {
        out.push(r);
    }
    out
}

#[test]
fn test_string_iterator_no_phantom_errors() {
    let items = vec!["Item1".to_string(), "Item2".to_string(), "Item3".to_string()];
    let names = BatchedNames::new(Enumeration { items: items.clone(), index: 0, extra_nulls: 0, fail_after: None });

    let mut results = Vec::new();
    for item in drain(names) {
        let value = item.expect("Expected OK value, got phantom error");
        results.push(value);
    }

    assert_eq!(results, items);
}

#[test]
fn test_string_iterator_null_entries_skipped() {
    let items = vec!["Alpha".to_string(), "Beta".to_string(), "Gamma".to_string()];
    let names = BatchedNames::new(Enumeration { items: items.clone(), index: 0, extra_nulls: 5, fail_after: None });

    let mut results = Vec::new();
    for item in drain(names) {
        let value = item.expect("Expected OK value, got phantom error from null entry");
        results.push(value);
    }

    assert_eq!(results, items, "Only valid items should be yielded, nulls skipped");
}

#[test]
fn test_string_iterator_empty() {
    let names = BatchedNames::new(Enumeration { items: Vec::new(), index: 0, extra_nulls: 0, fail_after: None });
    let results: Vec<_> = drain(names).into_iter().collect::<Result<Vec<_>, _>>().unwrap();
    assert!(results.is_empty(), "Empty iterator should yield no items");
}

#[test]
fn batches_larger_than_the_cache_are_read_in_turn() {
    let items: Vec<String> = (0..600).map(|i| format!("Tag.{i}")).collect();
    let names = BatchedNames::new(Enumeration { items: items.clone(), index: 0, extra_nulls: 3, fail_after: None });
    let results: Vec<String> = drain(names).into_iter().map(Result::unwrap).collect();
    assert_eq!(results, items);
}

#[test]
fn a_failed_fetch_is_reported_once_and_ends_the_enumeration() {
    let items: Vec<String> = (0..300).map(|i| format!("Tag.{i}")).collect();
    let mut names = BatchedNames::new(Enumeration { items, index: 0, extra_nulls: 0, fail_after: Some(256) });
    let mut ok = 0;
    let mut errors = 0;
    while let Some(r) = names.next_id() {
        if r.is_ok() {
            ok += 1;
        } else {
            errors += 1;
        }
    }
    assert_eq!((ok, errors), (256, 1));
    assert!(names.done);
    assert!(names.next_id().is_none());
}

#[test]
fn absorbing_a_batch_hands_out_its_first_present_entry_and_keeps_the_rest() {
    let mut names = BatchedNames::new(Enumeration { items: Vec::new(), index: 0, extra_nulls: 0, fail_after: None });
    let batch = vec![None, Some(Ok("A".to_string())), None, Some(Ok("B".to_string()))];
    let got = names.absorb_fetch(Ok(batch));
    assert!(matches!(got, Some(Some(Ok(ref s))) if s == "A"));
    assert_eq!(names.cache.len(), 2);
    assert!(!names.done);
}

#[test]
fn absorbing_an_empty_or_failed_fetch_ends_the_enumeration() {
    let mut names = BatchedNames::new(Enumeration { items: Vec::new(), index: 0, extra_nulls: 0, fail_after: None });
    assert!(matches!(names.absorb_fetch(Ok(Vec::new())), Some(None)));
    assert!(names.done);
    let mut names = BatchedNames::new(Enumeration { items: Vec::new(), index: 0, extra_nulls: 0, fail_after: None });
    let got = names.absorb_fetch(Err(OpcErrorOf::Com { hresult: 0x8000_4005 }));
    assert!(matches!(got, Some(Some(Err(OpcErrorOf::Com { hresult: 0x8000_4005 })))));
    assert!(names.done);
}

#[test]
fn absorbing_a_batch_of_empty_entries_asks_for_another_fetch() {
    let mut names = BatchedNames::new(Enumeration { items: Vec::new(), index: 0, extra_nulls: 0, fail_after: None });
    assert!(names.absorb_fetch(Ok(vec![None, None])).is_none());
    assert!(!names.done);
    assert!(names.cache.is_empty());
}
