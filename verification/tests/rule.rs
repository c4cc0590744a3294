//! Optimization rules.

use std::sync::Arc;

use daft_backends::error::DaftError;
use daft_backends::rule::{short_type_name, OptimizerRule, Transformed};

struct DropZeros;

impl OptimizerRule for DropZeros {
    type Plan = Vec<u8>;

    fn try_optimize(&self, plan: Arc<Vec<u8>>) -> Result<Transformed<Arc<Vec<u8>>>, DaftError> {
        let kept: Vec<u8> = plan.iter().copied().filter(|step| *step != 0).collect();
        if kept.len() == plan.len() {
            Ok(Transformed::no(plan))
        } else {
            Ok(Transformed::yes(Arc::new(kept)))
        }
    }
}

struct Renamed;

impl OptimizerRule for Renamed {
    type Plan = u8;

    fn name(&self, _type_path: &'static str) -> &'static str {
        "custom::name"
    }

    fn try_optimize(&self, plan: Arc<u8>) -> Result<Transformed<Arc<u8>>, DaftError> {
        Ok(Transformed::no(plan))
    }
}

#[test]
fn rules_are_named_by_their_type() {
    assert_eq!(DropZeros.name("plans::rules::DropZeros"), "DropZeros");
    assert_eq!(Renamed.name("plans::rules::Renamed"), "custom::name");
}

#[test]
fn last_segments() {
    assert_eq!(short_type_name("a::b::C"), "C");
    assert_eq!(short_type_name("C"), "C");
    assert_eq!(short_type_name("a:::C"), "C");
    assert_eq!(short_type_name("a::"), "");
    assert_eq!(short_type_name(":"), ":");
    assert_eq!(short_type_name(""), "");
    assert_eq!(short_type_name("a::W<b::C>"), "C>");
    assert_eq!(short_type_name("\u{e9}::\u{e8}"), "\u{e8}");
}

#[test]
fn plans_that_are_changed_or_not() {
    let plan = Arc::new(vec![1, 0, 2]);
    let outcome = DropZeros.try_optimize(plan).unwrap();
    assert!(outcome.transformed);
    assert_eq!(*outcome.data, vec![1, 2]);
    let outcome = DropZeros.try_optimize(outcome.data).unwrap();
    assert_eq!(outcome, Transformed::no(Arc::new(vec![1, 2])));
}
