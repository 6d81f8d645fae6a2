use std::cell::Cell;

use bestmatch::error::EngineError;
use bestmatch::tokenizer::{Tokenize, _hashmap_tokenize};
use vstd::hash_map::StringHashMap;

/// A stand-in backend that answers with the name it was built for.
struct Named {
    name: String,
}

impl Tokenize for Named {
    fn tokenize(&self, s: &str) -> Result<Vec<String>, EngineError> {
        Ok(vec![self.name.clone(), s.to_string()])
    }
}

#[test]
fn keyed_cache_builds_each_instance_once() {
    let built = Cell::new(0u32);
    let build = |model: &str| {
        built.set(built.get() + 1);
        Ok(Named { name: model.to_string() })
    };
    let mut cache: StringHashMap<Named> = StringHashMap::new();

    assert_eq!(_hashmap_tokenize(&mut cache, "a", &build, "x"), Ok(vec!["a".to_string(), "x".to_string()]));
    assert_eq!(built.get(), 1);
    assert_eq!(_hashmap_tokenize(&mut cache, "a", &build, "y"), Ok(vec!["a".to_string(), "y".to_string()]));
    assert_eq!(built.get(), 1);
    assert_eq!(_hashmap_tokenize(&mut cache, "b", &build, "x"), Ok(vec!["b".to_string(), "x".to_string()]));
    assert_eq!(built.get(), 2);
    assert_eq!(_hashmap_tokenize(&mut cache, "a", &build, "z"), Ok(vec!["a".to_string(), "z".to_string()]));
    assert_eq!(_hashmap_tokenize(&mut cache, "b", &build, "z"), Ok(vec!["b".to_string(), "z".to_string()]));
    assert_eq!(built.get(), 2);
    assert_eq!(cache.len(), 2);
}

#[test]
fn keyed_cache_does_not_keep_a_failure() {
    let asked = Cell::new(0u32);
    let refuse = |_model: &str| -> Result<Named, EngineError> {
        asked.set(asked.get() + 1);
        Err(EngineError::ModelLoadFailure)
    };
    let mut cache: StringHashMap<Named> = StringHashMap::new();

    assert_eq!(_hashmap_tokenize(&mut cache, "a", &refuse, "x"), Err(EngineError::ModelLoadFailure));
    assert_eq!(_hashmap_tokenize(&mut cache, "a", &refuse, "x"), Err(EngineError::ModelLoadFailure));
    // Nothing was kept, so the constructor was asked again.
    assert_eq!(asked.get(), 2);
    assert_eq!(cache.len(), 0);
}
