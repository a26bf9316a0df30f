use pi_coding_agent::scoped_models::{is_enabled, toggle};

fn ids(v: &[&str]) -> Vec<String> {
    v.iter().map(|s| s.to_string()).collect()
}

#[test]
fn toggling_one_model_keeps_every_other_models_state() {
    let all = ids(&["a", "b", "c", "d"]);
    let scopes = vec![None, Some(ids(&[])), Some(ids(&["b"])), Some(ids(&["a", "b", "c"])), Some(ids(&["d", "a"]))];
    for enabled in scopes {
        for id in ["a", "b", "c", "d"] {
            let after = toggle(&enabled, &all, id);
            assert_eq!(is_enabled(&after, id), !is_enabled(&enabled, id));
            for other in all.iter().filter(|x| x.as_str() != id) {
                assert_eq!(is_enabled(&after, other), is_enabled(&enabled, other), "{enabled:?} {id} {other}");
            }
        }
    }
}

#[test]
fn enabling_the_last_model_collapses_to_all() {
    let all = ids(&["a", "b", "c"]);
    assert_eq!(toggle(&Some(ids(&["a", "b"])), &all, "c"), None);
}
