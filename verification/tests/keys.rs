use ricercar_grammar::describe::{
    drive_mode_options, filter_options, noise_options, table_options, waveform_options,
};
use ricercar_grammar::edit::{enum_arity, is_structural, EditError};
use ricercar_grammar::genome::{child_key, mod_key};
use ricercar_grammar::mutate::parse_key;
use ricercar_grammar::split_addr;

#[test]
fn node_keys_parse_to_paths() {
    assert_eq!(parse_key("node"), Some(vec![]));
    assert_eq!(parse_key("node/0"), Some(vec![0]));
    assert_eq!(parse_key("node/0/1"), Some(vec![0, 1]));
    assert_eq!(parse_key("node/12/007"), Some(vec![12, 7]));
    assert_eq!(parse_key("node/+3"), Some(vec![3]));
    assert_eq!(parse_key("node/"), None);
    assert_eq!(parse_key("node//0"), None);
    assert_eq!(parse_key("node/0/m"), None);
    assert_eq!(parse_key("node/-1"), None);
    assert_eq!(parse_key("node/+"), None);
    assert_eq!(parse_key("nodes"), None);
    assert_eq!(parse_key("nod"), None);
    assert_eq!(parse_key("amp"), None);
    assert_eq!(parse_key("node/99999999999999999999999"), None);
}

#[test]
fn child_and_mod_keys_follow_the_scheme() {
    assert_eq!(child_key("node", 0), "node/0");
    assert_eq!(child_key("node/1", 10), "node/1/10");
    assert_eq!(mod_key("node/0"), "node/0/m");
    // The key of child `i` parses to the parent's path with `i` appended.
    let k = child_key(&child_key("node", 1), 0);
    assert_eq!(parse_key(&k), Some(vec![1, 0]));
    assert_eq!(parse_key(&mod_key("node")), None);
}

#[test]
fn addresses_split_at_the_last_hash() {
    assert_eq!(split_addr("node/0#cut"), ("node/0", "cut"));
    assert_eq!(split_addr("amp#attack"), ("amp", "attack"));
    assert_eq!(split_addr("a#b#c"), ("a#b", "c"));
    assert_eq!(split_addr("plain"), ("plain", ""));
    assert_eq!(split_addr("node#"), ("node", ""));
    assert_eq!(split_addr("#x"), ("", "x"));
}

#[test]
fn site_vocabulary() {
    assert_eq!(enum_arity("wave"), Some(4));
    assert_eq!(enum_arity("color"), Some(2));
    assert_eq!(enum_arity("fkind"), Some(4));
    assert_eq!(enum_arity("oct"), Some(5));
    assert_eq!(enum_arity("table"), Some(8));
    assert_eq!(enum_arity("dmode"), Some(3));
    assert_eq!(enum_arity("cut"), None);
    for s in ["leaf", "src", "op", "mod", "modop", "pairop"] {
        assert!(is_structural(s), "{s}");
    }
    for s in ["qscale", "rmode", "cut", "wave", ""] {
        assert!(!is_structural(s), "{s}");
    }
}

#[test]
fn edit_errors_read_as_sentences() {
    assert_eq!(
        EditError::UnknownAddress("nowhere#cut".into()).message(),
        "no such address in patch: nowhere#cut"
    );
    assert_eq!(
        EditError::StructuralAddress("node#leaf".into()).message(),
        "address node#leaf is structural; knobs cannot rewire the patch"
    );
    assert_eq!(EditError::KindMismatch("node#cut".into()).message(), "value kind mismatch at node#cut");
    assert_eq!(
        EditError::Decode("bad".into()).message(),
        "edited patch failed to decode: bad"
    );
}

#[test]
fn option_lists_follow_index_order() {
    assert_eq!(waveform_options(), vec!["sin", "tri", "saw", "sqr"]);
    assert_eq!(noise_options(), vec!["white", "pink"]);
    assert_eq!(filter_options(), vec!["svf lp", "svf bp", "svf hp", "ladder"]);
    assert_eq!(
        table_options(),
        vec!["sine", "tri", "saw", "square", "pulse 25", "pulse 12", "formant a", "formant o"]
    );
    assert_eq!(drive_mode_options(), vec!["soft", "hard", "tube"]);
}
