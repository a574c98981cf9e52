use lattice::response::{achronons_from_templates, bitmap_from_ids, clean_json_block};
use lattice::AchrononTemplate;

#[test]
fn clean_json_prefers_json_fence() {
    let text = "Here you go:\n```json\n[{\"id\": 3}]\n```\nThanks";
    assert_eq!(clean_json_block(text), "\n[{\"id\": 3}]\n");
}

#[test]
fn clean_json_plain_fence() {
    let text = "```\n[1, 2]\n```";
    assert_eq!(clean_json_block(text), "\n[1, 2]\n");
}

#[test]
fn clean_json_without_fence_is_unchanged() {
    let text = "[{\"id\": 1}]";
    assert_eq!(clean_json_block(text), text);
}

#[test]
fn clean_json_unclosed_fence_runs_to_end() {
    assert_eq!(clean_json_block("a```json[1]"), "[1]");
    assert_eq!(clean_json_block("a```[2]"), "[2]");
}

#[test]
fn clean_json_agrees_with_split_on_odd_inputs() {
    let cases = [
        "````json x ```json y",
        "x````",
        "```json",
        "```",
        "é```jsonü```ß",
        "```a```b```c",
        "",
    ];
    for text in cases {
        let expected = if text.contains("```json") {
            text.split("```json").nth(1).unwrap().split("```").next().unwrap()
        } else if text.contains("```") {
            text.split("```").nth(1).unwrap().split("```").next().unwrap()
        } else {
            text
        };
        assert_eq!(clean_json_block(text), expected, "input {:?}", text);
    }
}

#[test]
fn templates_become_achronons() {
    let templates = vec![
        AchrononTemplate {
            id: 7,
            antecedents: vec![1, 2, 2],
            orthogonals: vec![5],
            transformation_id: "rot0".into(),
            content: "Something happens".into(),
            affected_subspace: Some(0),
        },
        AchrononTemplate {
            id: 8,
            antecedents: vec![],
            orthogonals: vec![],
            transformation_id: "identity".into(),
            content: "Later".into(),
            affected_subspace: None,
        },
    ];
    let a = achronons_from_templates(templates);
    assert_eq!(a.len(), 2);
    assert_eq!(a[0].id, 7);
    assert_eq!(a[0].antecedents.iter().collect::<Vec<_>>(), vec![1, 2]);
    assert_eq!(a[0].orthogonals.iter().collect::<Vec<_>>(), vec![5]);
    assert_eq!(a[0].transformation_id, "rot0");
    assert_eq!(a[0].content, "Something happens");
    assert_eq!(a[0].affected_subspace, Some(0));
    assert_eq!(a[1].id, 8);
    assert!(a[1].antecedents.is_empty());
    assert_eq!(a[1].affected_subspace, None);
}

#[test]
fn bitmap_from_ids_holds_exactly_the_ids() {
    let b = bitmap_from_ids(&vec![9, 3, 9, 4000000000]);
    assert_eq!(b.iter().collect::<Vec<_>>(), vec![3, 9, 4000000000]);
}
