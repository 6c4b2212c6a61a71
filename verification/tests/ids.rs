use usvg_core::ids::{gen_clip_path_id, gen_paint_server_id, gen_result, FilterResults, NodeIdGenerator};

fn strings(v: &[&str]) -> Vec<String> {
    v.iter().map(|s| s.to_string()).collect()
}

#[test]
fn generator_skips_document_ids() {
    let mut gen = NodeIdGenerator::new(&strings(&["", "rect1", "clipPath1", "clipPath2", "filter2"]));
    assert_eq!(gen.gen_clip_path_id(), Some("clipPath3".to_string()));
    assert_eq!(gen.gen_clip_path_id(), Some("clipPath4".to_string()));
    assert_eq!(gen.gen_filter_id(), Some("filter1".to_string()));
    assert_eq!(gen.gen_filter_id(), Some("filter3".to_string()));
    assert_eq!(gen.gen_clip_path_id(), Some("clipPath5".to_string()));
}

#[test]
fn generator_on_empty_document() {
    let mut gen = NodeIdGenerator::new(&Vec::new());
    assert_eq!(gen.gen_clip_path_id(), Some("clipPath1".to_string()));
    assert_eq!(gen.gen_filter_id(), Some("filter1".to_string()));
    assert_eq!(gen.gen_filter_id(), Some("filter2".to_string()));
}

#[test]
fn generated_ids_never_repeat() {
    let mut gen = NodeIdGenerator::new(&strings(&["clipPath3", "filter1"]));
    let mut seen = std::collections::HashSet::new();
    for _ in 0..20 {
        assert!(seen.insert(gen.gen_clip_path_id().unwrap()));
        assert!(seen.insert(gen.gen_filter_id().unwrap()));
    }
    assert!(!seen.contains("clipPath3"));
    assert!(!seen.contains("filter1"));
}

#[test]
fn free_clip_path_id_checks_both_lists() {
    let doc = strings(&["clipPath1", "clipPath3"]);
    let defs = strings(&["clipPath2"]);
    assert_eq!(gen_clip_path_id(&doc, &defs), "clipPath4");
    assert_eq!(gen_clip_path_id(&Vec::new(), &Vec::new()), "clipPath1");
    assert_eq!(gen_clip_path_id(&strings(&["clipPath2"]), &Vec::new()), "clipPath1");
}

#[test]
fn free_paint_server_id() {
    assert_eq!(gen_paint_server_id(&Vec::new()), "usvg1");
    assert_eq!(gen_paint_server_id(&strings(&["usvg1", "usvg2", "lg1"])), "usvg3");
    assert_eq!(gen_paint_server_id(&strings(&["usvg2"])), "usvg1");
}

#[test]
fn result_names() {
    let mut results = FilterResults { names: Vec::new(), idx: 1 };
    assert_eq!(gen_result(None, &mut results), "result1");
    assert_eq!(results.idx, 2);
    assert_eq!(gen_result(Some("result3"), &mut results), "result3");
    assert_eq!(results.idx, 3);
    assert_eq!(gen_result(None, &mut results), "result4");
    assert_eq!(gen_result(Some("blur"), &mut results), "blur");
    assert_eq!(gen_result(Some("blur"), &mut results), "blur");
    assert_eq!(gen_result(None, &mut results), "result7");
    assert_eq!(results.names, strings(&["result3", "blur"]));
}
