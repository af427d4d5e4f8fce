use gres_report::{
    format_ratio, node_matches, state_emphasis, Emphasis, GpuAllocation, GresStatus, Node,
    ReportError,
};
use gres_report::TableNode;

fn node(gres: &str, gres_used: &str, real: usize, alloc: usize) -> Node {
    Node {
        hostname: "gpu-sm01-13".to_string(),
        state: vec!["MIXED".to_string(), "DRAIN".to_string()],
        partitions: vec!["gpu".to_string(), "preempted".to_string()],
        cpus: 64,
        alloc_idle_cpus: 48,
        real_memory: real,
        alloc_memory: alloc,
        gres: gres.to_string(),
        gres_used: gres_used.to_string(),
    }
}

fn allocated(node: &str, gpus: u32) -> GpuAllocation {
    GpuAllocation { node: node.to_string(), gpus }
}

#[test]
fn gres_status_reads_model_and_count() {
    let g = GresStatus::from_str("gpu:a100:4(IDX:0-3)").unwrap();
    assert_eq!(g.model, "gpu:a100");
    assert_eq!(g.count, 4);
    let h = GresStatus::from_str("gpu:h100:12").unwrap();
    assert_eq!(h.model, "gpu:h100");
    assert_eq!(h.count, 12);
}

#[test]
fn gres_status_takes_the_leftmost_match() {
    let g = GresStatus::from_str("gres:gpu:h100:8(S:0-1)").unwrap();
    assert_eq!(g.model, "gpu:h100");
    assert_eq!(g.count, 8);
    let h = GresStatus::from_str("x gpu:a6000:2,gpu:a40:1").unwrap();
    assert_eq!(h.model, "gpu:a6000");
    assert_eq!(h.count, 2);
}

#[test]
fn gres_status_empty_and_null() {
    let e = GresStatus::from_str("").unwrap();
    assert_eq!(e.model, "");
    assert_eq!(e.count, 0);
    let n = GresStatus::from_str("(null)").unwrap();
    assert_eq!(n.model, "");
    assert_eq!(n.count, 0);
}

#[test]
fn gres_status_rejects_other_text() {
    let e = GresStatus::from_str("gpu:4").unwrap_err();
    assert_eq!(e.input, "gpu:4");
    let f = GresStatus::from_str("gpu:a40:99999999999999999999999").unwrap_err();
    assert_eq!(f.input, "gpu:a40:99999999999999999999999");
}

#[test]
fn ratio_is_written_in_decimal() {
    assert_eq!(format_ratio(3, 10), "3/10");
    assert_eq!(format_ratio(0, 0), "0/0");
    assert_eq!(format_ratio(1234567, 90), "1234567/90");
}

#[test]
fn row_splits_used_preempted_and_idle() {
    let n = node("gpu:a40:8", "gpu:a40:3(IDX:0-2)", 128000, 32000);
    let allocs = vec![allocated("other", 1), allocated("gpu-sm01-13", 2)];
    let t = TableNode::from_node(&n, &allocs).unwrap();
    assert_eq!(t.regular_used, 1);
    assert_eq!(t.preempted, 2);
    assert_eq!(t.idle, 5);
    assert_eq!(t.gres_status, "uppiiiii");
    assert_eq!(t.gres_status.chars().count(), 8);
    assert_eq!(t.gres, "gpu:a40");
    assert_eq!(t.hostname, "gpu-sm01-13");
    assert_eq!(t.cpus_available, "48/64");
    assert_eq!(t.state, vec!["MIXED".to_string(), "DRAIN".to_string()]);
}

#[test]
fn row_memory_ratio() {
    let n = node("gpu:a40:8", "gpu:a40:0", 128000, 32000);
    let t = TableNode::from_node(&n, &[]).unwrap();
    assert_eq!(t.memory_available, "96/128G");
    let m = node("gpu:a40:8", "gpu:a40:0", 1999, 1000);
    let u = TableNode::from_node(&m, &[]).unwrap();
    assert_eq!(u.memory_available, "0/1G");
}

#[test]
fn row_of_node_without_gres() {
    let n = node("", "", 128000, 32000);
    let t = TableNode::from_node(&n, &[]).unwrap();
    assert_eq!(t.gres, "");
    assert_eq!(t.gres_status, "");
    let m = node("(null)", "(null)", 1000, 0);
    let u = TableNode::from_node(&m, &[]).unwrap();
    assert_eq!(u.gres, "");
    assert_eq!(u.gres_status, "");
}

#[test]
fn row_takes_the_first_allocation_on_the_node() {
    let n = node("gpu:a40:8", "gpu:a40:8", 1000, 0);
    let allocs = vec![allocated("gpu-sm01-13", 3), allocated("gpu-sm01-13", 4)];
    let t = TableNode::from_node(&n, &allocs).unwrap();
    assert_eq!(t.preempted, 3);
    assert_eq!(t.regular_used, 5);
    assert_eq!(t.gres_status, "uuuuuppp");
}

#[test]
fn row_preempted_beyond_used_saturates() {
    let n = node("gpu:a40:4", "gpu:a40:1", 1000, 0);
    let t = TableNode::from_node(&n, &[allocated("gpu-sm01-13", 2)]).unwrap();
    assert_eq!(t.regular_used, 0);
    assert_eq!(t.gres_status, "ppiii");
}

#[test]
fn row_errors() {
    let bad_total = node("gpu", "", 1000, 0);
    match TableNode::from_node(&bad_total, &[]) {
        Err(ReportError::Parse(e)) => assert_eq!(e.input, "gpu"),
        other => panic!("unexpected {:?}", other),
    }
    let bad_used = node("gpu:a40:2", "junk", 1000, 0);
    match TableNode::from_node(&bad_used, &[]) {
        Err(ReportError::Parse(e)) => assert_eq!(e.input, "junk"),
        other => panic!("unexpected {:?}", other),
    }
    let over_used = node("gpu:a40:2", "gpu:a40:3", 1000, 0);
    assert!(matches!(
        TableNode::from_node(&over_used, &[]),
        Err(ReportError::ArithmeticDefect)
    ));
    let over_memory = node("gpu:a40:2", "gpu:a40:1", 1000, 1001);
    assert!(matches!(
        TableNode::from_node(&over_memory, &[]),
        Err(ReportError::ArithmeticDefect)
    ));
}

#[test]
fn node_filters() {
    let n = node("gpu:h100:8", "gpu:h100:0", 1000, 0);
    assert!(node_matches(&n, None, None));
    assert!(node_matches(&n, Some("h100"), None));
    assert!(node_matches(&n, Some(""), None));
    assert!(!node_matches(&n, Some("a40"), None));
    assert!(node_matches(&n, Some("gpu"), Some("preempted")));
    assert!(!node_matches(&n, Some("gpu"), Some("cpu")));
    assert!(!node_matches(&n, None, Some("pre")));
}

#[test]
fn state_tags_have_fixed_emphasis() {
    assert_eq!(state_emphasis("IDLE"), Emphasis::Green);
    assert_eq!(state_emphasis("MIXED"), Emphasis::Blue);
    assert_eq!(state_emphasis("ALLOCATED"), Emphasis::Magenta);
    assert_eq!(state_emphasis("DRAIN"), Emphasis::Yellow);
    assert_eq!(state_emphasis("DOWN"), Emphasis::Red);
    assert_eq!(state_emphasis("RESERVED"), Emphasis::Plain);
    assert_eq!(state_emphasis("idle"), Emphasis::Plain);
}

#[test]
fn gres_status_words_take_letters_of_every_script() {
    let g = GresStatus::from_str("gpu:\u{e9}:1").unwrap();
    assert_eq!(g.model, "gpu:\u{e9}");
    assert_eq!(g.count, 1);
    let h = GresStatus::from_str("\u{3b3}pu:\u{43c}\u{3b1}:3").unwrap();
    assert_eq!(h.model, "\u{3b3}pu:\u{43c}\u{3b1}");
    assert_eq!(h.count, 3);
    let e = GresStatus::from_str("gpu:\u{e9}\u{20ac}:1").unwrap_err();
    assert_eq!(e.input, "gpu:\u{e9}\u{20ac}:1");
}

#[test]
fn gres_status_count_with_a_digit_beyond_ascii_is_an_error() {
    let e = GresStatus::from_str("gpu:a40:4\u{663}").unwrap_err();
    assert_eq!(e.input, "gpu:a40:4\u{663}");
    assert!(GresStatus::from_str("gpu:a40:\u{663}").is_err());
    let g = GresStatus::from_str("gpu:a40:4\u{e9}").unwrap();
    assert_eq!(g.model, "gpu:a40");
    assert_eq!(g.count, 4);
}
