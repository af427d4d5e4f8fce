use gres_report::{count_gpu_indices, parse_gpu_allocation, process_preempted_jobs, GpuAllocation, Job};

fn job(partition: &str, nodes: &str, details: &[&str]) -> Job {
    Job {
        partition: partition.to_string(),
        nodes: nodes.to_string(),
        gres_detail: details.iter().map(|d| d.to_string()).collect(),
    }
}

#[test]
fn test_parse_gpu_allocation_success() {
    let gres = "gpu:a40:1(IDX:0)";
    let node = "gpu-sm01-13";
    let expected = Some(GpuAllocation {
        node: node.to_string(),
        gpus: 1,
    });
    assert_eq!(parse_gpu_allocation(gres, node), expected);
}

#[test]
fn test_parse_gpu_allocation_multi_digit() {
    let gres = "gpu:a40:16(IDX:0-15)";
    let node = "gpu-sm01-14";
    let expected = Some(GpuAllocation {
        node: node.to_string(),
        gpus: 16,
    });
    assert_eq!(parse_gpu_allocation(gres, node), expected);
}

#[test]
fn test_parse_gpu_allocation_failure() {
    let gres = "cpu:2";
    let node = "cpu-node-1";
    assert_eq!(parse_gpu_allocation(gres, node), None);
}

#[test]
fn test_process_preempted_jobs() {
    let jobs = vec![
        job("cpu", "cpu-a-1", &[]),
        job("gpu", "gpu-a-1", &["gpu:a100:1(IDX:3)"]),
        job("interactive", "gpu-sm01-14", &["gpu:a40:1(IDX:0)"]),
        job("preempted", "gpu-sm01-13", &["gpu:a40:1(IDX:0)"]),
        job("preempted", "gpu-f-6", &["gpu:h100:4(IDX:0-3)"]),
        job("preempted", "gpu-h-2", &["gpu:h200:7(IDX:0,2-7)"]),
        job("preempted", "another-node", &[]),
    ];

    let expected = vec![
        GpuAllocation {
            node: "gpu-sm01-13".to_string(),
            gpus: 1,
        },
        GpuAllocation {
            node: "gpu-f-6".to_string(),
            gpus: 4,
        },
        GpuAllocation {
            node: "gpu-h-2".to_string(),
            gpus: 7,
        },
    ];

    let result = process_preempted_jobs(&jobs);
    assert_eq!(result, expected);
}

#[test]
fn preempted_jobs_keep_every_detail_in_order() {
    let jobs = vec![
        job("preempted", "n1", &["gpu:a40:2", "cpu:4", "gpu:h100:1(IDX:5)"]),
        job("preempted", "n2", &["gpu:a40:0"]),
    ];
    let result = process_preempted_jobs(&jobs);
    assert_eq!(
        result,
        vec![
            GpuAllocation { node: "n1".to_string(), gpus: 2 },
            GpuAllocation { node: "n1".to_string(), gpus: 1 },
        ]
    );
}

#[test]
fn index_list_mixes_singles_and_ranges() {
    assert_eq!(count_gpu_indices("0,2-7"), 7);
    assert_eq!(count_gpu_indices("0-3"), 4);
    assert_eq!(count_gpu_indices("4"), 1);
}

#[test]
fn index_list_edge_cases() {
    assert_eq!(count_gpu_indices(""), 0);
    assert_eq!(count_gpu_indices("7-3"), 0);
    assert_eq!(count_gpu_indices("x,1"), 1);
    assert_eq!(count_gpu_indices("x-2"), 3);
    assert_eq!(count_gpu_indices("+3"), 1);
    assert_eq!(count_gpu_indices("1,,2"), 2);
}

#[test]
fn index_list_count_is_held_at_the_largest_u32() {
    assert_eq!(count_gpu_indices("0-4294967295"), u32::MAX);
    assert_eq!(count_gpu_indices("1-4294967295,0"), u32::MAX);
    assert_eq!(count_gpu_indices("4294967296"), 0);
}

#[test]
fn allocation_falls_back_to_count_digits() {
    let a = parse_gpu_allocation("gpu:a40:3", "n");
    assert_eq!(a, Some(GpuAllocation { node: "n".to_string(), gpus: 3 }));
    let b = parse_gpu_allocation("gpu:a40:2(IDX:)", "n");
    assert_eq!(b, Some(GpuAllocation { node: "n".to_string(), gpus: 2 }));
    let c = parse_gpu_allocation("gpu:a40:5(IDX:9-1)", "n");
    assert_eq!(c, Some(GpuAllocation { node: "n".to_string(), gpus: 5 }));
}

#[test]
fn allocation_index_list_wins_over_count_field() {
    let a = parse_gpu_allocation("gpu:a40:9(IDX:0-1)", "n");
    assert_eq!(a, Some(GpuAllocation { node: "n".to_string(), gpus: 2 }));
}

#[test]
fn allocation_rejections() {
    assert_eq!(parse_gpu_allocation("gpu:a40", "n"), None);
    assert_eq!(parse_gpu_allocation("gpu:a40:0", "n"), None);
    assert_eq!(parse_gpu_allocation("gpu:a40:x", "n"), None);
    assert_eq!(parse_gpu_allocation("mps:a40:4", "n"), None);
    assert_eq!(parse_gpu_allocation("", "n"), None);
}
