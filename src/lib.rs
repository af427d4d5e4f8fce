pub mod text;
pub mod gres;
pub mod allocation;
pub mod node;

pub use allocation::{count_gpu_indices, parse_gpu_allocation, process_preempted_jobs, GpuAllocation, Job};
pub use gres::{GresStatus, ParseError};
pub use node::{format_ratio, node_matches, state_emphasis, Emphasis, Node, ReportError, TableNode};
