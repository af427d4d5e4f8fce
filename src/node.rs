use vstd::prelude::*;

use crate::allocation::{allocation_pairs, first_count_on, preempted_count_on, GpuAllocation};
use crate::gres::{gres_of, GresStatus, ParseError};
use crate::text::{contains_seq, decimal, decimal_string, chars_of, find_seq, repeat_char, repeat_string};

verus! {

/// A node as the scheduler reports it; memory in megabytes.
#[derive(Debug)]
pub struct Node {
    pub hostname: String,
    pub state: Vec<String>,
    pub partitions: Vec<String>,
    pub cpus: usize,
    pub alloc_idle_cpus: usize,
    pub real_memory: usize,
    pub alloc_memory: usize,
    pub gres: String,
    pub gres_used: String,
}

/// Why a node could not be shown.
#[derive(Debug)]
pub enum ReportError {
    /// One of the node's GRES descriptors does not follow the grammar.
    Parse(ParseError),
    /// The node reports more GRES or memory in use than it has.
    ArithmeticDefect,
}

/// One row of the report.
#[derive(Debug)]
pub struct TableNode {
    pub hostname: String,
    pub cpus_available: String,
    pub memory_available: String,
    pub gres: String,
    /// GRES units in use by jobs that are not preempted.
    pub regular_used: usize,
    /// GRES units held by preempted jobs.
    pub preempted: usize,
    /// GRES units free.
    pub idle: usize,
    /// `u` for each regular unit in use, then `p` for each preempted one,
    /// then `i` for each idle one.
    pub gres_status: String,
    pub state: Vec<String>,
}

/// How a state tag is emphasised when shown.
#[derive(Debug, Clone, Copy, PartialEq, Eq, Structural)]
pub enum Emphasis {
    Green,
    Blue,
    Magenta,
    Yellow,
    Red,
    Plain,
}

/// `a/b` in decimal.
pub open spec fn ratio_text(a: nat, b: nat) -> Seq<char> {
    decimal(a) + "/"@ + decimal(b)
}

/// The usage glyphs: `u` repeated `used`, `p` repeated `preempted`, `i`
/// repeated `idle`.
pub open spec fn glyphs(used: nat, preempted: nat, idle: nat) -> Seq<char> {
    repeat_char('u', used) + repeat_char('p', preempted) + repeat_char('i', idle)
}

/// `a - b`, or zero where `b` exceeds `a`.
pub open spec fn monus(a: nat, b: nat) -> nat {
    if a >= b {
        (a - b) as nat
    } else {
        0
    }
}

/// The GRES units in use on a node, where both its descriptors parse.
pub open spec fn used_count(node: Node) -> nat {
    gres_of(node.gres_used@)->Some_0.1
}

/// The GRES units a node has, where its descriptor parses.
pub open spec fn total_count(node: Node) -> nat {
    gres_of(node.gres@)->Some_0.1
}

/// Both descriptors of the node parse, and neither its GRES nor its memory
/// in use exceeds what it has.
pub open spec fn node_consistent(node: Node) -> bool {
    &&& gres_of(node.gres@) is Some
    &&& gres_of(node.gres_used@) is Some
    &&& used_count(node) <= total_count(node)
    &&& node.alloc_memory <= node.real_memory
}

/// The row that a consistent node gives, where `preempted` GPUs of
/// preempted jobs stand on it.
pub open spec fn row_matches(t: TableNode, node: Node, preempted: nat) -> bool {
    let used = used_count(node);
    let total = total_count(node);
    &&& t.hostname@ == node.hostname@
    &&& t.cpus_available@ == ratio_text(node.alloc_idle_cpus as nat, node.cpus as nat)
    &&& t.memory_available@ == ratio_text(
        ((node.real_memory - node.alloc_memory) / 1000) as nat,
        (node.real_memory / 1000) as nat,
    ) + "G"@
    &&& t.gres@ == gres_of(node.gres@)->Some_0.0
    &&& t.regular_used == monus(used, preempted)
    &&& t.preempted == preempted
    &&& t.idle == total - used
    &&& t.gres_status@ == glyphs(monus(used, preempted), preempted, (total - used) as nat)
    &&& t.state@.len() == node.state@.len()
    &&& forall|i: int| 0 <= i < node.state@.len() ==> #[trigger] t.state@[i]@ == node.state@[i]@
}

/// A node whose two GRES descriptors are empty, and whose memory in use does
/// not exceed its memory, gives a row; where no preempted allocation stands
/// on it, that row has an empty GRES model and an empty glyph string.
pub proof fn lemma_empty_descriptors_row(node: Node, allocs: Seq<(Seq<char>, u32)>)
    requires
        node.gres@.len() == 0,
        node.gres_used@.len() == 0,
        node.alloc_memory <= node.real_memory,
        first_count_on(allocs, node.hostname@) == 0,
    ensures
        node_consistent(node),
        forall|t: TableNode|
            row_matches(t, node, first_count_on(allocs, node.hostname@)) ==> t.gres@.len() == 0
                && #[trigger] t.gres_status@.len() == 0,
{
    assert(glyphs(0, 0, 0) =~= Seq::<char>::empty());
}

/// The glyph string of a row has one character for each regular, preempted
/// and idle unit; where the preempted units do not exceed those in use, that
/// is one for each unit the node has.
pub proof fn lemma_glyph_length(t: TableNode, node: Node, preempted: nat)
    requires
        node_consistent(node),
        row_matches(t, node, preempted),
    ensures
        t.gres_status@.len() == t.regular_used + t.preempted + t.idle,
        preempted <= used_count(node) ==> t.gres_status@.len() == total_count(node),
{
}

/// Writes `used/total` in decimal.
pub fn format_ratio(used: usize, total: usize) -> (r: String)
    ensures
        r@ == ratio_text(used as nat, total as nat),
{
    let mut r = decimal_string(used);
    r.append("/");
    let t = decimal_string(total);
    r.append(t.as_str());
    r
}

/// The glyph string for the given counts.
fn glyph_string(used: usize, preempted: usize, idle: usize) -> (r: String)
    ensures
        r@ == glyphs(used as nat, preempted as nat, idle as nat),
{
    proof {
        reveal_strlit("u");
        reveal_strlit("p");
        reveal_strlit("i");
    }
    let mut r = repeat_string("u", used);
    let p = repeat_string("p", preempted);
    let i = repeat_string("i", idle);
    r.append(p.as_str());
    r.append(i.as_str());
    r
}

fn copy_strings(v: &Vec<String>) -> (r: Vec<String>)
    ensures
        r@.len() == v@.len(),
        forall|i: int| 0 <= i < v@.len() ==> #[trigger] r@[i]@ == v@[i]@,
{
    let mut r: Vec<String> = Vec::new();
    let mut i: usize = 0;
    while i < v.len()
        invariant
            i <= v@.len(),
            r@.len() == i,
            forall|m: int| 0 <= m < i ==> #[trigger] r@[m]@ == v@[m]@,
        decreases v@.len() - i,
    {
        r.push(v[i].clone());
        i = i + 1;
    }
    r
}

impl TableNode {
    /// Builds the row of a node. The GPUs of the first preempted allocation
    /// on the node count as preempted; the units in use beyond those as
    /// regular; the rest of the node's units as idle.
    pub fn from_node(node: &Node, preempted_gpus: &[GpuAllocation]) -> (r: Result<TableNode, ReportError>)
        ensures
            r is Ok <==> node_consistent(*node),
            gres_of(node.gres@) is None ==> (r matches Err(ReportError::Parse(e)) && e.input@
                == node.gres@),
            gres_of(node.gres@) is Some && gres_of(node.gres_used@) is None ==> (r matches Err(
                ReportError::Parse(e),
            ) && e.input@ == node.gres_used@),
            gres_of(node.gres@) is Some && gres_of(node.gres_used@) is Some && !node_consistent(
                *node,
            ) ==> r matches Err(ReportError::ArithmeticDefect),
            r matches Ok(t) ==> row_matches(
                t,
                *node,
                first_count_on(allocation_pairs(preempted_gpus@), node.hostname@),
            ),
    {
        let gres_total = match GresStatus::from_str(node.gres.as_str()) {
            Ok(g) => g,
            Err(e) => {
                return Err(ReportError::Parse(e));
            },
        };
        let gres_used = match GresStatus::from_str(node.gres_used.as_str()) {
            Ok(g) => g,
            Err(e) => {
                return Err(ReportError::Parse(e));
            },
        };
        if gres_used.count > gres_total.count || node.alloc_memory > node.real_memory {
            return Err(ReportError::ArithmeticDefect);
        }
        let idle = gres_total.count - gres_used.count;
        let preempted = preempted_count_on(preempted_gpus, node.hostname.as_str()) as usize;
        let regular_used = if gres_used.count >= preempted {
            gres_used.count - preempted
        } else {
            0
        };
        let gres_status = glyph_string(regular_used, preempted, idle);
        let mut memory_available = format_ratio(
            (node.real_memory - node.alloc_memory) / 1000,
            node.real_memory / 1000,
        );
        memory_available.append("G");
        Ok(
            TableNode {
                hostname: node.hostname.clone(),
                cpus_available: format_ratio(node.alloc_idle_cpus, node.cpus),
                memory_available,
                gres: gres_total.model,
                regular_used,
                preempted,
                idle,
                gres_status,
                state: copy_strings(&node.state),
            },
        )
    }
}

/// The emphasis of a node state tag: IDLE green, MIXED blue, ALLOCATED
/// magenta, DRAIN yellow, DOWN red, any other tag plain.
pub fn state_emphasis(tag: &str) -> (r: Emphasis)
    ensures
        tag@ == "IDLE"@ ==> r == Emphasis::Green,
        tag@ == "MIXED"@ ==> r == Emphasis::Blue,
        tag@ == "ALLOCATED"@ ==> r == Emphasis::Magenta,
        tag@ == "DRAIN"@ ==> r == Emphasis::Yellow,
        tag@ == "DOWN"@ ==> r == Emphasis::Red,
        tag@ != "IDLE"@ && tag@ != "MIXED"@ && tag@ != "ALLOCATED"@ && tag@ != "DRAIN"@ && tag@
            != "DOWN"@ ==> r == Emphasis::Plain,
{
    proof {
        reveal_strlit("IDLE");
        reveal_strlit("MIXED");
        reveal_strlit("ALLOCATED");
        reveal_strlit("DRAIN");
        reveal_strlit("DOWN");
        assert("MIXED"@ != "IDLE"@) by {
            assert("MIXED"@[0] != "IDLE"@[0]);
        }
        assert("ALLOCATED"@ != "IDLE"@) by {
            assert("ALLOCATED"@[0] != "IDLE"@[0]);
        }
        assert("ALLOCATED"@ != "MIXED"@) by {
            assert("ALLOCATED"@[0] != "MIXED"@[0]);
        }
        assert("DRAIN"@ != "IDLE"@) by {
            assert("DRAIN"@[0] != "IDLE"@[0]);
        }
        assert("DRAIN"@ != "MIXED"@) by {
            assert("DRAIN"@[0] != "MIXED"@[0]);
        }
        assert("DRAIN"@ != "ALLOCATED"@) by {
            assert("DRAIN"@[0] != "ALLOCATED"@[0]);
        }
        assert("DOWN"@ != "IDLE"@) by {
            assert("DOWN"@[0] != "IDLE"@[0]);
        }
        assert("DOWN"@ != "MIXED"@) by {
            assert("DOWN"@[0] != "MIXED"@[0]);
        }
        assert("DOWN"@ != "ALLOCATED"@) by {
            assert("DOWN"@[0] != "ALLOCATED"@[0]);
        }
        assert("DOWN"@ != "DRAIN"@) by {
            assert("DOWN"@[1] != "DRAIN"@[1]);
        }
    }
    let t = String::from_str(tag);
    if t.eq(&String::from_str("IDLE")) {
        Emphasis::Green
    } else if t.eq(&String::from_str("MIXED")) {
        Emphasis::Blue
    } else if t.eq(&String::from_str("ALLOCATED")) {
        Emphasis::Magenta
    } else if t.eq(&String::from_str("DRAIN")) {
        Emphasis::Yellow
    } else if t.eq(&String::from_str("DOWN")) {
        Emphasis::Red
    } else {
        Emphasis::Plain
    }
}

/// The node passes the filters: its GRES descriptor holds the GRES name, where
/// one is given, and it belongs to the partition, where one is given.
pub open spec fn node_selected(node: Node, gres: Option<Seq<char>>, partition: Option<Seq<char>>) -> bool {
    &&& match gres {
        Some(g) => contains_seq(node.gres@, g),
        None => true,
    }
    &&& match partition {
        Some(p) => exists|i: int| 0 <= i < node.partitions@.len() && #[trigger] node.partitions@[i]@ == p,
        None => true,
    }
}

/// The view of an optional string filter.
pub open spec fn filter_view(f: Option<&str>) -> Option<Seq<char>> {
    match f {
        Some(s) => Some(s@),
        None => None,
    }
}

/// Tells whether a node passes the GRES-name and partition filters.
pub fn node_matches(node: &Node, gres: Option<&str>, partition: Option<&str>) -> (r: bool)
    ensures
        r == node_selected(*node, filter_view(gres), filter_view(partition)),
{
    match gres {
        Some(g) => {
            let hay = chars_of(node.gres.as_str());
            let needle = chars_of(g);
            if find_seq(&hay, &needle, 0).is_none() {
                return false;
            }
        },
        None => {},
    }
    match partition {
        Some(p) => {
            let want = String::from_str(p);
            let mut i: usize = 0;
            while i < node.partitions.len()
                invariant
                    i <= node.partitions@.len(),
                    want@ == p@,
                    filter_view(partition) == Some(p@),
                    match filter_view(gres) {
                        Some(g) => contains_seq(node.gres@, g),
                        None => true,
                    },
                    forall|m: int| 0 <= m < i ==> #[trigger] node.partitions@[m]@ != p@,
                decreases node.partitions@.len() - i,
            {
                if node.partitions[i].eq(&want) {
                    assert(node.partitions@[i as int]@ == p@);
                    return true;
                }
                i = i + 1;
            }
            false
        },
        None => true,
    }
}

} // verus!
