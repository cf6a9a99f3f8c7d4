//! The compute kernel: a fixed template that evaluates one cell, with the
//! compiled rule as its one parameter.
use crate::dsl::{statement_text, Statement};
use vstd::prelude::*;

verus! {

/// The kernel text before the rule. Bindings: 0 the grid extents, 1 the
/// offset of the dispatch in the linear cell index space, 2 the current
/// generation, 3 the generation being written. The rule sees `is_alive` and
/// `num_neighbors` and assigns `result`, which starts at 0.
pub const KERNEL_HEAD: &'static str = "@group(0) @binding(0) var<storage, read> dim: vec3<u32>;
@group(0) @binding(1) var<storage, read> dispatch_offset: vec3<u32>;
@group(0) @binding(2) var<storage, read_write> current: array<u32>;
@group(0) @binding(3) var<storage, read_write> next: array<u32>;

fn cell_index(x: u32, y: u32, z: u32) -> u32 {
    return z * (dim.x * dim.y) + y * dim.x + x;
}

@compute @workgroup_size(1)
fn main(@builtin(global_invocation_id) id: vec3<u32>) {
    let index = id.x + dispatch_offset.x;
    if (index >= dim.x * dim.y * dim.z) {
        return;
    }
    let x = index % dim.x;
    let y = (index / dim.x) % dim.y;
    let z = (index / dim.x) / dim.y;
    if (x == 0u || x == dim.x - 1u || y == 0u || y == dim.y - 1u || z == 0u || z == dim.z - 1u) {
        next[index] = 0u;
        return;
    }
    var num_neighbors: u32 = 0u;
    for (var k: u32 = 0u; k < 27u; k = k + 1u) {
        if (k != 13u) {
            num_neighbors = num_neighbors
                + current[cell_index(x - 1u + k % 3u, y - 1u + (k / 3u) % 3u, z - 1u + k / 9u)];
        }
    }
    let is_alive = current[index];
    var result: u32 = 0u;
    ";

/// The kernel text after the rule.
pub const KERNEL_TAIL: &'static str = "
    next[index] = select(0u, 1u, result != 0u);
}
";

/// The kernel source with `rule_text` as the body that decides a cell.
pub fn kernel_source(rule_text: &str) -> (r: String)
    ensures
        r@ == KERNEL_HEAD@ + rule_text@ + KERNEL_TAIL@,
{
    let mut out = String::from_str(KERNEL_HEAD);
    out.append(rule_text);
    out.append(KERNEL_TAIL);
    out
}

/// The kernel source for `rule`.
pub fn compile_kernel(rule: &Statement) -> (r: String)
    ensures
        r@ == KERNEL_HEAD@ + statement_text(*rule) + KERNEL_TAIL@,
{
    let text = rule.to_shader();
    kernel_source(text.as_str())
}

/// Compiling one rule twice gives the same text, for the rule and for the
/// whole kernel.
pub proof fn lemma_compile_stable(rule: Statement, first: Seq<char>, second: Seq<char>)
    requires
        first == KERNEL_HEAD@ + statement_text(rule) + KERNEL_TAIL@,
        second == KERNEL_HEAD@ + statement_text(rule) + KERNEL_TAIL@,
    ensures
        first == second,
        first.subrange(KERNEL_HEAD@.len() as int, first.len() - KERNEL_TAIL@.len())
            == statement_text(rule),
{
    assert(first.subrange(KERNEL_HEAD@.len() as int, first.len() - KERNEL_TAIL@.len())
        =~= statement_text(rule));
}

} // verus!
