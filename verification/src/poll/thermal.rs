//! Which temperature sensors are the CPU's and the GPU's.

use vstd::prelude::*;
use crate::text::{contains, lowercase, str_contains, to_lowercase};

verus! {

/// A sensor whose lower-cased label mentions cpu or core.
pub open spec fn is_cpu_sensor(lower: Seq<char>) -> bool {
    contains(lower, "cpu"@) || contains(lower, "core"@)
}

/// A sensor whose lower-cased label mentions gpu, nvidia or amd.
pub open spec fn is_gpu_sensor(lower: Seq<char>) -> bool {
    contains(lower, "gpu"@) || contains(lower, "nvidia"@) || contains(lower, "amd"@)
}

/// The first sensor whose label, lower-cased, satisfies `cpu` (or the GPU
/// test when `cpu` is false).
pub open spec fn first_sensor(labels: Seq<String>, cpu: bool, i: int) -> bool {
    &&& 0 <= i < labels.len()
    &&& (if cpu { is_cpu_sensor(lowercase(labels[i]@)) } else { is_gpu_sensor(lowercase(labels[i]@)) })
    &&& forall|j: int|
        0 <= j < i ==> !(if cpu { is_cpu_sensor(lowercase(labels[j]@)) } else { is_gpu_sensor(lowercase(labels[j]@)) })
}

fn sensor_matches(label: &str, cpu: bool) -> (r: bool)
    ensures
        r == (if cpu { is_cpu_sensor(lowercase(label@)) } else { is_gpu_sensor(lowercase(label@)) }),
{
    let lower = to_lowercase(label);
    let l = lower.as_str();
    if cpu {
        str_contains(l, "cpu") || str_contains(l, "core")
    } else {
        str_contains(l, "gpu") || str_contains(l, "nvidia") || str_contains(l, "amd")
    }
}

/// The index of the CPU sensor (when `cpu`) or of the GPU sensor: the
/// first whose label matches.
pub fn find_sensor(labels: &Vec<String>, cpu: bool) -> (r: Option<usize>)
    ensures
        r matches Some(i) ==> first_sensor(labels@, cpu, i as int),
        r is None ==> forall|j: int|
            0 <= j < labels@.len() ==> !(if cpu { is_cpu_sensor(lowercase(labels@[j]@)) } else { is_gpu_sensor(lowercase(labels@[j]@)) }),
{
    let mut i: usize = 0;
    while i < labels.len()
        invariant
            i <= labels@.len(),
            forall|j: int|
                0 <= j < i ==> !(if cpu { is_cpu_sensor(lowercase(labels@[j]@)) } else { is_gpu_sensor(lowercase(labels@[j]@)) }),
        decreases labels@.len() - i,
    {
        if sensor_matches(labels[i].as_str(), cpu) {
            return Some(i);
        }
        i += 1;
    }
    None
}

} // verus!
