//! Dockge: the count of compose stacks and of containers.

use crate::docker::DockerContainer;
use vstd::prelude::*;

verus! {

/// Stack and container counts for the Dockge card.
#[derive(Clone, Debug)]
pub struct DockgeStats {
    pub active_stacks: usize,
    pub total_containers: usize,
    pub running_containers: usize,
}

/// Computes the Dockge card.
#[derive(Clone, Copy, Debug)]
pub struct DockgeCollector;

/// How many of `s` are running.
pub open spec fn running_count(s: Seq<DockerContainer>) -> nat
    decreases s.len(),
{
    if s.len() == 0 {
        0
    } else {
        running_count(s.drop_last()) + if s.last().is_running {
            1nat
        } else {
            0nat
        }
    }
}

/// The number of stacks assumed when the stacks folder shows none (the
/// sentinel then runs in a container that cannot see it).
pub open spec fn fallback_stacks() -> nat {
    3
}

proof fn lemma_running_count_bounded(s: Seq<DockerContainer>)
    ensures
        running_count(s) <= s.len(),
    decreases s.len(),
{
    if s.len() > 0 {
        lemma_running_count_bounded(s.drop_last());
    }
}

impl DockgeCollector {
    /// The folder that holds the compose stacks, one directory each.
    pub fn stacks_path() -> (s: &'static str)
        ensures
            s@ == "/home/rh/stacks"@,
    {
        "/home/rh/stacks"
    }

    /// The card for `containers`, given how many stack directories were
    /// found (`stack_dirs`, 0 when the folder is missing or unreadable).
    pub fn collect(containers: &[DockerContainer], stack_dirs: usize) -> (s: DockgeStats)
        ensures
            s.total_containers == containers@.len(),
            s.running_containers == running_count(containers@),
            s.active_stacks == if stack_dirs == 0 {
                fallback_stacks()
            } else {
                stack_dirs as nat
            },
            s.running_containers <= s.total_containers,
            s.active_stacks >= 1,
    {
        proof {
            lemma_running_count_bounded(containers@);
        }
        let mut running: usize = 0;
        for i in 0..containers.len()
            invariant
                running == running_count(containers@.take(i as int)),
                running <= i,
        {
            proof {
                assert(containers@.take(i + 1).drop_last() =~= containers@.take(i as int));
            }
            if containers[i].is_running {
                running = running + 1;
            }
        }
        proof {
            assert(containers@.take(containers@.len() as int) =~= containers@);
        }
        let stacks = if stack_dirs == 0 {
            3
        } else {
            stack_dirs
        };
        DockgeStats {
            active_stacks: stacks,
            total_containers: containers.len(),
            running_containers: running,
        }
    }
}

} // verus!
