//! What sessions read of the solutions they belong to.
use crate::clock::Timestamp;
use crate::path::{is_under, lies_under};
use crate::text::same_text;
use vstd::prelude::*;
use vstd::string::*;

verus! {

/// A solution: a directory with member projects in it.
#[derive(Clone, Debug)]
pub struct Solution {
    pub id: String,
    pub root: String,
    /// Where the member projects are.
    pub member_paths: Vec<String>,
    /// When it was opened last, if ever.
    pub last_opened_at: Option<Timestamp>,
}

/// The position of the first solution with the given id.
pub open spec fn find_solution(solutions: Seq<Solution>, id: Seq<char>) -> Option<int>
    decreases solutions.len(),
{
    if solutions.len() == 0 {
        None
    } else {
        match find_solution(solutions.drop_last(), id) {
            Some(i) => Some(i),
            None => if solutions.last().id@ == id {
                Some(solutions.len() - 1)
            } else {
                None
            },
        }
    }
}

/// The position of the first solution with the given id.
pub fn position_of_solution(solutions: &Vec<Solution>, id: &str) -> (r: Option<usize>)
    ensures
        match r {
            Some(i) => i < solutions@.len() && find_solution(solutions@, id@) == Some(i as int),
            None => find_solution(solutions@, id@) is None,
        },
{
    let mut found: Option<usize> = None;
    let mut i: usize = 0;
    while i < solutions.len()
        invariant
            i <= solutions@.len(),
            match found {
                Some(k) => k < i && find_solution(solutions@.take(i as int), id@) == Some(k as int),
                None => find_solution(solutions@.take(i as int), id@) is None,
            },
        decreases solutions@.len() - i,
    {
        assert(solutions@.take(i as int + 1).drop_last() =~= solutions@.take(i as int));
        if found.is_none() && same_text(solutions[i].id.as_str(), id) {
            found = Some(i);
        }
        i += 1;
    }
    assert(solutions@.take(i as int) =~= solutions@);
    found
}

/// Whether the solution at `i` was opened at some time and none was opened
/// later, nor at the same time and comes after it.
pub open spec fn was_opened_last(solutions: Seq<Solution>, i: int) -> bool {
    &&& 0 <= i < solutions.len()
    &&& solutions[i].last_opened_at is Some
    &&& forall|k: int|
        0 <= k < solutions.len() && (#[trigger] solutions[k]).last_opened_at is Some ==> {
            let opened = solutions[i].last_opened_at->Some_0;
            let other = solutions[k].last_opened_at->Some_0;
            if k <= i {
                !opened.before(other)
            } else {
                other.before(opened)
            }
        }
}

/// The solution that hosts a task that names none: the one that holds the
/// directory at hand, or else the one that was opened last, or else the first.
/// There are no solutions to pick from where the store has not been set up.
pub fn pick_active_solution(
    for_directory: Option<usize>,
    solutions: Option<&Vec<Solution>>,
) -> (r: Result<usize, String>)
    ensures
        match solutions {
            None => r is Err && r->Err_0@ == "SolutionStore global is not initialised"@,
            Some(all) => match for_directory {
                Some(i) => r == Ok::<usize, String>(i),
                None => if all@.len() == 0 {
                    r is Err && r->Err_0@ == "no active Solution to host the ephemeral AI task"@
                } else if exists|k: int|
                    0 <= k < all@.len() && (#[trigger] all@[k]).last_opened_at is Some {
                    r is Ok && was_opened_last(all@, r->Ok_0 as int)
                } else {
                    r == Ok::<usize, String>(0)
                },
            },
        },
{
    let all = match solutions {
        Some(all) => all,
        None => {
            return Err("SolutionStore global is not initialised".to_owned());
        },
    };
    if let Some(i) = for_directory {
        return Ok(i);
    }
    let mut best: Option<usize> = None;
    let mut i: usize = 0;
    while i < all.len()
        invariant
            i <= all@.len(),
            match best {
                Some(b) => b < i && was_opened_last(all@.take(i as int), b as int),
                None => forall|k: int|
                    0 <= k < i ==> (#[trigger] all@[k]).last_opened_at is None,
            },
        decreases all@.len() - i,
    {
        let ghost shown = all@.take(i as int);
        let ghost next = all@.take(i as int + 1);
        assert(forall|k: int| 0 <= k < i ==> #[trigger] next[k] == shown[k]);
        assert(forall|k: int| 0 <= k < i ==> #[trigger] shown[k] == all@[k]);
        if let Some(opened) = all[i].last_opened_at {
            let later = match best {
                Some(b) => match all[b].last_opened_at {
                    Some(earlier) => {
                        assert(next[b as int] == shown[b as int]);
                        !opened.is_before(&earlier)
                    },
                    None => true,
                },
                None => true,
            };
            if later {
                best = Some(i);
            }
        }
        i += 1;
    }
    assert(all@.take(i as int) =~= all@);
    match best {
        Some(b) => Ok(b),
        None => {
            if all.len() == 0 {
                Err("no active Solution to host the ephemeral AI task".to_owned())
            } else {
                Ok(0)
            }
        },
    }
}

/// Whether one of the directories lies in `root`.
pub open spec fn backs(worktrees: Seq<Seq<char>>, root: Seq<char>) -> bool {
    exists|k: int| 0 <= k < worktrees.len() && lies_under(#[trigger] worktrees[k], root)
}

/// Whether one of the directories lies in `root`.
fn has_worktree_in(worktrees: &Vec<String>, root: &str) -> (r: bool)
    ensures
        r == backs(worktrees.deep_view(), root@),
{
    let ghost all = worktrees.deep_view();
    let mut i: usize = 0;
    while i < worktrees.len()
        invariant
            i <= worktrees@.len(),
            all == worktrees.deep_view(),
            forall|k: int| 0 <= k < i ==> !lies_under(#[trigger] all[k], root@),
        decreases worktrees@.len() - i,
    {
        assert(all[i as int] == worktrees@[i as int]@);
        if is_under(worktrees[i].as_str(), root) {
            return true;
        }
        i += 1;
    }
    false
}

/// The first open project at or behind `from` of which a visible directory lies in
/// `root`.
pub open spec fn first_backing(projects: Seq<Seq<Seq<char>>>, root: Seq<char>, from: int) -> Option<
    int,
>
    decreases projects.len() - from,
{
    if from >= projects.len() {
        None
    } else if backs(projects[from], root) {
        Some(from)
    } else {
        first_backing(projects, root, from + 1)
    }
}

/// The first open project of which a visible directory lies in the solution.
pub open spec fn active_project(
    solution_id: Seq<char>,
    solutions: Seq<Solution>,
    projects: Seq<Seq<Seq<char>>>,
) -> Option<int> {
    match find_solution(solutions, solution_id) {
        Some(s) => first_backing(projects, solutions[s].root@, 0),
        None => None,
    }
}

/// The first open project of which a visible directory lies in the solution.
/// `projects` holds the visible directories of each open project.
pub fn project_for_solution(
    solution_id: &str,
    solutions: &Vec<Solution>,
    projects: &Vec<Vec<String>>,
) -> (r: Option<usize>)
    ensures
        match r {
            Some(i) => i < projects@.len() && active_project(
                solution_id@,
                solutions@,
                projects.deep_view(),
            ) == Some(i as int),
            None => active_project(solution_id@, solutions@, projects.deep_view()) is None,
        },
{
    let solution = match position_of_solution(solutions, solution_id) {
        Some(i) => &solutions[i],
        None => {
            return None;
        },
    };
    let ghost all = projects.deep_view();
    let ghost root = solution.root@;
    let mut i: usize = 0;
    while i < projects.len()
        invariant
            i <= projects@.len(),
            all == projects.deep_view(),
            root == solution.root@,
            find_solution(solutions@, solution_id@) matches Some(s) && solutions@[s].root@ == root,
            first_backing(all, root, 0) == first_backing(all, root, i as int),
        decreases projects@.len() - i,
    {
        assert(all[i as int] == projects@[i as int].deep_view());
        if has_worktree_in(&projects[i], solution.root.as_str()) {
            return Some(i);
        }
        i += 1;
    }
    None
}

} // verus!
