use vstd::prelude::*;

use crate::text::chars_of;

verus! {

/// What a run is asked to do: the repository, the two executables to compare, extra
/// arguments handed to both, and which window of the tracked text files to compare.
#[derive(Clone, Debug)]
pub struct Args {
    pub git_work_tree: String,
    pub baseline_executable: String,
    pub comparison_executable: String,
    pub args: Option<String>,
    pub skip: Option<usize>,
    pub take: Option<usize>,
}

/// `base` extended by the relative path `name`, with a `/` between them unless
/// `base` is empty or already ends in one.
pub open spec fn path_join(base: Seq<char>, name: Seq<char>) -> Seq<char> {
    if base.len() == 0 || base.last() == '/' {
        base + name
    } else {
        base + seq!['/'] + name
    }
}

/// The smaller of `a` and `b`.
pub open spec fn min(a: int, b: int) -> int {
    if a <= b {
        a
    } else {
        b
    }
}

/// The half-open range of positions, among `count` files, that a run compares:
/// `skip` files are passed over (none if absent), and at most `take` are kept
/// (all if absent).
pub open spec fn window_of(count: nat, skip: Option<usize>, take: Option<usize>) -> (int, int) {
    let start = min(
        match skip {
            Some(s) => s as int,
            None => 0,
        },
        count as int,
    );
    let len = match take {
        Some(t) => t as int,
        None => count as int,
    };
    (start, min(start + len, count as int))
}

impl Args {
    /// The repository's metadata directory: `.git` inside the work tree.
    pub fn git_dir(&self) -> (r: String)
        ensures
            r@ == path_join(self.git_work_tree@, seq!['.', 'g', 'i', 't']),
    {
        let base = chars_of(self.git_work_tree.as_str());
        let mut r = self.git_work_tree.clone();
        proof {
            reveal_strlit("/");
            reveal_strlit(".git");
        }
        if base.len() > 0 && base[base.len() - 1] != '/' {
            r.append("/");
        }
        r.append(".git");
        assert(seq!['.', 'g', 'i', 't'] =~= ".git"@);
        r
    }

    /// The positions `start..end`, among `count` tracked text files, that this run compares.
    pub fn file_window(&self, count: usize) -> (r: (usize, usize))
        ensures
            r.0 as int == window_of(count as nat, self.skip, self.take).0,
            r.1 as int == window_of(count as nat, self.skip, self.take).1,
    {
        let skip = match self.skip {
            Some(s) => s,
            None => 0,
        };
        let start = if skip <= count {
            skip
        } else {
            count
        };
        let len = match self.take {
            Some(t) => t,
            None => count,
        };
        let end = if len <= count - start {
            start + len
        } else {
            count
        };
        (start, end)
    }
}

} // verus!
