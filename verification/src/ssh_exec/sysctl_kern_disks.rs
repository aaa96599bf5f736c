//! `sysctl -n kern.disks`: the names of the disks, on one line.

use vstd::prelude::*;
use vstd::string::StrSliceExecFns;

use crate::text::{chars_of, split, split_bounds};

verus! {

/// The command line that prints the names.
pub fn command() -> (c: &'static str)
    ensures
        c@ == "/sbin/sysctl -n kern.disks"@,
{
    "/sbin/sysctl -n kern.disks"
}

/// The fields that are not empty, in order.
pub open spec fn nonempty(fields: Seq<Seq<char>>) -> Seq<Seq<char>>
    decreases fields.len(),
{
    if fields.len() == 0 {
        Seq::empty()
    } else {
        let front = nonempty(fields.drop_last());
        if fields.last().len() > 0 {
            front.push(fields.last())
        } else {
            front
        }
    }
}

/// The names that a line holds: what stands between its spaces.
pub open spec fn disk_names(line: Seq<char>) -> Seq<Seq<char>> {
    nonempty(split(line, ' '))
}

/// The views of a list of strings.
pub open spec fn views(list: Seq<String>) -> Seq<Seq<char>> {
    Seq::new(list.len(), |i: int| list[i]@)
}

/// The names of the disks, from the line that the command printed.
pub fn names(line: &str) -> (list: Vec<String>)
    ensures
        views(list@) == disk_names(line@),
{
    let chars: Vec<char> = chars_of(line);
    let bounds: Vec<(usize, usize)> = split_bounds(chars.as_slice(), ' ');
    let ghost fields = split(line@, ' ');
    let mut list: Vec<String> = Vec::new();
    let mut i: usize = 0;
    while i < bounds.len()
        invariant
            i <= bounds@.len(),
            chars@ == line@,
            fields == split(line@, ' '),
            bounds@.len() == fields.len(),
            forall|k: int|
                0 <= k < bounds@.len() ==> {
                    &&& (#[trigger] bounds@[k]).0 <= bounds@[k].1 <= line@.len()
                    &&& line@.subrange(bounds@[k].0 as int, bounds@[k].1 as int) == fields[k]
                },
            views(list@) == nonempty(fields.take(i as int)),
        decreases bounds@.len() - i,
    {
        assert(fields.take(i + 1).drop_last() =~= fields.take(i as int));
        let (a, b) = bounds[i];
        let ghost before = views(list@);
        if a < b {
            let name: String = line.substring_char(a, b).to_owned();
            list.push(name);
            assert(views(list@) =~= before.push(fields[i as int]));
        }
        i = i + 1;
    }
    assert(fields.take(i as int) =~= fields);
    list
}

} // verus!
